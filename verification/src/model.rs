//! The script line model: the closed set of line kinds, the line record,
//! and one constructor per kind.

use vstd::prelude::*;

verus! {

/// The kind of a line. It determines how the `info` and `cont` fields of a
/// [`Line`] are interpreted.
#[derive(Clone, Copy, Debug, PartialEq, Eq, Structural)]
pub enum LineType {
    /// The end of a dialogue.
    End,
    /// Text spoken in a dialogue; `info` is the speaker tag, `cont` the text.
    Text,
    /// A named position in a dialogue; `cont` is the label name.
    Label,
    /// A position change in a dialogue; `cont` is the target label name.
    Jump,
    /// A choice offered to the host; `info` holds the target label names and
    /// `cont` the choice texts, each list joined with `||`.
    Menu,
    /// A variable assignment; `info` is the variable name, `cont` a literal
    /// value or an expression.
    Variable,
    /// A conditional statement; `cont` is an expression that must come to
    /// exactly one for the following line to be shown.
    Check,
}

/// One authored line of a dialogue script.
#[derive(Clone, Debug)]
pub struct Line {
    /// How the other two fields are to be read.
    pub t: LineType,
    /// Information about the line; its meaning depends on the kind.
    pub info: String,
    /// The content of the line; its meaning depends on the kind.
    pub cont: String,
}

/// The ghost image of a [`Line`]: its kind and the character sequences of
/// its two text fields.
pub struct LineV {
    /// The kind of the line.
    pub t: LineType,
    /// The characters of the `info` field.
    pub info: Seq<char>,
    /// The characters of the `cont` field.
    pub cont: Seq<char>,
}

impl PartialEq for Line {
    fn eq(&self, other: &Line) -> (r: bool) {
        self.t == other.t && self.info == other.info && self.cont == other.cont
    }
}

impl vstd::std_specs::cmp::PartialEqSpecImpl for Line {
    open spec fn obeys_eq_spec() -> bool {
        true
    }

    open spec fn eq_spec(&self, other: &Line) -> bool {
        self.t == other.t && self.info@ == other.info@ && self.cont@ == other.cont@
    }
}

impl View for Line {
    type V = LineV;

    open spec fn view(&self) -> LineV {
        LineV { t: self.t, info: self.info@, cont: self.cont@ }
    }
}

impl DeepView for Line {
    type V = LineV;

    open spec fn deep_view(&self) -> LineV {
        self.view()
    }
}

/// Creates an end line.
pub fn end() -> (l: Line)
    ensures
        l@.t == LineType::End,
        l@.info == Seq::<char>::empty(),
        l@.cont == Seq::<char>::empty(),
{
    Line { t: LineType::End, info: String::new(), cont: String::new() }
}

/// Creates a text line.
pub fn text(info: &str, cont: &str) -> (l: Line)
    ensures
        l@.t == LineType::Text,
        l@.info == info@,
        l@.cont == cont@,
{
    Line { t: LineType::Text, info: info.to_owned(), cont: cont.to_owned() }
}

/// Creates a label line.
pub fn label(cont: &str) -> (l: Line)
    ensures
        l@.t == LineType::Label,
        l@.info == Seq::<char>::empty(),
        l@.cont == cont@,
{
    Line { t: LineType::Label, info: String::new(), cont: cont.to_owned() }
}

/// Creates a jump line.
pub fn jump(cont: &str) -> (l: Line)
    ensures
        l@.t == LineType::Jump,
        l@.info == Seq::<char>::empty(),
        l@.cont == cont@,
{
    Line { t: LineType::Jump, info: String::new(), cont: cont.to_owned() }
}

/// Creates a menu line.
pub fn menu(info: &str, cont: &str) -> (l: Line)
    ensures
        l@.t == LineType::Menu,
        l@.info == info@,
        l@.cont == cont@,
{
    Line { t: LineType::Menu, info: info.to_owned(), cont: cont.to_owned() }
}

/// Creates a variable line.
pub fn variable(info: &str, cont: &str) -> (l: Line)
    ensures
        l@.t == LineType::Variable,
        l@.info == info@,
        l@.cont == cont@,
{
    Line { t: LineType::Variable, info: info.to_owned(), cont: cont.to_owned() }
}

/// Creates a check line.
pub fn check(cont: &str) -> (l: Line)
    ensures
        l@.t == LineType::Check,
        l@.info == Seq::<char>::empty(),
        l@.cont == cont@,
{
    Line { t: LineType::Check, info: String::new(), cont: cont.to_owned() }
}

} // verus!
