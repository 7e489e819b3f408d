//! The dialogue state machine: the script, the label index, the variable
//! store and the cursor, with advancement, branching, jumps and menus.
//!
//! After every cursor move the machine resolves transparent lines: a label
//! is stepped over, a jump relocates the cursor to its target label (or
//! steps over the jump when the target is unknown). Resolution stops on a
//! line the host must look at (text, menu, the end marker) or on a line that
//! needs an expression evaluated (a variable assignment or a check). For the
//! latter the host reads the expression through [`Dialogue::pending`],
//! evaluates it on 64-bit floats, and answers through [`Dialogue::supply`];
//! the machine then applies the assignment or the check and resolves on.
//! Resolution is bounded by one fuel unit per script line, so a script whose
//! labels and jumps chase each other in a circle parks the cursor instead of
//! hanging.

use vstd::prelude::*;

use crate::model::end;
use crate::model::Line;
use crate::model::LineType;
use crate::model::LineV;
use crate::render::lemma_store_push;
use crate::render::render_from;
use crate::render::render_str;
use crate::render::store_get;
use crate::render::store_map;
use crate::render::store_view;
use crate::render::str_eq;
use crate::textops::split;
use crate::textops::split_from;
use crate::textops::split_pat;
use crate::textops::trim_spec;
use vstd::pervasive::unreached;

verus! {

/// The entries of the label index for a script: the name and position of
/// each label line, in script order.
pub open spec fn label_entries(lines: Seq<LineV>) -> Seq<(Seq<char>, int)>
    decreases lines.len(),
{
    if lines.len() == 0 {
        Seq::empty()
    } else {
        label_entries(lines.drop_last()) + if lines.last().t == LineType::Label {
            seq![(lines.last().cont, lines.len() - 1 as int)]
        } else {
            Seq::empty()
        }
    }
}

/// The position an entry list resolves a name to: the latest entry bearing
/// the name wins, as in an index built by a forward scan that overwrites.
pub open spec fn entries_lookup(es: Seq<(Seq<char>, int)>, name: Seq<char>) -> Option<int>
    decreases es.len(),
{
    if es.len() == 0 {
        None
    } else if es.last().0 == name {
        Some(es.last().1)
    } else {
        entries_lookup(es.drop_last(), name)
    }
}

/// The position the script resolves a label name to: that of the last label
/// line bearing the name, when there is one.
pub open spec fn find_label(lines: Seq<LineV>, name: Seq<char>) -> Option<int> {
    entries_lookup(label_entries(lines), name)
}

pub(crate) proof fn lemma_label_entries_valid(lines: Seq<LineV>)
    ensures
        forall|j: int|
            0 <= j < label_entries(lines).len() ==> {
                let e = #[trigger] label_entries(lines)[j];
                0 <= e.1 < lines.len() && lines[e.1].t == LineType::Label && lines[e.1].cont == e.0
            },
    decreases lines.len(),
{
    if lines.len() > 0 {
        lemma_label_entries_valid(lines.drop_last());
    }
}

pub(crate) proof fn lemma_entries_lookup_valid(es: Seq<(Seq<char>, int)>, name: Seq<char>)
    ensures
        entries_lookup(es, name) is Some ==> exists|j: int|
            0 <= j < es.len() && (#[trigger] es[j]).0 == name && es[j].1 == entries_lookup(
                es,
                name,
            )->0,
    decreases es.len(),
{
    if es.len() > 0 && es.last().0 != name {
        lemma_entries_lookup_valid(es.drop_last(), name);
    }
}

/// A label name resolves, when it resolves at all, to the position of a
/// label line within the script that bears the name.
pub(crate) proof fn lemma_find_label_in_bounds(lines: Seq<LineV>, name: Seq<char>)
    ensures
        find_label(lines, name) is Some ==> {
            let p = find_label(lines, name)->0;
            0 <= p < lines.len() && lines[p].t == LineType::Label && lines[p].cont == name
        },
{
    lemma_label_entries_valid(lines);
    lemma_entries_lookup_valid(label_entries(lines), name);
}

/// Where a jump line at `idx` sends the cursor: to its target label when the
/// label index knows the name, just past the jump otherwise.
pub open spec fn jump_dest(lines: Seq<LineV>, idx: int) -> int {
    match find_label(lines, lines[idx].cont) {
        Some(p) => p,
        None => idx + 1,
    }
}

/// The resolution procedure on its transparent kinds: from `idx`, step over
/// labels and follow jumps until a line of another kind is reached or the
/// fuel is spent.
pub open spec fn settle_rec(lines: Seq<LineV>, idx: int, fuel: nat) -> int
    decreases fuel,
{
    if fuel == 0 || !(0 <= idx < lines.len()) {
        idx
    } else if lines[idx].t == LineType::Label {
        settle_rec(lines, idx + 1, (fuel - 1) as nat)
    } else if lines[idx].t == LineType::Jump {
        settle_rec(lines, jump_dest(lines, idx), (fuel - 1) as nat)
    } else {
        idx
    }
}

/// `i` moved `k` steps forward, clamped to the last valid position of a
/// script of length `len`.
pub open spec fn clamped(len: int, i: int, k: int) -> int {
    if i + k <= len - 1 {
        i + k
    } else {
        len - 1
    }
}

/// Whether the host's answer to a check expression counts as passing: the
/// evaluation produced exactly one, whose decimal form is the single
/// character `1`.
pub open spec fn check_passes(result: Option<String>) -> bool {
    result is Some && result->0@ == seq!['1']
}

/// Whether `s` is the single character `1`.
fn is_one(s: &str) -> (r: bool)
    ensures
        r == (s@ == seq!['1']),
{
    if s.unicode_len() == 1 {
        let c = s.get_char(0);
        if c == '1' {
            assert(s@ =~= seq!['1']);
            true
        } else {
            assert(s@[0] != seq!['1'][0]);
            false
        }
    } else {
        false
    }
}

/// Builds the label index of a script by a single forward scan.
fn build_labels(ls: &Vec<Line>) -> (r: Vec<(String, usize)>)
    ensures
        index_view(r@) == label_entries(ls.deep_view()),
{
    let mut out: Vec<(String, usize)> = Vec::new();
    let n = ls.len();
    let mut i: usize = 0;
    while i < n
        invariant
            0 <= i <= n,
            n == ls@.len(),
            ls.deep_view().len() == n,
            index_view(out@) == label_entries(ls.deep_view().take(i as int)),
        decreases n - i,
    {
        let ghost pre = index_view(out@);
        if ls[i].t == LineType::Label {
            out.push((ls[i].cont.clone(), i));
        }
        proof {
            assert(ls.deep_view().take(i + 1).drop_last() =~= ls.deep_view().take(i as int));
            assert(ls.deep_view().take(i + 1).last() == ls.deep_view()[i as int]);
            assert(index_view(out@) =~= label_entries(ls.deep_view().take(i + 1)));
        }
        i = i + 1;
    }
    proof {
        assert(ls.deep_view().take(n as int) =~= ls.deep_view());
    }
    out
}

/// The ghost image of a label index: each entry's name and position.
pub open spec fn index_view(ls: Seq<(String, usize)>) -> Seq<(Seq<char>, int)> {
    Seq::new(ls.len(), |j: int| (ls[j].0@, ls[j].1 as int))
}

/// A dialogue: a script of lines closed by an end marker, the label index
/// built from it, a persistent variable store, and the cursor.
#[derive(Clone, Debug)]
pub struct Dialogue {
    idx: usize,
    lines: Vec<Line>,
    labels: Vec<(String, usize)>,
    vars: Vec<(String, String)>,
}

impl Dialogue {
    /// The script as a sequence of line images.
    pub closed spec fn script(self) -> Seq<LineV> {
        self.lines.deep_view()
    }

    /// The label index as a sequence of name and position entries.
    pub closed spec fn labels_view(self) -> Seq<(Seq<char>, int)> {
        index_view(self.labels@)
    }

    /// The variable store as a sequence of name and value bindings.
    pub closed spec fn store(self) -> Seq<(Seq<char>, Seq<char>)> {
        store_view(self.vars@)
    }

    /// The variable store as a map from name to current value.
    pub open spec fn vars_map(self) -> Map<Seq<char>, Seq<char>> {
        store_map(self.store())
    }

    /// The cursor position.
    pub closed spec fn cursor(self) -> int {
        self.idx as int
    }

    /// The image of the line under the cursor.
    pub open spec fn cur(self) -> LineV {
        self.script()[self.cursor()]
    }

    /// The target labels of the line under the cursor: its raw `info` field
    /// split on the separator.
    pub open spec fn menu_targets(self) -> Seq<Seq<char>> {
        split_from(trim_spec(self.cur().info), split_pat(), 0)
    }

    /// Well-formedness: the script is closed by an end marker, the cursor
    /// sits on a script line, and the label index is exactly the one a
    /// forward scan of the script builds.
    pub open spec fn wf(self) -> bool {
        &&& 1 <= self.script().len()
        &&& 0 <= self.cursor() < self.script().len()
        &&& self.script().last().t == LineType::End
        &&& self.labels_view() == label_entries(self.script())
    }

    /// Creates a dialogue: appends the end marker, builds the label index,
    /// starts with an empty variable store and the cursor at the script
    /// head, and resolves transparent lines once.
    pub fn new(lines: Vec<Line>) -> (d: Dialogue)
        ensures
            d.wf(),
            d.script().len() == lines@.len() + 1,
            forall|i: int| 0 <= i < lines@.len() ==> d.script()[i] == lines.deep_view()[i],
            d.script().last().t == LineType::End,
            d.script().last().info == Seq::<char>::empty(),
            d.script().last().cont == Seq::<char>::empty(),
            d.vars_map() == Map::<Seq<char>, Seq<char>>::empty(),
            d.cursor() == settle_rec(d.script(), 0, d.script().len() as nat),
    {
        let mut ls = lines;
        ls.push(end());
        let labels = build_labels(&ls);
        let mut d = Dialogue { idx: 0, lines: ls, labels, vars: Vec::new() };
        proof {
            assert(d.script().last() == d.lines@.last()@);
            assert(d.vars_map() =~= Map::<Seq<char>, Seq<char>>::empty());
        }
        d.settle();
        d
    }

    /// Resolves a label name to its position through the label index.
    fn lookup_label(&self, name: &str) -> (r: Option<usize>)
        requires
            self.wf(),
        ensures
            r is Some <==> find_label(self.script(), name@) is Some,
            r is Some ==> r->0 as int == find_label(self.script(), name@)->0,
    {
        let ghost es = self.labels_view();
        let mut k = self.labels.len();
        proof {
            assert(es.take(self.labels@.len() as int) =~= es);
        }
        loop
            invariant
                self.wf(),
                0 <= k <= self.labels@.len(),
                es == self.labels_view(),
                es.len() == self.labels@.len(),
                entries_lookup(es, name@) == entries_lookup(es.take(k as int), name@),
            ensures
                entries_lookup(self.labels_view(), name@) is None,
            decreases k,
        {
            if k == 0 {
                assert(es.take(0) =~= Seq::<(Seq<char>, int)>::empty());
                break ;
            }
            k = k - 1;
            proof {
                assert(es.take(k + 1).last() == es[k as int]);
                assert(es.take(k + 1).drop_last() =~= es.take(k as int));
            }
            if str_eq(self.labels[k].0.as_str(), name) {
                proof {
                    assert(es.take(k + 1).last().0 == name@);
                    assert(entries_lookup(es, name@) == Some(es[k as int].1));
                    assert(es == label_entries(self.script()));
                    assert(find_label(self.script(), name@) == entries_lookup(es, name@));
                    assert(es[k as int].1 == self.labels@[k as int].1 as int);
                }
                return Some(self.labels[k].1);
            }
        }
        None
    }

    /// Whether the script knows a label of this name, as [`Dialogue::jump`]
    /// and [`Dialogue::select`] presume.
    pub fn has_label(&self, name: &str) -> (r: bool)
        requires
            self.wf(),
        ensures
            r == (find_label(self.script(), name@) is Some),
    {
        self.lookup_label(name).is_some()
    }

    /// Steps over labels and follows jumps until the cursor rests on a line
    /// of another kind, spending one fuel unit per step so that circular
    /// jump chains stop instead of hanging.
    fn settle(&mut self)
        requires
            old(self).wf(),
        ensures
            final(self).wf(),
            final(self).script() == old(self).script(),
            final(self).store() == old(self).store(),
            final(self).cursor() == settle_rec(
                old(self).script(),
                old(self).cursor(),
                old(self).script().len() as nat,
            ),
    {
        let ghost s = self.script();
        let ghost i0 = self.cursor();
        let len = self.lines.len();
        let mut fuel: usize = len;
        loop
            invariant
                self.wf(),
                self.lines@ == old(self).lines@,
                self.labels@ == old(self).labels@,
                self.vars@ == old(self).vars@,
                s == self.script(),
                len == s.len(),
                fuel <= len,
                settle_rec(s, i0, len as nat) == settle_rec(s, self.cursor(), fuel as nat),
            ensures
                self.wf(),
                self.lines@ == old(self).lines@,
                self.labels@ == old(self).labels@,
                self.vars@ == old(self).vars@,
                settle_rec(s, i0, len as nat) == self.cursor(),
            decreases fuel,
        {
            if fuel == 0 {
                break ;
            }
            let t = self.lines[self.idx].t;
            if t == LineType::Label {
                assert(self.cursor() != len - 1);
                self.idx = self.idx + 1;
                fuel = fuel - 1;
            } else if t == LineType::Jump {
                let name = self.lines[self.idx].cont.clone();
                let dest = self.lookup_label(name.as_str());
                proof {
                    lemma_find_label_in_bounds(s, name@);
                }
                match dest {
                    Some(p) => {
                        self.idx = p;
                    },
                    None => {
                        assert(self.cursor() != len - 1);
                        self.idx = self.idx + 1;
                    },
                }
                fuel = fuel - 1;
            } else {
                break ;
            }
        }
    }

    /// Whether the current line is the end marker.
    pub fn has_end(&self) -> (r: bool)
        requires
            self.wf(),
        ensures
            r == (self.cur().t == LineType::End),
    {
        self.lines[self.idx].t == LineType::End
    }

    /// Whether the current line is a menu.
    pub fn has_menu(&self) -> (r: bool)
        requires
            self.wf(),
        ensures
            r == (self.cur().t == LineType::Menu),
    {
        self.lines[self.idx].t == LineType::Menu
    }

    /// Puts the cursor back on the script head. The line there is shown as
    /// it stands: resolution runs on the next step.
    pub fn reset(&mut self)
        requires
            old(self).wf(),
        ensures
            final(self).wf(),
            final(self).script() == old(self).script(),
            final(self).store() == old(self).store(),
            final(self).cursor() == 0,
    {
        self.idx = 0;
    }

    /// Replaces the script: the cursor returns to the head and the label
    /// index is rebuilt from the new lines, but the variable store persists.
    pub fn change(&mut self, lines: Vec<Line>)
        requires
            old(self).wf(),
        ensures
            final(self).wf(),
            final(self).script().len() == lines@.len() + 1,
            forall|i: int| 0 <= i < lines@.len() ==> final(self).script()[i] == lines.deep_view()[i],
            final(self).script().last().t == LineType::End,
            final(self).cursor() == 0,
            final(self).store() == old(self).store(),
            final(self).vars_map() == old(self).vars_map(),
    {
        self.idx = 0;
        let mut ls = lines;
        ls.push(end());
        self.labels = build_labels(&ls);
        self.lines = ls;
        proof {
            assert(self.script().last() == self.lines@.last()@);
        }
    }

    /// The current line with variable substitutions applied to its fields: a
    /// detached copy, leaving the stored line as authored.
    pub fn line(&self) -> (l: Line)
        requires
            self.wf(),
        ensures
            l@.t == self.cur().t,
            l@.info == render_from(self.cur().info, self.vars_map(), 0),
            l@.cont == render_from(self.cur().cont, self.vars_map(), 0),
    {
        let cur = &self.lines[self.idx];
        Line {
            t: cur.t,
            info: render_str(cur.info.as_str(), &self.vars),
            cont: render_str(cur.cont.as_str(), &self.vars),
        }
    }

    /// The expression the machine waits on: the interpolated `cont` of the
    /// current line when that line is a variable assignment or a check,
    /// nothing otherwise. The host evaluates it and answers through
    /// [`Dialogue::supply`].
    pub fn pending(&self) -> (r: Option<String>)
        requires
            self.wf(),
        ensures
            r is Some <==> (self.cur().t == LineType::Variable || self.cur().t == LineType::Check),
            r is Some ==> r->0@ == render_from(self.cur().cont, self.vars_map(), 0),
    {
        let t = self.lines[self.idx].t;
        if t == LineType::Variable || t == LineType::Check {
            Some(render_str(self.lines[self.idx].cont.as_str(), &self.vars))
        } else {
            None
        }
    }

    /// Hands the machine the host's evaluation of the pending expression:
    /// the decimal form of the value when the expression was valid, nothing
    /// otherwise.
    ///
    /// On a variable line the interpolated name is bound to the value, or to
    /// the interpolated raw `cont` when the expression was invalid. On a
    /// check line a value of exactly one lets the cursor step to the next
    /// line; any other outcome skips that line, clamped to the end marker.
    /// Either way resolution then runs again.
    pub fn supply(&mut self, result: Option<String>)
        requires
            old(self).wf(),
            old(self).cur().t == LineType::Variable || old(self).cur().t == LineType::Check,
        ensures
            final(self).wf(),
            final(self).script() == old(self).script(),
            old(self).cur().t == LineType::Variable ==> final(self).vars_map() == old(
                self,
            ).vars_map().insert(
                render_from(old(self).cur().info, old(self).vars_map(), 0),
                if result is Some {
                    result->0@
                } else {
                    render_from(old(self).cur().cont, old(self).vars_map(), 0)
                },
            ),
            old(self).cur().t == LineType::Variable ==> final(self).cursor() == settle_rec(
                old(self).script(),
                old(self).cursor() + 1,
                old(self).script().len() as nat,
            ),
            old(self).cur().t == LineType::Check ==> final(self).store() == old(self).store(),
            old(self).cur().t == LineType::Check ==> final(self).cursor() == settle_rec(
                old(self).script(),
                if check_passes(result) {
                    old(self).cursor() + 1
                } else {
                    clamped(old(self).script().len() as int, old(self).cursor(), 2)
                },
                old(self).script().len() as nat,
            ),
    {
        let len = self.lines.len();
        let t = self.lines[self.idx].t;
        if t == LineType::Variable {
            let name = render_str(self.lines[self.idx].info.as_str(), &self.vars);
            let val = match result {
                Some(s) => s,
                None => render_str(self.lines[self.idx].cont.as_str(), &self.vars),
            };
            let ghost pre = self.store();
            self.vars.push((name, val));
            proof {
                assert(self.store() =~= pre.push((self.vars@.last().0@, self.vars@.last().1@)));
                lemma_store_push(pre, self.vars@.last().0@, self.vars@.last().1@);
            }
            assert(self.cursor() != len - 1);
            self.idx = self.idx + 1;
        } else {
            let passes = match &result {
                Some(s) => is_one(s.as_str()),
                None => false,
            };
            if passes {
                assert(self.cursor() != len - 1);
                self.idx = self.idx + 1;
            } else {
                if len - 1 - self.idx >= 2 {
                    self.idx = self.idx + 2;
                } else {
                    self.idx = len - 1;
                }
            }
        }
        self.settle();
    }

    /// Advances the cursor by one line, clamped to the end marker, and
    /// resolves transparent lines.
    pub fn next(&mut self)
        requires
            old(self).wf(),
        ensures
            final(self).wf(),
            final(self).script() == old(self).script(),
            final(self).store() == old(self).store(),
            final(self).cursor() == settle_rec(
                old(self).script(),
                clamped(old(self).script().len() as int, old(self).cursor(), 1),
                old(self).script().len() as nat,
            ),
    {
        let len = self.lines.len();
        if len - 1 - self.idx >= 1 {
            self.idx = self.idx + 1;
        }
        self.settle();
    }

    /// Relocates the cursor to the position of the named label and resolves
    /// onward from there. The label must exist: a host-initiated jump with
    /// an unknown name is a contract violation, not authored-script
    /// leniency.
    pub fn jump(&mut self, label: &str)
        requires
            old(self).wf(),
            find_label(old(self).script(), label@) is Some,
        ensures
            final(self).wf(),
            final(self).script() == old(self).script(),
            final(self).store() == old(self).store(),
            final(self).cursor() == settle_rec(
                old(self).script(),
                find_label(old(self).script(), label@)->0,
                old(self).script().len() as nat,
            ),
    {
        let dest = self.lookup_label(label);
        proof {
            lemma_find_label_in_bounds(self.script(), label@);
        }
        match dest {
            Some(p) => {
                self.idx = p;
            },
            None => {
                unreached()
            },
        }
        self.settle();
    }

    /// The choice texts of the current line: its interpolated `cont` split
    /// on the separator.
    pub fn choices(&self) -> (r: Vec<String>)
        requires
            self.wf(),
        ensures
            r.deep_view() == split_from(
                trim_spec(render_from(self.cur().cont, self.vars_map(), 0)),
                split_pat(),
                0,
            ),
    {
        let l = self.line();
        split(l.cont.as_str())
    }

    /// Takes the choice at `index`: jumps to the label named at the same
    /// position of the current line's raw target list. The index must name a
    /// target and the target label must exist, as with [`Dialogue::jump`].
    pub fn select(&mut self, index: usize)
        requires
            old(self).wf(),
            index < old(self).menu_targets().len(),
            find_label(old(self).script(), old(self).menu_targets()[index as int]) is Some,
        ensures
            final(self).wf(),
            final(self).script() == old(self).script(),
            final(self).store() == old(self).store(),
            final(self).cursor() == settle_rec(
                old(self).script(),
                find_label(old(self).script(), old(self).menu_targets()[index as int])->0,
                old(self).script().len() as nat,
            ),
    {
        let targets = split(self.lines[self.idx].info.as_str());
        assert(targets.deep_view() == self.menu_targets());
        assert(targets@[index as int]@ == self.menu_targets()[index as int]);
        let name = targets[index].clone();
        self.jump(name.as_str());
    }

    /// Binds a variable directly, as a variable line would.
    pub fn set_var(&mut self, name: &str, value: &str)
        requires
            old(self).wf(),
        ensures
            final(self).wf(),
            final(self).script() == old(self).script(),
            final(self).cursor() == old(self).cursor(),
            final(self).vars_map() == old(self).vars_map().insert(name@, value@),
    {
        let ghost pre = self.store();
        self.vars.push((name.to_owned(), value.to_owned()));
        proof {
            assert(self.store() =~= pre.push((self.vars@.last().0@, self.vars@.last().1@)));
            lemma_store_push(pre, self.vars@.last().0@, self.vars@.last().1@);
        }
    }

    /// The current value of a variable, when one of this name is bound.
    pub fn get_var(&self, name: &str) -> (r: Option<String>)
        requires
            self.wf(),
        ensures
            r is Some <==> self.vars_map().contains_key(name@),
            r is Some ==> r->0@ == self.vars_map()[name@],
    {
        store_get(&self.vars, name)
    }
}

/// Whether resolution has come to rest at `r`: outside the script, or on a
/// line that is neither a label nor a jump.
pub open spec fn settled(lines: Seq<LineV>, r: int) -> bool {
    !(0 <= r < lines.len()) || (lines[r].t != LineType::Label && lines[r].t != LineType::Jump)
}

/// Spending more fuel cannot change a resolution that has settled: the bound
/// of one fuel unit per script line only cuts short chains that revisit a
/// position, and those would never settle.
pub proof fn lemma_settle_fuel_monotone(lines: Seq<LineV>, idx: int, fuel: nat, more: nat)
    requires
        fuel <= more,
        settled(lines, settle_rec(lines, idx, fuel)),
    ensures
        settle_rec(lines, idx, more) == settle_rec(lines, idx, fuel),
    decreases fuel,
{
    if fuel == 0 || !(0 <= idx < lines.len()) {
    } else if lines[idx].t == LineType::Label {
        lemma_settle_fuel_monotone(lines, idx + 1, (fuel - 1) as nat, (more - 1) as nat);
    } else if lines[idx].t == LineType::Jump {
        lemma_settle_fuel_monotone(lines, jump_dest(lines, idx), (fuel - 1) as nat, (more - 1) as nat);
    }
}

/// Labels are transparent: in a script without jump lines, resolution never
/// leaves the cursor on a label line, so the host never observes one. (With
/// jump lines the script can chase its own tail and exhaust the fuel; a
/// circular script of labels and jumps is the one input this leaves out.)
pub proof fn lemma_labels_transparent(lines: Seq<LineV>, idx: int, fuel: nat)
    requires
        lines.len() >= 1,
        lines.last().t == LineType::End,
        0 <= idx < lines.len(),
        forall|k: int| 0 <= k < lines.len() ==> (#[trigger] lines[k].t) != LineType::Jump,
        fuel >= lines.len() - idx,
    ensures
        0 <= settle_rec(lines, idx, fuel) < lines.len(),
        lines[settle_rec(lines, idx, fuel)].t != LineType::Label,
        lines[settle_rec(lines, idx, fuel)].t != LineType::Jump,
    decreases fuel,
{
    if lines[idx].t == LineType::Label {
        assert(idx != lines.len() - 1);
        lemma_labels_transparent(lines, idx + 1, (fuel - 1) as nat);
    }
}

/// A jump line resolves onward from its target when the target label exists,
/// and from the line after the jump when it does not: an unresolvable jump
/// is a silent fall-through, not an error.
pub proof fn lemma_jump_resolution(lines: Seq<LineV>, idx: int, fuel: nat)
    requires
        0 <= idx < lines.len(),
        lines[idx].t == LineType::Jump,
        fuel >= 1,
    ensures
        settle_rec(lines, idx, fuel) == settle_rec(lines, jump_dest(lines, idx), (fuel - 1) as nat),
        find_label(lines, lines[idx].cont) is Some ==> jump_dest(lines, idx) == find_label(
            lines,
            lines[idx].cont,
        )->0,
        find_label(lines, lines[idx].cont) is None ==> jump_dest(lines, idx) == idx + 1,
{
}

/// Reading the current line is pure: any two lines that satisfy the
/// contract of [`Dialogue::line`] against the same dialogue state agree, so
/// repeated reads without a step between them return equal values.
pub proof fn lemma_line_deterministic(d: Dialogue, a: Line, b: Line)
    requires
        a@.t == d.cur().t,
        a@.info == render_from(d.cur().info, d.vars_map(), 0),
        a@.cont == render_from(d.cur().cont, d.vars_map(), 0),
        b@.t == d.cur().t,
        b@.info == render_from(d.cur().info, d.vars_map(), 0),
        b@.cont == render_from(d.cur().cont, d.vars_map(), 0),
    ensures
        a@.t == b@.t,
        a@.info == b@.info,
        a@.cont == b@.cont,
{
}

} // verus!
