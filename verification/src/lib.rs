//! An embeddable branching-dialogue engine.
//!
//! A dialogue is a flat script of typed lines: text, labels, jumps, menus,
//! variable assignments and conditional checks. The engine drives a cursor
//! through the script, resolves control flow, substitutes variables into
//! displayed text, and exposes one current line at a time to a host.
//!
//! Expression arithmetic is carried out by the host on 64-bit floats, which
//! the verified core cannot hold: the engine parks the cursor on a line that
//! needs an expression evaluated, hands the expression out through
//! [`Dialogue::pending`], and takes the host's answer back through
//! [`Dialogue::supply`]. [`expr_parts`] does the verified half of that work,
//! tokenizing an expression and validating its operator.

pub mod dialogue;
pub mod expr;
pub mod model;
pub mod render;
pub mod textops;

pub use dialogue::Dialogue;
pub use expr::expr_parts;
pub use model::check;
pub use model::end;
pub use model::jump;
pub use model::label;
pub use model::menu;
pub use model::text;
pub use model::variable;
pub use model::Line;
pub use model::LineType;
pub use textops::split;
