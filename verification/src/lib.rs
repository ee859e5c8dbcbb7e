//! A verified parser for an INI-like configuration format.
//!
//! The format is line oriented: a line is blank, a comment (starting with
//! `;` or `#`), a section header `[name]`, or a key-value pair
//! `key = value` with an optional trailing inline comment.  Section and key
//! names are dotted identifiers; a value is a quoted string, a number, one
//! of the boolean literals `true`/`false`/`yes`/`no`, or a bare string.
//!
//! Parsing is all-or-nothing: the first line that does not match the
//! grammar aborts the whole parse with a [`IniError::SyntaxError`].  On
//! success the result is a [`Document`]: a map from section name to
//! [`Section`], which in turn maps key names to typed [`IniValue`]s.  The
//! default section, named by the empty string, is always present.

use vstd::prelude::*;

pub mod chars;
pub mod document;
pub mod error;
pub mod line;
pub mod parse;
pub mod value;

pub use document::{Document, Section};
pub use error::{IniError, SyntaxErrorKind};
pub use line::{parse_line, match_dotted_identifier, LineNode};
pub use parse::{parse_ini, IniParser};
pub use value::{resolve_value, IniValue, ValueToken};

verus! {

} // verus!
