//! The two closed-variant descriptors attached to every help row: whether
//! the row's names get dash prefixes, and what kind of parameter it takes.

use vstd::prelude::*;
use vstd::string::StrSliceExecFns;

verus! {

/// Dash status of a command row: `YES` renders the names with `-`/`--`
/// prefixes, `NO` pads them with blanks of the same width instead.
#[allow(non_camel_case_types)]
#[derive(Clone)]
pub enum DASHED {
    YES,
    NO,
}

impl Default for DASHED {
    fn default() -> (r: Self)
        ensures
            r == DASHED::YES,
    {
        DASHED::YES
    }
}

/// Parameter of a command row: none, an optional one (rendered in square
/// brackets) or a required one (rendered in angle brackets). The parameter
/// text is owned by the row.
#[allow(non_camel_case_types)]
#[derive(Clone)]
pub enum Parameter {
    REQUIRED(String),
    OPTIONAL(String),
    NO,
}

/// Character count of the parameter text; zero when there is none.
pub open spec fn display_length(p: Parameter) -> nat {
    match p {
        Parameter::REQUIRED(s) => s@.len(),
        Parameter::OPTIONAL(s) => s@.len(),
        Parameter::NO => 0,
    }
}

impl Parameter {
    /// Length, in characters, that the parameter text contributes to its
    /// column before bracket decoration.
    pub fn get_len(&self) -> (r: usize)
        ensures
            r as nat == display_length(*self),
    {
        match self {
            Parameter::OPTIONAL(value) => value.as_str().unicode_len(),
            Parameter::REQUIRED(value) => value.as_str().unicode_len(),
            Parameter::NO => 0,
        }
    }
}

impl Default for Parameter {
    fn default() -> (r: Self)
        ensures
            r == Parameter::NO,
    {
        Parameter::NO
    }
}

} // verus!
