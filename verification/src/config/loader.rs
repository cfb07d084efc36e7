//! Values of environment variables.
use vstd::prelude::*;

use crate::context_sync::text_option;
use crate::text::{text_eq, trim, trim_text, Trimmed};

verus! {

/// What a raw value stands for: its trimmed text, unless nothing is left of it.
pub open spec fn normalized(raw: Seq<char>) -> Option<Seq<char>> {
    if trim_text(raw, Trimmed::White).len() == 0 {
        None
    } else {
        Some(trim_text(raw, Trimmed::White))
    }
}

/// Reads values of environment variables.
#[derive(Clone, Copy, Debug)]
pub struct ConfigLoader;

impl ConfigLoader {
    /// A loader; the host sets the variables.
    pub fn load_from_env() -> (r: ConfigLoader)
        ensures
            r == ConfigLoader,
    {
        ConfigLoader
    }

    /// The value of a variable, given what the environment holds: a blank value
    /// counts as none.
    pub fn get(&self, raw: Option<String>) -> (r: Option<String>)
        ensures
            text_option(r) == (match raw {
                Some(s) => normalized(s@),
                None => None,
            }),
    {
        match raw {
            Some(s) => Self::normalize_value(s.as_str()),
            None => None,
        }
    }

    /// The trimmed text of a raw value, unless nothing is left of it.
    pub fn normalize_value(raw: &str) -> (r: Option<String>)
        ensures
            text_option(r) == normalized(raw@),
    {
        let trimmed = trim(raw, Trimmed::White);
        proof {
            reveal_strlit("");
            if trimmed@.len() == 0 {
                assert(trimmed@ =~= ""@);
            }
        }
        if text_eq(trimmed.as_str(), "") {
            None
        } else {
            Some(trimmed)
        }
    }
}

impl Default for ConfigLoader {
    fn default() -> (r: ConfigLoader)
        ensures
            r == ConfigLoader,
    {
        ConfigLoader
    }
}

/// A value that is given neither begins nor ends with white space and is not empty.
pub proof fn normalized_value_is_trimmed(raw: Seq<char>)
    requires
        normalized(raw) is Some,
    ensures
        normalized(raw)->0.len() > 0,
        !crate::text::is_white_space(normalized(raw)->0[0]),
        !crate::text::is_white_space(normalized(raw)->0.last()),
{
    crate::text::trimmed_sides(raw, Trimmed::White);
}

/// A raw value stands for a text exactly where it is that text with white space around it
/// and the text neither begins nor ends with any; it stands for nothing exactly where it is
/// white space alone.
pub proof fn value_is_what_stands_between_white_space(
    left: Seq<char>,
    value: Seq<char>,
    right: Seq<char>,
)
    requires
        forall|i: int| 0 <= i < left.len() ==> crate::text::is_white_space(#[trigger] left[i]),
        forall|i: int| 0 <= i < right.len() ==> crate::text::is_white_space(#[trigger] right[i]),
    ensures
        value.len() > 0 && !crate::text::is_white_space(value[0]) && !crate::text::is_white_space(
            value.last(),
        ) ==> normalized(left + value + right) == Some(value),
        normalized(left) is None,
{
    assert forall|i: int| 0 <= i < left.len() implies Trimmed::White.has(#[trigger] left[i]) by {
        assert(crate::text::is_white_space(left[i]));
    }
    assert forall|i: int| 0 <= i < right.len() implies Trimmed::White.has(#[trigger] right[i]) by {
        assert(crate::text::is_white_space(right[i]));
    }
    crate::text::trimming_leaves_the_middle(left, value, right, Trimmed::White);
    crate::text::trimming_leaves_the_middle(Seq::empty(), left, Seq::empty(), Trimmed::White);
}

} // verus!
