//! The pattern table: which gesture sequence each spell requires.
//!
//! A gesture sequence is rendered as a comma-joined string of `left` /
//! `right` tokens; a spell succeeds exactly when the rendered string equals
//! the table entry for that spell, character for character.

use vstd::prelude::*;
use vstd::string::StringExecFns;
use crate::strutil::str_eq;

verus! {

/// The outcome of holding an actual gesture string against the table.
#[derive(Debug, PartialEq)]
pub struct PatternEvaluationResult {
    pub is_valid: bool,
    pub expected_pattern: String,
    pub actual_pattern: String,
    pub spell_type: String,
}

/// The table entry for a spell; the empty sequence for an unknown spell.
pub open spec fn spec_expected_pattern(spell: Seq<char>) -> Seq<char> {
    if spell == "FIRE"@ {
        "right,right,left"@
    } else if spell == "ICE"@ {
        "left,left"@
    } else if spell == "THUNDER"@ {
        "right,left,right,left"@
    } else if spell == "HEALING"@ {
        "left,right,left,right,left,right"@
    } else {
        Seq::empty()
    }
}

/// Exact-match judgement: the spell is known and the actual string equals
/// the expected one.
pub open spec fn spec_pattern_valid(spell: Seq<char>, pattern: Seq<char>) -> bool {
    spec_expected_pattern(spell).len() > 0 && pattern == spec_expected_pattern(spell)
}

/// Looks a spell up and judges an actual gesture string against it.
pub fn evaluate_pattern(spell_type: &str, pattern: &str) -> (r: PatternEvaluationResult)
    ensures
        r.spell_type@ == spell_type@,
        r.actual_pattern@ == pattern@,
        r.expected_pattern@ == spec_expected_pattern(spell_type@),
        r.is_valid == spec_pattern_valid(spell_type@, pattern@),
{
    let expected: &str = if str_eq(spell_type, "FIRE") {
        "right,right,left"
    } else if str_eq(spell_type, "ICE") {
        "left,left"
    } else if str_eq(spell_type, "THUNDER") {
        "right,left,right,left"
    } else if str_eq(spell_type, "HEALING") {
        "left,right,left,right,left,right"
    } else {
        ""
    };
    proof {
        reveal_strlit("");
        reveal_strlit("right,right,left");
        reveal_strlit("left,left");
        reveal_strlit("right,left,right,left");
        reveal_strlit("left,right,left,right,left,right");
    }
    let is_valid = !expected.is_empty() && str_eq(pattern, expected);
    PatternEvaluationResult {
        is_valid,
        expected_pattern: String::from_str(expected),
        actual_pattern: String::from_str(pattern),
        spell_type: String::from_str(spell_type),
    }
}

/// The spells the table knows, in table order.
pub fn get_available_spells() -> (r: Vec<&'static str>)
    ensures
        r@.len() == 4,
        r@[0]@ == "FIRE"@,
        r@[1]@ == "ICE"@,
        r@[2]@ == "THUNDER"@,
        r@[3]@ == "HEALING"@,
{
    let mut spells: Vec<&'static str> = Vec::new();
    spells.push("FIRE");
    spells.push("ICE");
    spells.push("THUNDER");
    spells.push("HEALING");
    spells
}

} // verus!
