//! Card-ability conditions: the data a card definition states, and the
//! integer comparison its operators name.

use vstd::prelude::*;
use vstd::string::StrSliceExecFns;

verus! {

/// A condition as a card definition states it: which quantity to test,
/// with which operator, against which operand.
#[derive(PartialEq, Eq, Debug)]
pub struct Condition {
    pub condition: Option<String>,
    pub operator: Option<String>,
    pub string: Option<String>,
    pub bool_operand: Option<bool>,
    pub int_operand: Option<i32>,
}

/// What each operator name means on integers; an unknown name holds of
/// nothing.
pub open spec fn spec_compare_ints(op: Seq<char>, left: int, right: int) -> bool {
    if op == "equal"@ {
        left == right
    } else if op == "not_equal"@ {
        left != right
    } else if op == "greater_than"@ {
        left > right
    } else if op == "less_than"@ {
        left < right
    } else if op == "greater_than_or_equal_to"@ {
        left >= right
    } else if op == "less_than_or_equal_to"@ {
        left <= right
    } else {
        false
    }
}

/// Whether two string slices hold the same characters.
fn str_eq(a: &str, b: &str) -> (r: bool)
    ensures
        r == (a@ == b@),
{
    let a_len = a.unicode_len();
    let b_len = b.unicode_len();
    if a_len != b_len {
        return false;
    }
    let mut i: usize = 0;
    while i < a_len
        invariant
            i <= a_len,
            a_len == a@.len(),
            a_len == b@.len(),
            forall|j: int| 0 <= j < i ==> a@[j] == b@[j],
        decreases a_len - i,
    {
        if a.get_char(i) != b.get_char(i) {
            return false;
        }
        i = i + 1;
    }
    proof {
        assert(a@ =~= b@);
    }
    true
}

/// Compares two integers under an operator name; an unknown name compares
/// as false.
pub fn compare_ints(operator: &str, left: i32, right: i32) -> (r: bool)
    ensures
        r == spec_compare_ints(operator@, left as int, right as int),
{
    if str_eq(operator, "equal") {
        left == right
    } else if str_eq(operator, "not_equal") {
        left != right
    } else if str_eq(operator, "greater_than") {
        left > right
    } else if str_eq(operator, "less_than") {
        left < right
    } else if str_eq(operator, "greater_than_or_equal_to") {
        left >= right
    } else if str_eq(operator, "less_than_or_equal_to") {
        left <= right
    } else {
        false
    }
}

} // verus!
