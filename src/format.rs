//! Rendering of one output line, numbered or not.
use vstd::prelude::*;

use crate::digits::{count_digits, decimal, decimal_text, digit_count};

verus! {

/// Width of the field that holds a line number, padding included.
pub const FIELD_WIDTH: usize = 6;

/// `k` space characters.
pub open spec fn spaces(k: nat) -> Seq<char> {
    Seq::new(k, |i: int| ' ')
}

/// How many spaces stand before the number `n`: the field width less its
/// digit count, and none once the digits fill the field.
pub open spec fn padding_width(n: nat) -> nat {
    if digit_count(n) >= FIELD_WIDTH {
        0
    } else {
        (FIELD_WIDTH - digit_count(n)) as nat
    }
}

/// The text of `line` under the number `n`: the right-aligned number, a
/// tab, then the line itself.
pub open spec fn numbered_line(n: nat, line: Seq<char>) -> Seq<char> {
    spaces(padding_width(n)) + decimal(n) + seq!['\t'] + line
}

/// Under nonblank numbering, an empty line stays empty and any other line
/// is numbered.
pub open spec fn nonblank_line(n: nat, line: Seq<char>) -> Seq<char> {
    if line.len() == 0 {
        Seq::empty()
    } else {
        numbered_line(n, line)
    }
}

/// How much the nonblank counter advances after `line`.
pub open spec fn nonblank_step(line: Seq<char>) -> nat {
    if line.len() == 0 {
        0
    } else {
        1
    }
}

/// Returns the number of spaces that pad the number `n` in its field.
fn padding_for(n: usize) -> (r: usize)
    ensures
        r == padding_width(n as nat),
{
    let digits = count_digits(n);
    if digits >= FIELD_WIDTH {
        0
    } else {
        FIELD_WIDTH - digits
    }
}

/// Returns a string of `k` spaces.
fn space_run(k: usize) -> (r: String)
    ensures
        r@ == spaces(k as nat),
{
    let mut r = String::new();
    let mut i: usize = 0;
    while i < k
        invariant
            i <= k,
            r@ == spaces(i as nat),
        decreases k - i,
    {
        proof {
            reveal_strlit(" ");
        }
        r.append(" ");
        i = i + 1;
        assert(r@ =~= spaces(i as nat));
    }
    r
}

/// Returns `line` under the number `line_number`, right-aligned in a field
/// of six characters and followed by a tab.
pub fn format_number(line: &str, line_number: usize) -> (r: String)
    ensures
        r@ == numbered_line(line_number as nat, line@),
{
    proof {
        reveal_strlit("\t");
    }
    let pad = space_run(padding_for(line_number));
    let digits = decimal_text(line_number);
    let r = pad.concat(digits.as_str()).concat("\t").concat(line);
    assert(r@ =~= numbered_line(line_number as nat, line@));
    r
}

/// Returns `line` as nonblank numbering shows it: an empty line as it is,
/// any other line numbered with `line_number`.
pub fn format_number_nonblank(line: &str, line_number: usize) -> (r: String)
    ensures
        r@ == nonblank_line(line_number as nat, line@),
{
    if line.is_empty() {
        let r = String::new();
        assert(r@ =~= Seq::<char>::empty());
        r
    } else {
        format_number(line, line_number)
    }
}

/// Returns how much the nonblank counter advances after `line`: one for a
/// non-empty line, zero for an empty one.
pub fn number_nonblank_incr(line: &String) -> (r: usize)
    ensures
        r == nonblank_step(line@),
{
    if line.as_str().is_empty() {
        0
    } else {
        1
    }
}

} // verus!
