//! The request handler: reports the store's value, then advances it.
use vstd::prelude::*;
use crate::repository::{OperationData, value_after_increment};

verus! {

/// The character of a decimal digit `d` (`0 <= d < 10`).
pub open spec fn digit_char(d: int) -> char {
    ((d + 48) as u8) as char
}

/// The decimal representation of `n`, most significant digit first, without
/// leading zeros (zero itself is `"0"`).
pub open spec fn decimal(n: nat) -> Seq<char>
    decreases n,
{
    if n < 10 {
        seq![digit_char(n as int)]
    } else {
        decimal(n / 10).push(digit_char((n % 10) as int))
    }
}

/// The text that precedes the value in a response body.
pub open spec fn body_prefix() -> Seq<char> {
    seq!['C', 'u', 'r', 'r', 'e', 'n', 't', ':', ' ']
}

/// The response body that reports `v`.
pub open spec fn report_body(v: usize) -> Seq<char> {
    body_prefix() + decimal(v as nat)
}

/// Appends the decimal digit `d` to `out`.
fn append_digit(out: &mut String, d: usize)
    requires
        d < 10,
    ensures
        final(out)@ == old(out)@.push(digit_char(d as int)),
{
    let digits = "0123456789";
    proof {
        reveal_strlit("0123456789");
    }
    let s = digits.substring_char(d, d + 1);
    assert(s@ =~= seq![digit_char(d as int)]);
    out.append(s);
}

/// Appends the decimal representation of `n` to `out`.
pub fn append_decimal(out: &mut String, n: usize)
    ensures
        final(out)@ == old(out)@ + decimal(n as nat),
    decreases n,
{
    let ghost start = out@;
    if n >= 10 {
        append_decimal(out, n / 10);
    }
    append_digit(out, n % 10);
    assert(out@ =~= start + decimal(n as nat));
}

/// The response body that reports `current`: `Current: ` followed by its
/// decimal digits.
pub fn response_body(current: usize) -> (r: String)
    ensures
        r@ == report_body(current),
{
    let prefix = "Current: ";
    proof {
        reveal_strlit("Current: ");
    }
    let mut body = String::from_str(prefix);
    assert(body@ =~= body_prefix());
    append_decimal(&mut body, current);
    body
}

/// Serves one request: reads the store, then increments it, and reports the
/// value read, so the caller never sees its own increment.
pub fn data_handler<D: OperationData>(data: &mut D) -> (r: String)
    ensures
        r@ == report_body(old(data).value()),
        final(data).value() == value_after_increment(old(data).value()),
{
    let current = data.get();
    data.increment();
    response_body(current)
}

} // verus!
