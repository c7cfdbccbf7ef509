//! Numbers as text.
use crate::schema::seq_view;
use vstd::prelude::*;
use vstd::string::StringExecFns;
use vstd::string::StrSliceExecFns;

verus! {

/// The decimal digit for a value below ten.
pub open spec fn spec_digit(value: nat) -> Seq<char> {
    "0123456789"@.subrange(value as int, value as int + 1)
}

/// A number in decimal notation.
pub open spec fn spec_decimal(value: nat) -> Seq<char>
    decreases value,
{
    if value < 10 {
        spec_digit(value)
    } else {
        spec_decimal(value / 10) + spec_digit(value % 10)
    }
}

/// An integer in decimal notation, with a minus sign where it is negative.
pub open spec fn spec_signed_decimal(value: int) -> Seq<char> {
    if value < 0 {
        "-"@ + spec_decimal((-value) as nat)
    } else {
        spec_decimal(value as nat)
    }
}

/// The last decimal digit of a number.
pub fn digit(value: u64) -> (text: &'static str)
    ensures
        text@ == spec_digit((value % 10) as nat),
{
    proof {
        reveal_strlit("0123456789");
    }
    let last: usize = (value % 10) as usize;
    "0123456789".substring_ascii(last, last + 1)
}

/// A number in decimal notation.
pub fn decimal(value: u64) -> (text: String)
    ensures
        text@ == spec_decimal(value as nat),
    decreases value,
{
    if value < 10 {
        String::from_str(digit(value))
    } else {
        let mut text = decimal(value / 10);
        text.append(digit(value % 10));
        text
    }
}

/// An integer in decimal notation, with a minus sign where it is negative.
pub fn signed_decimal(value: i64) -> (text: String)
    ensures
        text@ == spec_signed_decimal(value as int),
{
    if value < 0 {
        let magnitude: u64 = if value == i64::MIN {
            9223372036854775808u64
        } else {
            (-value) as u64
        };
        let mut text = String::from_str("-");
        text.append(decimal(magnitude).as_str());
        text
    } else {
        decimal(value as u64)
    }
}

/// The first `n` of `parts`, with `separator` between each two.
pub open spec fn spec_joined(parts: Seq<Seq<char>>, separator: Seq<char>, n: nat) -> Seq<char>
    decreases n,
{
    if n == 0 {
        Seq::empty()
    } else if n == 1 {
        parts[0]
    } else {
        spec_joined(parts, separator, (n - 1) as nat) + separator + parts[n - 1]
    }
}

/// The parts in a row, with `separator` between each two.
pub fn join(parts: &Vec<String>, separator: &str) -> (text: String)
    ensures
        text@ == spec_joined(seq_view(parts@), separator@, parts@.len()),
{
    let mut text = String::new();
    let mut i: usize = 0;
    assert(text@ =~= spec_joined(seq_view(parts@), separator@, 0));
    while i < parts.len()
        invariant
            0 <= i <= parts.len(),
            text@ == spec_joined(seq_view(parts@), separator@, i as nat),
        decreases parts.len() - i,
    {
        let ghost done = text@;
        if i > 0 {
            text.append(separator);
        }
        text.append(parts[i].as_str());
        proof {
            let part = seq_view(parts@)[i as int];
            if i == 0 {
                assert(done =~= Seq::<char>::empty());
                assert(text@ =~= part);
            } else {
                assert(text@ =~= done + separator@ + part);
            }
        }
        i += 1;
    }
    text
}

} // verus!
