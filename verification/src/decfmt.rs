//! Decimal spelling of integers, for identifiers carried in responses and
//! request headers.

use vstd::prelude::*;

verus! {

/// The decimal digit of a value below 10.
pub open spec fn spec_dec_digit(v: u8) -> char {
    if v == 0 { '0' } else if v == 1 { '1' } else if v == 2 { '2' }
    else if v == 3 { '3' } else if v == 4 { '4' } else if v == 5 { '5' }
    else if v == 6 { '6' } else if v == 7 { '7' } else if v == 8 { '8' }
    else { '9' }
}

/// The decimal spelling of a number, without leading zeros.
pub open spec fn spec_dec_of(v: nat) -> Seq<char>
    decreases v,
{
    if v < 10 {
        seq![spec_dec_digit(v as u8)]
    } else {
        spec_dec_of(v / 10) + seq![spec_dec_digit((v % 10) as u8)]
    }
}

/// The decimal spelling of a signed number: a minus sign, then the
/// magnitude.
pub open spec fn spec_i64_dec(v: i64) -> Seq<char> {
    if v >= 0 {
        spec_dec_of(v as nat)
    } else {
        seq!['-'] + spec_dec_of((-(v as int)) as nat)
    }
}

fn dec_digit(v: u8) -> (c: char)
    requires
        v < 10,
    ensures
        c == spec_dec_digit(v),
{
    match v {
        0 => '0', 1 => '1', 2 => '2', 3 => '3', 4 => '4', 5 => '5',
        6 => '6', 7 => '7', 8 => '8', _ => '9',
    }
}

/// Appends the decimal spelling of v.
pub fn push_dec(out: &mut Vec<char>, v: u64)
    ensures
        final(out)@ == old(out)@ + spec_dec_of(v as nat),
    decreases v,
{
    if v < 10 {
        out.push(dec_digit(v as u8));
        assert(final(out)@ =~= old(out)@ + spec_dec_of(v as nat));
    } else {
        push_dec(out, v / 10);
        out.push(dec_digit((v % 10) as u8));
        assert(final(out)@ =~= old(out)@ + spec_dec_of(v as nat));
    }
}

/// The decimal spelling of an unsigned number.
pub fn u64_to_dec(v: u64) -> (s: String)
    ensures
        s@ == spec_dec_of(v as nat),
{
    let mut out: Vec<char> = Vec::new();
    push_dec(&mut out, v);
    proof {
        assert(Seq::<char>::empty() + spec_dec_of(v as nat) =~= spec_dec_of(v as nat));
    }
    crate::token::chars_to_string(&out)
}

/// The decimal spelling of a signed number.
pub fn i64_to_dec(v: i64) -> (s: String)
    ensures
        s@ == spec_i64_dec(v),
{
    if v >= 0 {
        u64_to_dec(v as u64)
    } else {
        let mag: u64 = if v == i64::MIN {
            9223372036854775808u64
        } else {
            (-v) as u64
        };
        proof {
            assert(mag as nat == (-(v as int)) as nat);
        }
        let mut out: Vec<char> = Vec::new();
        out.push('-');
        push_dec(&mut out, mag);
        proof {
            assert(out@ =~= spec_i64_dec(v));
        }
        crate::token::chars_to_string(&out)
    }
}

} // verus!
