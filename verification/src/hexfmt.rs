//! Canonical lowercase-hexadecimal wire format used by the token codec.
//!
//! Numbers travel as fixed-width runs of hex digits, most significant digit
//! first: 16 digits for a 64-bit number, 6 digits for the scalar value of one
//! character, 2 digits for one byte. Parsing accepts exactly the spellings
//! produced here (lowercase digits, full width), so every value has a single
//! representation on the wire.

use vstd::prelude::*;

verus! {

/// The lowercase hexadecimal digit of a value below 16.
pub open spec fn spec_nibble_to_char(v: u8) -> char {
    if v == 0 { '0' } else if v == 1 { '1' } else if v == 2 { '2' }
    else if v == 3 { '3' } else if v == 4 { '4' } else if v == 5 { '5' }
    else if v == 6 { '6' } else if v == 7 { '7' } else if v == 8 { '8' }
    else if v == 9 { '9' } else if v == 10 { 'a' } else if v == 11 { 'b' }
    else if v == 12 { 'c' } else if v == 13 { 'd' } else if v == 14 { 'e' }
    else { 'f' }
}

/// Whether a character is a lowercase hexadecimal digit.
pub open spec fn spec_is_hex_digit(c: char) -> bool {
    ('0' <= c && c <= '9') || ('a' <= c && c <= 'f')
}

/// The value of a lowercase hexadecimal digit.
pub open spec fn spec_hex_digit_val(c: char) -> u8 {
    if '0' <= c && c <= '9' {
        ((c as u8) - ('0' as u8)) as u8
    } else {
        ((c as u8) - ('a' as u8) + 10) as u8
    }
}

pub proof fn lemma_nibble_char(v: u8)
    requires
        v < 16,
    ensures
        spec_is_hex_digit(spec_nibble_to_char(v)),
        spec_hex_digit_val(spec_nibble_to_char(v)) == v,
{
}

pub proof fn lemma_hex_digit_roundtrip(c: char)
    requires
        spec_is_hex_digit(c),
    ensures
        spec_hex_digit_val(c) < 16,
        spec_nibble_to_char(spec_hex_digit_val(c)) == c,
{
}

pub fn nibble_to_char(v: u8) -> (c: char)
    requires
        v < 16,
    ensures
        c == spec_nibble_to_char(v),
{
    match v {
        0 => '0', 1 => '1', 2 => '2', 3 => '3', 4 => '4', 5 => '5',
        6 => '6', 7 => '7', 8 => '8', 9 => '9', 10 => 'a', 11 => 'b',
        12 => 'c', 13 => 'd', 14 => 'e', _ => 'f',
    }
}

pub fn hex_digit_val(c: char) -> (r: Option<u8>)
    ensures
        r is Some <==> spec_is_hex_digit(c),
        spec_is_hex_digit(c) ==> r == Some(spec_hex_digit_val(c)),
{
    if '0' <= c && c <= '9' {
        Some((c as u8) - ('0' as u8))
    } else if 'a' <= c && c <= 'f' {
        Some((c as u8) - ('a' as u8) + 10)
    } else {
        None
    }
}

/// 16 to the power n.
pub open spec fn pow16(n: nat) -> nat
    decreases n,
{
    if n == 0 { 1 } else { 16 * pow16((n - 1) as nat) }
}

/// The n-digit hexadecimal spelling of v, most significant digit first.
/// Digits beyond the width are discarded, so callers bound v by pow16(n).
pub open spec fn spec_hex_of(v: nat, n: nat) -> Seq<char>
    decreases n,
{
    if n == 0 {
        Seq::empty()
    } else {
        spec_hex_of(v / 16, (n - 1) as nat).push(spec_nibble_to_char((v % 16) as u8))
    }
}

/// Whether every character of s is a lowercase hexadecimal digit.
pub open spec fn spec_all_hex(s: Seq<char>) -> bool {
    forall|i: int| 0 <= i < s.len() ==> spec_is_hex_digit(#[trigger] s[i])
}

/// The number spelled by a run of hexadecimal digits, most significant first.
pub open spec fn spec_hex_val(s: Seq<char>) -> nat
    decreases s.len(),
{
    if s.len() == 0 {
        0
    } else {
        spec_hex_val(s.drop_last()) * 16 + spec_hex_digit_val(s.last()) as nat
    }
}

pub proof fn lemma_hex_of_shape(v: nat, n: nat)
    ensures
        spec_hex_of(v, n).len() == n,
        spec_all_hex(spec_hex_of(v, n)),
    decreases n,
{
    if n > 0 {
        lemma_hex_of_shape(v / 16, (n - 1) as nat);
        lemma_nibble_char((v % 16) as u8);
        assert forall|i: int| 0 <= i < n implies spec_is_hex_digit(
            #[trigger] spec_hex_of(v, n)[i],
        ) by {
            if i < n - 1 {
                assert(spec_hex_of(v, n)[i] == spec_hex_of(v / 16, (n - 1) as nat)[i]);
            }
        }
    }
}

/// Encoding then reading back a bounded number returns the number.
pub proof fn lemma_hex_of_val(v: nat, n: nat)
    requires
        v < pow16(n),
    ensures
        spec_hex_val(spec_hex_of(v, n)) == v,
    decreases n,
{
    if n == 0 {
    } else {
        let tail = spec_hex_of(v / 16, (n - 1) as nat);
        assert(spec_hex_of(v, n).drop_last() =~= tail);
        vstd::arithmetic::div_mod::lemma_div_is_ordered_by_denominator(v as int, 1, 16);
        assert(v / 16 < pow16((n - 1) as nat)) by {
            vstd::arithmetic::div_mod::lemma_multiply_divide_lt(
                v as int,
                pow16((n - 1) as nat) as int,
                16,
            );
        }
        lemma_hex_of_val(v / 16, (n - 1) as nat);
        lemma_nibble_char((v % 16) as u8);
        vstd::arithmetic::div_mod::lemma_fundamental_div_mod(v as int, 16);
    }
}

/// A run of hexadecimal digits is the encoding of the number it spells:
/// the format has one spelling per value.
pub proof fn lemma_hex_canonical(s: Seq<char>)
    requires
        spec_all_hex(s),
    ensures
        spec_hex_of(spec_hex_val(s), s.len()) == s,
    decreases s.len(),
{
    if s.len() == 0 {
        assert(spec_hex_of(0, 0) =~= s);
    } else {
        let front = s.drop_last();
        let d = spec_hex_digit_val(s.last());
        assert(spec_is_hex_digit(s.last()));
        lemma_hex_digit_roundtrip(s.last());
        let v = spec_hex_val(s);
        assert(v == spec_hex_val(front) * 16 + d);
        assert(v / 16 == spec_hex_val(front) && v % 16 == d) by {
            vstd::arithmetic::div_mod::lemma_fundamental_div_mod_converse(
                v as int,
                16,
                spec_hex_val(front) as int,
                d as int,
            );
        }
        lemma_hex_canonical(front);
        assert(spec_hex_of(v, s.len()) =~= s);
    }
}

/// The number spelled by n digits is below pow16(n).
pub proof fn lemma_hex_val_bound(s: Seq<char>)
    requires
        spec_all_hex(s),
    ensures
        spec_hex_val(s) < pow16(s.len()),
    decreases s.len(),
{
    if s.len() > 0 {
        assert(spec_is_hex_digit(s.last()));
        lemma_hex_digit_roundtrip(s.last());
        lemma_hex_val_bound(s.drop_last());
    }
}

pub proof fn lemma_pow16_increases(a: nat, b: nat)
    requires
        a <= b,
    ensures
        pow16(a) <= pow16(b),
    decreases b,
{
    if a < b {
        lemma_pow16_increases(a, (b - 1) as nat);
    }
}

pub proof fn lemma_pow16_u64()
    ensures
        pow16(16) == 0x1_0000_0000_0000_0000,
{
    reveal_with_fuel(pow16, 17);
}

/// Appends the n-digit hexadecimal spelling of v.
pub fn push_hex(out: &mut Vec<char>, v: u64, n: usize)
    ensures
        final(out)@ == old(out)@ + spec_hex_of(v as nat, n as nat),
    decreases n,
{
    if n == 0 {
        assert(final(out)@ =~= old(out)@ + spec_hex_of(v as nat, 0));
    } else {
        push_hex(out, v / 16, n - 1);
        out.push(nibble_to_char((v % 16) as u8));
        assert(final(out)@ =~= old(out)@ + spec_hex_of(v as nat, n as nat));
    }
}

/// Reading n hexadecimal digits: the spelled number and what follows it,
/// or nothing if fewer than n lowercase digits stand there.
pub open spec fn spec_parse_hex(s: Seq<char>, n: nat) -> Option<(nat, Seq<char>)> {
    if s.len() >= n && spec_all_hex(s.take(n as int)) {
        Some((spec_hex_val(s.take(n as int)), s.skip(n as int)))
    } else {
        None
    }
}

/// Reads an n-digit hexadecimal number at position pos.
pub fn parse_hex(t: &Vec<char>, pos: usize, n: usize) -> (r: Option<(u64, usize)>)
    requires
        pos <= t@.len(),
        n <= 16,
    ensures
        match r {
            Some((v, end)) => {
                &&& spec_parse_hex(t@.skip(pos as int), n as nat) == Some(
                    (v as nat, t@.skip(end as int)),
                )
                &&& (v as nat) < pow16(n as nat)
                &&& end == pos + n
                &&& end <= t@.len()
            },
            None => spec_parse_hex(t@.skip(pos as int), n as nat) is None,
        },
{
    let ghost s = t@.skip(pos as int);
    let tlen = t.len();
    if tlen - pos < n {
        return None;
    }
    let mut val: u64 = 0;
    let mut i: usize = 0;
    proof {
        lemma_pow16_u64();
        assert(s.take(0) =~= Seq::<char>::empty());
    }
    while i < n
        invariant
            tlen == t@.len(),
            pos + n <= tlen,
            n <= 16,
            i <= n,
            s == t@.skip(pos as int),
            spec_all_hex(s.take(i as int)),
            val == spec_hex_val(s.take(i as int)),
            pow16(16) == 0x1_0000_0000_0000_0000,
        decreases n - i,
    {
        let c = t[pos + i];
        assert(c == s[i as int]);
        match hex_digit_val(c) {
            None => {
                assert(s.take(n as int)[i as int] == c);
                assert(!spec_all_hex(s.take(n as int)));
                return None;
            },
            Some(d) => {
                proof {
                    lemma_hex_val_bound(s.take(i as int));
                    lemma_pow16_increases((i + 1) as nat, 16);
                    assert(pow16((i + 1) as nat) == 16 * pow16(i as nat));
                }
                val = val * 16 + (d as u64);
                i = i + 1;
                proof {
                    assert(s.take(i as int).drop_last() =~= s.take(i - 1));
                    assert(s.take(i as int).last() == c);
                    assert(spec_all_hex(s.take(i as int)));
                }
            },
        }
    }
    proof {
        lemma_hex_val_bound(s.take(n as int));
        lemma_pow16_increases(n as nat, 16);
    }
    Some((val, pos + n))
}

/// Whether v is a Unicode scalar value, i.e. the value of some character.
pub open spec fn spec_valid_scalar(v: nat) -> bool {
    v <= 0xD7FF || (0xE000 <= v && v <= 0x10FFFF)
}

/// Relies on char::from_u32 of std: it returns Some exactly on Unicode
/// scalar values, and the returned character has that scalar value.
#[verifier::external_body]
pub fn char_from_u32(v: u32) -> (r: Option<char>)
    ensures
        spec_valid_scalar(v as nat) ==> r == Some(v as char),
        !spec_valid_scalar(v as nat) ==> r is None,
{
    char::from_u32(v)
}

/// Every character stands for a Unicode scalar value, which fits in six
/// hexadecimal digits, and casting it to a wider integer keeps that value.
pub proof fn lemma_char_scalar(c: char)
    ensures
        spec_valid_scalar(c as nat),
        c as nat == (c as u32) as nat,
        c as nat == (c as u64) as nat,
        (c as u32) as char == c,
        (c as nat) < pow16(6),
{
    vstd::utf8::char_is_scalar(c);
    vstd::utf8::char_u32_cast(c, c as u32);
    assert(vstd::utf8::has_width_1_encoding(c as u32) ==> c as u32 <= 0x10FFFF);
    assert(vstd::utf8::has_width_2_encoding(c as u32) ==> c as u32 <= 0x10FFFF);
    assert(vstd::utf8::has_width_3_encoding(c as u32) ==> c as u32 <= 0x10FFFF && !(0xD800
        <= c as u32 <= 0xDFFF));
    assert(vstd::utf8::has_width_4_encoding(c as u32) ==> c as u32 <= 0x10FFFF);
    reveal_with_fuel(pow16, 7);
}

/// The hexadecimal encoding of a string: 6 digits per character.
pub open spec fn spec_encode_str(s: Seq<char>) -> Seq<char>
    decreases s.len(),
{
    if s.len() == 0 {
        Seq::empty()
    } else {
        spec_hex_of(s.first() as nat, 6) + spec_encode_str(s.drop_first())
    }
}

pub proof fn lemma_encode_str_push(s: Seq<char>, c: char)
    ensures
        spec_encode_str(s.push(c)) == spec_encode_str(s) + spec_hex_of(c as nat, 6),
    decreases s.len(),
{
    if s.len() == 0 {
        assert(s.push(c).drop_first() =~= Seq::<char>::empty());
        assert(spec_encode_str(Seq::<char>::empty()) == Seq::<char>::empty());
        assert(spec_encode_str(s.push(c)) =~= spec_hex_of(c as nat, 6));
        assert(spec_encode_str(s) + spec_hex_of(c as nat, 6) =~= spec_hex_of(c as nat, 6));
    } else {
        assert(s.push(c).drop_first() =~= s.drop_first().push(c));
        assert(s.push(c).first() == s.first());
        lemma_encode_str_push(s.drop_first(), c);
        assert(spec_encode_str(s.push(c)) =~= spec_encode_str(s) + spec_hex_of(c as nat, 6));
    }
}

pub proof fn lemma_encode_str_len(s: Seq<char>)
    ensures
        spec_encode_str(s).len() == 6 * s.len(),
    decreases s.len(),
{
    if s.len() > 0 {
        lemma_hex_of_shape(s.first() as nat, 6);
        lemma_encode_str_len(s.drop_first());
    }
}

/// Appends the hexadecimal encoding of the characters of s.
pub fn push_encoded_str(out: &mut Vec<char>, s: &Vec<char>)
    ensures
        final(out)@ == old(out)@ + spec_encode_str(s@),
{
    let mut i: usize = 0;
    proof {
        assert(s@.take(0) =~= Seq::<char>::empty());
        assert(out@ =~= out@ + spec_encode_str(s@.take(0)));
    }
    while i < s.len()
        invariant
            i <= s@.len(),
            out@ == old(out)@ + spec_encode_str(s@.take(i as int)),
        decreases s@.len() - i,
    {
        let c = s[i];
        push_hex(out, c as u64, 6);
        proof {
            lemma_char_scalar(c);
            lemma_encode_str_push(s@.take(i as int), c);
            assert(s@.take(i as int).push(c) =~= s@.take(i + 1));
            assert(out@ =~= old(out)@ + spec_encode_str(s@.take(i + 1)));
        }
        i = i + 1;
    }
    proof {
        assert(s@.take(s@.len() as int) =~= s@);
    }
}

/// Reading n characters, each as 6 hexadecimal digits that must spell a
/// Unicode scalar value: the characters and what follows them.
pub open spec fn spec_parse_chars(s: Seq<char>, n: nat) -> Option<(Seq<char>, Seq<char>)>
    decreases n,
{
    if n == 0 {
        Some((Seq::empty(), s))
    } else {
        match spec_parse_hex(s, 6) {
            None => None,
            Some((v, rest)) => if spec_valid_scalar(v) {
                match spec_parse_chars(rest, (n - 1) as nat) {
                    None => None,
                    Some((cs, rest2)) => Some((seq![v as char] + cs, rest2)),
                }
            } else {
                None
            },
        }
    }
}

/// Reads n characters at position pos.
pub fn parse_chars(t: &Vec<char>, pos: usize, n: usize) -> (r: Option<(Vec<char>, usize)>)
    requires
        pos <= t@.len(),
    ensures
        match r {
            Some((cs, end)) => {
                &&& spec_parse_chars(t@.skip(pos as int), n as nat) == Some(
                    (cs@, t@.skip(end as int)),
                )
                &&& pos <= end <= t@.len()
            },
            None => spec_parse_chars(t@.skip(pos as int), n as nat) is None,
        },
{
    let ghost s0 = t@.skip(pos as int);
    let mut acc: Vec<char> = Vec::new();
    let mut p = pos;
    let mut k: usize = 0;
    while k < n
        invariant
            pos <= p <= t@.len(),
            k <= n,
            s0 == t@.skip(pos as int),
            spec_parse_chars(s0, n as nat) == match spec_parse_chars(
                t@.skip(p as int),
                (n - k) as nat,
            ) {
                None => None::<(Seq<char>, Seq<char>)>,
                Some((cs, rest)) => Some((acc@ + cs, rest)),
            },
        decreases n - k,
    {
        let ghost s_cur = t@.skip(p as int);
        match parse_hex(t, p, 6) {
            None => {
                return None;
            },
            Some((v, end)) => {
                match char_from_u32(v as u32) {
                    None => {
                        return None;
                    },
                    Some(c) => {
                        let ghost old_acc = acc@;
                        let ghost m = (n - k) as nat;
                        proof {
                            reveal_with_fuel(pow16, 7);
                            assert((v as u32) as nat == v as nat);
                            assert(spec_valid_scalar(v as nat));
                            assert(c == (v as nat) as char);
                        }
                        acc.push(c);
                        p = end;
                        k = k + 1;
                        proof {
                            let rest = t@.skip(p as int);
                            assert(spec_parse_hex(s_cur, 6) == Some((v as nat, rest)));
                            assert(spec_parse_chars(s_cur, m) == (match spec_parse_chars(
                                rest,
                                (m - 1) as nat,
                            ) {
                                None => None::<(Seq<char>, Seq<char>)>,
                                Some((cs, r2)) => Some((seq![(v as nat) as char] + cs, r2)),
                            }));
                            if spec_parse_chars(rest, (m - 1) as nat) is Some {
                                let (cs, r2) = spec_parse_chars(rest, (m - 1) as nat)->Some_0;
                                assert(old_acc + (seq![c] + cs) =~= acc@ + cs);
                            }
                        }
                    },
                }
            },
        }
    }
    proof {
        assert(spec_parse_chars(t@.skip(p as int), 0) == Some(
            (Seq::<char>::empty(), t@.skip(p as int)),
        ));
        assert(acc@ + Seq::<char>::empty() =~= acc@);
    }
    Some((acc, p))
}

/// Reading a number back from its encoding yields the number and the rest.
pub proof fn lemma_parse_hex_of_encode(v: nat, n: nat, rest: Seq<char>)
    requires
        v < pow16(n),
    ensures
        spec_parse_hex(spec_hex_of(v, n) + rest, n) == Some((v, rest)),
{
    let enc = spec_hex_of(v, n);
    let full = enc + rest;
    lemma_hex_of_shape(v, n);
    assert(full.take(n as int) =~= enc);
    assert(full.skip(n as int) =~= rest);
    lemma_hex_of_val(v, n);
}

/// A number parses only from its canonical encoding.
pub proof fn lemma_parse_hex_canonical(s: Seq<char>, n: nat)
    requires
        spec_parse_hex(s, n) is Some,
    ensures
        s == spec_hex_of(spec_parse_hex(s, n)->Some_0.0, n) + spec_parse_hex(s, n)->Some_0.1,
{
    let (v, rest) = spec_parse_hex(s, n)->Some_0;
    lemma_hex_canonical(s.take(n as int));
    assert(s =~= s.take(n as int) + s.skip(n as int));
}

/// Reading characters back from their encoding yields them and the rest.
pub proof fn lemma_parse_chars_of_encode(s: Seq<char>, rest: Seq<char>)
    ensures
        spec_parse_chars(spec_encode_str(s) + rest, s.len()) == Some((s, rest)),
    decreases s.len(),
{
    if s.len() == 0 {
        assert(spec_encode_str(s) + rest =~= rest);
        assert(s =~= Seq::<char>::empty());
    } else {
        let c = s.first();
        let tail = s.drop_first();
        lemma_char_scalar(c);
        let full = spec_encode_str(s) + rest;
        assert(full =~= spec_hex_of(c as nat, 6) + (spec_encode_str(tail) + rest));
        lemma_parse_hex_of_encode(c as nat, 6, spec_encode_str(tail) + rest);
        assert((c as nat) as char == c);
        lemma_parse_chars_of_encode(tail, rest);
        assert(seq![c] + tail =~= s);
    }
}

/// Characters parse only from their canonical encoding.
pub proof fn lemma_parse_chars_canonical(s: Seq<char>, n: nat)
    requires
        spec_parse_chars(s, n) is Some,
    ensures
        spec_parse_chars(s, n)->Some_0.0.len() == n,
        s == spec_encode_str(spec_parse_chars(s, n)->Some_0.0) + spec_parse_chars(
            s,
            n,
        )->Some_0.1,
    decreases n,
{
    let (cs, rest) = spec_parse_chars(s, n)->Some_0;
    if n == 0 {
        assert(cs =~= Seq::<char>::empty());
        assert(s =~= spec_encode_str(cs) + rest);
    } else {
        let (v, r1) = spec_parse_hex(s, 6)->Some_0;
        lemma_parse_hex_canonical(s, 6);
        let (cs1, r2) = spec_parse_chars(r1, (n - 1) as nat)->Some_0;
        lemma_parse_chars_canonical(r1, (n - 1) as nat);
        let c = v as char;
        assert(spec_valid_scalar(v));
        assert((c as nat) == v);
        lemma_char_scalar(c);
        assert(cs =~= seq![c] + cs1);
        assert(cs.first() == c && cs.drop_first() =~= cs1);
        assert(spec_encode_str(cs) == spec_hex_of(v, 6) + spec_encode_str(cs1));
        assert(s =~= spec_encode_str(cs) + rest);
    }
}

/// Fewer than 6 digits per character cannot parse.
pub proof fn lemma_parse_chars_too_short(s: Seq<char>, n: nat)
    requires
        s.len() < 6 * n,
    ensures
        spec_parse_chars(s, n) is None,
{
    if spec_parse_chars(s, n) is Some {
        let (cs, rest) = spec_parse_chars(s, n)->Some_0;
        lemma_parse_chars_canonical(s, n);
        lemma_encode_str_len(cs);
        assert(false);
    }
}

/// The hexadecimal encoding of bytes: 2 digits per byte.
pub open spec fn spec_hex_bytes(b: Seq<u8>) -> Seq<char>
    decreases b.len(),
{
    if b.len() == 0 {
        Seq::empty()
    } else {
        spec_hex_of(b.first() as nat, 2) + spec_hex_bytes(b.drop_first())
    }
}

pub proof fn lemma_hex_bytes_push(b: Seq<u8>, x: u8)
    ensures
        spec_hex_bytes(b.push(x)) == spec_hex_bytes(b) + spec_hex_of(x as nat, 2),
    decreases b.len(),
{
    if b.len() == 0 {
        assert(b.push(x).drop_first() =~= Seq::<u8>::empty());
        assert(spec_hex_bytes(Seq::<u8>::empty()) == Seq::<char>::empty());
        assert(spec_hex_bytes(b.push(x)) =~= spec_hex_of(x as nat, 2));
        assert(spec_hex_bytes(b) + spec_hex_of(x as nat, 2) =~= spec_hex_of(x as nat, 2));
    } else {
        assert(b.push(x).drop_first() =~= b.drop_first().push(x));
        assert(b.push(x).first() == b.first());
        lemma_hex_bytes_push(b.drop_first(), x);
        assert(spec_hex_bytes(b.push(x)) =~= spec_hex_bytes(b) + spec_hex_of(x as nat, 2));
    }
}

pub proof fn lemma_hex_bytes_len(b: Seq<u8>)
    ensures
        spec_hex_bytes(b).len() == 2 * b.len(),
    decreases b.len(),
{
    if b.len() > 0 {
        lemma_hex_of_shape(b.first() as nat, 2);
        lemma_hex_bytes_len(b.drop_first());
    }
}

/// Appends the hexadecimal encoding of the given bytes.
pub fn push_hex_bytes(out: &mut Vec<char>, b: &Vec<u8>)
    ensures
        final(out)@ == old(out)@ + spec_hex_bytes(b@),
{
    let mut i: usize = 0;
    proof {
        assert(b@.take(0) =~= Seq::<u8>::empty());
        assert(out@ =~= out@ + spec_hex_bytes(b@.take(0)));
    }
    while i < b.len()
        invariant
            i <= b@.len(),
            out@ == old(out)@ + spec_hex_bytes(b@.take(i as int)),
        decreases b@.len() - i,
    {
        let x = b[i];
        push_hex(out, x as u64, 2);
        proof {
            lemma_hex_bytes_push(b@.take(i as int), x);
            assert(b@.take(i as int).push(x) =~= b@.take(i + 1));
            assert(out@ =~= old(out)@ + spec_hex_bytes(b@.take(i + 1)));
        }
        i = i + 1;
    }
    proof {
        assert(b@.take(b@.len() as int) =~= b@);
    }
}

} // verus!
