//! Percent-encoding of resource names inside URL segments.

use vstd::prelude::*;

verus! {

/// Bytes that stand for themselves inside an encoded segment.
pub open spec fn is_unreserved(b: u8) -> bool {
    (65u8 <= b && b <= 90u8) || (97u8 <= b && b <= 122u8) || (48u8 <= b && b <= 57u8) || b
        == 45u8 || b == 95u8 || b == 46u8 || b == 126u8
}

pub open spec fn is_hex_digit(b: u8) -> bool {
    (48u8 <= b && b <= 57u8) || (65u8 <= b && b <= 70u8) || (97u8 <= b && b <= 102u8)
}

/// Value of a hexadecimal digit (either case).
pub open spec fn hex_value(b: u8) -> u8 {
    if 48u8 <= b && b <= 57u8 {
        (b - 48u8) as u8
    } else if 65u8 <= b && b <= 70u8 {
        (b - 65u8 + 10) as u8
    } else {
        (b - 97u8 + 10) as u8
    }
}

/// Upper-case hexadecimal digit for a value below 16.
pub open spec fn hex_digit(n: u8) -> u8 {
    if n < 10 {
        (48u8 + n) as u8
    } else {
        (65u8 + n - 10) as u8
    }
}

/// The encoding of one byte: itself if unreserved, else `%XY`.
pub open spec fn encode_byte(b: u8) -> Seq<u8> {
    if is_unreserved(b) {
        seq![b]
    } else {
        seq![37u8, hex_digit(b / 16), hex_digit(b % 16)]
    }
}

/// Percent-encoding of a whole byte string.
pub open spec fn encode(s: Seq<u8>) -> Seq<u8>
    decreases s.len(),
{
    if s.len() == 0 {
        seq![]
    } else {
        encode_byte(s[0]) + encode(s.drop_first())
    }
}

/// Percent-decoding: each well-formed `%XY` becomes one byte; every other
/// byte, a stray `%` included, is kept as it is.
pub open spec fn decode(s: Seq<u8>) -> Seq<u8>
    decreases s.len(),
{
    if s.len() == 0 {
        seq![]
    } else if s.len() >= 3 && s[0] == 37u8 && is_hex_digit(s[1]) && is_hex_digit(s[2]) {
        seq![(hex_value(s[1]) * 16 + hex_value(s[2])) as u8] + decode(s.subrange(3, s.len() as int))
    } else {
        seq![s[0]] + decode(s.drop_first())
    }
}

/// An encoded segment holds only unreserved bytes, `%` and hex digits.
pub open spec fn is_encoded_byte(b: u8) -> bool {
    is_unreserved(b) || b == 37u8
}

proof fn lemma_hex_round_trip(n: u8)
    requires
        n < 16,
    ensures
        is_hex_digit(hex_digit(n)),
        hex_value(hex_digit(n)) == n,
{
}

proof fn lemma_decode_encode_byte(b: u8, rest: Seq<u8>)
    ensures
        decode(encode_byte(b) + rest) == seq![b] + decode(rest),
{
    let e = encode_byte(b) + rest;
    if is_unreserved(b) {
        assert(e.drop_first() =~= rest);
    } else {
        lemma_hex_round_trip(b / 16);
        lemma_hex_round_trip(b % 16);
        assert(e.subrange(3, e.len() as int) =~= rest);
        assert((hex_value(e[1]) * 16 + hex_value(e[2])) as u8 == b);
    }
}

/// Decoding undoes encoding, for every byte string.
pub proof fn lemma_decode_encode(s: Seq<u8>)
    ensures
        decode(encode(s)) == s,
    decreases s.len(),
{
    if s.len() > 0 {
        lemma_decode_encode_byte(s[0], encode(s.drop_first()));
        lemma_decode_encode(s.drop_first());
        assert(seq![s[0]] + s.drop_first() =~= s);
    }
}

/// Encoding distributes over appending one byte.
pub proof fn lemma_encode_push(s: Seq<u8>, b: u8)
    ensures
        encode(s.push(b)) == encode(s) + encode_byte(b),
    decreases s.len(),
{
    if s.len() == 0 {
        assert(s.push(b).drop_first() =~= Seq::<u8>::empty());
        assert(encode(Seq::<u8>::empty()) == Seq::<u8>::empty());
        assert(encode(s) == Seq::<u8>::empty());
        assert(encode(s.push(b)) =~= encode(s) + encode_byte(b));
    } else {
        assert(s.push(b).drop_first() =~= s.drop_first().push(b));
        lemma_encode_push(s.drop_first(), b);
        assert(encode(s.push(b)) =~= encode(s) + encode_byte(b));
    }
}

/// Every byte of an encoding is unreserved or `%`: no `/`, `?` or `=`.
pub proof fn lemma_encode_bytes(s: Seq<u8>)
    ensures
        forall|i: int| 0 <= i < encode(s).len() ==> is_encoded_byte(#[trigger] encode(s)[i]),
        s.len() > 0 ==> encode(s).len() > 0,
    decreases s.len(),
{
    if s.len() > 0 {
        lemma_encode_bytes(s.drop_first());
        let h = encode_byte(s[0]);
        let t = encode(s.drop_first());
        assert forall|i: int| 0 <= i < encode(s).len() implies is_encoded_byte(
            #[trigger] encode(s)[i],
        ) by {
            if i < h.len() {
                assert(encode(s)[i] == h[i]);
                if !is_unreserved(s[0]) {
                    lemma_hex_round_trip(s[0] / 16);
                    lemma_hex_round_trip(s[0] % 16);
                }
            } else {
                assert(encode(s)[i] == t[i - h.len()]);
            }
        }
    }
}

fn hex_digit_exec(n: u8) -> (r: u8)
    requires
        n < 16,
    ensures
        r == hex_digit(n),
{
    if n < 10 {
        48u8 + n
    } else {
        65u8 + n - 10
    }
}

fn is_hex_digit_exec(b: u8) -> (r: bool)
    ensures
        r == is_hex_digit(b),
{
    (48u8 <= b && b <= 57u8) || (65u8 <= b && b <= 70u8) || (97u8 <= b && b <= 102u8)
}

fn hex_value_exec(b: u8) -> (r: u8)
    requires
        is_hex_digit(b),
    ensures
        r == hex_value(b),
        r < 16,
{
    if 48u8 <= b && b <= 57u8 {
        b - 48u8
    } else if 65u8 <= b && b <= 70u8 {
        b - 65u8 + 10
    } else {
        b - 97u8 + 10
    }
}

/// Appends the percent-encoding of `s` to `out`.
pub fn encode_into(s: &[u8], out: &mut Vec<u8>)
    ensures
        final(out)@ == old(out)@ + encode(s@),
{
    let ghost start = out@;
    let mut i: usize = 0;
    while i < s.len()
        invariant
            i <= s.len(),
            out@ == start + encode(s@.subrange(0, i as int)),
        decreases s.len() - i,
    {
        let b = s[i];
        proof {
            assert(s@.subrange(0, i + 1) =~= s@.subrange(0, i as int).push(b));
            lemma_encode_push(s@.subrange(0, i as int), b);
        }
        if (65u8 <= b && b <= 90u8) || (97u8 <= b && b <= 122u8) || (48u8 <= b && b <= 57u8) || b
            == 45u8 || b == 95u8 || b == 46u8 || b == 126u8 {
            out.push(b);
        } else {
            out.push(37u8);
            out.push(hex_digit_exec(b / 16));
            out.push(hex_digit_exec(b % 16));
        }
        i = i + 1;
        assert(out@ =~= start + encode(s@.subrange(0, i as int)));
    }
    assert(s@.subrange(0, s.len() as int) =~= s@);
}

/// The percent-encoding of `s`.
pub fn encode_name(s: &[u8]) -> (r: Vec<u8>)
    ensures
        r@ == encode(s@),
{
    let mut out: Vec<u8> = Vec::new();
    encode_into(s, &mut out);
    assert(out@ =~= encode(s@));
    out
}

/// The percent-decoding of `s[from..to]`.
pub fn decode_range(s: &[u8], from: usize, to: usize) -> (r: Vec<u8>)
    requires
        from <= to <= s.len(),
    ensures
        r@ == decode(s@.subrange(from as int, to as int)),
{
    let mut out: Vec<u8> = Vec::new();
    let mut i: usize = from;
    while i < to
        invariant
            from <= i <= to <= s.len(),
            out@ + decode(s@.subrange(i as int, to as int)) == decode(
                s@.subrange(from as int, to as int),
            ),
        decreases to - i,
    {
        let ghost rest = s@.subrange(i as int, to as int);
        if to - i >= 3 && s[i] == 37u8 && is_hex_digit_exec(s[i + 1]) && is_hex_digit_exec(
            s[i + 2],
        ) {
            let v = hex_value_exec(s[i + 1]) * 16 + hex_value_exec(s[i + 2]);
            proof {
                assert(rest.subrange(3, rest.len() as int) =~= s@.subrange(i + 3, to as int));
                assert(decode(rest) == seq![v] + decode(s@.subrange(i + 3, to as int)));
                assert(out@.push(v) + decode(s@.subrange(i + 3, to as int)) =~= out@ + decode(
                    rest,
                ));
            }
            out.push(v);
            i = i + 3;
        } else {
            let b = s[i];
            proof {
                assert(rest.drop_first() =~= s@.subrange(i + 1, to as int));
                assert(decode(rest) == seq![b] + decode(s@.subrange(i + 1, to as int)));
                assert(out@.push(b) + decode(s@.subrange(i + 1, to as int)) =~= out@ + decode(
                    rest,
                ));
            }
            out.push(b);
            i = i + 1;
        }
    }
    assert(decode(s@.subrange(i as int, to as int)) =~= seq![]);
    assert(out@ + seq![] =~= out@);
    out
}

/// The percent-decoding of `s`.
pub fn decode_name(s: &[u8]) -> (r: Vec<u8>)
    ensures
        r@ == decode(s@),
{
    let r = decode_range(s, 0, s.len());
    assert(s@.subrange(0, s@.len() as int) =~= s@);
    r
}

} // verus!
