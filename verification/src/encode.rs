//! Percent-encoding of URL path segments and query components.
//!
//! Every byte that is not unreserved under RFC 3986 (letters, digits,
//! `-`, `.`, `_`, `~`) is written as `%` followed by two upper-case
//! hexadecimal digits. Decoding inverts this exactly.

use vstd::prelude::*;

verus! {

/// ASCII byte values used by the encoder.
pub const B_UPPER_A: u8 = 65;

pub const B_UPPER_F: u8 = 70;

pub const B_UPPER_Z: u8 = 90;

pub const B_LOWER_A: u8 = 97;

pub const B_LOWER_Z: u8 = 122;

pub const B_0: u8 = 48;

pub const B_9: u8 = 57;

pub const B_HYPHEN: u8 = 45;

pub const B_DOT: u8 = 46;

pub const B_UNDERSCORE: u8 = 95;

pub const B_TILDE: u8 = 126;

pub const B_PERCENT: u8 = 37;

pub const B_AMP: u8 = 38;

pub const B_EQ: u8 = 61;

pub const B_SLASH: u8 = 47;

pub const B_SPACE: u8 = 32;

pub const B_LBRACE: u8 = 123;

pub const B_RBRACE: u8 = 125;

/// Bytes that RFC 3986 leaves unencoded: letters, digits, `-`, `.`, `_`, `~`.
pub open spec fn is_unreserved(b: u8) -> bool {
    (B_UPPER_A <= b && b <= B_UPPER_Z) || (B_LOWER_A <= b && b <= B_LOWER_Z) || (B_0 <= b && b <= B_9) || b == B_HYPHEN
        || b == B_DOT || b == B_UNDERSCORE || b == B_TILDE
}

/// Upper-case hexadecimal digit for a nibble.
pub open spec fn hex_digit(n: u8) -> u8
    recommends
        n < 16,
{
    if n < 10 {
        (B_0 + n) as u8
    } else {
        (B_UPPER_A + (n - 10)) as u8
    }
}

/// Bytes that can appear as a hexadecimal digit of an escape.
pub open spec fn is_hex_digit(b: u8) -> bool {
    (B_0 <= b && b <= B_9) || (B_UPPER_A <= b && b <= B_UPPER_F)
}

/// Numeric value of a hexadecimal digit.
pub open spec fn hex_value(b: u8) -> u8
    recommends
        is_hex_digit(b),
{
    if B_0 <= b && b <= B_9 {
        (b - B_0) as u8
    } else {
        (b - B_UPPER_A + 10) as u8
    }
}

/// Percent-encoding of a single byte: itself if unreserved, `%XX` otherwise.
pub open spec fn encode_byte(b: u8) -> Seq<u8> {
    if is_unreserved(b) {
        seq![b]
    } else {
        seq![B_PERCENT, hex_digit(b / 16), hex_digit(b % 16)]
    }
}

/// Percent-encoding of a whole byte string.
pub open spec fn encoded(s: Seq<u8>) -> Seq<u8>
    decreases s.len(),
{
    if s.len() == 0 {
        Seq::empty()
    } else {
        encode_byte(s[0]) + encoded(s.drop_first())
    }
}

/// Percent-decoding: each well-formed `%XX` escape becomes one byte, every
/// other byte is passed through unchanged.
pub open spec fn decoded(s: Seq<u8>) -> Seq<u8>
    decreases s.len(),
{
    if s.len() == 0 {
        Seq::empty()
    } else if s[0] == B_PERCENT && s.len() >= 3 && is_hex_digit(s[1]) && is_hex_digit(s[2]) {
        seq![(hex_value(s[1]) * 16 + hex_value(s[2])) as u8] + decoded(s.skip(3))
    } else {
        seq![s[0]] + decoded(s.drop_first())
    }
}

/// Bytes that can occur in an encoded string: unreserved bytes, the escape
/// introducer `%`, and hexadecimal digits.
pub open spec fn is_encoded_output_byte(b: u8) -> bool {
    is_unreserved(b) || b == B_PERCENT || is_hex_digit(b)
}

proof fn lemma_encoded_push(s: Seq<u8>, b: u8)
    ensures
        encoded(s.push(b)) == encoded(s) + encode_byte(b),
    decreases s.len(),
{
    assert(s.push(b).len() == s.len() + 1);
    if s.len() == 0 {
        assert(s.push(b)[0] == b);
        assert(s.push(b).drop_first() =~= Seq::<u8>::empty());
        assert(encoded(Seq::<u8>::empty()) == Seq::<u8>::empty());
        assert(encoded(s.push(b)) == encode_byte(b) + encoded(s.push(b).drop_first()));
        assert(s =~= Seq::<u8>::empty());
        assert(encoded(s.push(b)) =~= encoded(s) + encode_byte(b));
    } else {
        assert(s.push(b)[0] == s[0]);
        assert(s.push(b).drop_first() =~= s.drop_first().push(b));
        lemma_encoded_push(s.drop_first(), b);
        assert(encoded(s.push(b)) =~= encoded(s) + encode_byte(b));
    }
}

/// Law: encoder output contains no unencoded reserved byte. Every byte of an
/// encoded string is unreserved, a `%`, or a hexadecimal digit; in particular
/// the reserved bytes ``/?#[]@!$&'()*+,;=`` and all non-ASCII bytes are gone.
pub proof fn lemma_encoded_bytes_wf(s: Seq<u8>)
    ensures
        forall|i: int|
            0 <= i < encoded(s).len() ==> is_encoded_output_byte(#[trigger] encoded(s)[i]),
    decreases s.len(),
{
    if s.len() > 0 {
        lemma_encoded_bytes_wf(s.drop_first());
        assert(is_hex_digit(hex_digit(s[0] / 16)));
        assert(is_hex_digit(hex_digit(s[0] % 16)));
        assert forall|i: int|
            0 <= i < encoded(s).len() implies is_encoded_output_byte(
            #[trigger] encoded(s)[i],
        ) by {
            if i >= encode_byte(s[0]).len() {
                assert(encoded(s)[i] == encoded(s.drop_first())[i - encode_byte(s[0]).len()]);
            }
        }
    }
}

/// Law: decoding inverts encoding, for every byte string.
pub proof fn lemma_decoded_encoded(s: Seq<u8>)
    ensures
        decoded(encoded(s)) == s,
    decreases s.len(),
{
    if s.len() == 0 {
        assert(decoded(encoded(s)) =~= s);
    } else {
        let b = s[0];
        let tail = encoded(s.drop_first());
        lemma_decoded_encoded(s.drop_first());
        if is_unreserved(b) {
            assert(encoded(s) == seq![b] + tail);
            assert(encoded(s)[0] == b);
            assert(b != B_PERCENT);
            assert(encoded(s).drop_first() =~= tail);
            assert(decoded(encoded(s)) =~= s);
        } else {
            let h = hex_digit(b / 16);
            let l = hex_digit(b % 16);
            assert(encoded(s) == seq![B_PERCENT, h, l] + tail);
            assert(encoded(s)[0] == B_PERCENT && encoded(s)[1] == h && encoded(s)[2] == l);
            assert(is_hex_digit(h) && is_hex_digit(l));
            assert(hex_value(h) == b / 16 && hex_value(l) == b % 16);
            assert(hex_value(h) * 16 + hex_value(l) == b) by {
                assert(b / 16 * 16 + b % 16 == b) by (nonlinear_arith);
            }
            assert(encoded(s).skip(3) =~= tail);
            assert(decoded(encoded(s)) =~= s);
        }
    }
}

fn byte_is_unreserved(b: u8) -> (r: bool)
    ensures
        r == is_unreserved(b),
{
    (B_UPPER_A <= b && b <= B_UPPER_Z) || (B_LOWER_A <= b && b <= B_LOWER_Z) || (B_0 <= b && b <= B_9) || b == B_HYPHEN
        || b == B_DOT || b == B_UNDERSCORE || b == B_TILDE
}

fn byte_is_hex_digit(b: u8) -> (r: bool)
    ensures
        r == is_hex_digit(b),
{
    (B_0 <= b && b <= B_9) || (B_UPPER_A <= b && b <= B_UPPER_F)
}

fn hex_digit_of(n: u8) -> (r: u8)
    requires
        n < 16,
    ensures
        r == hex_digit(n),
{
    if n < 10 {
        B_0 + n
    } else {
        B_UPPER_A + (n - 10)
    }
}

fn hex_value_of(b: u8) -> (r: u8)
    requires
        is_hex_digit(b),
    ensures
        r == hex_value(b),
{
    if b <= B_9 {
        b - B_0
    } else {
        b - B_UPPER_A + 10
    }
}

/// Percent-encode a byte string.
pub fn percent_encode(input: &[u8]) -> (r: Vec<u8>)
    ensures
        r@ == encoded(input@),
{
    let mut r: Vec<u8> = Vec::new();
    let mut i: usize = 0;
    while i < input.len()
        invariant
            0 <= i <= input.len(),
            r@ == encoded(input@.take(i as int)),
        decreases input.len() - i,
    {
        let b = input[i];
        proof {
            assert(input@.take(i as int).push(b) =~= input@.take(i + 1 as int));
            lemma_encoded_push(input@.take(i as int), b);
        }
        if byte_is_unreserved(b) {
            r.push(b);
        } else {
            r.push(B_PERCENT);
            r.push(hex_digit_of(b / 16));
            r.push(hex_digit_of(b % 16));
        }
        assert(r@ =~= encoded(input@.take(i + 1 as int)));
        i = i + 1;
    }
    proof {
        assert(input@.take(input@.len() as int) =~= input@);
    }
    r
}

/// Percent-decode a byte string; malformed escapes are passed through.
pub fn percent_decode(input: &[u8]) -> (r: Vec<u8>)
    ensures
        r@ == decoded(input@),
{
    let mut r: Vec<u8> = Vec::new();
    let mut i: usize = 0;
    proof {
        assert(input@.skip(0) =~= input@);
    }
    while i < input.len()
        invariant
            0 <= i <= input.len(),
            decoded(input@) == r@ + decoded(input@.skip(i as int)),
        decreases input.len() - i,
    {
        let ghost rest = input@.skip(i as int);
        assert(rest[0] == input@[i as int]);
        if input[i] == B_PERCENT && input.len() - i >= 3 && byte_is_hex_digit(input[i + 1])
            && byte_is_hex_digit(input[i + 2]) {
            assert(rest.len() >= 3 && rest[1] == input@[i + 1] && rest[2] == input@[i + 2]);
            let v = hex_value_of(input[i + 1]) * 16 + hex_value_of(input[i + 2]);
            r.push(v);
            proof {
                assert(rest.skip(3) =~= input@.skip(i + 3 as int));
                assert(decoded(rest) == seq![v] + decoded(rest.skip(3)));
                assert(r@ + decoded(input@.skip(i + 3 as int)) =~= decoded(input@));
            }
            i = i + 3;
        } else {
            assert(!(rest[0] == B_PERCENT && rest.len() >= 3 && is_hex_digit(rest[1]) && is_hex_digit(
                rest[2],
            )));
            r.push(input[i]);
            proof {
                assert(rest.drop_first() =~= input@.skip(i + 1 as int));
                assert(decoded(rest) == seq![rest[0]] + decoded(rest.drop_first()));
                assert(r@ + decoded(input@.skip(i + 1 as int)) =~= decoded(input@));
            }
            i = i + 1;
        }
    }
    proof {
        assert(input@.skip(input@.len() as int) =~= Seq::<u8>::empty());
    }
    r
}

/// Byte-string equality.
pub fn bytes_eq(a: &[u8], b: &[u8]) -> (r: bool)
    ensures
        r == (a@ == b@),
{
    if a.len() != b.len() {
        return false;
    }
    let mut i: usize = 0;
    while i < a.len()
        invariant
            0 <= i <= a.len(),
            a.len() == b.len(),
            forall|k: int| 0 <= k < i ==> a@[k] == b@[k],
        decreases a.len() - i,
    {
        if a[i] != b[i] {
            return false;
        }
        i = i + 1;
    }
    proof {
        assert(a@ =~= b@);
    }
    true
}

} // verus!
