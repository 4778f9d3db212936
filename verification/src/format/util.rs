//! Small executable helpers over bytes and strings, with exact contracts.

use vstd::prelude::*;
use vstd::string::StringExecFns;
use vstd::string::StringSliceAdditionalSpecFns;
use vstd::utf8::{decode_utf8, encode_utf8, encode_utf8_decode_utf8};

use crate::format::model::bytes_lt;
use crate::format::model::is_account_byte;
use crate::format::model::is_key_byte;
use crate::format::model::is_white_char;

verus! {

/// Whether a byte may appear in a custom key.
pub fn key_byte_ok(b: u8) -> (r: bool)
    ensures
        r == is_key_byte(b),
{
    (97 <= b && b <= 122) || (48 <= b && b <= 57) || b == 95 || b == 46
}

/// Whether a byte may appear in an account identifier.
pub fn account_byte_ok(b: u8) -> (r: bool)
    ensures
        r == is_account_byte(b),
{
    (65 <= b && b <= 90) || (97 <= b && b <= 122) || (48 <= b && b <= 57) || b == 95 || b == 45
}

/// Relies on `String::from_utf8`: it returns `Ok` exactly on valid UTF-8
/// input, and the resulting string's characters decode those bytes.
#[verifier::external_body]
pub fn bytes_to_string(bytes: Vec<u8>) -> (r: Option<String>)
    ensures
        match r {
            Some(s) => vstd::utf8::valid_utf8(bytes@) && s@ == decode_utf8(bytes@),
            None => !vstd::utf8::valid_utf8(bytes@),
        },
{
    String::from_utf8(bytes).ok()
}

/// Two's-complement image of a signed 64-bit value.
pub fn i64_to_bits(x: i64) -> (r: u64)
    ensures
        r == crate::format::wire::i64_bits(x as int),
{
    if x >= 0 {
        x as u64
    } else {
        ((x as i128) + 0x1_0000_0000_0000_0000i128) as u64
    }
}

/// Signed value of a two's-complement 64-bit image.
pub fn bits_to_i64(u: u64) -> (r: i64)
    ensures
        r as int == crate::format::wire::bits_i64(u),
{
    if u < 0x8000_0000_0000_0000u64 {
        u as i64
    } else {
        ((u as i128) - 0x1_0000_0000_0000_0000i128) as i64
    }
}

/// A non-empty character sequence has a non-empty UTF-8 encoding.
pub proof fn lemma_encode_utf8_nonempty(s: Seq<char>)
    requires
        s.len() > 0,
    ensures
        encode_utf8(s).len() > 0,
{
    vstd::utf8::char_is_scalar(s[0]);
    assert(encode_utf8(s) == vstd::utf8::encode_scalar(s[0] as u32) + encode_utf8(s.drop_first()));
}

/// UTF-8 encoding is injective: equal encodings come from equal strings.
pub proof fn lemma_utf8_injective(s: Seq<char>, t: Seq<char>)
    requires
        encode_utf8(s) == encode_utf8(t),
    ensures
        s == t,
{
    encode_utf8_decode_utf8(s);
    encode_utf8_decode_utf8(t);
}

/// Byte-wise equality of two slices.
pub fn bytes_eq(a: &[u8], b: &[u8]) -> (r: bool)
    ensures
        r == (a@ == b@),
{
    if a.len() != b.len() {
        proof {
            assert(a@.len() != b@.len());
        }
        return false;
    }
    let n = a.len();
    let mut i: usize = 0;
    while i < n
        invariant
            0 <= i <= n,
            n == a@.len() == b@.len(),
            forall|j: int| 0 <= j < i ==> a@[j] == b@[j],
        decreases n - i,
    {
        if a[i] != b[i] {
            return false;
        }
        i += 1;
    }
    proof {
        assert(a@ =~= b@);
    }
    true
}

/// Equality of two strings, decided on their UTF-8 bytes.
pub fn str_eq(a: &str, b: &str) -> (r: bool)
    ensures
        r == (a@ == b@),
{
    let r = bytes_eq(a.as_bytes(), b.as_bytes());
    proof {
        if a.spec_bytes() == b.spec_bytes() {
            lemma_utf8_injective(a@, b@);
        }
    }
    r
}

/// A structurally valid account identifier does not trim to nothing: its
/// first character is in the allowed set, which holds no whitespace.
pub proof fn lemma_valid_account_not_all_white(s: Seq<char>)
    requires
        crate::format::model::valid_account_bytes(encode_utf8(s)),
    ensures
        !crate::format::model::all_white(s),
{
    if s.len() == 0 {
        assert(encode_utf8(s).len() == 0);
    } else {
        let c = s[0];
        let u = c as u32;
        vstd::utf8::char_is_scalar(c);
        let enc = vstd::utf8::encode_scalar(u);
        assert(encode_utf8(s) == enc + encode_utf8(s.drop_first()));
        assert(encode_utf8(s)[0] == enc[0]);
        assert(crate::format::model::is_account_byte(encode_utf8(s)[0]));
        if vstd::utf8::has_width_1_encoding(u) {
            assert(enc[0] == vstd::utf8::leading_byte_width_1(u));
            assert(u <= 0x7f ==> (u & 0x7F) as u8 == u as u8) by (bit_vector);
            assert(enc[0] == u as u8);
            assert(!crate::format::model::is_white_char(c));
        } else if vstd::utf8::has_width_2_encoding(u) {
            assert(enc[0] == vstd::utf8::leading_byte_width_2(u));
            assert((0xC0u8 | ((u >> 6) & 0x1F) as u8) >= 0xC0) by (bit_vector);
            assert(false);
        } else if vstd::utf8::has_width_3_encoding(u) {
            assert(enc[0] == vstd::utf8::leading_byte_width_3(u));
            assert((0xE0u8 | ((u >> 12) & 0x0F) as u8) >= 0xE0) by (bit_vector);
            assert(false);
        } else {
            assert(enc[0] == vstd::utf8::leading_byte_width_4(u));
            assert((0xF0u8 | ((u >> 18) & 0x7) as u8) >= 0xF0) by (bit_vector);
            assert(false);
        }
    }
}

/// One unfolding step of the lexicographic order under a shared prefix.
proof fn lemma_bytes_lt_step(a: Seq<u8>, b: Seq<u8>, i: int)
    requires
        0 <= i,
        i < a.len(),
        i < b.len(),
        a[i] == b[i],
    ensures
        bytes_lt(a.skip(i), b.skip(i)) == bytes_lt(a.skip(i + 1), b.skip(i + 1)),
{
    let x = a.skip(i);
    let y = b.skip(i);
    assert(x[0] == a[i]);
    assert(y[0] == b[i]);
    assert(x.drop_first() =~= a.skip(i + 1));
    assert(y.drop_first() =~= b.skip(i + 1));
}

/// Lexicographic comparison of two byte slices.
pub fn bytes_less(a: &[u8], b: &[u8]) -> (r: bool)
    ensures
        r == bytes_lt(a@, b@),
{
    let an = a.len();
    let bn = b.len();
    let mut i: usize = 0;
    proof {
        assert(a@.skip(0) =~= a@);
        assert(b@.skip(0) =~= b@);
    }
    while i < an && i < bn
        invariant
            0 <= i <= an,
            0 <= i <= bn,
            an == a@.len(),
            bn == b@.len(),
            bytes_lt(a@, b@) == bytes_lt(a@.skip(i as int), b@.skip(i as int)),
        decreases an - i,
    {
        if a[i] < b[i] {
            proof {
                assert(a@.skip(i as int)[0] == a@[i as int]);
                assert(b@.skip(i as int)[0] == b@[i as int]);
            }
            return true;
        }
        if a[i] > b[i] {
            proof {
                assert(a@.skip(i as int)[0] == a@[i as int]);
                assert(b@.skip(i as int)[0] == b@[i as int]);
            }
            return false;
        }
        proof {
            lemma_bytes_lt_step(a@, b@, i as int);
        }
        i += 1;
    }
    proof {
        if i == an {
            assert(a@.skip(i as int).len() == 0);
        } else {
            assert(b@.skip(i as int).len() == 0);
        }
    }
    an < bn
}

/// Whether a character has the Unicode `White_Space` property, matching what
/// `char::is_whitespace` reports.
pub fn char_is_white(c: char) -> (r: bool)
    ensures
        r == is_white_char(c),
{
    let u = c as u32;
    (0x9 <= u && u <= 0xD) || u == 0x20 || u == 0x85 || u == 0xA0 || u == 0x1680 || (0x2000 <= u
        && u <= 0x200A) || u == 0x2028 || u == 0x2029 || u == 0x202F || u == 0x205F || u == 0x3000
}

/// The decimal digit character for a value below ten.
pub open spec fn dec_digit_char(d: int) -> char
    recommends
        0 <= d < 10,
{
    if d == 0 {
        '0'
    } else if d == 1 {
        '1'
    } else if d == 2 {
        '2'
    } else if d == 3 {
        '3'
    } else if d == 4 {
        '4'
    } else if d == 5 {
        '5'
    } else if d == 6 {
        '6'
    } else if d == 7 {
        '7'
    } else if d == 8 {
        '8'
    } else {
        '9'
    }
}

/// The decimal rendering of a non-negative number, most significant digit
/// first, with no leading zeros (a single zero for zero itself).
pub open spec fn dec_digits(n: int) -> Seq<char>
    recommends
        n >= 0,
    decreases n,
{
    if n < 10 {
        seq![dec_digit_char(n)]
    } else {
        dec_digits(n / 10).push(dec_digit_char(n % 10))
    }
}

/// The uppercase hexadecimal digit character for a value below sixteen.
pub open spec fn hex_digit_char(d: int) -> char
    recommends
        0 <= d < 16,
{
    if d < 10 {
        dec_digit_char(d)
    } else if d == 10 {
        'A'
    } else if d == 11 {
        'B'
    } else if d == 12 {
        'C'
    } else if d == 13 {
        'D'
    } else if d == 14 {
        'E'
    } else {
        'F'
    }
}

/// The two-digit uppercase hexadecimal rendering of a byte.
pub open spec fn hex_byte_chars(b: u8) -> Seq<char> {
    seq![hex_digit_char(b as int / 16), hex_digit_char(b as int % 16)]
}

/// The one-character string for a decimal digit.
fn dec_digit_str(d: usize) -> (r: &'static str)
    requires
        d < 10,
    ensures
        r@ == seq![dec_digit_char(d as int)],
{
    proof {
        reveal_strlit("0");
        reveal_strlit("1");
        reveal_strlit("2");
        reveal_strlit("3");
        reveal_strlit("4");
        reveal_strlit("5");
        reveal_strlit("6");
        reveal_strlit("7");
        reveal_strlit("8");
        reveal_strlit("9");
    }
    if d == 0 {
        proof {
            assert("0"@ =~= seq![dec_digit_char(d as int)]);
        }
        "0"
    } else if d == 1 {
        proof {
            assert("1"@ =~= seq![dec_digit_char(d as int)]);
        }
        "1"
    } else if d == 2 {
        proof {
            assert("2"@ =~= seq![dec_digit_char(d as int)]);
        }
        "2"
    } else if d == 3 {
        proof {
            assert("3"@ =~= seq![dec_digit_char(d as int)]);
        }
        "3"
    } else if d == 4 {
        proof {
            assert("4"@ =~= seq![dec_digit_char(d as int)]);
        }
        "4"
    } else if d == 5 {
        proof {
            assert("5"@ =~= seq![dec_digit_char(d as int)]);
        }
        "5"
    } else if d == 6 {
        proof {
            assert("6"@ =~= seq![dec_digit_char(d as int)]);
        }
        "6"
    } else if d == 7 {
        proof {
            assert("7"@ =~= seq![dec_digit_char(d as int)]);
        }
        "7"
    } else if d == 8 {
        proof {
            assert("8"@ =~= seq![dec_digit_char(d as int)]);
        }
        "8"
    } else {
        proof {
            assert("9"@ =~= seq![dec_digit_char(d as int)]);
        }
        "9"
    }
}

/// The one-character string for an uppercase hexadecimal digit.
fn hex_digit_str(d: u8) -> (r: &'static str)
    requires
        d < 16,
    ensures
        r@ == seq![hex_digit_char(d as int)],
{
    if d < 10 {
        dec_digit_str(d as usize)
    } else {
        proof {
            reveal_strlit("A");
            reveal_strlit("B");
            reveal_strlit("C");
            reveal_strlit("D");
            reveal_strlit("E");
            reveal_strlit("F");
        }
        if d == 10 {
            proof {
                assert("A"@ =~= seq![hex_digit_char(d as int)]);
            }
            "A"
        } else if d == 11 {
            proof {
                assert("B"@ =~= seq![hex_digit_char(d as int)]);
            }
            "B"
        } else if d == 12 {
            proof {
                assert("C"@ =~= seq![hex_digit_char(d as int)]);
            }
            "C"
        } else if d == 13 {
            proof {
                assert("D"@ =~= seq![hex_digit_char(d as int)]);
            }
            "D"
        } else if d == 14 {
            proof {
                assert("E"@ =~= seq![hex_digit_char(d as int)]);
            }
            "E"
        } else {
            proof {
                assert("F"@ =~= seq![hex_digit_char(d as int)]);
            }
            "F"
        }
    }
}

/// Renders a number in decimal.
pub fn usize_to_string(n: usize) -> (r: String)
    ensures
        r@ == dec_digits(n as int),
    decreases n,
{
    if n < 10 {
        dec_digit_str(n).to_owned()
    } else {
        let mut prefix = usize_to_string(n / 10);
        prefix.append(dec_digit_str(n % 10));
        proof {
            assert(prefix@ =~= dec_digits(n as int));
        }
        prefix
    }
}

/// Renders a byte as two uppercase hexadecimal digits.
pub fn byte_to_hex_string(b: u8) -> (r: String)
    ensures
        r@ == hex_byte_chars(b),
{
    let mut s = hex_digit_str(b / 16).to_owned();
    s.append(hex_digit_str(b % 16));
    proof {
        assert(s@ =~= hex_byte_chars(b));
    }
    s
}

} // verus!
