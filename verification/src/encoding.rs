//! Text encodings of byte strings: base58 (keys and signatures), base64
//! (encrypted payload fields) and the JSON array form of a keypair file.
//!
//! The base58 and base64 codecs are those of the `bs58` and `base64`
//! crates; JSON arrays are written and read by `serde_json`.
use vstd::prelude::*;
use vstd::utf8::encode_utf8;
use crate::text::decimal;
use base64::Engine;

verus! {

/// The bytes held in an optional vector.
pub open spec fn opt_bytes(o: Option<Vec<u8>>) -> Option<Seq<u8>> {
    match o {
        Some(v) => Some(v@),
        None => None,
    }
}

// ---------------------------------------------------------------- base58

/// The base58 digit `d` (below 58) of the Bitcoin alphabet
/// `123456789ABCDEFGHJKLMNPQRSTUVWXYZabcdefghijkmnopqrstuvwxyz`.
pub open spec fn base58_digit(d: nat) -> char {
    if d < 9 {
        ((49 + d) as u32) as char  // 1-9
    } else if d < 17 {
        ((65 + d - 9) as u32) as char  // A-H
    } else if d < 22 {
        ((74 + d - 17) as u32) as char  // J-N
    } else if d < 33 {
        ((80 + d - 22) as u32) as char  // P-Z
    } else if d < 44 {
        ((97 + d - 33) as u32) as char  // a-k
    } else {
        ((109 + d - 44) as u32) as char  // m-z
    }
}

/// The big-endian value of `bytes`.
pub open spec fn big_endian_value(bytes: Seq<u8>) -> nat
    decreases bytes.len(),
{
    if bytes.len() == 0 {
        0
    } else {
        big_endian_value(bytes.drop_last()) * 256 + bytes.last() as nat
    }
}

/// The base58 digits of `n`, most significant first, none for zero.
pub open spec fn base58_digits(n: nat) -> Seq<char>
    decreases n,
{
    if n == 0 {
        Seq::empty()
    } else {
        base58_digits(n / 58).push(base58_digit(n % 58))
    }
}

/// The base58 text of `bytes`: a `1` for each leading zero byte, then the
/// base58 digits of the value of the rest, as `bs58::encode(bytes).into_string()`
/// writes it.
pub open spec fn base58_encode(bytes: Seq<u8>) -> Seq<char>
    decreases bytes.len(),
{
    if bytes.len() > 0 && bytes[0] == 0 {
        seq!['1'] + base58_encode(bytes.drop_first())
    } else {
        base58_digits(big_endian_value(bytes))
    }
}

/// What `bs58::decode(text).into_vec()` gives for `text`: the byte string
/// whose base58 text is `text` (there is at most one), or `None` where
/// there is none, as for a text with a character outside the alphabet.
pub open spec fn base58_decode(text: Seq<char>) -> Option<Seq<u8>> {
    if exists|x: Seq<u8>| #[trigger] base58_encode(x) == text {
        Some(choose|x: Seq<u8>| #[trigger] base58_encode(x) == text)
    } else {
        None
    }
}

/// `bs58::encode(bytes).into_string()`.
///
/// Claims that the result is `base58_encode(bytes)`: leading zero bytes as
/// `1`s, then the base58 digits of the big-endian value of the rest.
#[verifier::external_body]
pub(crate) fn base58_encode_bytes(bytes: &[u8]) -> (text: String)
    ensures
        text@ == base58_encode(bytes@),
{
    bs58::encode(bytes).into_string()
}

/// `bs58::decode(text).into_vec()`, with its error mapped to `None`.
///
/// Claims that the bytes it gives are a byte string whose base58 text is
/// `text` (each leading `1` gives a zero byte, the rest gives the
/// big-endian bytes of its value, with no leading zero byte), and that it
/// fails only where no byte string has `text` as its base58 text (a
/// character outside the alphabet).
#[verifier::external_body]
fn bs58_decode(text: &str) -> (bytes: Option<Vec<u8>>)
    ensures
        bytes matches Some(b) ==> base58_encode(b@) == text@,
        bytes is None ==> forall|x: Seq<u8>| #[trigger] base58_encode(x) != text@,
{
    match bs58::decode(text).into_vec() {
        Ok(v) => Some(v),
        Err(_) => None,
    }
}

/// Decodes the base58 text `text`: the byte string whose text it is, or
/// `None` where there is none.
pub(crate) fn base58_decode_text(text: &str) -> (bytes: Option<Vec<u8>>)
    ensures
        opt_bytes(bytes) == base58_decode(text@),
        forall|x: Seq<u8>| #[trigger] base58_encode(x) == text@ ==> opt_bytes(bytes) == Some(x),
{
    let bytes = bs58_decode(text);
    proof {
        if bytes is Some {
            let b = bytes->Some_0@;
            assert forall|x: Seq<u8>| #[trigger] base58_encode(x) == text@ implies x == b by {
                lemma_base58_encode_injective(x, b);
            }
            assert(base58_encode(b) == text@);
        }
    }
    bytes
}

/// The base58 digits are distinct.
proof fn lemma_base58_digit_injective(a: nat, b: nat)
    requires
        a < 58,
        b < 58,
        base58_digit(a) == base58_digit(b),
    ensures
        a == b,
{
}

/// The base58 digits of a positive number do not start with the digit of
/// zero, `1`.
proof fn lemma_base58_digits_lead(n: nat)
    requires
        n > 0,
    ensures
        base58_digits(n).len() > 0,
        base58_digits(n)[0] != '1',
    decreases n,
{
    if n / 58 == 0 {
        assert(base58_digits(n / 58) =~= Seq::<char>::empty());
        assert(base58_digits(n)[0] == base58_digit(n % 58));
    } else {
        lemma_base58_digits_lead(n / 58);
        assert(base58_digits(n)[0] == base58_digits(n / 58)[0]);
    }
}

/// Different numbers have different base58 digits.
proof fn lemma_base58_digits_injective(m: nat, n: nat)
    requires
        base58_digits(m) == base58_digits(n),
    ensures
        m == n,
    decreases m,
{
    if m == 0 || n == 0 {
        if m != 0 {
            assert(base58_digits(m).len() > 0);
        }
        if n != 0 {
            assert(base58_digits(n).len() > 0);
        }
    } else {
        let dm = base58_digits(m);
        let dn = base58_digits(n);
        assert(dm.last() == base58_digit(m % 58));
        assert(dn.last() == base58_digit(n % 58));
        lemma_base58_digit_injective(m % 58, n % 58);
        assert(dm.drop_last() =~= base58_digits(m / 58));
        assert(dn.drop_last() =~= base58_digits(n / 58));
        lemma_base58_digits_injective(m / 58, n / 58);
    }
}

/// A byte string of value zero starts with a zero byte.
proof fn lemma_value_zero(bytes: Seq<u8>)
    requires
        bytes.len() > 0,
        big_endian_value(bytes) == 0,
    ensures
        bytes[0] == 0,
    decreases bytes.len(),
{
    if bytes.len() > 1 {
        lemma_value_zero(bytes.drop_last());
    }
}

/// Whether `bytes` is empty or starts with a byte other than zero.
pub open spec fn no_leading_zero(bytes: Seq<u8>) -> bool {
    bytes.len() == 0 || bytes[0] != 0
}

/// Byte strings without a leading zero byte differ in value.
proof fn lemma_value_injective(a: Seq<u8>, b: Seq<u8>)
    requires
        no_leading_zero(a),
        no_leading_zero(b),
        big_endian_value(a) == big_endian_value(b),
    ensures
        a == b,
    decreases a.len(),
{
    if a.len() == 0 {
        if b.len() > 0 {
            lemma_value_zero(b);
        }
        assert(a =~= b);
    } else if b.len() == 0 {
        lemma_value_zero(a);
    } else {
        let va = big_endian_value(a.drop_last());
        let vb = big_endian_value(b.drop_last());
        assert(va * 256 + a.last() == vb * 256 + b.last());
        assert(a.last() == b.last() && va == vb);
        lemma_value_injective(a.drop_last(), b.drop_last());
        assert(a =~= a.drop_last().push(a.last()));
        assert(b =~= b.drop_last().push(b.last()));
    }
}

/// The base58 text of a byte string without a leading zero byte does not
/// start with `1`.
proof fn lemma_base58_encode_lead(bytes: Seq<u8>)
    requires
        no_leading_zero(bytes),
    ensures
        base58_encode(bytes).len() == 0 || base58_encode(bytes)[0] != '1',
{
    if bytes.len() > 0 {
        if big_endian_value(bytes) == 0 {
            lemma_value_zero(bytes);
        }
        lemma_base58_digits_lead(big_endian_value(bytes));
    } else {
        assert(base58_encode(bytes) =~= Seq::<char>::empty());
    }
}

/// Base58 encoding is one-to-one: different byte strings have different
/// texts.
pub proof fn lemma_base58_encode_injective(x: Seq<u8>, y: Seq<u8>)
    requires
        base58_encode(x) == base58_encode(y),
    ensures
        x == y,
    decreases x.len(),
{
    let e = base58_encode(x);
    if x.len() > 0 && x[0] == 0 {
        assert(e[0] == '1');
        if y.len() > 0 && y[0] == 0 {
            assert(base58_encode(x.drop_first()) =~= e.drop_first());
            assert(base58_encode(y.drop_first()) =~= e.drop_first());
            lemma_base58_encode_injective(x.drop_first(), y.drop_first());
            assert(x =~= seq![0u8] + x.drop_first());
            assert(y =~= seq![0u8] + y.drop_first());
        } else {
            lemma_base58_encode_lead(y);
        }
    } else if y.len() > 0 && y[0] == 0 {
        assert(base58_encode(y)[0] == '1');
        lemma_base58_encode_lead(x);
    } else {
        lemma_base58_digits_injective(big_endian_value(x), big_endian_value(y));
        lemma_value_injective(x, y);
    }
}

/// Decoding the base58 text of a byte string gives that byte string back.
pub proof fn lemma_base58_roundtrip(x: Seq<u8>)
    ensures
        base58_decode(base58_encode(x)) == Some(x),
{
    let t = base58_encode(x);
    assert(base58_encode(x) == t);
    let c = choose|z: Seq<u8>| #[trigger] base58_encode(z) == t;
    lemma_base58_encode_injective(c, x);
}

// ---------------------------------------------------------------- base64

/// The base64 digit `v` (below 64) of the standard alphabet
/// `A-Z`, `a-z`, `0-9`, `+`, `/`.
pub open spec fn base64_digit(v: nat) -> char {
    if v < 26 {
        ((65 + v) as u32) as char
    } else if v < 52 {
        ((97 + v - 26) as u32) as char
    } else if v < 62 {
        ((48 + v - 52) as u32) as char
    } else if v == 62 {
        '+'
    } else {
        '/'
    }
}

/// The padded base64 text of `bytes` in the standard alphabet: each 3 bytes
/// give 4 digits of 6 bits, and a last group of 1 or 2 bytes is padded with
/// `=`, as `base64::engine::general_purpose::STANDARD.encode(bytes)` writes it.
pub open spec fn base64_encode(bytes: Seq<u8>) -> Seq<char>
    decreases bytes.len(),
{
    if bytes.len() == 0 {
        Seq::empty()
    } else if bytes.len() == 1 {
        seq![base64_digit(bytes[0] as nat / 4), base64_digit((bytes[0] as nat % 4) * 16), '=', '=']
    } else if bytes.len() == 2 {
        seq![
            base64_digit(bytes[0] as nat / 4),
            base64_digit((bytes[0] as nat % 4) * 16 + bytes[1] as nat / 16),
            base64_digit((bytes[1] as nat % 16) * 4),
            '=',
        ]
    } else {
        seq![
            base64_digit(bytes[0] as nat / 4),
            base64_digit((bytes[0] as nat % 4) * 16 + bytes[1] as nat / 16),
            base64_digit((bytes[1] as nat % 16) * 4 + bytes[2] as nat / 64),
            base64_digit(bytes[2] as nat % 64),
        ] + base64_encode(bytes.skip(3))
    }
}

/// What `base64::engine::general_purpose::STANDARD.decode(text)` gives for
/// `text`: the byte string whose padded standard base64 text is `text`
/// (there is at most one), or `None` where there is none.
pub open spec fn base64_decode(text: Seq<char>) -> Option<Seq<u8>> {
    if exists|x: Seq<u8>| #[trigger] base64_encode(x) == text {
        Some(choose|x: Seq<u8>| #[trigger] base64_encode(x) == text)
    } else {
        None
    }
}

/// `STANDARD.encode(bytes)` of the `base64` crate.
///
/// Claims that the result is `base64_encode(bytes)`, the padded standard
/// encoding.
#[verifier::external_body]
pub(crate) fn base64_encode_bytes(bytes: &[u8]) -> (text: String)
    ensures
        text@ == base64_encode(bytes@),
{
    base64::engine::general_purpose::STANDARD.encode(bytes)
}

/// `STANDARD.decode(text)` of the `base64` crate, with its error mapped to
/// `None`.
///
/// Claims that it accepts exactly the canonical padded texts: the bytes it
/// gives are a byte string whose `STANDARD` encoding is `text`, and it
/// fails only where no byte string has `text` as its encoding. (The
/// `STANDARD` engine requires canonical padding and refuses set trailing
/// bits in the last digit, white space and characters outside the
/// alphabet.)
#[verifier::external_body]
fn standard_base64_decode(text: &str) -> (bytes: Option<Vec<u8>>)
    ensures
        bytes matches Some(b) ==> base64_encode(b@) == text@,
        bytes is None ==> forall|x: Seq<u8>| #[trigger] base64_encode(x) != text@,
{
    match base64::engine::general_purpose::STANDARD.decode(text) {
        Ok(v) => Some(v),
        Err(_) => None,
    }
}

/// Decodes the padded standard base64 text `text`: the byte string whose
/// text it is, or `None` where there is none.
pub(crate) fn base64_decode_text(text: &str) -> (bytes: Option<Vec<u8>>)
    ensures
        opt_bytes(bytes) == base64_decode(text@),
        forall|x: Seq<u8>| #[trigger] base64_encode(x) == text@ ==> opt_bytes(bytes) == Some(x),
{
    let bytes = standard_base64_decode(text);
    proof {
        if bytes is Some {
            let b = bytes->Some_0@;
            assert forall|x: Seq<u8>| #[trigger] base64_encode(x) == text@ implies x == b by {
                lemma_base64_encode_injective(x, b);
            }
            assert(base64_encode(b) == text@);
        }
    }
    bytes
}

/// The base64 digits are distinct, and none is the padding `=`.
proof fn lemma_base64_digit_injective(a: nat, b: nat)
    requires
        a < 64,
        b < 64,
    ensures
        base64_digit(a) == base64_digit(b) ==> a == b,
        base64_digit(a) != '=',
{
}

/// A number below 256 is determined by its quotient and remainder by `k`.
proof fn lemma_div_mod_determine(b: nat, c: nat, k: nat)
    requires
        0 < k,
        b / k == c / k,
        b % k == c % k,
    ensures
        b == c,
{
    vstd::arithmetic::div_mod::lemma_fundamental_div_mod(b as int, k as int);
    vstd::arithmetic::div_mod::lemma_fundamental_div_mod(c as int, k as int);
}

/// `q * m + r` with `r` below `m` determines `q` and `r`.
proof fn lemma_digit_split(q1: nat, r1: nat, q2: nat, r2: nat, m: nat)
    requires
        0 < m,
        r1 < m,
        r2 < m,
        q1 * m + r1 == q2 * m + r2,
    ensures
        q1 == q2,
        r1 == r2,
{
    vstd::arithmetic::div_mod::lemma_fundamental_div_mod_converse(
        (q1 * m + r1) as int,
        m as int,
        q1 as int,
        r1 as int,
    );
    vstd::arithmetic::div_mod::lemma_fundamental_div_mod_converse(
        (q2 * m + r2) as int,
        m as int,
        q2 as int,
        r2 as int,
    );
}

/// The base64 text of a non-empty byte string has at least four
/// characters; its third is `=` exactly for one byte, and its fourth
/// exactly for one or two bytes.
proof fn lemma_base64_shape(x: Seq<u8>)
    requires
        x.len() > 0,
    ensures
        base64_encode(x).len() >= 4,
        (base64_encode(x)[2] == '=') <==> x.len() == 1,
        (base64_encode(x)[3] == '=') <==> x.len() <= 2,
{
    let e = base64_encode(x);
    if x.len() == 1 {
        lemma_base64_digit_injective(x[0] as nat / 4, 0);
        lemma_base64_digit_injective((x[0] as nat % 4) * 16, 0);
    } else if x.len() == 2 {
        lemma_base64_digit_injective((x[1] as nat % 16) * 4, 0);
    } else {
        lemma_base64_digit_injective((x[1] as nat % 16) * 4 + x[2] as nat / 64, 0);
        lemma_base64_digit_injective(x[2] as nat % 64, 0);
        assert(e[2] == base64_digit((x[1] as nat % 16) * 4 + x[2] as nat / 64));
        assert(e[3] == base64_digit(x[2] as nat % 64));
    }
}

/// The first two digits of the base64 text of a non-empty byte string.
proof fn lemma_base64_first_digits(x: Seq<u8>)
    requires
        x.len() > 0,
    ensures
        base64_encode(x)[0] == base64_digit(x[0] as nat / 4),
        x.len() == 1 ==> base64_encode(x)[1] == base64_digit((x[0] as nat % 4) * 16),
        x.len() >= 2 ==> base64_encode(x)[1] == base64_digit(
            (x[0] as nat % 4) * 16 + x[1] as nat / 16,
        ),
        x.len() == 2 ==> base64_encode(x)[2] == base64_digit((x[1] as nat % 16) * 4),
{
}

/// Base64 encoding is one-to-one: different byte strings have different
/// texts.
pub proof fn lemma_base64_encode_injective(x: Seq<u8>, y: Seq<u8>)
    requires
        base64_encode(x) == base64_encode(y),
    ensures
        x == y,
    decreases x.len(),
{
    let e = base64_encode(x);
    if x.len() == 0 || y.len() == 0 {
        if x.len() > 0 {
            lemma_base64_shape(x);
        }
        if y.len() > 0 {
            lemma_base64_shape(y);
        }
        assert(x =~= y);
    } else {
        lemma_base64_shape(x);
        lemma_base64_shape(y);
        lemma_base64_first_digits(x);
        lemma_base64_first_digits(y);
        let (x0, y0) = (x[0] as nat, y[0] as nat);
        // first digit: the top six bits of the first byte
        lemma_base64_digit_injective(x0 / 4, y0 / 4);
        assert(x0 / 4 == y0 / 4);
        if x.len() == 1 {
            assert(y.len() == 1);
            lemma_base64_digit_injective((x0 % 4) * 16, (y0 % 4) * 16);
            lemma_div_mod_determine(x0, y0, 4);
            assert(x =~= y);
        } else {
            let (x1, y1) = (x[1] as nat, y[1] as nat);
            assert(y.len() >= 2);
            lemma_base64_digit_injective((x0 % 4) * 16 + x1 / 16, (y0 % 4) * 16 + y1 / 16);
            lemma_digit_split(x0 % 4, x1 / 16, y0 % 4, y1 / 16, 16);
            lemma_div_mod_determine(x0, y0, 4);
            if x.len() == 2 {
                assert(y.len() == 2);
                lemma_base64_digit_injective((x1 % 16) * 4, (y1 % 16) * 4);
                lemma_div_mod_determine(x1, y1, 16);
                assert(x =~= y);
            } else {
                let (x2, y2) = (x[2] as nat, y[2] as nat);
                assert(y.len() >= 3);
                assert(e[2] == base64_digit((x1 % 16) * 4 + x2 / 64));
                assert(base64_encode(y)[2] == base64_digit((y1 % 16) * 4 + y2 / 64));
                lemma_base64_digit_injective((x1 % 16) * 4 + x2 / 64, (y1 % 16) * 4 + y2 / 64);
                lemma_digit_split(x1 % 16, x2 / 64, y1 % 16, y2 / 64, 4);
                lemma_div_mod_determine(x1, y1, 16);
                assert(e[3] == base64_digit(x2 % 64));
                assert(base64_encode(y)[3] == base64_digit(y2 % 64));
                lemma_base64_digit_injective(x2 % 64, y2 % 64);
                lemma_div_mod_determine(x2, y2, 64);
                assert(base64_encode(x.skip(3)) =~= e.skip(4));
                assert(base64_encode(y.skip(3)) =~= e.skip(4));
                lemma_base64_encode_injective(x.skip(3), y.skip(3));
                assert(x =~= x.take(3) + x.skip(3));
                assert(y =~= y.take(3) + y.skip(3));
                assert(x.take(3) =~= y.take(3));
            }
        }
    }
}

/// Decoding the base64 text of a byte string gives that byte string back.
pub proof fn lemma_base64_roundtrip(x: Seq<u8>)
    ensures
        base64_decode(base64_encode(x)) == Some(x),
{
    let t = base64_encode(x);
    assert(base64_encode(x) == t);
    let c = choose|z: Seq<u8>| #[trigger] base64_encode(z) == t;
    lemma_base64_encode_injective(c, x);
}

// ---------------------------------------------------------------- JSON

/// The comma-separated decimal numerals of `bytes`.
pub open spec fn json_numbers(bytes: Seq<u8>) -> Seq<char>
    decreases bytes.len(),
{
    if bytes.len() == 0 {
        Seq::empty()
    } else if bytes.len() == 1 {
        decimal(bytes[0] as nat)
    } else {
        decimal(bytes[0] as nat) + seq![','] + json_numbers(bytes.drop_first())
    }
}

/// The compact JSON array of the numbers of `bytes`, such as `[1,20,255]`.
pub open spec fn json_byte_array(bytes: Seq<u8>) -> Seq<char> {
    seq!['['] + json_numbers(bytes) + seq![']']
}

/// What `serde_json::from_slice::<Vec<u8>>(input)` gives for the bytes
/// `input`: the array it reads, or `None` where it reports an error.
pub uninterp spec fn json_parse_byte_array(input: Seq<u8>) -> Option<Seq<u8>>;

/// `serde_json::to_string(bytes)` for a vector of bytes, which cannot fail
/// for this type.
///
/// Claims that the text is the compact array of the decimal numerals of the
/// bytes, as serde_json writes a sequence of integers.
#[verifier::external_body]
pub(crate) fn json_write_byte_array(bytes: &Vec<u8>) -> (text: String)
    ensures
        text@ == json_byte_array(bytes@),
{
    serde_json::to_string(bytes).unwrap()
}

/// `serde_json::from_slice::<Vec<u8>>(input)`, with its error mapped to
/// `None`.
///
/// Claims that the result is `json_parse_byte_array(input)`, and that the
/// UTF-8 bytes of the compact array of any byte string are read back as
/// that byte string.
#[verifier::external_body]
pub(crate) fn json_read_byte_array(input: &[u8]) -> (bytes: Option<Vec<u8>>)
    ensures
        opt_bytes(bytes) == json_parse_byte_array(input@),
        forall|x: Seq<u8>|
            #[trigger] encode_utf8(json_byte_array(x)) == input@ ==> opt_bytes(bytes) == Some(x),
{
    match serde_json::from_slice::<Vec<u8>>(input) {
        Ok(v) => Some(v),
        Err(_) => None,
    }
}

} // verus!
