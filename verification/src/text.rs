//! Character-level helpers shared by the other modules: decimal numerals,
//! word counting and the lexicographic order on names.
use vstd::prelude::*;
use vstd::utf8::{encode_scalar, encode_utf8};

verus! {

/// The ASCII digit for `d`, which is below ten.
pub open spec fn digit_char(d: nat) -> char {
    ((48 + d) as u32) as char
}

/// The decimal numeral of `n`, most significant digit first, with no
/// leading zeros (zero itself is the single digit `0`).
pub open spec fn decimal(n: nat) -> Seq<char>
    decreases n,
{
    if n < 10 {
        seq![digit_char(n)]
    } else {
        decimal(n / 10).push(digit_char(n % 10))
    }
}

/// Whether `c` is ASCII white space: space, tab, line feed, vertical tab,
/// form feed or carriage return (the ASCII characters that
/// `char::is_whitespace` accepts).
pub open spec fn is_ascii_space(c: char) -> bool {
    c == ' ' || (9 <= (c as u32) && (c as u32) <= 13)
}

/// Whether every character of `s` is ASCII.
pub open spec fn all_ascii(s: Seq<char>) -> bool {
    forall|i: int| 0 <= i < s.len() ==> (#[trigger] s[i] as u32) < 128
}

/// The number of words of `s`: maximal runs of characters other than ASCII
/// white space.
pub open spec fn word_count(s: Seq<char>) -> nat
    decreases s.len(),
{
    if s.len() == 0 {
        0
    } else {
        let starts_word: nat = if !is_ascii_space(s.last()) && (s.len() == 1 || is_ascii_space(
            s[s.len() - 2],
        )) {
            1
        } else {
            0
        };
        word_count(s.drop_last()) + starts_word
    }
}

/// `a` comes before `b`, or equals it, in the lexicographic order of code
/// points (the order of `String`'s `Ord`).
pub open spec fn lex_le(a: Seq<char>, b: Seq<char>) -> bool
    decreases a.len(),
{
    if a.len() == 0 {
        true
    } else if b.len() == 0 {
        false
    } else if (a[0] as u32) != (b[0] as u32) {
        (a[0] as u32) < (b[0] as u32)
    } else {
        lex_le(a.drop_first(), b.drop_first())
    }
}

/// Any two names are ordered one way or the other.
pub proof fn lemma_lex_le_total(a: Seq<char>, b: Seq<char>)
    ensures
        lex_le(a, b) || lex_le(b, a),
    decreases a.len(),
{
    if a.len() > 0 && b.len() > 0 && (a[0] as u32) == (b[0] as u32) {
        lemma_lex_le_total(a.drop_first(), b.drop_first());
    }
}

/// The order on names is transitive.
pub proof fn lemma_lex_le_transitive(a: Seq<char>, b: Seq<char>, c: Seq<char>)
    requires
        lex_le(a, b),
        lex_le(b, c),
    ensures
        lex_le(a, c),
    decreases a.len(),
{
    if a.len() > 0 && b.len() > 0 && c.len() > 0 && (a[0] as u32) == (b[0] as u32)
        && (b[0] as u32) == (c[0] as u32) {
        lemma_lex_le_transitive(a.drop_first(), b.drop_first(), c.drop_first());
    }
}

/// A name comes at or before every name that it begins: `lex_le(a, a + s)`
/// for every `s`, as in `String`'s order.
pub proof fn lemma_lex_le_prefix(a: Seq<char>, s: Seq<char>)
    ensures
        lex_le(a, a + s),
    decreases a.len(),
{
    if a.len() > 0 {
        assert((a + s).drop_first() =~= a.drop_first() + s);
        assert((a + s)[0] == a[0]);
        lemma_lex_le_prefix(a.drop_first(), s);
    }
}

/// At the first place where two names differ, the smaller code point comes
/// first: if `a` and `b` agree before `i` and `a[i] < b[i]`, then `a` comes
/// strictly before `b`.
pub proof fn lemma_lex_le_first_difference(a: Seq<char>, b: Seq<char>, i: int)
    requires
        0 <= i < a.len(),
        i < b.len(),
        a.take(i) == b.take(i),
        (a[i] as u32) < (b[i] as u32),
    ensures
        lex_le(a, b),
        !lex_le(b, a),
    decreases i,
{
    if i > 0 {
        assert(a[0] == a.take(i)[0]);
        assert(b[0] == b.take(i)[0]);
        assert(a.drop_first().take(i - 1) =~= b.drop_first().take(i - 1)) by {
            assert forall|k: int| 0 <= k < i - 1 implies a.drop_first()[k] == b.drop_first()[k] by {
                assert(a[k + 1] == a.take(i)[k + 1]);
                assert(b[k + 1] == b.take(i)[k + 1]);
            }
        }
        lemma_lex_le_first_difference(a.drop_first(), b.drop_first(), i - 1);
    }
}

/// A name that is longer than a name it begins with comes strictly after
/// it.
pub proof fn lemma_lex_le_proper_prefix(a: Seq<char>, s: Seq<char>)
    requires
        s.len() > 0,
    ensures
        !lex_le(a + s, a),
    decreases a.len(),
{
    if a.len() > 0 {
        assert((a + s).drop_first() =~= a.drop_first() + s);
        assert((a + s)[0] == a[0]);
        lemma_lex_le_proper_prefix(a.drop_first(), s);
    }
}

/// Two names each at or before the other are the same name.
pub proof fn lemma_lex_le_antisymmetric(a: Seq<char>, b: Seq<char>)
    requires
        lex_le(a, b),
        lex_le(b, a),
    ensures
        a == b,
    decreases a.len(),
{
    if a.len() > 0 && b.len() > 0 {
        lemma_lex_le_antisymmetric(a.drop_first(), b.drop_first());
        let u = a[0] as u32;
        vstd::utf8::char_u32_cast(a[0], u);
        vstd::utf8::char_u32_cast(b[0], u);
        assert(a[0] == b[0]);
        assert(a =~= seq![a[0]] + a.drop_first());
        assert(b =~= seq![b[0]] + b.drop_first());
    } else {
        assert(a =~= b);
    }
}

/// The UTF-8 encoding of a concatenation is the concatenation of the
/// encodings.
pub proof fn lemma_encode_utf8_concat(a: Seq<char>, b: Seq<char>)
    ensures
        encode_utf8(a + b) == encode_utf8(a) + encode_utf8(b),
    decreases a.len(),
{
    if a.len() == 0 {
        assert(a + b =~= b);
    } else {
        lemma_encode_utf8_concat(a.drop_first(), b);
        assert((a + b).drop_first() =~= a.drop_first() + b);
        assert((a + b)[0] == a[0]);
        assert(encode_scalar(a[0] as u32) + (encode_utf8(a.drop_first()) + encode_utf8(b)) =~= (
        encode_scalar(a[0] as u32) + encode_utf8(a.drop_first())) + encode_utf8(b));
    }
}

/// Appends the character `c` to `s` (`String::push`).
#[verifier::external_body]
pub(crate) fn push_char(s: &mut String, c: char)
    ensures
        final(s)@ == old(s)@.push(c),
{
    s.push(c)
}

/// The decimal numeral of `n`, as `format!("{}", n)` writes it.
pub fn decimal_string(n: usize) -> (s: String)
    ensures
        s@ == decimal(n as nat),
{
    // digits, least significant first
    let mut digits: Vec<char> = Vec::new();
    let mut m: usize = n;
    loop
        invariant_except_break
            m <= n,
            decimal(n as nat) == decimal(m as nat) + digits@.reverse(),
        ensures
            decimal(n as nat) == digits@.reverse(),
        decreases m,
    {
        let d: usize = m % 10;
        let c: char = ((48 + d) as u8) as char;
        assert(c == digit_char(d as nat));
        let ghost before = digits@;
        digits.push(c);
        assert(digits@.reverse() =~= seq![c] + before.reverse());
        if m < 10 {
            assert(decimal(m as nat) == seq![c]);
            break;
        }
        assert(decimal(m as nat) == decimal((m / 10) as nat).push(c));
        assert(decimal((m / 10) as nat).push(c) + before.reverse() =~= decimal((m / 10) as nat)
            + digits@.reverse());
        m = m / 10;
    }
    let mut s = String::new();
    let len = digits.len();
    let mut i: usize = len;
    while i > 0
        invariant
            i <= len,
            len == digits@.len(),
            s@ == digits@.reverse().take((len - i) as int),
        decreases i,
    {
        i = i - 1;
        push_char(&mut s, digits[i]);
        assert(s@ =~= digits@.reverse().take((len - i) as int));
    }
    assert(s@ =~= digits@.reverse());
    s
}

} // verus!
