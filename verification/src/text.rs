use vstd::prelude::*;
use vstd::string::StrSliceExecFns;

verus! {

/// Strict lexicographic order on texts, character by character, a proper
/// prefix coming first. This is the order in which `String`s compare, since
/// UTF-8 keeps the order of code points.
pub open spec fn lex_lt(a: Seq<char>, b: Seq<char>) -> bool
    decreases a.len(),
{
    if b.len() == 0 {
        false
    } else if a.len() == 0 {
        true
    } else if (a[0] as u32) < (b[0] as u32) {
        true
    } else if a[0] == b[0] {
        lex_lt(a.drop_first(), b.drop_first())
    } else {
        false
    }
}

/// No text comes before itself.
pub proof fn lemma_lex_irreflexive(a: Seq<char>)
    ensures
        !lex_lt(a, a),
    decreases a.len(),
{
    if a.len() > 0 {
        lemma_lex_irreflexive(a.drop_first());
    }
}

/// Of two texts, at most one comes before the other.
pub proof fn lemma_lex_asymmetric(a: Seq<char>, b: Seq<char>)
    ensures
        lex_lt(a, b) ==> !lex_lt(b, a),
    decreases a.len(),
{
    if a.len() > 0 && b.len() > 0 && a[0] == b[0] {
        lemma_lex_asymmetric(a.drop_first(), b.drop_first());
    }
}

/// The order of texts is transitive.
pub proof fn lemma_lex_transitive(a: Seq<char>, b: Seq<char>, c: Seq<char>)
    requires
        lex_lt(a, b),
        lex_lt(b, c),
    ensures
        lex_lt(a, c),
    decreases a.len(),
{
    if a.len() > 0 && a[0] == b[0] && b[0] == c[0] {
        lemma_lex_transitive(a.drop_first(), b.drop_first(), c.drop_first());
    }
}

/// Whether two texts are the same.
pub fn same_text(a: &str, b: &str) -> (same: bool)
    ensures
        same == (a@ == b@),
{
    let x: String = a.to_owned();
    let y: String = b.to_owned();
    x == y
}

/// Whether a character is one of the ASCII digits '0' to '9'.
pub open spec fn is_decimal_digit(c: char) -> bool {
    48 <= (c as u32) <= 57
}

/// The number that a string of decimal digits writes, most significant digit
/// first.
pub open spec fn digits_value(d: Seq<char>) -> nat
    decreases d.len(),
{
    if d.len() == 0 {
        0
    } else {
        digits_value(d.drop_last()) * 10 + ((d.last() as u32) - 48) as nat
    }
}

/// The digits of a decimal numeral: the text after an optional leading '+'.
pub open spec fn numeral_digits(s: Seq<char>) -> Seq<char> {
    if s.len() > 0 && s[0] == '+' {
        s.drop_first()
    } else {
        s
    }
}

/// The `u32` that `s` writes in decimal, as `str::parse::<u32>` reads it: an
/// optional '+' and then one or more ASCII digits, of value at most
/// `u32::MAX`; nothing else is accepted, no sign '-' and no white space.
pub open spec fn spec_parse_u32(s: Seq<char>) -> Option<u32> {
    let d = numeral_digits(s);
    if d.len() > 0 && (forall|i: int| 0 <= i < d.len() ==> is_decimal_digit(#[trigger] d[i]))
        && digits_value(d) <= u32::MAX {
        Some(digits_value(d) as u32)
    } else {
        None
    }
}

/// Reads a `u32` written in decimal.
pub fn parse_u32(s: &str) -> (value: Option<u32>)
    ensures
        value == spec_parse_u32(s@),
{
    let n: usize = s.unicode_len();
    if n == 0 {
        return None;
    }
    let mut start: usize = 0;
    if s.get_char(0) == '+' {
        start = 1;
    }
    if start == n {
        return None;
    }
    let ghost d = numeral_digits(s@);
    assert(d =~= s@.subrange(start as int, n as int));
    let limit: u64 = 0xffff_ffff;
    let mut acc: u64 = 0;
    let mut i: usize = start;
    while i < n
        invariant
            start <= i <= n,
            n == s@.len(),
            start < n,
            d == s@.subrange(start as int, n as int),
            d == numeral_digits(s@),
            forall|j: int| start <= j < i ==> is_decimal_digit(#[trigger] s@[j]),
            acc as int == if digits_value(s@.subrange(start as int, i as int)) <= limit {
                digits_value(s@.subrange(start as int, i as int)) as int
            } else {
                limit + 1
            },
            limit == u32::MAX,
        decreases n - i,
    {
        let c: char = s.get_char(i);
        let code: u32 = c as u32;
        if code < 48 || code > 57 {
            assert(d[i - start] == c);
            assert(!is_decimal_digit(d[i - start]));
            return None;
        }
        let digit: u64 = (code - 48) as u64;
        let ghost prefix = s@.subrange(start as int, i as int);
        assert(s@.subrange(start as int, i + 1).drop_last() =~= prefix);
        if acc > limit {
            acc = limit + 1;
        } else {
            let next: u64 = acc * 10 + digit;
            if next > limit {
                acc = limit + 1;
            } else {
                acc = next;
            }
        }
        i = i + 1;
    }
    assert(s@.subrange(start as int, n as int) =~= d);
    assert forall|j: int| 0 <= j < d.len() implies is_decimal_digit(#[trigger] d[j]) by {
        assert(d[j] == s@[start + j]);
    }
    if acc > limit {
        None
    } else {
        Some(acc as u32)
    }
}

} // verus!
