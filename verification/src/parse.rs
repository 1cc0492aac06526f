//! Line parsing for the command surface: whitespace tokenization and decimal
//! integer parsing, with exact specifications of both.

use vstd::prelude::*;

verus! {

/// ASCII whitespace, the separators recognized between command tokens.
pub open spec fn is_space(c: char) -> bool {
    c == ' ' || c == '\t' || c == '\n' || c == '\r' || c == '\u{b}' || c == '\u{c}'
}

/// Length of the maximal non-whitespace prefix of `s`.
pub open spec fn token_prefix_len(s: Seq<char>) -> nat
    decreases s.len(),
{
    if s.len() == 0 || is_space(s[0]) {
        0
    } else {
        1 + token_prefix_len(s.skip(1))
    }
}

/// The non-whitespace prefix never runs past the end of the sequence.
pub proof fn lemma_token_prefix_len_le(s: Seq<char>)
    ensures
        token_prefix_len(s) <= s.len(),
    decreases s.len(),
{
    if s.len() > 0 && !is_space(s[0]) {
        lemma_token_prefix_len_le(s.skip(1));
    }
}

/// The whitespace-separated tokens of `s`, in order.
pub open spec fn spec_tokens(s: Seq<char>) -> Seq<Seq<char>>
    decreases s.len(),
    via spec_tokens_decreases
{
    if s.len() == 0 {
        Seq::empty()
    } else if is_space(s[0]) {
        spec_tokens(s.skip(1))
    } else {
        seq![s.take(token_prefix_len(s) as int)] + spec_tokens(s.skip(token_prefix_len(s) as int))
    }
}

#[via_fn]
proof fn spec_tokens_decreases(s: Seq<char>) {
    if s.len() > 0 && !is_space(s[0]) {
        lemma_token_prefix_len_le(s);
    }
}

/// A run of non-whitespace characters stopped by the end or by whitespace is
/// exactly the token prefix.
pub proof fn lemma_token_prefix_len_eq(s: Seq<char>, t: int)
    requires
        0 <= t <= s.len(),
        forall|k: int| 0 <= k < t ==> !is_space(s[k]),
        t < s.len() ==> is_space(s[t]),
    ensures
        token_prefix_len(s) == t,
    decreases t,
{
    if t == 0 {
    } else {
        assert(!is_space(s[0]));
        assert forall|k: int| 0 <= k < t - 1 implies !is_space(s.skip(1)[k]) by {
            assert(s.skip(1)[k] == s[k + 1]);
        }
        if t - 1 < s.skip(1).len() {
            assert(s.skip(1)[t - 1] == s[t]);
        }
        lemma_token_prefix_len_eq(s.skip(1), t - 1);
    }
}

/// Recognizes the separators of `is_space`.
fn is_space_char(c: char) -> (r: bool)
    ensures
        r == is_space(c),
{
    c == ' ' || c == '\t' || c == '\n' || c == '\r' || c == '\u{b}' || c == '\u{c}'
}

/// Character-wise string comparison.
pub fn str_eq(a: &str, b: &str) -> (r: bool)
    ensures
        r == (a@ == b@),
{
    let na: usize = a.unicode_len();
    let nb: usize = b.unicode_len();
    if na != nb {
        return false;
    }
    let mut i: usize = 0;
    while i < na
        invariant
            i <= na,
            na == a@.len(),
            na == b@.len(),
            forall|k: int| 0 <= k < i ==> a@[k] == b@[k],
        decreases na - i,
    {
        if a.get_char(i) != b.get_char(i) {
            return false;
        }
        i = i + 1;
    }
    proof {
        assert(a@ =~= b@);
    }
    true
}

/// Splits `s` into its whitespace-separated tokens, as `spec_tokens` lists
/// them.
pub fn split_tokens(s: &str) -> (tokens: Vec<String>)
    ensures
        tokens.deep_view() == spec_tokens(s@),
{
    let n: usize = s.unicode_len();
    let mut tokens: Vec<String> = Vec::new();
    let mut i: usize = 0;
    proof {
        assert(s@.skip(0) =~= s@);
        assert(tokens.deep_view() =~= Seq::<Seq<char>>::empty());
        assert(tokens.deep_view() + spec_tokens(s@) =~= spec_tokens(s@));
    }
    while i < n
        invariant
            i <= n,
            n == s@.len(),
            spec_tokens(s@) == tokens.deep_view() + spec_tokens(s@.skip(i as int)),
        decreases n - i,
    {
        let c = s.get_char(i);
        if is_space_char(c) {
            proof {
                assert(s@.skip(i as int).skip(1) =~= s@.skip(i + 1));
            }
            i = i + 1;
        } else {
            let start: usize = i;
            let mut j: usize = i + 1;
            while j < n
                invariant
                    n == s@.len(),
                    start < j <= n,
                    forall|k: int| start <= k < j ==> !is_space(s@[k]),
                ensures
                    start < j <= n,
                    forall|k: int| start <= k < j ==> !is_space(s@[k]),
                    j < n ==> is_space(s@[j as int]),
                decreases n - j,
            {
                let cj = s.get_char(j);
                if is_space_char(cj) {
                    break ;
                }
                j = j + 1;
            }
            let tok = s.substring_char(start, j).to_owned();
            proof {
                let u = s@.skip(start as int);
                assert forall|k: int| 0 <= k < j - start implies !is_space(u[k]) by {
                    assert(u[k] == s@[start + k]);
                }
                if j - start < u.len() {
                    assert(u[j - start] == s@[j as int]);
                }
                lemma_token_prefix_len_eq(u, j - start);
                assert(u.take(j - start) =~= s@.subrange(start as int, j as int));
                assert(u.skip(j - start) =~= s@.skip(j as int));
            }
            let ghost prev = tokens.deep_view();
            tokens.push(tok);
            proof {
                assert(tokens.deep_view() =~= prev + seq![tok@]);
                assert(prev + seq![tok@] + spec_tokens(s@.skip(j as int)) =~= prev + (seq![
                    s@.skip(i as int).take(j - start),
                ] + spec_tokens(s@.skip(i as int).skip(j - start))));
            }
            i = j;
        }
    }
    proof {
        assert(spec_tokens(s@.skip(n as int)) =~= Seq::<Seq<char>>::empty());
        assert(tokens.deep_view() =~= tokens.deep_view() + Seq::<Seq<char>>::empty());
    }
    tokens
}

/// An ASCII decimal digit.
pub open spec fn is_digit(c: char) -> bool {
    '0' as u32 <= c as u32 && c as u32 <= '9' as u32
}

/// Numeric value of one digit.
pub open spec fn digit_val(c: char) -> int {
    c as u32 - '0' as u32
}

/// Every character of `s` is a digit.
pub open spec fn all_digits(s: Seq<char>) -> bool {
    forall|i: int| 0 <= i < s.len() ==> is_digit(s[i])
}

/// Value of a digit string, most significant digit first.
pub open spec fn digits_val(s: Seq<char>) -> int
    decreases s.len(),
{
    if s.len() == 0 {
        0
    } else {
        digits_val(s.drop_last()) * 10 + digit_val(s.last())
    }
}

/// The digits of an integer token, after any single leading sign.
pub open spec fn int_token_body(s: Seq<char>) -> Seq<char> {
    if s.len() > 0 && (s[0] == '+' || s[0] == '-') {
        s.skip(1)
    } else {
        s
    }
}

/// Whether an integer token carries a leading minus sign.
pub open spec fn int_token_negative(s: Seq<char>) -> bool {
    s.len() > 0 && s[0] == '-'
}

/// Signed value denoted by an integer token.
pub open spec fn int_token_value(s: Seq<char>) -> int {
    if int_token_negative(s) {
        -digits_val(int_token_body(s))
    } else {
        digits_val(int_token_body(s))
    }
}

/// `s` is an optional sign followed by at least one digit, with a value
/// that fits a 32-bit signed integer — exactly the tokens the standard
/// decimal parser accepts.
pub open spec fn is_i32_token(s: Seq<char>) -> bool {
    &&& int_token_body(s).len() > 0
    &&& all_digits(int_token_body(s))
    &&& i32::MIN <= int_token_value(s) <= i32::MAX
}

/// A digit string never denotes a negative value.
proof fn lemma_digits_val_nonneg(s: Seq<char>)
    requires
        all_digits(s),
    ensures
        digits_val(s) >= 0,
    decreases s.len(),
{
    if s.len() > 0 {
        lemma_digits_val_nonneg(s.drop_last());
    }
}

/// Taking one more digit multiplies the prefix value by ten and adds it.
proof fn lemma_digits_val_extend(s: Seq<char>, j: int)
    requires
        0 <= j < s.len(),
    ensures
        digits_val(s.take(j + 1)) == digits_val(s.take(j)) * 10 + digit_val(s[j]),
{
    assert(s.take(j + 1).drop_last() =~= s.take(j));
    assert(s.take(j + 1).last() == s[j]);
}

/// A digit string is worth at least any of its prefixes.
proof fn lemma_digits_val_prefix_le(s: Seq<char>, j: int)
    requires
        all_digits(s),
        0 <= j <= s.len(),
    ensures
        digits_val(s.take(j)) <= digits_val(s),
    decreases s.len() - j,
{
    if j == s.len() {
        assert(s.take(j) =~= s);
    } else {
        lemma_digits_val_extend(s, j);
        assert(all_digits(s.take(j)));
        lemma_digits_val_nonneg(s.take(j));
        lemma_digits_val_prefix_le(s, j + 1);
    }
}

/// Parses a decimal integer token: an optional sign followed by one or more
/// digits, rejected when malformed or when the value overflows 32 bits.
pub fn parse_i32(s: &str) -> (r: Option<i32>)
    ensures
        match r {
            Some(v) => is_i32_token(s@) && v as int == int_token_value(s@),
            None => !is_i32_token(s@),
        },
{
    let n: usize = s.unicode_len();
    if n == 0 {
        return None;
    }
    let first = s.get_char(0);
    let neg = first == '-';
    let start: usize = if first == '-' || first == '+' {
        1
    } else {
        0
    };
    if start == n {
        return None;
    }
    let ghost body = int_token_body(s@);
    proof {
        assert(body =~= s@.skip(start as int));
    }
    let mut mag: u64 = 0;
    let mut idx: usize = start;
    while idx < n
        invariant
            start <= idx <= n,
            n == s@.len(),
            start < n,
            body == int_token_body(s@),
            body =~= s@.skip(start as int),
            all_digits(body.take(idx - start)),
            mag as int == digits_val(body.take(idx - start)),
            mag <= 0x8000_0000,
        decreases n - idx,
    {
        let c = s.get_char(idx);
        let cu: u32 = c as u32;
        proof {
            assert(body[idx - start] == s@[idx as int]);
        }
        if cu < '0' as u32 || cu > '9' as u32 {
            return None;
        }
        let d: u64 = (cu - '0' as u32) as u64;
        let next: u64 = mag * 10 + d;
        proof {
            lemma_digits_val_extend(body, idx - start);
        }
        if next > 0x8000_0000 {
            proof {
                if all_digits(body) {
                    lemma_digits_val_prefix_le(body, idx - start + 1);
                }
            }
            return None;
        }
        mag = next;
        idx = idx + 1;
    }
    proof {
        assert(body.take(n - start) =~= body);
    }
    if neg {
        let v: i64 = -(mag as i64);
        proof {
            assert(i32::MIN <= v <= i32::MAX);
        }
        Some(v as i32)
    } else {
        if mag <= 0x7FFF_FFFF {
            Some(mag as i32)
        } else {
            None
        }
    }
}

} // verus!
