//! Small verified text utilities: decimal formatting of integers, prefix
//! tests, and extraction of the leading integer token of a free-text field.

use vstd::prelude::*;
use vstd::string::*;
use vstd::arithmetic::div_mod::lemma_fundamental_div_mod;
use crate::HarnessError;

verus! {

/// The whitespace characters that delimit tokens in source text fields: the
/// Unicode White_Space set, which is what str::split_whitespace splits on.
pub open spec fn is_space(c: char) -> bool {
    ||| c == ' '
    ||| ('\t' <= c && c <= '\r')
    ||| c == '\u{85}'
    ||| c == '\u{A0}'
    ||| c == '\u{1680}'
    ||| ('\u{2000}' <= c && c <= '\u{200A}')
    ||| c == '\u{2028}'
    ||| c == '\u{2029}'
    ||| c == '\u{202F}'
    ||| c == '\u{205F}'
    ||| c == '\u{3000}'
}

pub open spec fn is_digit(c: char) -> bool {
    '0' <= c && c <= '9'
}

pub open spec fn digit_val(c: char) -> int {
    c as int - '0' as int
}

/// Numeric value of a sequence of decimal digit characters.
pub open spec fn digits_val(s: Seq<char>) -> int
    decreases s.len(),
{
    if s.len() == 0 {
        0
    } else {
        digits_val(s.drop_last()) * 10 + digit_val(s.last())
    }
}

pub open spec fn all_digits(s: Seq<char>) -> bool {
    forall|i: int| 0 <= i < s.len() ==> is_digit(#[trigger] s[i])
}

pub open spec fn digit_char(d: int) -> char {
    if d == 0 { '0' }
    else if d == 1 { '1' }
    else if d == 2 { '2' }
    else if d == 3 { '3' }
    else if d == 4 { '4' }
    else if d == 5 { '5' }
    else if d == 6 { '6' }
    else if d == 7 { '7' }
    else if d == 8 { '8' }
    else { '9' }
}

/// Decimal representation of a non-negative integer, most significant digit
/// first, with no leading zeros (a single `'0'` for zero).
pub open spec fn dec_digits(n: int) -> Seq<char>
    decreases n,
{
    if n < 10 {
        seq![digit_char(n)]
    } else {
        dec_digits(n / 10).push(digit_char(n % 10))
    }
}

proof fn lemma_digit_char_val(d: int)
    requires
        0 <= d < 10,
    ensures
        is_digit(digit_char(d)),
        digit_val(digit_char(d)) == d,
{
}

/// Decimal rendering round-trips: the digit string of a non-negative integer
/// is all digits and reads back as the same integer.
pub proof fn lemma_dec_digits_val(n: int)
    requires
        n >= 0,
    ensures
        all_digits(dec_digits(n)),
        dec_digits(n).len() >= 1,
        digits_val(dec_digits(n)) == n,
    decreases n,
{
    if n < 10 {
        lemma_digit_char_val(n);
        let s = dec_digits(n);
        assert(s.last() == digit_char(n));
        assert(s.drop_last() =~= Seq::<char>::empty());
        assert(digits_val(Seq::<char>::empty()) == 0);
        assert(digits_val(s) == digits_val(s.drop_last()) * 10 + digit_val(s.last()));
    } else {
        lemma_dec_digits_val(n / 10);
        lemma_digit_char_val(n % 10);
        let p = dec_digits(n / 10);
        let s = dec_digits(n);
        assert(s == p.push(digit_char(n % 10)));
        assert(s.drop_last() =~= p);
        assert(s.last() == digit_char(n % 10));
        lemma_fundamental_div_mod(n, 10);
        assert(digits_val(s) == digits_val(p) * 10 + digit_val(digit_char(n % 10)));
        assert(forall|i: int| 0 <= i < s.len() ==> is_digit(#[trigger] s[i]));
    }
}

fn push_digit_char(s: &mut String, d: u64)
    requires
        d < 10,
    ensures
        final(s)@ == old(s)@ + seq![digit_char(d as int)],
{
    proof {
        reveal_strlit("0");
        reveal_strlit("1");
        reveal_strlit("2");
        reveal_strlit("3");
        reveal_strlit("4");
        reveal_strlit("5");
        reveal_strlit("6");
        reveal_strlit("7");
        reveal_strlit("8");
        reveal_strlit("9");
    }
    if d == 0 { s.append("0"); }
    else if d == 1 { s.append("1"); }
    else if d == 2 { s.append("2"); }
    else if d == 3 { s.append("3"); }
    else if d == 4 { s.append("4"); }
    else if d == 5 { s.append("5"); }
    else if d == 6 { s.append("6"); }
    else if d == 7 { s.append("7"); }
    else if d == 8 { s.append("8"); }
    else { s.append("9"); }
    proof {
        assert(final(s)@ =~= old(s)@ + seq![digit_char(d as int)]);
    }
}

fn push_dec_digits(s: &mut String, n: u64)
    ensures
        final(s)@ == old(s)@ + dec_digits(n as int),
    decreases n,
{
    if n >= 10 {
        push_dec_digits(s, n / 10);
    }
    push_digit_char(s, n % 10);
    proof {
        assert(final(s)@ =~= old(s)@ + dec_digits(n as int));
    }
}

/// Render an integer in decimal.
pub fn u64_to_string(n: u64) -> (r: String)
    ensures
        r@ == dec_digits(n as int),
{
    let mut s = String::new();
    push_dec_digits(&mut s, n);
    proof {
        assert(s@ =~= dec_digits(n as int));
    }
    s
}

pub open spec fn has_prefix_spec(s: Seq<char>, p: Seq<char>) -> bool {
    p.len() <= s.len() && s.subrange(0, p.len() as int) == p
}

/// Whether `s` starts with `p`, character by character.
pub fn has_prefix(s: &str, p: &str) -> (r: bool)
    ensures
        r == has_prefix_spec(s@, p@),
{
    let slen = s.unicode_len();
    let plen = p.unicode_len();
    if plen > slen {
        proof {
            assert(!has_prefix_spec(s@, p@));
        }
        return false;
    }
    let mut i: usize = 0;
    while i < plen
        invariant
            i <= plen,
            forall|j: int| 0 <= j < i ==> s@[j] == p@[j],
        decreases plen - i,
    {
        if s.get_char(i) != p.get_char(i) {
            proof {
                assert(s@.subrange(0, p@.len() as int)[i as int] != p@[i as int]);
            }
            return false;
        }
        i += 1;
    }
    proof {
        assert(s@.subrange(0, p@.len() as int) =~= p@);
    }
    true
}

/// Index of the first non-space character at or after `i`.
pub open spec fn token_start(s: Seq<char>, i: int) -> int
    decreases s.len() - i,
{
    if i >= s.len() || !is_space(s[i]) {
        i
    } else {
        token_start(s, i + 1)
    }
}

/// Index of the first space character at or after `i` (or the end).
pub open spec fn token_end(s: Seq<char>, i: int) -> int
    decreases s.len() - i,
{
    if i >= s.len() || is_space(s[i]) {
        i
    } else {
        token_end(s, i + 1)
    }
}

/// The first whitespace-delimited token of `s` (empty if none).
pub open spec fn first_token(s: Seq<char>) -> Seq<char> {
    s.subrange(token_start(s, 0), token_end(s, token_start(s, 0)))
}

/// `s` with every trailing `':'` removed.
pub open spec fn strip_colons(s: Seq<char>) -> Seq<char>
    decreases s.len(),
{
    if s.len() > 0 && s.last() == ':' {
        strip_colons(s.drop_last())
    } else {
        s
    }
}

/// `t` with one leading `'+'` removed, the sign a decimal integer may carry.
pub open spec fn signless(t: Seq<char>) -> Seq<char> {
    if t.len() > 0 && t[0] == '+' {
        t.drop_first()
    } else {
        t
    }
}

/// The leading integer of a free-text field: the first whitespace-delimited
/// token, with trailing colons stripped and an optional leading `'+'`, read
/// as a decimal number. `None` if that token is absent or not made of
/// digits.
pub open spec fn leading_int(s: Seq<char>) -> Option<int> {
    let t = signless(strip_colons(first_token(s)));
    if t.len() > 0 && all_digits(t) {
        Some(digits_val(t))
    } else {
        None
    }
}

fn is_space_char(c: char) -> (r: bool)
    ensures
        r == is_space(c),
{
    c == ' ' || (c >= '\t' && c <= '\r') || c == '\u{85}' || c == '\u{A0}' || c == '\u{1680}'
        || (c >= '\u{2000}' && c <= '\u{200A}') || c == '\u{2028}' || c == '\u{2029}'
        || c == '\u{202F}' || c == '\u{205F}' || c == '\u{3000}'
}

proof fn lemma_digits_val_nonneg(s: Seq<char>)
    requires
        all_digits(s),
    ensures
        digits_val(s) >= 0,
    decreases s.len(),
{
    if s.len() > 0 {
        assert(all_digits(s.drop_last()));
        lemma_digits_val_nonneg(s.drop_last());
    }
}

proof fn lemma_digits_val_prefix_le(s: Seq<char>, i: int)
    requires
        all_digits(s),
        0 <= i <= s.len(),
    ensures
        digits_val(s.subrange(0, i)) <= digits_val(s),
    decreases s.len() - i,
{
    if i < s.len() {
        lemma_digits_val_prefix_le(s, i + 1);
        let p = s.subrange(0, i);
        let q = s.subrange(0, i + 1);
        assert(q.drop_last() =~= p);
        assert(all_digits(p));
        lemma_digits_val_nonneg(p);
        assert(digits_val(q) == digits_val(p) * 10 + digit_val(q.last()));
        assert(digits_val(p) * 10 >= digits_val(p)) by (nonlinear_arith)
            requires digits_val(p) >= 0;
    } else {
        assert(s.subrange(0, i) =~= s);
    }
}

/// Parse the leading integer token of a text field, exactly when it exists,
/// is all digits after an optional leading `'+'`, and fits in a `u64`.
pub fn parse_leading_u64(s: &str) -> (r: Result<u64, HarnessError>)
    ensures
        match r {
            Ok(n) => leading_int(s@) == Some(n as int),
            Err(e) => e.is_parse() && (leading_int(s@) is None || leading_int(s@)->0 > u64::MAX),
        },
{
    let len = s.unicode_len();
    let mut a: usize = 0;
    while a < len && is_space_char(s.get_char(a))
        invariant
            a <= len,
            token_start(s@, 0) == token_start(s@, a as int),
        decreases len - a,
    {
        a += 1;
    }
    proof {
        assert(token_start(s@, 0) == a as int);
    }
    let mut b: usize = a;
    while b < len && !is_space_char(s.get_char(b))
        invariant
            a <= b <= len,
            token_end(s@, a as int) == token_end(s@, b as int),
        decreases len - b,
    {
        b += 1;
    }
    proof {
        assert(token_end(s@, a as int) == b as int);
    }
    let ghost tok = first_token(s@);
    proof {
        assert(tok =~= s@.subrange(a as int, b as int));
    }
    let mut e: usize = b;
    while e > a && s.get_char(e - 1) == ':'
        invariant
            a <= e <= b,
            strip_colons(s@.subrange(a as int, b as int)) == strip_colons(
                s@.subrange(a as int, e as int),
            ),
        decreases e,
    {
        proof {
            let cur = s@.subrange(a as int, e as int);
            assert(cur.last() == ':');
            assert(cur.drop_last() =~= s@.subrange(a as int, e as int - 1));
        }
        e -= 1;
    }
    let ghost t = strip_colons(tok);
    proof {
        let cur = s@.subrange(a as int, e as int);
        assert(!(cur.len() > 0 && cur.last() == ':'));
        assert(t == cur);
    }
    let mut d0: usize = a;
    if e > a && s.get_char(a) == '+' {
        d0 = a + 1;
    }
    let ghost dt = signless(t);
    proof {
        if t.len() > 0 && t[0] == '+' {
            assert(dt =~= s@.subrange(d0 as int, e as int));
        } else {
            assert(dt == s@.subrange(d0 as int, e as int));
        }
    }
    if e == d0 {
        proof {
            assert(dt.len() == 0);
            assert(leading_int(s@) is None);
        }
        return Err(HarnessError::Parse(String::from_str("score field does not start with a number")));
    }
    let mut acc: u64 = 0;
    let mut i: usize = d0;
    while i < e
        invariant
            d0 <= i <= e <= len,
            e > d0,
            dt == s@.subrange(d0 as int, e as int),
            forall|j: int| d0 <= j < i ==> is_digit(#[trigger] s@[j]),
            acc as int == digits_val(s@.subrange(d0 as int, i as int)),
        decreases e - i,
    {
        let c = s.get_char(i);
        if !(c >= '0' && c <= '9') {
            proof {
                assert(dt[i - d0 as int] == c);
                assert(!all_digits(dt));
                assert(leading_int(s@) is None);
            }
            return Err(HarnessError::Parse(String::from_str("score field does not start with a number")));
        }
        let d: u64 = (c as u32 as u64) - 48;
        proof {
            assert(d == digit_val(c));
            assert(d < 10);
        }
        if acc > (u64::MAX - d) / 10 {
            proof {
                let p = s@.subrange(d0 as int, i as int + 1);
                assert(p.drop_last() =~= s@.subrange(d0 as int, i as int));
                assert(digits_val(p) == acc as int * 10 + d as int);
                assert(acc as int * 10 + d as int > u64::MAX) by (nonlinear_arith)
                    requires
                        acc as int > (u64::MAX - d as int) / 10,
                        0 <= d < 10,
                        acc <= u64::MAX,
                ;
                if all_digits(dt) {
                    assert(p =~= dt.subrange(0, i - d0 as int + 1));
                    lemma_digits_val_prefix_le(dt, i - d0 as int + 1);
                    assert(dt.subrange(0, i - d0 as int + 1) == p);
                    assert(digits_val(dt) >= digits_val(p));
                    assert(leading_int(s@)->0 > u64::MAX);
                }
            }
            return Err(HarnessError::Parse(String::from_str("score value is out of range")));
        }
        proof {
            assert(acc as int * 10 + d as int <= u64::MAX) by (nonlinear_arith)
                requires
                    acc as int <= (u64::MAX - d as int) / 10,
                    0 <= d < 10,
                    acc >= 0,
            ;
            let p = s@.subrange(d0 as int, i as int + 1);
            assert(p.drop_last() =~= s@.subrange(d0 as int, i as int));
            assert(digits_val(p) == acc as int * 10 + d as int);
        }
        acc = acc * 10 + d;
        i += 1;
    }
    proof {
        assert(dt =~= s@.subrange(d0 as int, e as int));
        assert(forall|j: int| 0 <= j < dt.len() ==> is_digit(#[trigger] dt[j]));
        assert(all_digits(dt));
        assert(dt.len() > 0);
        assert(leading_int(s@) == Some(digits_val(dt)));
        assert(acc as int == digits_val(dt));
    }
    Ok(acc)
}

} // verus!
