//! Small verified string helpers: decimal rendering and concatenation.

use vstd::prelude::*;
use vstd::string::{StrSliceExecFns, StringExecFns};

verus! {

/// The character of a decimal digit.
pub open spec fn digit_char(d: nat) -> char {
    if d == 0 { '0' }
    else if d == 1 { '1' }
    else if d == 2 { '2' }
    else if d == 3 { '3' }
    else if d == 4 { '4' }
    else if d == 5 { '5' }
    else if d == 6 { '6' }
    else if d == 7 { '7' }
    else if d == 8 { '8' }
    else { '9' }
}

/// The decimal notation of `n`, without sign or leading zeros.
pub open spec fn decimal(n: nat) -> Seq<char>
    decreases n,
{
    if n < 10 {
        seq![digit_char(n)]
    } else {
        decimal(n / 10).push(digit_char(n % 10))
    }
}

fn digit_str(d: u64) -> (r: &'static str)
    requires
        d < 10,
    ensures
        r@ == seq![digit_char(d as nat)],
{
    proof {
        reveal_strlit("0");
        reveal_strlit("1");
        reveal_strlit("2");
        reveal_strlit("3");
        reveal_strlit("4");
        reveal_strlit("5");
        reveal_strlit("6");
        reveal_strlit("7");
        reveal_strlit("8");
        reveal_strlit("9");
    }
    if d == 0 { "0" }
    else if d == 1 { "1" }
    else if d == 2 { "2" }
    else if d == 3 { "3" }
    else if d == 4 { "4" }
    else if d == 5 { "5" }
    else if d == 6 { "6" }
    else if d == 7 { "7" }
    else if d == 8 { "8" }
    else { "9" }
}

/// Renders `n` in decimal.
pub fn render_decimal(n: u64) -> (r: String)
    ensures
        r@ == decimal(n as nat),
    decreases n,
{
    if n < 10 {
        String::from_str(digit_str(n))
    } else {
        let head = render_decimal(n / 10);
        let r = head.concat(digit_str(n % 10));
        assert(r@ =~= decimal(n as nat));
        r
    }
}

/// Whether `names` holds a string whose characters are `s`.
pub open spec fn holds_text(names: Seq<String>, s: Seq<char>) -> bool {
    exists|k: int| 0 <= k < names.len() && #[trigger] names[k]@ == s
}

/// Compares a string with a literal.
pub fn text_is(s: &String, lit: &str) -> (r: bool)
    ensures
        r == (s@ == lit@),
{
    let owned = String::from_str(lit);
    *s == owned
}

/// Tells whether one of `names` equals `s`.
pub fn contains_text(names: &Vec<String>, s: &String) -> (r: bool)
    ensures
        r == holds_text(names@, s@),
{
    let mut k: usize = 0;
    while k < names.len()
        invariant
            k <= names.len(),
            forall|j: int| 0 <= j < k ==> names@[j]@ != s@,
        decreases names.len() - k,
    {
        if names[k] == *s {
            assert(names@[k as int]@ == s@);
            return true;
        }
        k += 1;
    }
    false
}


/// Unicode White_Space, the characters that `char::is_whitespace` accepts.
pub open spec fn is_space(c: char) -> bool {
    ||| '\u{9}' <= c <= '\u{d}'
    ||| c == ' '
    ||| c == '\u{85}'
    ||| c == '\u{a0}'
    ||| c == '\u{1680}'
    ||| '\u{2000}' <= c <= '\u{200a}'
    ||| c == '\u{2028}'
    ||| c == '\u{2029}'
    ||| c == '\u{202f}'
    ||| c == '\u{205f}'
    ||| c == '\u{3000}'
}

/// Tells whether `c` is white space.
pub fn is_white_space(c: char) -> (r: bool)
    ensures
        r == is_space(c),
{
    ('\u{9}' <= c && c <= '\u{d}') || c == ' ' || c == '\u{85}' || c == '\u{a0}' || c
        == '\u{1680}' || ('\u{2000}' <= c && c <= '\u{200a}') || c == '\u{2028}' || c
        == '\u{2029}' || c == '\u{202f}' || c == '\u{205f}' || c == '\u{3000}'
}

/// `s` without its trailing white space.
pub open spec fn trim_end(s: Seq<char>) -> Seq<char>
    decreases s.len(),
{
    if s.len() > 0 && is_space(s.last()) {
        trim_end(s.drop_last())
    } else {
        s
    }
}

/// `s` without its leading white space.
pub open spec fn trim_start(s: Seq<char>) -> Seq<char>
    decreases s.len(),
{
    if s.len() > 0 && is_space(s[0]) {
        trim_start(s.drop_first())
    } else {
        s
    }
}

/// `s` without leading and trailing white space.
pub open spec fn trimmed(s: Seq<char>) -> Seq<char> {
    trim_start(trim_end(s))
}

/// Removes leading and trailing white space.
pub fn trim_text(s: &str) -> (r: String)
    ensures
        r@ == trimmed(s@),
{
    let n = s.unicode_len();
    let mut end: usize = n;
    assert(s@.subrange(0, n as int) =~= s@);
    while end > 0 && is_white_space(s.get_char(end - 1))
        invariant
            end <= n,
            n == s@.len(),
            trim_end(s@) == trim_end(s@.subrange(0, end as int)),
        decreases end,
    {
        assert(s@.subrange(0, end as int).drop_last() =~= s@.subrange(0, end - 1));
        end = end - 1;
    }
    assert(trim_end(s@) == s@.subrange(0, end as int));
    let mut start: usize = 0;
    while start < end && is_white_space(s.get_char(start))
        invariant
            start <= end <= n,
            n == s@.len(),
            trimmed(s@) == trim_start(s@.subrange(start as int, end as int)),
        decreases end - start,
    {
        assert(s@.subrange(start as int, end as int).drop_first() =~= s@.subrange(start + 1, end as int));
        start = start + 1;
    }
    String::from_str(s.substring_char(start, end))
}

/// The pieces of `s` between newlines; a text without newline is one piece.
pub open spec fn split_lines(s: Seq<char>) -> Seq<Seq<char>>
    decreases s.len(),
{
    if s.len() == 0 {
        seq![Seq::empty()]
    } else {
        let prev = split_lines(s.drop_last());
        if s.last() == '\n' {
            prev.push(Seq::empty())
        } else {
            prev.update(prev.len() - 1, prev.last().push(s.last()))
        }
    }
}

proof fn lemma_split_lines_nonempty(s: Seq<char>)
    ensures
        split_lines(s).len() >= 1,
    decreases s.len(),
{
    if s.len() > 0 {
        lemma_split_lines_nonempty(s.drop_last());
    }
}

/// The non-empty lines of `s`, each without surrounding white space.
pub open spec fn listed_lines(s: Seq<char>) -> Seq<Seq<char>> {
    split_lines(s).map_values(|l: Seq<char>| trimmed(l)).filter(|l: Seq<char>| l.len() > 0)
}

/// Splits `s` into lines, trims each, and keeps those that are not empty.
pub fn list_lines(s: &str) -> (r: Vec<String>)
    ensures
        r@.map_values(|t: String| t@) == listed_lines(s@),
{
    let ghost trim_f = |l: Seq<char>| trimmed(l);
    let ghost keep = |l: Seq<char>| l.len() > 0;
    let n = s.unicode_len();
    let mut r: Vec<String> = Vec::new();
    let mut start: usize = 0;
    let mut j: usize = 0;
    proof {
        assert(s@.take(0) =~= Seq::<char>::empty());
    }
    while j < n
        invariant
            n == s@.len(),
            start <= j <= n,
            trim_f == (|l: Seq<char>| trimmed(l)),
            keep == (|l: Seq<char>| l.len() > 0),
            split_lines(s@.take(j as int)).len() >= 1,
            split_lines(s@.take(j as int)).last() == s@.subrange(start as int, j as int),
            r@.map_values(|t: String| t@) == split_lines(s@.take(j as int)).drop_last().map_values(
                trim_f,
            ).filter(keep),
        decreases n - j,
    {
        let c = s.get_char(j);
        let ghost prev = split_lines(s@.take(j as int));
        proof {
            assert(s@.take(j + 1).drop_last() =~= s@.take(j as int));
            lemma_split_lines_nonempty(s@.take(j as int));
        }
        if c == '\n' {
            let piece = trim_text(s.substring_char(start, j));
            let ghost before = r@;
            proof {
                reveal(Seq::filter);
                assert(split_lines(s@.take(j + 1)) == prev.push(Seq::empty()));
                assert(split_lines(s@.take(j + 1)).drop_last() =~= prev);
                assert(prev.map_values(trim_f).drop_last() =~= prev.drop_last().map_values(trim_f));
            }
            if piece.unicode_len() > 0 {
                r.push(piece);
                assert(r@.map_values(|t: String| t@) =~= before.map_values(|t: String| t@).push(
                    piece@,
                ));
            }
            start = j + 1;
            assert(split_lines(s@.take(j + 1)).last() =~= s@.subrange(start as int, j + 1));
        } else {
            proof {
                assert(split_lines(s@.take(j + 1)) == prev.update(prev.len() - 1, prev.last().push(c)));
                assert(split_lines(s@.take(j + 1)).drop_last() =~= prev.drop_last());
                assert(split_lines(s@.take(j + 1)).last() =~= s@.subrange(start as int, j + 1));
            }
        }
        j = j + 1;
    }
    let piece = trim_text(s.substring_char(start, n));
    let ghost before = r@;
    let ghost all = split_lines(s@.take(n as int));
    proof {
        reveal(Seq::filter);
        assert(s@.take(n as int) =~= s@);
        assert(all.map_values(trim_f).drop_last() =~= all.drop_last().map_values(trim_f));
        assert(all.map_values(trim_f).last() == piece@);
    }
    if piece.unicode_len() > 0 {
        r.push(piece);
        assert(r@.map_values(|t: String| t@) =~= before.map_values(|t: String| t@).push(piece@));
    }
    r
}


/// An ASCII decimal digit.
pub open spec fn is_digit(c: char) -> bool {
    '0' <= c <= '9'
}

/// The value of the decimal digits `s` (empty: zero).
pub open spec fn digits_value(s: Seq<char>) -> int
    decreases s.len(),
{
    if s.len() == 0 {
        0
    } else {
        digits_value(s.drop_last()) * 10 + (s.last() as int - '0' as int)
    }
}

/// `s` without a leading plus sign.
pub open spec fn unsigned_part(s: Seq<char>) -> Seq<char> {
    if s.len() > 0 && s[0] == '+' {
        s.drop_first()
    } else {
        s
    }
}

/// What `u32::from_str` makes of `s`: an optional plus sign followed by at
/// least one digit, and a value that fits.
pub open spec fn parsed_u32(s: Seq<char>) -> Option<u32> {
    let d = unsigned_part(s);
    if d.len() > 0 && (forall|i: int| 0 <= i < d.len() ==> is_digit(#[trigger] d[i]))
        && digits_value(d) <= u32::MAX {
        Some(digits_value(d) as u32)
    } else {
        None
    }
}

proof fn lemma_digits_value_grows(d: Seq<char>, k: int)
    requires
        0 <= k <= d.len(),
        forall|i: int| 0 <= i < d.len() ==> is_digit(#[trigger] d[i]),
    ensures
        0 <= digits_value(d.take(k)) <= digits_value(d),
    decreases d.len(),
{
    if d.len() > 0 {
        if k == d.len() {
            assert(d.take(k) =~= d);
            lemma_digits_value_grows(d.drop_last(), k - 1);
        } else {
            assert(d.take(k) =~= d.drop_last().take(k));
            lemma_digits_value_grows(d.drop_last(), k);
        }
        assert(d.drop_last().take(d.len() - 1) =~= d.drop_last());
        assert(is_digit(d.last()));
    } else {
        assert(d.take(k) =~= d);
    }
}

/// Reads a decimal number as `u32::from_str` does.
pub fn parse_u32(s: &str) -> (r: Option<u32>)
    ensures
        r == parsed_u32(s@),
{
    let n = s.unicode_len();
    let start: usize = if n > 0 && s.get_char(0) == '+' {
        1
    } else {
        0
    };
    let ghost d = s@.subrange(start as int, n as int);
    assert(d =~= unsigned_part(s@));
    if start == n {
        return None;
    }
    let mut value: u64 = 0;
    let mut j: usize = start;
    while j < n
        invariant
            n == s@.len(),
            start < n,
            start <= j <= n,
            d == s@.subrange(start as int, n as int),
            d == unsigned_part(s@),
            value <= u32::MAX,
            value == digits_value(d.take(j - start)),
            forall|i: int| 0 <= i < j - start ==> is_digit(#[trigger] d[i]),
        decreases n - j,
    {
        let c = s.get_char(j);
        assert(d[j - start] == c);
        if !('0' <= c && c <= '9') {
            return None;
        }
        assert(d.take(j - start + 1).drop_last() =~= d.take(j - start));
        value = value * 10 + (c as u64 - '0' as u64);
        if value > u32::MAX as u64 {
            proof {
                if forall|i: int| 0 <= i < d.len() ==> is_digit(#[trigger] d[i]) {
                    lemma_digits_value_grows(d, j - start + 1);
                }
            }
            return None;
        }
        j = j + 1;
    }
    assert(d.take(j - start) =~= d);
    Some(value as u32)
}

} // verus!
