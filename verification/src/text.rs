//! Text handling shared by the stages: comparison, trimming, splitting at a
//! separator, and decimal numbers.

use vstd::prelude::*;
use vstd::string::*;

verus! {

/// The contents of a vector of strings.
pub open spec fn texts(v: Seq<String>) -> Seq<Seq<char>> {
    Seq::new(v.len(), |i: int| v[i]@)
}

/// Whether two string slices hold the same text.
pub fn same_text(a: &str, b: &str) -> (same: bool)
    ensures
        same == (a@ == b@),
{
    let left = a.to_owned();
    let right = b.to_owned();
    left == right
}

/// Whether `needle` is one of the strings in `haystack`.
pub fn contains_text(haystack: &Vec<String>, needle: &str) -> (found: bool)
    ensures
        found == texts(haystack@).contains(needle@),
{
    let mut i: usize = 0;
    while i < haystack.len()
        invariant
            i <= haystack.len(),
            forall|j: int| 0 <= j < i ==> texts(haystack@)[j] != needle@,
        decreases haystack.len() - i,
    {
        if same_text(haystack[i].as_str(), needle) {
            assert(texts(haystack@)[i as int] == needle@);
            return true;
        }
        i += 1;
    }
    false
}

/// Whether a character counts as white space: the characters with the
/// Unicode property White_Space, which are the controls from tab to carriage
/// return, the space, the next-line control, the no-break space, the ogham
/// space mark, the spaces from en quad to hair space, the line and paragraph
/// separators, the narrow no-break space, the medium mathematical space and
/// the ideographic space.
pub open spec fn is_white_space(c: char) -> bool {
    ||| '\u{9}' <= c <= '\u{d}'
    ||| c == '\u{20}'
    ||| c == '\u{85}'
    ||| c == '\u{a0}'
    ||| c == '\u{1680}'
    ||| '\u{2000}' <= c <= '\u{200a}'
    ||| c == '\u{2028}'
    ||| c == '\u{2029}'
    ||| c == '\u{202f}'
    ||| c == '\u{205f}'
    ||| c == '\u{3000}'
}

/// Calls `char::is_whitespace`, which answers by the Unicode property
/// White_Space. The contract claims that the characters with that property
/// are the twenty-five that [`is_white_space`] lists.
#[verifier::external_body]
fn is_whitespace(c: char) -> (white: bool)
    ensures
        white == is_white_space(c),
{
    c.is_whitespace()
}

/// How many white-space characters `s` starts with.
pub open spec fn leading_space(s: Seq<char>) -> nat
    decreases s.len(),
{
    if s.len() > 0 && is_white_space(s[0]) {
        1 + leading_space(s.drop_first())
    } else {
        0
    }
}

/// How many white-space characters `s` ends with.
pub open spec fn trailing_space(s: Seq<char>) -> nat
    decreases s.len(),
{
    if s.len() > 0 && is_white_space(s.last()) {
        1 + trailing_space(s.drop_last())
    } else {
        0
    }
}

/// `s` without the white space at its two ends.
pub open spec fn trimmed(s: Seq<char>) -> Seq<char> {
    if leading_space(s) == s.len() {
        Seq::empty()
    } else {
        s.subrange(leading_space(s) as int, s.len() - trailing_space(s))
    }
}

/// The count of leading white space is the first position that holds another
/// character, or the length where there is none.
pub proof fn lemma_leading_space(s: Seq<char>, a: int)
    requires
        0 <= a <= s.len(),
        forall|j: int| 0 <= j < a ==> is_white_space(s[j]),
        a == s.len() || !is_white_space(s[a]),
    ensures
        leading_space(s) == a,
    decreases s.len(),
{
    if a > 0 {
        let rest = s.drop_first();
        assert forall|j: int| 0 <= j < a - 1 implies is_white_space(rest[j]) by {
            assert(rest[j] == s[j + 1]);
        }
        if a < s.len() {
            assert(rest[a - 1] == s[a]);
        }
        lemma_leading_space(rest, a - 1);
    }
}

/// The count of trailing white space is the distance from the end to the
/// last position that holds another character.
pub proof fn lemma_trailing_space(s: Seq<char>, b: int)
    requires
        0 <= b <= s.len(),
        forall|j: int| b <= j < s.len() ==> is_white_space(s[j]),
        b == 0 || !is_white_space(s[b - 1]),
    ensures
        trailing_space(s) == s.len() - b,
    decreases s.len(),
{
    if b < s.len() {
        let rest = s.drop_last();
        assert forall|j: int| b <= j < rest.len() implies is_white_space(rest[j]) by {
            assert(rest[j] == s[j]);
        }
        if b > 0 {
            assert(rest[b - 1] == s[b - 1]);
        }
        lemma_trailing_space(rest, b);
    }
}

/// The slice of `s` that is left when the white space at both ends is taken
/// away.
pub fn trim(s: &str) -> (t: &str)
    ensures
        t@ == trimmed(s@),
{
    let n = s.unicode_len();
    let mut a: usize = 0;
    loop
        invariant
            a <= n,
            n == s@.len(),
            forall|j: int| 0 <= j < a ==> is_white_space(s@[j]),
        ensures
            a == n || !is_white_space(s@[a as int]),
        decreases n - a,
    {
        if a >= n {
            break;
        }
        if !is_whitespace(s.get_char(a)) {
            break;
        }
        a += 1;
    }
    let mut b: usize = n;
    loop
        invariant
            a <= b <= n,
            n == s@.len(),
            forall|j: int| b <= j < n ==> is_white_space(s@[j]),
        ensures
            b == a || !is_white_space(s@[b - 1]),
        decreases b - a,
    {
        if b <= a {
            break;
        }
        if !is_whitespace(s.get_char(b - 1)) {
            break;
        }
        b -= 1;
    }
    proof {
        lemma_leading_space(s@, a as int);
        if a < n {
            lemma_trailing_space(s@, b as int);
        }
    }
    s.substring_char(a, b)
}

/// The position of the first `sep` in `s`, or the length of `s` where it holds
/// none.
pub open spec fn first_index(s: Seq<char>, sep: char) -> int
    decreases s.len(),
{
    if s.len() == 0 || s[0] == sep {
        0
    } else {
        1 + first_index(s.drop_first(), sep)
    }
}

/// The pieces of `s` between occurrences of `sep`. There is one more piece
/// than there are separators, so the empty text gives one empty piece.
pub open spec fn split_at_char(s: Seq<char>, sep: char) -> Seq<Seq<char>>
    decreases s.len(),
{
    let i = first_index(s, sep);
    if 0 <= i < s.len() {
        seq![s.subrange(0, i)] + split_at_char(s.subrange(i + 1, s.len() as int), sep)
    } else {
        seq![s]
    }
}

/// `first_index` is the first position that holds the separator.
pub proof fn lemma_first_index(s: Seq<char>, sep: char, i: int)
    requires
        0 <= i <= s.len(),
        forall|j: int| 0 <= j < i ==> s[j] != sep,
        i == s.len() || s[i] == sep,
    ensures
        first_index(s, sep) == i,
    decreases s.len(),
{
    if i > 0 {
        let rest = s.drop_first();
        assert forall|j: int| 0 <= j < i - 1 implies rest[j] != sep by {
            assert(rest[j] == s[j + 1]);
        }
        if i < s.len() {
            assert(rest[i - 1] == s[i]);
        }
        lemma_first_index(rest, sep, i - 1);
    }
}

/// Splits `s` at every `sep`.
pub fn split(s: &str, sep: char) -> (pieces: Vec<String>)
    ensures
        texts(pieces@) == split_at_char(s@, sep),
{
    let n = s.unicode_len();
    let mut pieces: Vec<String> = Vec::new();
    let mut start: usize = 0;
    let mut i: usize = 0;
    assert(s@.subrange(0, n as int) == s@);
    assert(texts(pieces@) + split_at_char(s@, sep) == split_at_char(s@, sep));
    while i < n
        invariant
            start <= i <= n,
            n == s@.len(),
            forall|j: int| start <= j < i ==> s@[j] != sep,
            split_at_char(s@, sep) == texts(pieces@) + split_at_char(
                s@.subrange(start as int, n as int),
                sep,
            ),
        decreases n - i,
    {
        if s.get_char(i) == sep {
            let piece = s.substring_char(start, i).to_owned();
            proof {
                let tail = s@.subrange(start as int, n as int);
                assert forall|j: int| 0 <= j < i - start implies tail[j] != sep by {
                    assert(tail[j] == s@[start + j]);
                }
                lemma_first_index(tail, sep, i - start);
                assert(tail.subrange(0, i - start) == s@.subrange(start as int, i as int));
                assert(tail.subrange(i - start + 1, tail.len() as int) == s@.subrange(
                    i + 1,
                    n as int,
                ));
                assert(texts(pieces@.push(piece)) == texts(pieces@) + seq![piece@]);
            }
            pieces.push(piece);
            start = i + 1;
        }
        i += 1;
    }
    let piece = s.substring_char(start, n).to_owned();
    proof {
        let tail = s@.subrange(start as int, n as int);
        assert forall|j: int| 0 <= j < tail.len() implies tail[j] != sep by {
            assert(tail[j] == s@[start + j]);
        }
        lemma_first_index(tail, sep, tail.len() as int);
        assert(texts(pieces@.push(piece)) == texts(pieces@) + seq![piece@]);
    }
    pieces.push(piece);
    pieces
}

/// The value of a decimal digit, and nothing for any other character.
pub open spec fn digit_value(c: char) -> Option<nat> {
    if '0' <= c <= '9' {
        Some((c as nat - '0' as nat) as nat)
    } else {
        None
    }
}

/// The number that a run of decimal digits writes; the empty run writes 0.
/// Nothing where a character is no digit.
pub open spec fn digits_value(s: Seq<char>) -> Option<nat>
    decreases s.len(),
{
    if s.len() == 0 {
        Some(0)
    } else {
        match (digits_value(s.drop_last()), digit_value(s.last())) {
            (Some(high), Some(low)) => Some(10 * high + low),
            _ => None,
        }
    }
}

/// The number that `s` writes in decimal: one or more digits, which a single
/// `+` may precede. Nothing for any other text.
pub open spec fn decimal_value(s: Seq<char>) -> Option<nat> {
    let digits = if s.len() > 0 && s[0] == '+' {
        s.drop_first()
    } else {
        s
    };
    if digits.len() == 0 {
        None
    } else {
        digits_value(digits)
    }
}

/// Whether `s` writes a decimal number that is at least `least`. The number
/// may be of any size.
pub fn decimal_at_least(s: &str, least: usize) -> (reached: bool)
    ensures
        reached == match decimal_value(s@) {
            Some(value) => value >= least,
            None => false,
        },
{
    let n = s.unicode_len();
    let first: usize = if n > 0 && s.get_char(0) == '+' {
        1
    } else {
        0
    };
    if first == n {
        return false;
    }
    let ghost digits = s@.subrange(first as int, n as int);
    assert(digits == if first == 1 {
        s@.drop_first()
    } else {
        s@
    });
    assert(decimal_value(s@) == digits_value(digits));
    let mut i: usize = first;
    // The value read so far, cut off at `least`.
    let mut low: usize = 0;
    while i < n
        invariant
            first <= i <= n,
            n == s@.len(),
            digits == s@.subrange(first as int, n as int),
            decimal_value(s@) == digits_value(digits),
            low <= least,
            match digits_value(digits.take(i - first)) {
                Some(value) => low == if value >= least {
                    least as nat
                } else {
                    value
                },
                None => false,
            },
        decreases n - i,
    {
        let c = s.get_char(i);
        proof {
            assert(digits.take(i - first + 1).drop_last() == digits.take(i - first));
            assert(digits.take(i - first + 1).last() == c);
        }
        if c < '0' || c > '9' {
            proof {
                lemma_digits_prefix(digits, i - first + 1);
            }
            return false;
        }
        let d: u128 = (c as u32 - '0' as u32) as u128;
        let next: u128 = (low as u128) * 10 + d;
        low = if next >= least as u128 {
            least
        } else {
            next as usize
        };
        i += 1;
    }
    assert(digits.take(n - first) == digits);
    low >= least
}

/// Text with a character that is no digit among its first `k` writes no
/// number.
pub proof fn lemma_digits_prefix(s: Seq<char>, k: int)
    requires
        0 <= k <= s.len(),
        digits_value(s.take(k)) is None,
    ensures
        digits_value(s) is None,
    decreases s.len() - k,
{
    if k < s.len() {
        assert(s.take(k + 1).drop_last() == s.take(k));
        lemma_digits_prefix(s, k + 1);
    } else {
        assert(s.take(k) == s);
    }
}

/// The character that writes a digit below ten.
pub open spec fn digit_char(d: nat) -> char {
    if d == 0 {
        '0'
    } else if d == 1 {
        '1'
    } else if d == 2 {
        '2'
    } else if d == 3 {
        '3'
    } else if d == 4 {
        '4'
    } else if d == 5 {
        '5'
    } else if d == 6 {
        '6'
    } else if d == 7 {
        '7'
    } else if d == 8 {
        '8'
    } else {
        '9'
    }
}

/// A number written in decimal, without sign or leading zeros.
pub open spec fn decimal_text(n: nat) -> Seq<char>
    decreases n,
{
    if n < 10 {
        seq![digit_char(n)]
    } else {
        decimal_text(n / 10).push(digit_char(n % 10))
    }
}

fn digit_str(d: usize) -> (s: &'static str)
    requires
        d < 10,
    ensures
        s@ == seq![digit_char(d as nat)],
{
    proof {
        reveal_strlit("0");
        reveal_strlit("1");
        reveal_strlit("2");
        reveal_strlit("3");
        reveal_strlit("4");
        reveal_strlit("5");
        reveal_strlit("6");
        reveal_strlit("7");
        reveal_strlit("8");
        reveal_strlit("9");
    }
    let s = if d == 0 {
        "0"
    } else if d == 1 {
        "1"
    } else if d == 2 {
        "2"
    } else if d == 3 {
        "3"
    } else if d == 4 {
        "4"
    } else if d == 5 {
        "5"
    } else if d == 6 {
        "6"
    } else if d == 7 {
        "7"
    } else if d == 8 {
        "8"
    } else {
        "9"
    };
    assert(s@ =~= seq![digit_char(d as nat)]);
    s
}

/// Writes `n` in decimal.
pub fn decimal_string(n: usize) -> (s: String)
    ensures
        s@ == decimal_text(n as nat),
    decreases n,
{
    if n < 10 {
        digit_str(n).to_owned()
    } else {
        let mut s = decimal_string(n / 10);
        s.append(digit_str(n % 10));
        s
    }
}

/// `unit` written `count` times in a row.
pub open spec fn repeated(unit: Seq<char>, count: nat) -> Seq<char>
    decreases count,
{
    if count == 0 {
        Seq::empty()
    } else {
        repeated(unit, (count - 1) as nat) + unit
    }
}

/// Appends `unit` to `out` `count` times.
pub fn append_repeated(out: &mut String, unit: &str, count: usize)
    ensures
        final(out)@ == old(out)@ + repeated(unit@, count as nat),
{
    let mut i: usize = 0;
    while i < count
        invariant
            i <= count,
            out@ == old(out)@ + repeated(unit@, i as nat),
        decreases count - i,
    {
        out.append(unit);
        i += 1;
    }
}

/// The parts written one after the other with `sep` between each two of
/// them: nothing before the first and nothing after the last.
pub open spec fn joined(parts: Seq<Seq<char>>, sep: Seq<char>) -> Seq<char>
    decreases parts.len(),
{
    if parts.len() == 0 {
        Seq::empty()
    } else if parts.len() == 1 {
        parts[0]
    } else {
        joined(parts.drop_last(), sep) + sep + parts.last()
    }
}

/// Joins `parts` with `sep` between them.
pub fn join(parts: &Vec<String>, sep: &str) -> (out: String)
    ensures
        out@ == joined(texts(parts@), sep@),
{
    let mut out = String::new();
    let mut i: usize = 0;
    assert(texts(parts@).take(0) == Seq::<Seq<char>>::empty());
    while i < parts.len()
        invariant
            i <= parts@.len(),
            out@ == joined(texts(parts@).take(i as int), sep@),
        decreases parts@.len() - i,
    {
        proof {
            let upto = texts(parts@).take(i + 1);
            assert(upto.drop_last() == texts(parts@).take(i as int));
            assert(upto.last() == parts@[i as int]@);
            assert(out@.len() == 0 ==> out@ + parts@[i as int]@ == parts@[i as int]@);
        }
        if i > 0 {
            out.append(sep);
        }
        out.append(parts[i].as_str());
        i += 1;
    }
    assert(texts(parts@).take(i as int) == texts(parts@));
    out
}

} // verus!
