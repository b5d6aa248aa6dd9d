//! Splitting a line into words, and reading numbers from words.

use vstd::prelude::*;

verus! {

/// Whether a character is white space, as Unicode defines it.
pub uninterp spec fn is_space(c: char) -> bool;

/// Whether a character below U+0080 is white space: the space, and the
/// controls from U+0009 to U+000D.
pub open spec fn is_ascii_space(c: char) -> bool {
    c == ' ' || 0x09 <= c as u32 <= 0x0d
}

/// Whether it is known of each character of `line` below U+0080 whether it
/// is white space.
pub open spec fn ascii_spaces_known(line: Seq<char>) -> bool {
    forall|i: int|
        0 <= i < line.len() && (#[trigger] line[i]) as u32 <= 0x7f ==> is_space(line[i])
            == is_ascii_space(line[i])
}

/// Calls `char::is_whitespace`, which says whether the character has the
/// Unicode property White_Space. The result depends on the character alone.
/// Below U+0080 the characters with that property are the space and the
/// controls from U+0009 to U+000D.
#[verifier::external_body]
fn is_whitespace(c: char) -> (r: bool)
    ensures
        r == is_space(c),
        c as u32 <= 0x7f ==> r == is_ascii_space(c),
{
    c.is_whitespace()
}

/// A line while it is read: the words that are complete, and the word that
/// is being read.
pub struct Scan {
    pub words: Seq<Seq<char>>,
    pub current: Seq<char>,
}

/// Whether the character at `i` is marked as white space. A character
/// without a mark is none.
pub open spec fn marked(marks: Seq<bool>, i: int) -> bool {
    0 <= i < marks.len() && marks[i]
}

/// The scan after the first `n` characters of `line`, where `marks` says
/// which characters are white space. White space ends a word; other
/// characters make one.
pub open spec fn scan(line: Seq<char>, marks: Seq<bool>, n: int) -> Scan
    decreases n,
{
    if n <= 0 {
        Scan { words: Seq::empty(), current: Seq::empty() }
    } else {
        let before = scan(line, marks, n - 1);
        if !marked(marks, n - 1) {
            Scan { current: before.current.push(line[n - 1]), ..before }
        } else if before.current.len() > 0 {
            Scan { words: before.words.push(before.current), current: Seq::empty() }
        } else {
            before
        }
    }
}

/// The words of `line`, where `marks` says which characters are white
/// space: the longest runs of characters that are none, in order.
pub open spec fn words_between(line: Seq<char>, marks: Seq<bool>) -> Seq<Seq<char>> {
    let end = scan(line, marks, line.len() as int);
    if end.current.len() > 0 {
        end.words.push(end.current)
    } else {
        end.words
    }
}

/// For each character of `line`, whether it is white space.
pub open spec fn space_marks(line: Seq<char>) -> Seq<bool> {
    Seq::new(line.len(), |i: int| is_space(line[i]))
}

/// The words of `line`: the longest runs of characters that are not white
/// space, in order.
pub open spec fn words(line: Seq<char>) -> Seq<Seq<char>> {
    words_between(line, space_marks(line))
}

/// The texts of a list of strings.
pub open spec fn texts(list: Seq<String>) -> Seq<Seq<char>> {
    list.map_values(|s: String| s@)
}

/// Splits a line into its words, where `marks` says which characters are
/// white space.
pub fn split_marked(line: &str, marks: &Vec<bool>) -> (r: Vec<String>)
    ensures
        texts(r@) == words_between(line@, marks@),
{
    let n = line.unicode_len();
    let mut out: Vec<String> = Vec::new();
    let mut start: usize = 0;
    let mut i: usize = 0;
    assert(texts(out@) =~= scan(line@, marks@, 0).words);
    assert(line@.subrange(0, 0) =~= scan(line@, marks@, 0).current);
    while i < n
        invariant
            n == line@.len(),
            start <= i <= n,
            texts(out@) == scan(line@, marks@, i as int).words,
            line@.subrange(start as int, i as int) == scan(line@, marks@, i as int).current,
        decreases n - i,
    {
        let ghost before = scan(line@, marks@, i as int);
        let space = i < marks.len() && marks[i];
        if space {
            if start < i {
                let word = line.substring_char(start, i).to_owned();
                let ghost complete = out@;
                out.push(word);
                assert(texts(out@) =~= texts(complete).push(before.current));
            }
            start = i + 1;
            assert(line@.subrange(start as int, i + 1) =~= Seq::<char>::empty());
        } else {
            assert(line@.subrange(start as int, i + 1) =~= before.current.push(line@[i as int]));
        }
        i += 1;
    }
    if start < n {
        let word = line.substring_char(start, n).to_owned();
        let ghost complete = out@;
        out.push(word);
        assert(texts(out@) =~= texts(complete).push(scan(line@, marks@, n as int).current));
    }
    out
}

/// Splits a line into its words.
pub fn split_words(line: &str) -> (r: Vec<String>)
    ensures
        texts(r@) == words(line@),
        ascii_spaces_known(line@),
{
    let n = line.unicode_len();
    let mut marks: Vec<bool> = Vec::new();
    let mut i: usize = 0;
    while i < n
        invariant
            n == line@.len(),
            i <= n,
            marks@ == space_marks(line@).subrange(0, i as int),
            ascii_spaces_known(line@.subrange(0, i as int)),
        decreases n - i,
    {
        let c = line.get_char(i);
        marks.push(is_whitespace(c));
        assert forall|k: int|
            0 <= k < i + 1 && (#[trigger] line@.subrange(0, i + 1)[k]) as u32 <= 0x7f implies is_space(
            line@.subrange(0, i + 1)[k],
        ) == is_ascii_space(line@.subrange(0, i + 1)[k]) by {
            if k < i {
                assert(line@.subrange(0, i as int)[k] == line@.subrange(0, i + 1)[k]);
            }
        }
        assert(marks@ =~= space_marks(line@).subrange(0, i + 1));
        i += 1;
    }
    assert(marks@ =~= space_marks(line@));
    assert(line@.subrange(0, i as int) =~= line@);
    split_marked(line, &marks)
}

/// The number that a decimal digit stands for.
pub open spec fn digit(c: char) -> Option<int> {
    if '0' <= c <= '9' {
        Some(c as int - '0' as int)
    } else {
        None
    }
}

/// Whether `s` is made of decimal digits alone.
pub open spec fn all_digits(s: Seq<char>) -> bool {
    forall|i: int| 0 <= i < s.len() ==> digit(#[trigger] s[i]) is Some
}

/// The number that the decimal digits `s` stand for.
pub open spec fn decimal(s: Seq<char>) -> int
    decreases s.len(),
{
    if s.len() == 0 {
        0
    } else {
        decimal(s.drop_last()) * 10 + digit(s.last()).unwrap()
    }
}

/// The number that `s` is read as where a number between `low` and `high`
/// is looked for: an optional sign, `+` or, where `low` is negative, `-`,
/// then decimal digits, at least one. Nothing else may stand in `s`, and the
/// number must lie in the range.
pub open spec fn number(s: Seq<char>, low: int, high: int) -> Option<int> {
    let signed = s.len() > 0 && (s[0] == '+' || (s[0] == '-' && low < 0));
    let negative = s.len() > 0 && s[0] == '-';
    let digits = if signed {
        s.drop_first()
    } else {
        s
    };
    let value = if negative {
        -decimal(digits)
    } else {
        decimal(digits)
    };
    if digits.len() > 0 && all_digits(digits) && low <= value <= high {
        Some(value)
    } else {
        None
    }
}

/// The digits of a longer number stand for no less than those of its
/// beginning.
proof fn lemma_decimal_grows(s: Seq<char>, n: int)
    requires
        all_digits(s),
        0 <= n <= s.len(),
    ensures
        0 <= decimal(s.subrange(0, n)) <= decimal(s),
    decreases s.len(),
{
    if s.len() == 0 {
        assert(s.subrange(0, n) =~= s);
    } else if n == s.len() {
        assert(s.subrange(0, n) =~= s);
        assert(digit(s.last()) is Some);
        lemma_decimal_grows(s.drop_last(), s.len() - 1);
        assert(s.drop_last().subrange(0, s.len() - 1) =~= s.drop_last());
    } else {
        assert(digit(s.last()) is Some);
        assert forall|i: int| 0 <= i < s.drop_last().len() implies digit(
            #[trigger] s.drop_last()[i],
        ) is Some by {
            assert(s.drop_last()[i] == s[i]);
        }
        lemma_decimal_grows(s.drop_last(), n);
        assert(s.drop_last().subrange(0, n) =~= s.subrange(0, n));
    }
}

/// Reads a number between `low` and `high` from `word`.
fn read_number(word: &str, low: i64, high: i64) -> (r: Option<i64>)
    requires
        -0x1_0000_0000 <= low <= 0 <= high <= 0x1_0000_0000,
    ensures
        r matches Some(v) ==> number(word@, low as int, high as int) == Some(v as int),
        r is None ==> number(word@, low as int, high as int) is None,
{
    let n = word.unicode_len();
    if n == 0 {
        return None;
    }
    let first = word.get_char(0);
    let negative = first == '-';
    if negative && low == 0 {
        assert(digit(first) is None);
        return None;
    }
    let signed = first == '+' || negative;
    let from: usize = if signed { 1 } else { 0 };
    if from == n {
        return None;
    }
    let ghost digits = if signed { word@.drop_first() } else { word@ };
    let mut value: i64 = 0;
    let mut i: usize = from;
    assert(digits.subrange(0, 0) =~= Seq::<char>::empty());
    while i < n
        invariant
            n == word@.len(),
            from <= i <= n,
            from == if signed { 1usize } else { 0usize },
            digits == if signed { word@.drop_first() } else { word@ },
            n > 0,
            -0x1_0000_0000 <= low <= 0 <= high <= 0x1_0000_0000,
            negative == (word@[0] == '-'),
            signed == (word@[0] == '+' || (word@[0] == '-' && low < 0)),
            all_digits(digits.subrange(0, i - from)),
            value == decimal(digits.subrange(0, i - from)),
            0 <= value <= 0x1_0000_0000,
        decreases n - i,
    {
        let c = word.get_char(i);
        assert(digits[i - from] == c);
        if !(c >= '0' && c <= '9') {
            assert(digit(digits[i - from]) is None);
            return None;
        }
        let d: i64 = (c as u32 - '0' as u32) as i64;
        let ghost done = digits.subrange(0, i - from);
        let ghost more = digits.subrange(0, i - from + 1);
        assert(more.drop_last() =~= done);
        assert(more.last() == c);
        assert forall|k: int| 0 <= k < more.len() implies digit(#[trigger] more[k]) is Some by {
            if k < done.len() {
                assert(more[k] == done[k]);
            }
        }
        value = value * 10 + d;
        if value > 0x1_0000_0000 {
            proof {
                if all_digits(digits) {
                    lemma_decimal_grows(digits, i - from + 1);
                }
            }
            return None;
        }
        i += 1;
    }
    assert(digits.subrange(0, n - from) =~= digits);
    let signed_value: i64 = if negative { -value } else { value };
    if signed_value < low || signed_value > high {
        return None;
    }
    Some(signed_value)
}

/// Reads a `u32` from `word`: an optional `+`, then decimal digits.
pub fn read_u32(word: &str) -> (r: Option<u32>)
    ensures
        r matches Some(v) ==> number(word@, 0, u32::MAX as int) == Some(v as int),
        r is None ==> number(word@, 0, u32::MAX as int) is None,
{
    match read_number(word, 0, 0xffff_ffff) {
        Some(v) => Some(v as u32),
        None => None,
    }
}

/// Reads an `i32` from `word`: an optional sign, then decimal digits.
pub fn read_i32(word: &str) -> (r: Option<i32>)
    ensures
        r matches Some(v) ==> number(word@, i32::MIN as int, i32::MAX as int) == Some(v as int),
        r is None ==> number(word@, i32::MIN as int, i32::MAX as int) is None,
{
    match read_number(word, -0x8000_0000, 0x7fff_ffff) {
        Some(v) => Some(v as i32),
        None => None,
    }
}

} // verus!
