//! Reading scores and commands out of text typed or pasted by a user.
use vstd::prelude::*;
use vstd::string::{StrSliceExecFns, StringExecFns};
use crate::decimal::{all_digits, digits_value, is_digit, parse_u16, reads_as_unsigned};

verus! {

/// Whether `c` has the Unicode `White_Space` property.
pub open spec fn white_space(c: char) -> bool {
    ||| '\u{9}' <= c && c <= '\u{d}'
    ||| c == ' '
    ||| c == '\u{85}'
    ||| c == '\u{a0}'
    ||| c == '\u{1680}'
    ||| '\u{2000}' <= c && c <= '\u{200a}'
    ||| c == '\u{2028}'
    ||| c == '\u{2029}'
    ||| c == '\u{202f}'
    ||| c == '\u{205f}'
    ||| c == '\u{3000}'
}

/// Whether `c` has the Unicode `White_Space` property.
pub fn is_whitespace_char(c: char) -> (r: bool)
    ensures
        r == white_space(c),
{
    ('\u{9}' <= c && c <= '\u{d}') || c == ' ' || c == '\u{85}' || c == '\u{a0}' || c == '\u{1680}'
        || ('\u{2000}' <= c && c <= '\u{200a}') || c == '\u{2028}' || c == '\u{2029}' || c
        == '\u{202f}' || c == '\u{205f}' || c == '\u{3000}'
}

/// Relies on `String::push`: appends one character.
#[verifier::external_body]
fn push_char(s: &mut String, c: char)
    ensures
        final(s)@ == old(s)@.push(c),
{
    s.push(c)
}

/// Relies on the `Display` impl of `ParseIntError` (through `to_string`):
/// a message for the error.
#[verifier::external_body]
fn parse_error_text(e: &std::num::ParseIntError) -> (r: String) {
    e.to_string()
}

/// Where the first line of `s` ends, searching from `i`: the index of the
/// first line feed at or after `i`, or the length of `s`.
pub open spec fn line_end_from(s: Seq<char>, i: int) -> int
    decreases s.len() - i,
{
    if i >= s.len() {
        s.len() as int
    } else if s[i] == '\n' {
        i
    } else {
        line_end_from(s, i + 1)
    }
}

/// The first line of `s`, without its line feed.
pub open spec fn first_line(s: Seq<char>) -> Seq<char> {
    s.subrange(0, line_end_from(s, 0))
}

/// Whether a score line holds only digits, white space and commas.
pub open spec fn score_line_ok(line: Seq<char>) -> bool {
    forall|i: int| 0 <= i < line.len() ==> {
        let c = #[trigger] line[i];
        is_digit(c) || white_space(c) || c == ','
    }
}

/// The digits of `s`, in order.
pub open spec fn digits_of(s: Seq<char>) -> Seq<char>
    decreases s.len(),
{
    if s.len() == 0 {
        s
    } else if is_digit(s.last()) {
        digits_of(s.drop_last()).push(s.last())
    } else {
        digits_of(s.drop_last())
    }
}

proof fn lemma_digits_of_all_digits(s: Seq<char>)
    ensures
        all_digits(digits_of(s)),
    decreases s.len(),
{
    if s.len() > 0 {
        lemma_digits_of_all_digits(s.drop_last());
    }
}

/// `s` without its commas, in order.
pub open spec fn without_commas(s: Seq<char>) -> Seq<char>
    decreases s.len(),
{
    if s.len() == 0 {
        s
    } else if s.last() == ',' {
        without_commas(s.drop_last())
    } else {
        without_commas(s.drop_last()).push(s.last())
    }
}

/// The length of `s` once trailing white space is cut off.
pub open spec fn trimmed_len(s: Seq<char>) -> nat
    decreases s.len(),
{
    if s.len() == 0 {
        0
    } else if white_space(s.last()) {
        trimmed_len(s.drop_last())
    } else {
        s.len()
    }
}

/// `s` without trailing white space.
pub open spec fn trim_end(s: Seq<char>) -> Seq<char> {
    s.subrange(0, trimmed_len(s) as int)
}

pub(crate) proof fn lemma_trimmed_len_bound(s: Seq<char>)
    ensures
        trimmed_len(s) <= s.len(),
    decreases s.len(),
{
    if s.len() > 0 {
        lemma_trimmed_len_bound(s.drop_last());
    }
}

/// Index just past the last character of `s` that is not white space.
pub(crate) fn trimmed_end(s: &str) -> (r: usize)
    ensures
        r == trimmed_len(s@),
{
    let mut n: usize = s.unicode_len();
    assert(s@.subrange(0, n as int) =~= s@);
    while n > 0 && is_whitespace_char(s.get_char(n - 1))
        invariant
            n <= s@.len(),
            trimmed_len(s@) == trimmed_len(s@.subrange(0, n as int)),
        decreases n,
    {
        assert(s@.subrange(0, n as int).drop_last() =~= s@.subrange(0, n as int - 1));
        n = n - 1;
    }
    if n > 0 {
        assert(!white_space(s@.subrange(0, n as int).last()));
    }
    n
}

/// Reads a round's score from pasted text. Only the first line counts; in
/// it, digits are kept and white space and commas skipped, so `4,321` reads
/// as 4321. Empty text, a line with any other character, or digits that do
/// not make a `u16` are errors.
pub fn score_from_str(input_str: &str) -> (r: Result<u16, String>)
    ensures
        input_str@.len() == 0 ==> (r matches Err(m) && m@ == "no lines in input"@),
        input_str@.len() > 0 && !score_line_ok(first_line(input_str@)) ==> (r matches Err(m)
            && m@ == input_str@),
        input_str@.len() > 0 && score_line_ok(first_line(input_str@)) ==> {
            let digits = digits_of(first_line(input_str@));
            &&& r is Ok <==> reads_as_unsigned(digits, u16::MAX as nat)
            &&& r is Ok ==> r->Ok_0 == digits_value(digits)
        },
{
    let len = input_str.unicode_len();
    if len == 0 {
        proof {
            reveal_strlit("no lines in input");
        }
        return Err(String::from_str("no lines in input"));
    }
    let ghost s = input_str@;
    let mut end: usize = 0;
    while end < len && input_str.get_char(end) != '\n'
        invariant
            s == input_str@,
            len == s.len(),
            end <= len,
            line_end_from(s, 0) == line_end_from(s, end as int),
        decreases len - end,
    {
        end = end + 1;
    }
    let ghost line = first_line(s);
    assert(line =~= s.subrange(0, end as int));
    let mut score_str = String::new();
    let mut i: usize = 0;
    while i < end
        invariant
            s == input_str@,
            line == s.subrange(0, end as int),
            line == first_line(s),
            end <= s.len(),
            i <= end,
            score_line_ok(line.subrange(0, i as int)),
            score_str@ == digits_of(line.subrange(0, i as int)),
        decreases end - i,
    {
        let ch = input_str.get_char(i);
        assert(line.subrange(0, i as int + 1).drop_last() =~= line.subrange(0, i as int));
        if '0' <= ch && ch <= '9' {
            push_char(&mut score_str, ch);
        } else if is_whitespace_char(ch) || ch == ',' {
        } else {
            proof {
                assert(line[i as int] == ch);
                assert(!is_digit(ch));
                assert(!white_space(ch));
                assert(!score_line_ok(first_line(input_str@)));
            }
            return Err(input_str.to_owned());
        }
        assert forall|j: int| 0 <= j < i + 1 implies {
            let c = #[trigger] line.subrange(0, i as int + 1)[j];
            is_digit(c) || white_space(c) || c == ','
        } by {
            if j < i {
                assert(line.subrange(0, i as int + 1)[j] == line.subrange(0, i as int)[j]);
            }
        }
        i = i + 1;
    }
    assert(line.subrange(0, end as int) =~= line);
    proof {
        lemma_digits_of_all_digits(line);
        if score_str@.len() > 0 {
            assert(is_digit(score_str@[0]));
        }
        assert(score_str@ == digits_of(first_line(input_str@)));
    }
    match parse_u16(score_str.as_str()) {
        Ok(score) => Ok(score),
        Err(e) => Err(parse_error_text(&e)),
    }
}

/// A command as typed, without trailing white space.
pub fn cmd_formatter(input: &str) -> (r: String)
    ensures
        r@ == trim_end(input@),
{
    let end = trimmed_end(input);
    proof {
        lemma_trimmed_len_bound(input@);
    }
    input.substring_char(0, end).to_owned()
}

/// A score as typed, without trailing white space or commas.
pub fn score_formatter(input: &str) -> (r: String)
    ensures
        r@ == without_commas(trim_end(input@)),
{
    let end = trimmed_end(input);
    proof {
        lemma_trimmed_len_bound(input@);
    }
    let ghost t = trim_end(input@);
    let mut out = String::new();
    let mut i: usize = 0;
    while i < end
        invariant
            end == t.len(),
            t == input@.subrange(0, end as int),
            end <= input@.len(),
            i <= end,
            out@ == without_commas(t.subrange(0, i as int)),
        decreases end - i,
    {
        let ch = input.get_char(i);
        assert(t.subrange(0, i as int + 1).drop_last() =~= t.subrange(0, i as int));
        if ch != ',' {
            push_char(&mut out, ch);
        }
        i = i + 1;
    }
    assert(t.subrange(0, end as int) =~= t);
    out
}

/// The length of `s` once trailing characters other than ASCII digits are
/// cut off.
pub open spec fn digit_trimmed_len(s: Seq<char>) -> nat
    decreases s.len(),
{
    if s.len() == 0 {
        0
    } else if !is_digit(s.last()) {
        digit_trimmed_len(s.drop_last())
    } else {
        s.len()
    }
}

proof fn lemma_digit_trimmed_len_bound(s: Seq<char>)
    ensures
        digit_trimmed_len(s) <= s.len(),
    decreases s.len(),
{
    if s.len() > 0 {
        lemma_digit_trimmed_len_bound(s.drop_last());
    }
}

/// `s` up to its last ASCII digit: what is left of a pasted score once the
/// lines after it are dropped.
pub fn without_trailing_non_digits(s: &str) -> (r: String)
    ensures
        r@ == s@.subrange(0, digit_trimmed_len(s@) as int),
{
    let mut n: usize = s.unicode_len();
    assert(s@.subrange(0, n as int) =~= s@);
    while n > 0 && !('0' <= s.get_char(n - 1) && s.get_char(n - 1) <= '9')
        invariant
            n <= s@.len(),
            digit_trimmed_len(s@) == digit_trimmed_len(s@.subrange(0, n as int)),
        decreases n,
    {
        assert(s@.subrange(0, n as int).drop_last() =~= s@.subrange(0, n as int - 1));
        n = n - 1;
    }
    if n > 0 {
        assert(is_digit(s@.subrange(0, n as int).last()));
    }
    proof {
        lemma_digit_trimmed_len_bound(s@);
    }
    s.substring_char(0, n).to_owned()
}

} // verus!
