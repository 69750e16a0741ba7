//! The one-letter commands of the interactive prompt, and the checks on what
//! is typed at it.
use vstd::prelude::*;
use vstd::string::{StrSliceExecFns, StringExecFns};
use vstd::utf8::encode_utf8;
use crate::decimal::is_digit;
use crate::input::{lemma_trimmed_len_bound, trim_end, trimmed_end, trimmed_len, without_commas};

verus! {

/// A command of the prompt.
#[derive(Debug, Clone, Copy, PartialEq, Eq, Structural)]
pub enum CmdType {
    Quit,
    PrintStats,
    AddEntryDirect,
    AddEntryCalculated,
    FixPrev,
}

/// The command that the letter `c` names.
pub open spec fn cmd_of(c: char) -> Option<CmdType> {
    if c == 'q' {
        Some(CmdType::Quit)
    } else if c == 's' {
        Some(CmdType::PrintStats)
    } else if c == 'd' {
        Some(CmdType::AddEntryDirect)
    } else if c == 'c' {
        Some(CmdType::AddEntryCalculated)
    } else if c == 'f' {
        Some(CmdType::FixPrev)
    } else {
        None
    }
}

/// Whether `c` is an ASCII letter.
pub open spec fn is_ascii_letter(c: char) -> bool {
    ('a' <= c && c <= 'z') || ('A' <= c && c <= 'Z')
}

/// Whether every character of `s` is an ASCII digit.
pub open spec fn only_digits(s: Seq<char>) -> bool {
    forall|i: int| 0 <= i < s.len() ==> is_digit(#[trigger] s[i])
}

impl CmdType {
    /// The command named by the first letter of `s`.
    pub fn from_str(s: &str) -> (r: Result<Self, String>)
        requires
            s@.len() > 0,
        ensures
            cmd_of(s@[0]) matches Some(c) ==> r == Ok::<CmdType, String>(c),
            cmd_of(s@[0]) is None ==> (r matches Err(m) && m@ == "unkown command character"@),
    {
        let c = s.get_char(0);
        if c == 'q' {
            Ok(CmdType::Quit)
        } else if c == 's' {
            Ok(CmdType::PrintStats)
        } else if c == 'd' {
            Ok(CmdType::AddEntryDirect)
        } else if c == 'c' {
            Ok(CmdType::AddEntryCalculated)
        } else if c == 'f' {
            Ok(CmdType::FixPrev)
        } else {
            proof {
                reveal_strlit("unkown command character");
            }
            Err(String::from_str("unkown command character"))
        }
    }
}

/// Accepts a command typed as one ASCII letter, trailing white space
/// aside; otherwise gives the message to show.
pub fn cmd_validator(input: &str) -> (r: Result<(), String>)
    ensures
        r is Ok <==> trimmed_len(input@) == 1 && is_ascii_letter(input@[0]),
        r matches Err(m) ==> m@ == "commands should be given as a single letter"@,
{
    let end = trimmed_end(input);
    if end == 1 {
        let first_char = input.get_char(0);
        if ('a' <= first_char && first_char <= 'z') || ('A' <= first_char && first_char <= 'Z') {
            return Ok(());
        }
    }
    proof {
        reveal_strlit("commands should be given as a single letter");
    }
    Err(String::from_str("commands should be given as a single letter"))
}

/// Accepts a score typed as one to four bytes of ASCII digits and commas,
/// trailing white space aside; otherwise gives the message to show.
pub fn score_validator(input: &str) -> (r: Result<(), String>)
    ensures
        ({
            let n = encode_utf8(trim_end(input@)).len() as usize;
            &&& r is Ok <==> 1 <= n < 5 && only_digits(without_commas(trim_end(input@)))
            &&& !(1 <= n < 5) ==> (r matches Err(m) && m@ == "input is too long"@)
            &&& 1 <= n < 5 && !only_digits(without_commas(trim_end(input@))) ==> (r matches Err(m)
                && m@ == "score can only contain ASCII digits and commas"@)
        }),
{
    let end = trimmed_end(input);
    proof {
        lemma_trimmed_len_bound(input@);
    }
    let trimmed = input.substring_char(0, end);
    let n = trimmed.len();
    assert(trimmed@ == trim_end(input@));
    if 1 <= n && n < 5 {
        let ghost t = trim_end(input@);
        let mut i: usize = 0;
        let mut all_digits = true;
        let count = trimmed.unicode_len();
        while i < count
            invariant
                count == t.len(),
                trimmed@ == t,
                i <= count,
                all_digits == only_digits(without_commas(t.subrange(0, i as int))),
            decreases count - i,
        {
            let c = trimmed.get_char(i);
            let ghost before = without_commas(t.subrange(0, i as int));
            assert(t.subrange(0, i as int + 1).drop_last() =~= t.subrange(0, i as int));
            if c != ',' {
                assert(without_commas(t.subrange(0, i as int + 1)) == before.push(c));
                if !('0' <= c && c <= '9') {
                    all_digits = false;
                }
                assert(all_digits == only_digits(before.push(c))) by {
                    if only_digits(before) && is_digit(c) {
                        assert forall|j: int| 0 <= j < before.len() + 1 implies is_digit(
                            #[trigger] before.push(c)[j],
                        ) by {
                            if j < before.len() {
                                assert(before.push(c)[j] == before[j]);
                            }
                        }
                    }
                    if !only_digits(before) {
                        let k = choose|k: int| 0 <= k < before.len() && !is_digit(#[trigger] before[k]);
                        assert(before.push(c)[k] == before[k]);
                    }
                    if !is_digit(c) {
                        assert(before.push(c)[before.len() as int] == c);
                    }
                }
            } else {
                assert(without_commas(t.subrange(0, i as int + 1)) == before);
            }
            i = i + 1;
        }
        assert(t.subrange(0, count as int) =~= t);
        if all_digits {
            Ok(())
        } else {
            proof {
                reveal_strlit("score can only contain ASCII digits and commas");
            }
            Err(String::from_str("score can only contain ASCII digits and commas"))
        }
    } else {
        proof {
            reveal_strlit("input is too long");
        }
        Err(String::from_str("input is too long"))
    }
}

} // verus!
