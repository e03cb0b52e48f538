//! The line splitter: expands one raw input line into the multi-line
//! standard-input payload of one subprocess.
//!
//! Two interchangeable strategies exist. The literal strategy,
//! [`split_line`], replaces every non-overlapping occurrence of a delimiter
//! byte string with a line break and is verified against [`split_spec`].
//! The pattern strategy, [`PatternSplitter`], replaces every non-overlapping
//! match of a compiled pattern with a line break; its matching algorithm
//! lives in the `regex` crate and is only named here, not specified.

use crate::text::{bytes_to_string_lossy, lossy_chars_of};
use vstd::prelude::*;
use vstd::string::StrSliceExecFns;
use vstd::utf8::encode_utf8;

verus! {

/// The byte that separates lines in payloads and in captured output.
pub const LINE_BREAK: u8 = 10;

/// What replacing every occurrence of `pat` in `s` with a line break yields.
///
/// Occurrences are found left to right and do not overlap. The empty
/// delimiter occurs at every byte boundary, including both ends.
pub open spec fn split_spec(s: Seq<u8>, pat: Seq<u8>) -> Seq<u8>
    decreases s.len(),
{
    if s.len() == 0 {
        if pat.len() == 0 {
            seq![LINE_BREAK]
        } else {
            Seq::empty()
        }
    } else if pat.len() > 0 && pat.len() <= s.len() && s.subrange(0, pat.len() as int) == pat {
        seq![LINE_BREAK] + split_spec(s.skip(pat.len() as int), pat)
    } else if pat.len() == 0 {
        seq![LINE_BREAK, s[0]] + split_spec(s.skip(1), pat)
    } else {
        seq![s[0]] + split_spec(s.skip(1), pat)
    }
}

/// True when `pat` occurs in `s` at position `i`.
fn matches_at(s: &Vec<u8>, pat: &Vec<u8>, i: usize) -> (r: bool)
    requires
        i + pat@.len() <= s@.len(),
    ensures
        r == (s@.subrange(i as int, i as int + pat@.len()) == pat@),
{
    let slen = s.len();
    let plen = pat.len();
    let mut j: usize = 0;
    while j < plen
        invariant
            plen == pat@.len(),
            slen == s@.len(),
            i + plen <= slen,
            0 <= j <= plen,
            forall|k: int| 0 <= k < j ==> s@[i + k] == pat@[k],
        decreases plen - j,
    {
        if s[i + j] != pat[j] {
            proof {
                assert(s@.subrange(i as int, i as int + pat@.len())[j as int] != pat@[j as int]);
            }
            return false;
        }
        j = j + 1;
    }
    proof {
        assert(s@.subrange(i as int, i as int + pat@.len()) =~= pat@);
    }
    true
}

/// Literal strategy of the line splitter: replaces every non-overlapping
/// occurrence of `delim` in `line` with a line break, left to right.
pub fn split_line(line: &Vec<u8>, delim: &Vec<u8>) -> (payload: Vec<u8>)
    ensures
        payload@ == split_spec(line@, delim@),
{
    let mut out: Vec<u8> = Vec::new();
    proof {
        assert(line@.skip(0) =~= line@);
    }
    if delim.len() == 0 {
        let mut i: usize = 0;
        while i < line.len()
            invariant
                0 <= i <= line@.len(),
                delim@.len() == 0,
                split_spec(line@, delim@) == out@ + split_spec(line@.skip(i as int), delim@),
            decreases line@.len() - i,
        {
            out.push(LINE_BREAK);
            out.push(line[i]);
            proof {
                assert(line@.skip(i as int).skip(1) =~= line@.skip(i as int + 1));
            }
            i = i + 1;
        }
        out.push(LINE_BREAK);
        return out;
    }
    let mut i: usize = 0;
    while i < line.len()
        invariant
            0 <= i <= line@.len(),
            delim@.len() > 0,
            split_spec(line@, delim@) == out@ + split_spec(line@.skip(i as int), delim@),
        decreases line@.len() - i,
    {
        if delim.len() <= line.len() - i && matches_at(line, delim, i) {
            out.push(LINE_BREAK);
            proof {
                assert(line@.skip(i as int).subrange(0, delim@.len() as int) =~= line@.subrange(
                    i as int,
                    i as int + delim@.len(),
                ));
                assert(line@.skip(i as int).skip(delim@.len() as int) =~= line@.skip(
                    i as int + delim@.len(),
                ));
            }
            i = i + delim.len();
        } else {
            proof {
                if delim@.len() <= line@.len() - i {
                    assert(line@.skip(i as int).subrange(0, delim@.len() as int) =~= line@.subrange(
                        i as int,
                        i as int + delim@.len(),
                    ));
                }
                assert(line@.skip(i as int).skip(1) =~= line@.skip(i as int + 1));
            }
            out.push(line[i]);
            i = i + 1;
        }
    }
    out
}

#[verifier::external_type_specification]
#[verifier::external_body]
pub struct ExRegex(regex::Regex);

/// The text that replacing every non-overlapping match of the pattern
/// `pattern` in `s` with a line break yields. Which substrings match is the
/// pattern strategy's own algorithm and is not specified here; the result
/// depends on the pattern and on `s` alone.
pub uninterp spec fn pattern_newline_split(pattern: Seq<char>, s: Seq<char>) -> Seq<char>;

/// Pattern strategy of the line splitter: a compiled pattern whose matches
/// in a line are replaced with line breaks.
pub struct PatternSplitter {
    re: regex::Regex,
    pattern: String,
}

impl PatternSplitter {
    /// The pattern this splitter was compiled from.
    pub closed spec fn spec_pattern(self) -> Seq<char> {
        self.pattern@
    }

    /// Relies on `regex::Regex::new`: compiles the pattern, or reports that
    /// it is not a valid pattern. Whether a pattern compiles is the `regex`
    /// crate's decision.
    #[verifier::external_body]
    pub fn compile(pattern: &str) -> (r: Option<PatternSplitter>)
        ensures
            r matches Some(sp) ==> sp.spec_pattern() == pattern@,
    {
        match regex::Regex::new(pattern) {
            Ok(re) => Some(PatternSplitter { re, pattern: pattern.to_owned() }),
            Err(_) => None,
        }
    }

    /// Relies on `regex::Regex::replace_all`: every non-overlapping match of
    /// the pattern in `s`, found left to right, is replaced with a line
    /// break; the result depends on the pattern and on `s` alone.
    #[verifier::external_body]
    fn replace_with_line_breaks(&self, s: &str) -> (r: String)
        ensures
            r@ == pattern_newline_split(self.spec_pattern(), s@),
    {
        self.re.replace_all(s, "\n").into_owned()
    }

    /// Expands one raw input line into the payload: the line is decoded
    /// lossily and every match of the pattern becomes a line break.
    pub fn split_line(&self, line: &Vec<u8>) -> (payload: Vec<u8>)
        ensures
            payload@ == encode_utf8(
                pattern_newline_split(self.spec_pattern(), lossy_chars_of(line@)),
            ),
    {
        let text = bytes_to_string_lossy(line.as_slice());
        let replaced = self.replace_with_line_breaks(text.as_str());
        replaced.as_str().as_bytes_vec()
    }
}

} // verus!
