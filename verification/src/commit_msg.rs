//! The rule for commit messages that the `commit-msg` hook enforces: a
//! header of ten to fifty characters, and no line of the body beyond
//! seventy-two. A character is what a reader takes for one: a grapheme
//! cluster.

use crate::text::{chars_of, string_of, views};
use vstd::prelude::*;
use vstd::string::StringExecFns;

verus! {

/// How many extended grapheme clusters the `unicode-segmentation` crate
/// finds in a text.
pub uninterp spec fn grapheme_count(line: Seq<char>) -> nat;

/// `UnicodeSegmentation::graphemes` of the `unicode-segmentation` crate, for
/// extended clusters, counted.
#[verifier::external_body]
pub(crate) fn count_graphemes(line: &str) -> (n: usize)
    ensures
        n == grapheme_count(line@),
{
    unicode_segmentation::UnicodeSegmentation::graphemes(line, true).count()
}

/// What is wrong with a commit message.
#[derive(Debug, Clone, Copy, PartialEq, Eq, Structural)]
pub enum Complaint {
    /// The header has more than fifty characters.
    HeaderTooLong,
    /// The header has fewer than ten characters.
    HeaderTooShort,
    /// A line of the body has more than seventy-two characters.
    LineTooLong,
}

/// The longest header.
pub const HEADER_MAX: usize = 50;

/// The shortest header.
pub const HEADER_MIN: usize = 10;

/// The longest line of the body.
pub const LINE_MAX: usize = 72;

/// What is said to the author of a message that was turned down.
pub open spec fn complaint_text(complaint: Complaint) -> Seq<char> {
    match complaint {
        Complaint::HeaderTooLong => "Your commit header is over 50 characters (i.e. graphemes) in length.\nCommit messages titles should be between 10 to 50 characters"@,
        Complaint::HeaderTooShort => "Your commit header is less than 10 characters (i.e. graphemes) in length.\nCommit messages titles should be between 10 to 50 characters"@,
        Complaint::LineTooLong => "One of the lines in the body of the commit is over 72 characters (i.e. graphemes) in \nlength. Commit messages titles should be between 10 to 50 characters"@,
    }
}

/// What is said to the author of a message that was turned down.
pub fn complaint_message(complaint: Complaint) -> (text: String)
    ensures
        text@ == complaint_text(complaint),
{
    match complaint {
        Complaint::HeaderTooLong => String::from_str(
            "Your commit header is over 50 characters (i.e. graphemes) in length.\nCommit messages titles should be between 10 to 50 characters",
        ),
        Complaint::HeaderTooShort => String::from_str(
            "Your commit header is less than 10 characters (i.e. graphemes) in length.\nCommit messages titles should be between 10 to 50 characters",
        ),
        Complaint::LineTooLong => String::from_str(
            "One of the lines in the body of the commit is over 72 characters (i.e. graphemes) in \nlength. Commit messages titles should be between 10 to 50 characters",
        ),
    }
}

/// What follows the last line feed of a text.
pub open spec fn tail_of(s: Seq<char>) -> Seq<char>
    decreases s.len(),
{
    if s.len() == 0 || s.last() == '\n' {
        Seq::empty()
    } else {
        tail_of(s.drop_last()).push(s.last())
    }
}

/// A line without the carriage return that stood before its line feed.
pub open spec fn without_return(line: Seq<char>) -> Seq<char> {
    if line.len() > 0 && line.last() == '\r' {
        line.drop_last()
    } else {
        line
    }
}

/// The lines of a text that a line feed ends, without their endings.
pub open spec fn ended_lines(s: Seq<char>) -> Seq<Seq<char>>
    decreases s.len(),
{
    if s.len() == 0 {
        Seq::empty()
    } else if s.last() == '\n' {
        ended_lines(s.drop_last()).push(without_return(tail_of(s.drop_last())))
    } else {
        ended_lines(s.drop_last())
    }
}

/// The lines of a text. A line ends with a line feed, or a carriage return
/// and a line feed; the ending is no part of the line. What follows the last
/// ending is a line too unless it is empty.
pub open spec fn lines_of(s: Seq<char>) -> Seq<Seq<char>> {
    if tail_of(s).len() > 0 {
        ended_lines(s).push(tail_of(s))
    } else {
        ended_lines(s)
    }
}

/// The verdict on a message whose lines have these lengths: the first line
/// is the header, the others are the body. A message without lines passes.
pub open spec fn judged(lengths: Seq<usize>) -> Result<(), Complaint> {
    if lengths.len() == 0 {
        Ok(())
    } else if lengths[0] > HEADER_MAX {
        Err(Complaint::HeaderTooLong)
    } else if lengths[0] < HEADER_MIN {
        Err(Complaint::HeaderTooShort)
    } else if exists|i: int| 1 <= i < lengths.len() && lengths[i] > LINE_MAX {
        Err(Complaint::LineTooLong)
    } else {
        Ok(())
    }
}

/// The lengths of lines, in grapheme clusters.
pub open spec fn lengths_of(lines: Seq<Seq<char>>) -> Seq<usize> {
    lines.map_values(|l: Seq<char>| grapheme_count(l) as usize)
}

/// Judges a message by the lengths of its lines.
pub fn check_lengths(lengths: &Vec<usize>) -> (verdict: Result<(), Complaint>)
    ensures
        verdict == judged(lengths@),
{
    if lengths.len() == 0 {
        return Ok(());
    }
    if lengths[0] > HEADER_MAX {
        return Err(Complaint::HeaderTooLong);
    }
    if lengths[0] < HEADER_MIN {
        return Err(Complaint::HeaderTooShort);
    }
    let mut i: usize = 1;
    while i < lengths.len()
        invariant
            1 <= i <= lengths.len(),
            HEADER_MIN <= lengths@[0] <= HEADER_MAX,
            forall|j: int| 1 <= j < i ==> lengths@[j] <= LINE_MAX,
        decreases lengths.len() - i,
    {
        if lengths[i] > LINE_MAX {
            return Err(Complaint::LineTooLong);
        }
        i += 1;
    }
    Ok(())
}

/// The lines of `text`.
pub fn lines(text: &Vec<char>) -> (out: Vec<Vec<char>>)
    ensures
        views(out@) == lines_of(text@),
{
    let mut out: Vec<Vec<char>> = Vec::new();
    let mut cur: Vec<char> = Vec::new();
    let mut i: usize = 0;
    assert(views(out@) =~= ended_lines(text@.take(0)));
    assert(cur@ =~= tail_of(text@.take(0)));
    while i < text.len()
        invariant
            i <= text.len(),
            views(out@) == ended_lines(text@.take(i as int)),
            cur@ == tail_of(text@.take(i as int)),
        decreases text.len() - i,
    {
        let c = text[i];
        proof {
            assert(text@.take(i + 1).drop_last() =~= text@.take(i as int));
            assert(text@.take(i + 1).last() == c);
        }
        if c == '\n' {
            let ghost before = views(out@);
            let ghost line = cur@;
            let n = cur.len();
            if n > 0 && cur[n - 1] == '\r' {
                let _ = cur.pop();
            }
            assert(cur@ =~= without_return(line));
            out.push(cur);
            assert(views(out@) =~= before.push(without_return(line)));
            cur = Vec::new();
            assert(cur@ =~= tail_of(text@.take(i + 1)));
        } else {
            cur.push(c);
        }
        i += 1;
    }
    assert(text@.take(text.len() as int) =~= text@);
    if cur.len() > 0 {
        let ghost before = views(out@);
        let ghost line = cur@;
        out.push(cur);
        assert(views(out@) =~= before.push(line));
    }
    out
}

/// Judges the commit message `text`.
pub fn check_message(text: &str) -> (verdict: Result<(), Complaint>)
    ensures
        verdict == judged(lengths_of(lines_of(text@))),
{
    let found = lines(&chars_of(text));
    let mut lengths: Vec<usize> = Vec::new();
    let mut i: usize = 0;
    while i < found.len()
        invariant
            i <= found.len(),
            lengths.len() == i,
            forall|j: int|
                0 <= j < i ==> (#[trigger] lengths@[j]) == grapheme_count(found@[j]@) as usize,
        decreases found.len() - i,
    {
        let line = string_of(&found[i]);
        lengths.push(count_graphemes(line.as_str()));
        i += 1;
    }
    assert(lengths@ =~= lengths_of(views(found@)));
    check_lengths(&lengths)
}

} // verus!
