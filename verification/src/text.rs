//! What the library itself reads of a text before the rules see it.

use vstd::prelude::*;
use vstd::string::{StrSliceExecFns, StringSliceAdditionalSpecFns};
use crate::error::EncodingFault;

verus! {

/// How many fields a text has: the runs of characters that are not spaces.
pub open spec fn field_count(s: Seq<char>) -> nat
    decreases s.len(),
{
    if s.len() == 0 {
        0
    } else {
        field_count(s.drop_last()) + if starts_field(s, s.len() - 1) {
            1nat
        } else {
            0nat
        }
    }
}

/// Whether a field starts at the given place: a character that is not a
/// space, at the start of the text or behind a space.
pub open spec fn starts_field(s: Seq<char>, i: int) -> bool {
    s[i] != ' ' && (i == 0 || s[i - 1] == ' ')
}

/// Counts the fields of a text.
pub fn count_fields(text: &str) -> (n: usize)
    ensures
        n == field_count(text@),
{
    if text.is_ascii() {
        let bytes = text.as_bytes();
        let len = bytes.len();
        proof {
            vstd::string::is_ascii_spec_bytes(text);
        }
        let mut n: usize = 0;
        let mut after_space = true;
        let mut i: usize = 0;
        while i < len
            invariant
                i <= len,
                len == text@.len(),
                text.is_ascii(),
                bytes@ == text.spec_bytes(),
                n == field_count(text@.take(i as int)),
                n <= i,
                after_space == (i == 0 || text@[i - 1] == ' '),
            decreases len - i,
        {
            proof {
                vstd::string::is_ascii_spec_bytes(text);
                let s = text@.take(i + 1);
                assert(s.drop_last() =~= text@.take(i as int));
                assert(s[i as int] == text@[i as int]);
                if i > 0 {
                    assert(s[i - 1] == text@[i - 1]);
                }
                assert(bytes[i as int] == text@[i as int] as u8);
            }
            let space = bytes[i] == 32;
            assert(space == (text@[i as int] == ' '));
            if !space && after_space {
                n = n + 1;
            }
            after_space = space;
            i = i + 1;
        }
        proof {
            assert(text@.take(len as int) =~= text@);
        }
        n
    } else {
        count_fields_by_chars(text)
    }
}

/// Counts the fields of a text that is not all ASCII.
fn count_fields_by_chars(text: &str) -> (n: usize)
    ensures
        n == field_count(text@),
{
    let len = text.unicode_len();
    let mut n: usize = 0;
    let mut after_space = true;
    let mut i: usize = 0;
    while i < len
        invariant
            i <= len,
            len == text@.len(),
            n == field_count(text@.take(i as int)),
            n <= i,
            after_space == (i == 0 || text@[i - 1] == ' '),
        decreases len - i,
    {
        let c = text.get_char(i);
        proof {
            let s = text@.take(i + 1);
            assert(s.drop_last() =~= text@.take(i as int));
            assert(s[i as int] == text@[i as int]);
            if i > 0 {
                assert(s[i - 1] == text@[i - 1]);
            }
        }
        if c != ' ' && after_space {
            n = n + 1;
        }
        after_space = c == ' ';
        i = i + 1;
    }
    proof {
        assert(text@.take(len as int) =~= text@);
    }
    n
}

/// How many of the first `n` characters of a text stand before its first
/// space.
pub open spec fn leading(s: Seq<char>, n: int) -> int
    decreases n,
{
    if n <= 0 {
        0
    } else if leading(s, n - 1) == n - 1 && s[n - 1] != ' ' {
        n
    } else {
        leading(s, n - 1)
    }
}

/// The part of a text before its first space: the whole text if it has no
/// space.
pub open spec fn before_space(s: Seq<char>) -> Seq<char> {
    s.take(leading(s, s.len() as int))
}

/// Once a space is met, no later character stands before the first space.
proof fn lemma_leading_stops(s: Seq<char>, i: int, n: int)
    requires
        0 <= i < n <= s.len(),
        leading(s, i) == i,
        s[i] == ' ',
    ensures
        leading(s, n) == i,
    decreases n,
{
    if n > i + 1 {
        lemma_leading_stops(s, i, n - 1);
    }
}

/// The part of an ASCII text before its first space.
pub fn take_before_space(text: &str) -> (part: &str)
    requires
        text.is_ascii(),
    ensures
        part@ == before_space(text@),
{
    let bytes = text.as_bytes();
    let len = bytes.len();
    proof {
        vstd::string::is_ascii_spec_bytes(text);
    }
    let mut i: usize = 0;
    while i < len
        invariant_except_break
            i <= len,
            leading(text@, i as int) == i,
        invariant
            len == text@.len(),
            text.is_ascii(),
            bytes@ == text.spec_bytes(),
        ensures
            i <= len,
            leading(text@, len as int) == i,
        decreases len - i,
    {
        proof {
            vstd::string::is_ascii_spec_bytes(text);
            assert(bytes[i as int] == text@[i as int] as u8);
        }
        if bytes[i] == 32 {
            assert(text@[i as int] == ' ');
            proof {
                lemma_leading_stops(text@, i as int, len as int);
            }
            break;
        }
        i = i + 1;
    }
    text.substring_ascii(0, i)
}

/// Where the reading of a piece placement stands.
#[derive(Clone, Copy, Debug, PartialEq, Eq, Structural)]
pub enum Scan {
    /// Before the placement: only spaces so far.
    Before,
    /// In the placement: so many ranks are done, and so many files of the
    /// rank that is being read.
    Within { ranks: u8, files: u8 },
    /// Behind the placement, which had so many finished ranks and so many
    /// files in its last rank.
    Behind { ranks: u8, files: u8 },
    /// The placement is malformed.
    Failed(EncodingFault),
}

/// How many files a character of a piece placement fills: a piece letter
/// one, a digit from 1 to 8 as many as it says. Any other character fills
/// none.
pub open spec fn files_of(c: char) -> u8 {
    if is_role_char(c) {
        1
    } else if c == '1' {
        1
    } else if c == '2' {
        2
    } else if c == '3' {
        3
    } else if c == '4' {
        4
    } else if c == '5' {
        5
    } else if c == '6' {
        6
    } else if c == '7' {
        7
    } else if c == '8' {
        8
    } else {
        0
    }
}

/// Reading one more character of a placement of which so many ranks and
/// files are read.
pub open spec fn within_step(ranks: u8, files: u8, c: char) -> Scan {
    if c == ' ' {
        Scan::Behind { ranks, files }
    } else if c == '/' {
        if files == 8 && ranks < 8 {
            Scan::Within { ranks: (ranks + 1) as u8, files: 0 }
        } else {
            Scan::Failed(EncodingFault::RankSum)
        }
    } else if files_of(c) == 0 {
        Scan::Failed(EncodingFault::Symbol)
    } else if files + files_of(c) > 8 {
        Scan::Failed(EncodingFault::RankSum)
    } else {
        Scan::Within { ranks, files: (files + files_of(c)) as u8 }
    }
}

/// Reading one more character of a text.
pub open spec fn scan_step(state: Scan, c: char) -> Scan {
    match state {
        Scan::Before => if c == ' ' {
            Scan::Before
        } else {
            within_step(0, 0, c)
        },
        Scan::Within { ranks, files } => within_step(ranks, files, c),
        Scan::Behind { .. } => state,
        Scan::Failed(_) => state,
    }
}

/// Where the reading of the piece placement stands at the end of a text.
pub open spec fn scan(s: Seq<char>) -> Scan
    decreases s.len(),
{
    if s.len() == 0 {
        Scan::Before
    } else {
        scan_step(scan(s.drop_last()), s.last())
    }
}

/// What is wrong with the piece placement of a position text, its first
/// field: a character that is no piece letter, no digit from 1 to 8 and no
/// slash; or a rank that does not add up to eight files, or a count of
/// ranks that is not eight. The first fault met from the left counts.
pub open spec fn placement_fault(s: Seq<char>) -> Option<EncodingFault> {
    end_fault(scan(s))
}

/// The fault of a placement, from where its reading stands at the end of
/// the text: none if the placement has eight full ranks.
pub open spec fn end_fault(state: Scan) -> Option<EncodingFault> {
    match state {
        Scan::Before => Some(EncodingFault::RankSum),
        Scan::Within { ranks, files } => if ranks == 7 && files == 8 {
            None
        } else {
            Some(EncodingFault::RankSum)
        },
        Scan::Behind { ranks, files } => if ranks == 7 && files == 8 {
            None
        } else {
            Some(EncodingFault::RankSum)
        },
        Scan::Failed(e) => Some(e),
    }
}

fn files_in(c: char) -> (n: u8)
    ensures
        n == files_of(c),
{
    if role_char(c) {
        1
    } else if c == '1' {
        1
    } else if c == '2' {
        2
    } else if c == '3' {
        3
    } else if c == '4' {
        4
    } else if c == '5' {
        5
    } else if c == '6' {
        6
    } else if c == '7' {
        7
    } else if c == '8' {
        8
    } else {
        0
    }
}

fn step_within(ranks: u8, files: u8, c: char) -> (r: Scan)
    requires
        files <= 8,
        ranks <= 8,
    ensures
        r == within_step(ranks, files, c),
        r matches Scan::Within { ranks: a, files: b } ==> a <= 8 && b <= 8,
{
    if c == ' ' {
        Scan::Behind { ranks, files }
    } else if c == '/' {
        if files == 8 && ranks < 8 {
            Scan::Within { ranks: ranks + 1, files: 0 }
        } else {
            Scan::Failed(EncodingFault::RankSum)
        }
    } else {
        let n = files_in(c);
        if n == 0 {
            Scan::Failed(EncodingFault::Symbol)
        } else if files + n > 8 {
            Scan::Failed(EncodingFault::RankSum)
        } else {
            Scan::Within { ranks, files: files + n }
        }
    }
}

fn next_scan(state: Scan, c: char) -> (r: Scan)
    requires
        state matches Scan::Within { ranks, files } ==> ranks <= 8 && files <= 8,
    ensures
        r == scan_step(state, c),
        r matches Scan::Within { ranks, files } ==> ranks <= 8 && files <= 8,
{
    match state {
        Scan::Before => if c == ' ' {
            Scan::Before
        } else {
            step_within(0, 0, c)
        },
        Scan::Within { ranks, files } => step_within(ranks, files, c),
        Scan::Behind { .. } => state,
        Scan::Failed(_) => state,
    }
}

fn fault_at_end(state: Scan) -> (r: Option<EncodingFault>)
    ensures
        r == end_fault(state),
{
    match state {
        Scan::Before => Some(EncodingFault::RankSum),
        Scan::Within { ranks, files } => if ranks == 7 && files == 8 {
            None
        } else {
            Some(EncodingFault::RankSum)
        },
        Scan::Behind { ranks, files } => if ranks == 7 && files == 8 {
            None
        } else {
            Some(EncodingFault::RankSum)
        },
        Scan::Failed(e) => Some(e),
    }
}

/// Looks for a fault in the piece placement of a position text.
pub fn check_placement(text: &str) -> (r: Option<EncodingFault>)
    ensures
        r == placement_fault(text@),
{
    if text.is_ascii() {
        let bytes = text.as_bytes();
        let len = bytes.len();
        proof {
            vstd::string::is_ascii_spec_bytes(text);
        }
        let mut state = Scan::Before;
        let mut i: usize = 0;
        while i < len
            invariant
                i <= len,
                len == text@.len(),
                text.is_ascii(),
                bytes@ == text.spec_bytes(),
                state == scan(text@.take(i as int)),
                state matches Scan::Within { ranks, files } ==> ranks <= 8 && files <= 8,
            decreases len - i,
        {
            proof {
                vstd::string::is_ascii_spec_bytes(text);
                let s = text@.take(i + 1);
                assert(s.drop_last() =~= text@.take(i as int));
                assert(s.last() == text@[i as int]);
                assert(bytes[i as int] == text@[i as int] as u8);
            }
            let c = bytes[i] as char;
            assert(c == text@[i as int]);
            state = next_scan(state, c);
            i = i + 1;
        }
        proof {
            assert(text@.take(len as int) =~= text@);
        }
        fault_at_end(state)
    } else {
        check_placement_by_chars(text)
    }
}

/// Looks for a fault in the piece placement of a text that is not all
/// ASCII.
fn check_placement_by_chars(text: &str) -> (r: Option<EncodingFault>)
    ensures
        r == placement_fault(text@),
{
    let len = text.unicode_len();
    let mut state = Scan::Before;
    let mut i: usize = 0;
    while i < len
        invariant
            i <= len,
            len == text@.len(),
            state == scan(text@.take(i as int)),
            state matches Scan::Within { ranks, files } ==> ranks <= 8 && files <= 8,
        decreases len - i,
    {
        let c = text.get_char(i);
        proof {
            let s = text@.take(i + 1);
            assert(s.drop_last() =~= text@.take(i as int));
            assert(s.last() == c);
        }
        state = next_scan(state, c);
        i = i + 1;
    }
    proof {
        assert(text@.take(len as int) =~= text@);
    }
    fault_at_end(state)
}

/// Whether a character is the letter of a file.
pub open spec fn is_file_char(c: char) -> bool {
    c == 'a' || c == 'b' || c == 'c' || c == 'd' || c == 'e' || c == 'f' || c == 'g' || c == 'h'
}

/// Whether a character is the digit of a rank.
pub open spec fn is_rank_char(c: char) -> bool {
    c == '1' || c == '2' || c == '3' || c == '4' || c == '5' || c == '6' || c == '7' || c == '8'
}

/// Whether a character is the letter of a role, in either case.
pub open spec fn is_role_char(c: char) -> bool {
    ||| c == 'p' || c == 'n' || c == 'b' || c == 'r' || c == 'q' || c == 'k'
    ||| c == 'P' || c == 'N' || c == 'B' || c == 'R' || c == 'Q' || c == 'K'
}

/// Whether a text has the form of a move: the name of the square that the
/// piece leaves, the name of the square where it arrives and, at most, the
/// letter of the role that a pawn is promoted to.
pub open spec fn move_shape(s: Seq<char>) -> bool {
    &&& s.len() == 4 || s.len() == 5
    &&& is_file_char(s[0])
    &&& is_rank_char(s[1])
    &&& is_file_char(s[2])
    &&& is_rank_char(s[3])
    &&& s.len() == 5 ==> is_role_char(s[4])
}

fn file_char(c: char) -> (r: bool)
    ensures
        r == is_file_char(c),
{
    c == 'a' || c == 'b' || c == 'c' || c == 'd' || c == 'e' || c == 'f' || c == 'g' || c == 'h'
}

fn rank_char(c: char) -> (r: bool)
    ensures
        r == is_rank_char(c),
{
    c == '1' || c == '2' || c == '3' || c == '4' || c == '5' || c == '6' || c == '7' || c == '8'
}

fn role_char(c: char) -> (r: bool)
    ensures
        r == is_role_char(c),
{
    c == 'p' || c == 'n' || c == 'b' || c == 'r' || c == 'q' || c == 'k' || c == 'P' || c == 'N'
        || c == 'B' || c == 'R' || c == 'Q' || c == 'K'
}

/// Whether a text has the form of a move.
pub fn has_move_shape(text: &str) -> (r: bool)
    ensures
        r == move_shape(text@),
{
    let len = text.unicode_len();
    if len != 4 && len != 5 {
        return false;
    }
    if !(file_char(text.get_char(0)) && rank_char(text.get_char(1)) && file_char(text.get_char(2))
        && rank_char(text.get_char(3))) {
        return false;
    }
    len == 4 || role_char(text.get_char(4))
}

} // verus!
