//! Text rules of the relay: surrounding white space, the exit keyword and the
//! shape of a relayed line.

use vstd::prelude::*;
use vstd::std_specs::iter::IteratorSpec;
use crate::text_laws::{lemma_trim_back_cuts, lemma_trim_front_cuts};

verus! {

/// The code points that carry the Unicode `White_Space` property.
pub open spec fn white_space(c: char) -> bool {
    let n = c as u32;
    ||| 0x09 <= n <= 0x0D
    ||| n == 0x20
    ||| n == 0x85
    ||| n == 0xA0
    ||| n == 0x1680
    ||| 0x2000 <= n <= 0x200A
    ||| n == 0x2028
    ||| n == 0x2029
    ||| n == 0x202F
    ||| n == 0x205F
    ||| n == 0x3000
}

/// Tells whether `c` is white space.
pub fn is_white_space(c: char) -> (b: bool)
    ensures
        b == white_space(c),
{
    let n: u32 = c as u32;
    (0x09 <= n && n <= 0x0D) || n == 0x20 || n == 0x85 || n == 0xA0 || n == 0x1680 || (0x2000 <= n
        && n <= 0x200A) || n == 0x2028 || n == 0x2029 || n == 0x202F || n == 0x205F || n == 0x3000
}

/// `s` without the white space at its front.
pub open spec fn trim_front(s: Seq<char>) -> Seq<char>
    decreases s.len(),
{
    if s.len() > 0 && white_space(s.first()) {
        trim_front(s.drop_first())
    } else {
        s
    }
}

/// `s` without the white space at its back.
pub open spec fn trim_back(s: Seq<char>) -> Seq<char>
    decreases s.len(),
{
    if s.len() > 0 && white_space(s.last()) {
        trim_back(s.drop_last())
    } else {
        s
    }
}

/// `s` without its surrounding white space.
pub open spec fn trimmed(s: Seq<char>) -> Seq<char> {
    trim_back(trim_front(s))
}

/// Returns `s` without its surrounding white space, in time linear in the
/// length of `s`.
pub fn trim(s: &str) -> (t: &str)
    ensures
        t@ == trimmed(s@),
{
    let n: usize = s.unicode_len();
    let mut start: usize = 0;
    let mut end: usize = 0;
    let mut seen: bool = false;
    let mut i: usize = 0;
    let mut rest = s.chars();
    while i < n
        invariant
            n == s@.len(),
            i <= n,
            rest.remaining() == s@.skip(i as int),
            !seen ==> start == 0 && end == 0,
            !seen ==> forall|k: int| 0 <= k < i ==> white_space(#[trigger] s@[k]),
            seen ==> start < end <= i,
            seen ==> forall|k: int| 0 <= k < start ==> white_space(#[trigger] s@[k]),
            seen ==> !white_space(s@[start as int]) && !white_space(s@[end - 1]),
            seen ==> forall|k: int| end <= k < i ==> white_space(#[trigger] s@[k]),
        decreases n - i,
    {
        if let Some(c) = rest.next() {
            if !is_white_space(c) {
                if !seen {
                    start = i;
                    seen = true;
                }
                end = i + 1;
            }
        }
        i = i + 1;
    }
    proof {
        if seen {
            lemma_trim_front_cuts(s@, start as int);
            lemma_trim_back_cuts(s@.skip(start as int), end - start);
        } else {
            lemma_trim_front_cuts(s@, n as int);
        }
    }
    s.substring_char(start, end)
}

/// The exit keyword: the four letters of `exit`, each in either case.
pub open spec fn exit_keyword(s: Seq<char>) -> bool {
    &&& s.len() == 4
    &&& (s[0] == 'e' || s[0] == 'E')
    &&& (s[1] == 'x' || s[1] == 'X')
    &&& (s[2] == 'i' || s[2] == 'I')
    &&& (s[3] == 't' || s[3] == 'T')
}

/// A line that ends the session that sends it: the exit keyword, alone on
/// the line but for surrounding white space.
pub open spec fn exit_line(line: Seq<char>) -> bool {
    exit_keyword(trimmed(line))
}

/// Tells whether `word` is the exit keyword.
pub fn is_exit_keyword(word: &str) -> (b: bool)
    ensures
        b == exit_keyword(word@),
{
    if word.unicode_len() != 4 {
        return false;
    }
    let c0 = word.get_char(0);
    let c1 = word.get_char(1);
    let c2 = word.get_char(2);
    let c3 = word.get_char(3);
    (c0 == 'e' || c0 == 'E') && (c1 == 'x' || c1 == 'X') && (c2 == 'i' || c2 == 'I') && (c3 == 't'
        || c3 == 'T')
}

/// Tells whether `line` is an exit line.
pub fn is_exit_line(line: &str) -> (b: bool)
    ensures
        b == exit_line(line@),
{
    is_exit_keyword(trim(line))
}

/// The line that peers receive when `from` sends `text`.
pub open spec fn relay_line(from: Seq<char>, text: Seq<char>) -> Seq<char> {
    from + seq![':', ' '] + text
}

/// Builds the line that peers receive when `from` sends `text`.
pub fn format_relay_line(from: &str, text: &str) -> (line: String)
    ensures
        line@ == relay_line(from@, text@),
{
    let mut line = String::from_str(from);
    line.append(": ");
    line.append(text);
    proof {
        reveal_strlit(": ");
    }
    line
}

/// A line as it travels on the stream: the line and its terminator.
pub open spec fn framed(line: Seq<char>) -> Seq<char> {
    line.push('\n')
}

/// Builds the text to write on a stream for `line`.
pub fn frame(line: &str) -> (wire: String)
    ensures
        wire@ == framed(line@),
{
    let mut wire = String::from_str(line);
    wire.append("\n");
    proof {
        reveal_strlit("\n");
    }
    wire
}

} // verus!
