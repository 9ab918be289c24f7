//! The companion that talks to the relay: what it sends for a line that its
//! operator typed.

use vstd::prelude::*;
use crate::text::{exit_line, is_exit_keyword, trim, trimmed};
use crate::text_laws::{lemma_trim_back_cuts, lemma_trim_front_cuts, lemma_trimmed_twice};

verus! {

/// The exit keyword as the client sends it.
pub open spec fn exit_word() -> Seq<char> {
    seq!['e', 'x', 'i', 't']
}

/// What the client sends for one typed line.
pub struct Outgoing {
    /// The line to send, without its terminator.
    pub line: String,
    /// Whether the client stops after it has sent the line.
    pub last: bool,
}

/// Decides what to send for `input`. An exit line is sent as the bare
/// keyword and is the last; any other input is sent without its surrounding
/// white space. The relay ends the session on exactly the lines after which
/// the client stops.
pub fn outgoing(input: &str) -> (out: Outgoing)
    ensures
        out.last == exit_line(input@),
        out.line@ == if exit_line(input@) {
            exit_word()
        } else {
            trimmed(input@)
        },
        exit_line(out.line@) == out.last,
{
    let text = trim(input);
    if is_exit_keyword(text) {
        let line = String::from_str("exit");
        proof {
            reveal_strlit("exit");
            lemma_trim_front_cuts(exit_word(), 0);
            lemma_trim_back_cuts(exit_word(), 4);
        }
        Outgoing { line, last: true }
    } else {
        proof {
            lemma_trimmed_twice(input@);
        }
        Outgoing { line: String::from_str(text), last: false }
    }
}

} // verus!
