//! Framing normalization between transport text frames and local lines.
//!
//! The local side of the bridge is newline-delimited: every message written
//! to local output must end in exactly one newline, whatever the remote
//! sender put at the end of its frame.

use vstd::prelude::*;
use vstd::string::StrSliceExecFns;
use vstd::string::StringExecFns;

verus! {

/// What a received text frame looks like once normalized for local output:
/// a frame that already ends in a newline is kept as it is, any other frame
/// gets a single newline appended.
pub open spec fn norm_line(t: Seq<char>) -> Seq<char> {
    if t.len() > 0 && t.last() == '\n' {
        t
    } else {
        t.push('\n')
    }
}

/// Appends a trailing newline to `text` unless it already ends in one.
pub fn normalize_frame(text: String) -> (r: String)
    ensures
        r@ == norm_line(text@),
{
    let n = text.as_str().unicode_len();
    if n > 0 && text.as_str().get_char(n - 1) == '\n' {
        text
    } else {
        proof {
            reveal_strlit("\n");
        }
        let r = text.concat("\n");
        proof {
            assert(r@ =~= norm_line(text@));
        }
        r
    }
}

/// Normalization is idempotent: running it again on an already
/// newline-terminated frame does not append a second newline.
pub proof fn lemma_normalize_idempotent(t: Seq<char>)
    ensures
        norm_line(norm_line(t)) == norm_line(t),
{
    if !(t.len() > 0 && t.last() == '\n') {
        assert(t.push('\n').last() == '\n');
    }
}

/// A frame with no embedded newline becomes exactly one local line: the
/// normalized frame ends in a newline and contains no other newline.
pub proof fn lemma_normalize_single_newline(t: Seq<char>)
    requires
        forall|i: int| 0 <= i < t.len() - 1 ==> t[i] != '\n',
    ensures
        norm_line(t).len() > 0,
        norm_line(t).last() == '\n',
        forall|i: int| 0 <= i < norm_line(t).len() - 1 ==> norm_line(t)[i] != '\n',
{
    if t.len() > 0 && t.last() == '\n' {
    } else {
        assert forall|i: int| 0 <= i < norm_line(t).len() - 1 implies norm_line(t)[i] != '\n' by {
            assert(norm_line(t)[i] == t[i]);
            if i == t.len() - 1 {
                assert(t[i] == t.last());
            }
        }
    }
}

} // verus!
