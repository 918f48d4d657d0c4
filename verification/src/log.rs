//! Shaping of log lines before they are sent to the logging channel.

use vstd::prelude::*;

use crate::text::chars_of;

verus! {

/// The number of characters kept of a line longer than `limit` characters:
/// three fewer than the limit, to leave room for `...`.
pub open spec fn kept_chars(limit: nat) -> nat {
    if limit >= 3 {
        (limit - 3) as nat
    } else {
        0
    }
}

/// The text of a log line as it is sent.
pub open spec fn shortened(s: Seq<char>, limit: nat) -> Seq<char> {
    if s.len() <= limit {
        s
    } else {
        s.take(kept_chars(limit) as int) + "..."@
    }
}

/// The text of a log line as it is sent: a message of at most `limit`
/// characters unchanged; a longer one cut to its first `limit - 3`
/// characters, with `...` appended.
pub fn shorten_log_message(s: &str, limit: usize) -> (out: String)
    ensures
        out@ == shortened(s@, limit as nat),
{
    let chars = chars_of(s);
    let n = chars.len();
    if n <= limit {
        return String::from_str(s);
    }
    let keep = if limit >= 3 {
        limit - 3
    } else {
        0
    };
    let mut out = String::from_str(s.substring_char(0, keep));
    out.append("...");
    proof {
        assert(s@.subrange(0, keep as int) =~= s@.take(keep as int));
    }
    out
}

/// A line longer than a limit of at least three characters is sent with
/// exactly `limit` characters, the last three being `...`; a shorter one is
/// sent as it is.
pub proof fn law_shortened_length(s: Seq<char>, limit: nat)
    requires
        limit >= 3,
    ensures
        shortened(s, limit).len() == if s.len() <= limit {
            s.len()
        } else {
            limit
        },
        shortened(s, limit).len() <= limit,
        s.len() > limit ==> shortened(s, limit).subrange(limit - 3, limit as int) == "..."@,
        s.len() > limit ==> shortened(s, limit).take(limit - 3) == s.take(limit - 3),
{
    reveal_strlit("...");
    if s.len() > limit {
        let out = shortened(s, limit);
        assert(out.subrange(limit - 3, limit as int) =~= "..."@);
        assert(out.take(limit - 3) =~= s.take(limit - 3));
    }
}

} // verus!
