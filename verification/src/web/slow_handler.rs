//! Answers after a delay that the path asks for.

use vstd::prelude::*;
use vstd::string::*;
use crate::text::{
    before_first, chars_of, find_char, has_prefix, is_text, lemma_index_of, parse_number,
    parse_unsigned, starts_with,
};
use crate::web::common::{create_error_response, plain_text, HttpResponse};

verus! {

/// The delay of a request that names none, in seconds.
pub const DEFAULT_DELAY_SECONDS: u64 = 30;

/// Whether a path belongs to the slow endpoint: it is `/slow` or begins
/// with `/slow/`.
pub open spec fn is_slow_path(path: Seq<char>) -> bool {
    path == "/slow"@ || starts_with(path, "/slow/"@)
}

/// The seconds that a path of the slow endpoint asks for: thirty for
/// `/slow`; for `/slow/<n>` the piece behind the prefix and before the next
/// slash, read as a number; `None` where that piece is no number.
pub open spec fn slow_seconds(path: Seq<char>) -> Option<nat> {
    if path == "/slow"@ {
        Some(DEFAULT_DELAY_SECONDS as nat)
    } else {
        parse_unsigned(before_first(path.skip("/slow/"@.len() as int), '/'), u64::MAX as nat)
    }
}

/// What the slow endpoint does with a request: wait, then answer.
pub struct SlowReply {
    /// How long to wait before the response is sent, in seconds.
    pub seconds: u64,
    pub response: HttpResponse,
}

/// Whether `r` is the answer to a request for `path`: 200 `OK` after the
/// seconds asked for, or at once 400 where the path names no number.
pub open spec fn is_slow_reply(r: SlowReply, path: Seq<char>) -> bool {
    match slow_seconds(path) {
        Some(n) => r.seconds == n && r.response@ == plain_text(200, "OK"@),
        None => r.seconds == 0 && r.response@ == plain_text(400, "Invalid seconds parameter"@),
    }
}

/// Answers a request for `/slow` or `/slow/<n>`: 200 `OK` after the seconds
/// asked for, or at once 400 `Invalid seconds parameter` where `<n>` is no
/// number.
pub fn handle_slow_request(path: &str) -> (r: SlowReply)
    requires
        is_slow_path(path@),
    ensures
        is_slow_reply(r, path@),
{
    let chars = chars_of(path);
    let chars = chars.as_slice();
    let seconds: u64 = if is_text(chars, "/slow") {
        DEFAULT_DELAY_SECONDS
    } else {
        let prefix = chars_of("/slow/");
        let matched = has_prefix(chars, prefix.as_slice());
        assert(matched);
        let rest = &chars[prefix.len()..chars.len()];
        assert(rest@ == path@.skip("/slow/"@.len() as int));
        proof {
            lemma_index_of(rest@, '/');
        }
        let end = find_char(rest, '/');
        match parse_number(&rest[0..end], u64::MAX) {
            Some(n) => n,
            None => {
                return SlowReply {
                    seconds: 0,
                    response: create_error_response(400, "Invalid seconds parameter"),
                };
            },
        }
    };
    SlowReply { seconds, response: HttpResponse::from_string("OK") }
}

} // verus!
