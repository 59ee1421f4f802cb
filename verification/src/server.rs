//! Decisions of the sync server that keeps documents in a database: the
//! answer to a refused request, and how long to wait before trying to reach
//! the database again.
use vstd::prelude::*;

use crate::text::{concat_strs, lemma_concatenated_five, lemma_concatenated_two, strs_view};

verus! {

/// Why a request was refused.
pub enum RejectionKind {
    /// No route matched.
    NotFound,
    /// The session was not accepted.
    Unauthorized,
    /// A required cookie, with this name, was missing.
    MissingCookie(String),
    /// Anything else.
    Other,
}

/// An HTTP answer: a status code and a text body.
pub struct Reply {
    pub status: u16,
    pub body: String,
}

/// The answer to a refused request: its status code and body text.
pub open spec fn rejection_reply(r: RejectionKind) -> (u16, Seq<char>) {
    match r {
        RejectionKind::NotFound => (404, seq!['N', 'O', 'T', '_', 'F', 'O', 'U', 'N', 'D']),
        RejectionKind::Unauthorized => (
            401,
            seq!['U', 'N', 'A', 'U', 'T', 'H', 'O', 'R', 'I', 'Z', 'E', 'D'],
        ),
        RejectionKind::MissingCookie(name) => (
            400,
            seq![
                'B', 'A', 'D', '_', 'R', 'E', 'Q', 'U', 'E', 'S', 'T', ',', ' ', 'm', 'i', 's', 's',
                'i', 'n', 'g', ' ', 'c', 'o', 'o', 'k', 'i', 'e', ' '
            ] + name@,
        ),
        RejectionKind::Other => (
            500,
            seq![
                'I', 'N', 'T', 'E', 'R', 'N', 'A', 'L', '_', 'S', 'E', 'R', 'V', 'E', 'R', '_', 'E',
                'R', 'R', 'O', 'R'
            ],
        ),
    }
}

/// Answers a refused request: not found (404), unauthorized (401), a
/// missing cookie (400, naming it), or an internal error (500).
pub fn handle_rejection(rejection: &RejectionKind) -> (r: Reply)
    ensures
        r.status == rejection_reply(*rejection).0,
        r.body@ == rejection_reply(*rejection).1,
{
    match rejection {
        RejectionKind::NotFound => {
            proof {
                reveal_strlit("NOT_FOUND");
                assert("NOT_FOUND"@ =~= rejection_reply(*rejection).1);
            }
            Reply { status: 404, body: "NOT_FOUND".to_owned() }
        },
        RejectionKind::Unauthorized => {
            proof {
                reveal_strlit("UNAUTHORIZED");
                assert("UNAUTHORIZED"@ =~= rejection_reply(*rejection).1);
            }
            Reply { status: 401, body: "UNAUTHORIZED".to_owned() }
        },
        RejectionKind::MissingCookie(name) => {
            let parts = vec!["BAD_REQUEST, missing cookie ", name.as_str()];
            proof {
                reveal_strlit("BAD_REQUEST, missing cookie ");
                assert(strs_view(parts@) =~= seq!["BAD_REQUEST, missing cookie "@, name@]);
                lemma_concatenated_two("BAD_REQUEST, missing cookie "@, name@);
                assert("BAD_REQUEST, missing cookie "@ + name@ =~= rejection_reply(*rejection).1);
            }
            Reply { status: 400, body: concat_strs(&parts) }
        },
        RejectionKind::Other => {
            proof {
                reveal_strlit("INTERNAL_SERVER_ERROR");
                assert("INTERNAL_SERVER_ERROR"@ =~= rejection_reply(*rejection).1);
            }
            Reply { status: 500, body: "INTERNAL_SERVER_ERROR".to_owned() }
        },
    }
}

/// The time between slots of the retry window, in milliseconds.
pub const RETRY_INTERVAL_MILLIS: u64 = 100;

/// The largest exponent of the retry window.
pub const MAX_BACKOFF: u32 = 4;

/// Two to the power `e`.
pub open spec fn slots(e: nat) -> nat
    decreases e,
{
    if e == 0 {
        1
    } else {
        2 * slots((e - 1) as nat)
    }
}

/// The retrying of a database connection: after each failed attempt the
/// window doubles, up to sixteen slots of 100 ms, and the next attempt
/// waits a slot drawn at random from the window.
pub struct Backoff {
    pub exponent: u32,
}

impl Backoff {
    /// No attempt has failed yet.
    pub fn new() -> (b: Backoff)
        ensures
            b.exponent == 0,
    {
        Backoff { exponent: 0 }
    }

    /// Records a failed attempt and gives the number of slots to draw the
    /// wait from.
    pub fn failed(&mut self) -> (window: u64)
        ensures
            final(self).exponent == (if old(self).exponent + 1 > MAX_BACKOFF {
                MAX_BACKOFF as int
            } else {
                old(self).exponent + 1
            }),
            window == slots(final(self).exponent as nat),
    {
        if self.exponent >= MAX_BACKOFF {
            self.exponent = MAX_BACKOFF;
        } else {
            self.exponent = self.exponent + 1;
        }
        let window: u64 = match self.exponent {
            0 => 1,
            1 => 2,
            2 => 4,
            3 => 8,
            _ => 16,
        };
        proof {
            reveal_with_fuel(slots, 5);
        }
        window
    }

    /// The wait before the next attempt for the slot drawn: 100 ms a slot.
    pub fn delay_millis(slot: u64) -> (millis: u64)
        requires
            slot < slots(MAX_BACKOFF as nat),
        ensures
            millis == RETRY_INTERVAL_MILLIS * slot,
    {
        assert(slots(MAX_BACKOFF as nat) == 16) by {
            reveal_with_fuel(slots, 5);
        }
        RETRY_INTERVAL_MILLIS * slot
    }
}

/// The address the plain HTTP server redirects a request to: the same path
/// and query on the HTTPS server at `https_address` (the path always starts
/// with `/`; the `?` is written even for an empty query).
pub fn https_redirect(https_address: &str, path: &str, query: &str) -> (r: String)
    ensures
        r@ == seq!['h', 't', 't', 'p', 's', ':', '/', '/'] + https_address@ + path@ + seq!['?']
            + query@,
{
    proof {
        reveal_strlit("https://");
        reveal_strlit("?");
        assert("https://"@ =~= seq!['h', 't', 't', 'p', 's', ':', '/', '/']);
        assert("?"@ =~= seq!['?']);
    }
    let parts: Vec<&str> = vec!["https://", https_address, path, "?", query];
    proof {
        assert(strs_view(parts@) =~= seq!["https://"@, https_address@, path@, "?"@, query@]);
        lemma_concatenated_five("https://"@, https_address@, path@, "?"@, query@);
    }
    concat_strs(&parts)
}

} // verus!
