//! The message the web client and the server exchange over the sync
//! websocket: an encoded Automerge sync message.
use vstd::prelude::*;

use crate::text::{concat_strs, lemma_concatenated_four, strs_view};

verus! {

/// One message on the sync websocket.
#[derive(Debug, PartialEq, Eq)]
pub enum SyncMessage {
    /// The bytes of an encoded Automerge sync message.
    Message(Vec<u8>),
}

impl SyncMessage {
    /// The encoded Automerge message carried.
    pub fn bytes(&self) -> (r: &[u8])
        ensures
            match self {
                SyncMessage::Message(b) => r@ == b@,
            },
    {
        match self {
            SyncMessage::Message(b) => b.as_slice(),
        }
    }
}

/// The address of the sync websocket for a page served from `host` at
/// `pathname`: `ws://<host><pathname>sync`.
pub open spec fn sync_url(host: Seq<char>, pathname: Seq<char>) -> Seq<char> {
    seq!['w', 's', ':', '/', '/'] + host + pathname + seq!['s', 'y', 'n', 'c']
}

/// The address of the sync websocket for the page's location.
pub fn ws_url(host: &str, pathname: &str) -> (r: String)
    ensures
        r@ == sync_url(host@, pathname@),
{
    proof {
        reveal_strlit("ws://");
        reveal_strlit("sync");
        assert("ws://"@ =~= seq!['w', 's', ':', '/', '/']);
        assert("sync"@ =~= seq!['s', 'y', 'n', 'c']);
    }
    let parts = vec!["ws://", host, pathname, "sync"];
    proof {
        assert(strs_view(parts@) =~= seq!["ws://"@, host@, pathname@, "sync"@]);
        lemma_concatenated_four("ws://"@, host@, pathname@, "sync"@);
    }
    concat_strs(&parts)
}

} // verus!
