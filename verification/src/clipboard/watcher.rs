use vstd::prelude::*;
use crate::clipboard::hash::{blake3_content_key, blake3_digest, hex_of_bytes};
use crate::clipboard::mime::{lossy_text, utf8_lossy};
use crate::text::{chars_of, string_from_chars};

verus! {

/// The MIME type `infer` detects for a byte buffer, if any.
pub uninterp spec fn inferred_mime(buf: Seq<u8>) -> Option<Seq<char>>;

/// `infer::get(buf).map(|k| k.mime_type().to_string())`: the MIME type of the
/// first matcher in the crate's table that recognizes the buffer's magic
/// number. The result is named; the table is not stated.
#[verifier::external_body]
fn infer_mime(buf: &[u8]) -> (r: Option<String>)
    ensures
        match r {
            Some(m) => inferred_mime(buf@) == Some(m@),
            None => inferred_mime(buf@) is None,
        },
{
    infer::get(buf).map(|k| k.mime_type().to_string())
}

/// The MIME type assumed for an untyped payload: what `infer` detects, else
/// `application/octet-stream`.
pub open spec fn sniffed_mime(buf: Seq<u8>) -> Seq<char> {
    match inferred_mime(buf) {
        Some(m) => m,
        None => "application/octet-stream"@,
    }
}

/// Guess the MIME type of an untyped payload.
pub fn sniff_mime(buf: &[u8]) -> (r: String)
    ensures
        r@ == sniffed_mime(buf@),
{
    match infer_mime(buf) {
        Some(m) => m,
        None => "application/octet-stream".to_owned(),
    }
}

/// Result of the first clipboard read (`wl-paste --type text/plain -n`): a
/// successful, nonempty read is a `text/plain` payload; otherwise the untyped
/// read comes next.
pub fn text_read_result(success: bool, stdout: Vec<u8>) -> (r: Option<(String, Vec<u8>)>)
    ensures
        match r {
            Some((m, d)) => success && stdout@.len() > 0 && m@ == "text/plain"@ && d@ == stdout@,
            None => !(success && stdout@.len() > 0),
        },
{
    if success && stdout.len() != 0 {
        Some(("text/plain".to_owned(), stdout))
    } else {
        None
    }
}

/// Result of the untyped clipboard read (`wl-paste -n`): on success the payload
/// with its sniffed MIME type; on failure the error message
/// `wl-paste failed: <stderr>`.
pub fn untyped_read_result(success: bool, stdout: Vec<u8>, stderr: &[u8]) -> (r: Result<(String, Vec<u8>), String>)
    ensures
        match r {
            Ok((m, d)) => success && m@ == sniffed_mime(stdout@) && d@ == stdout@,
            Err(msg) => !success && msg@ == "wl-paste failed: "@ + utf8_lossy(stderr@),
        },
{
    if success {
        let mime = sniff_mime(&stdout);
        Ok((mime, stdout))
    } else {
        let mut msg = chars_of("wl-paste failed: ");
        let detail = chars_of(lossy_text(stderr).as_str());
        let ghost start = msg@;
        let n = detail.len();
        for i in 0..n
            invariant
                n == detail@.len(),
                msg@ == start + detail@.take(i as int),
        {
            msg.push(detail[i]);
            assert(msg@ =~= start + detail@.take(i + 1));
        }
        assert(detail@.take(n as int) =~= detail@);
        Err(string_from_chars(&msg))
    }
}

/// Remembers the last payload stored by the polling watcher, by its BLAKE3 key,
/// so that an unchanged clipboard is not stored again.
pub struct ClipWatcher {
    pub last_hash: Option<String>,
}

/// The key the watcher remembers for a payload.
pub open spec fn payload_key(content: Seq<u8>) -> Seq<char> {
    hex_of_bytes(blake3_digest(content))
}

impl View for ClipWatcher {
    type V = Option<Seq<char>>;

    open spec fn view(&self) -> Option<Seq<char>> {
        match self.last_hash {
            Some(h) => Some(h@),
            None => None,
        }
    }
}

/// Whether a watcher that remembers `last` stores `content`: it must be
/// nonempty and differ from the payload stored last.
pub open spec fn stores(last: Option<Seq<char>>, content: Seq<u8>) -> bool {
    content.len() > 0 && match last {
        Some(h) => h != payload_key(content),
        None => true,
    }
}

/// What the watcher remembers after polling `content`.
pub open spec fn remembered(last: Option<Seq<char>>, content: Seq<u8>) -> Option<Seq<char>> {
    if stores(last, content) {
        Some(payload_key(content))
    } else {
        last
    }
}

impl ClipWatcher {
    /// A watcher that has seen nothing yet.
    pub fn new() -> (w: ClipWatcher)
        ensures
            w@ is None,
    {
        ClipWatcher { last_hash: None }
    }

    /// Decide whether a polled payload is stored: empty payloads and the payload
    /// just stored are skipped; anything else is stored and remembered.
    pub fn observe(&mut self, content: &[u8]) -> (store: bool)
        ensures
            store == stores(old(self)@, content@),
            final(self)@ == remembered(old(self)@, content@),
    {
        if content.len() == 0 {
            return false;
        }
        self.remember(blake3_content_key(content))
    }

    /// Decide on a nonempty payload by its key: it is stored, and its key
    /// remembered, unless the key is the one remembered.
    pub fn remember(&mut self, key: String) -> (store: bool)
        ensures
            store == (old(self)@ != Some(key@)),
            final(self)@ == Some(key@),
    {
        let same = match &self.last_hash {
            Some(h) => *h == key,
            None => false,
        };
        if same {
            return false;
        }
        self.last_hash = Some(key);
        true
    }
}

/// The watcher never stores the same payload twice in a row: once a payload has
/// been polled, polling it again is skipped and changes nothing.
pub proof fn lemma_watcher_dedup(last: Option<Seq<char>>, content: Seq<u8>)
    ensures
        !stores(remembered(last, content), content),
        remembered(remembered(last, content), content) == remembered(last, content),
{
}

} // verus!
