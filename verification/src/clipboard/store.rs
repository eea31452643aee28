use vstd::prelude::*;
use crate::clipboard::hash::{content_hash, content_hash_of};
use crate::clipboard::mime::{classification, classify, lossy_text, utf8_lossy};
use crate::events::{ClipEntry, ClipEntryKind};
use crate::text::{chars_eq, chars_of, string_from_chars, trim, trim_chars};

verus! {

/// A new clipboard entry to be stored.
#[derive(Debug, Clone)]
pub struct NewClipEntry {
    pub content_hash: String,
    pub mime: String,
    pub kind: ClipEntryKind,
    pub preview: String,
    pub content: Option<String>,
    pub size_bytes: i64,
}

/// Why a payload was not stored.
#[derive(Debug, Clone, Copy, PartialEq, Eq, Structural)]
pub enum StoreError {
    /// The payload is larger than the configured maximum.
    PayloadTooLarge,
}

/// The name a kind is stored under.
pub open spec fn kind_name(kind: ClipEntryKind) -> Seq<char> {
    match kind {
        ClipEntryKind::Text => "text"@,
        ClipEntryKind::Link => "link"@,
        ClipEntryKind::Color => "color"@,
        ClipEntryKind::Image => "image"@,
        ClipEntryKind::File => "file"@,
        ClipEntryKind::Secret => "secret"@,
    }
}

/// The kind a stored name stands for; unknown names read as text.
pub open spec fn kind_from_name(s: Seq<char>) -> ClipEntryKind {
    if s == "text"@ {
        ClipEntryKind::Text
    } else if s == "link"@ {
        ClipEntryKind::Link
    } else if s == "color"@ {
        ClipEntryKind::Color
    } else if s == "image"@ {
        ClipEntryKind::Image
    } else if s == "file"@ {
        ClipEntryKind::File
    } else if s == "secret"@ {
        ClipEntryKind::Secret
    } else {
        ClipEntryKind::Text
    }
}

/// The name a kind is stored under in the database.
pub fn kind_to_str(kind: &ClipEntryKind) -> (r: &'static str)
    ensures
        r@ == kind_name(*kind),
{
    match kind {
        ClipEntryKind::Text => "text",
        ClipEntryKind::Link => "link",
        ClipEntryKind::Color => "color",
        ClipEntryKind::Image => "image",
        ClipEntryKind::File => "file",
        ClipEntryKind::Secret => "secret",
    }
}

/// The kind a stored name stands for (unknown names read as text).
pub fn str_to_kind(s: &str) -> (r: ClipEntryKind)
    ensures
        r == kind_from_name(s@),
{
    let c = chars_of(s);
    if chars_eq(&c, &chars_of("text")) {
        ClipEntryKind::Text
    } else if chars_eq(&c, &chars_of("link")) {
        ClipEntryKind::Link
    } else if chars_eq(&c, &chars_of("color")) {
        ClipEntryKind::Color
    } else if chars_eq(&c, &chars_of("image")) {
        ClipEntryKind::Image
    } else if chars_eq(&c, &chars_of("file")) {
        ClipEntryKind::File
    } else if chars_eq(&c, &chars_of("secret")) {
        ClipEntryKind::Secret
    } else {
        ClipEntryKind::Text
    }
}

/// Reading back the name a kind was stored under gives the same kind.
pub proof fn lemma_kind_round_trip(kind: ClipEntryKind)
    ensures
        kind_from_name(kind_name(kind)) == kind,
{
    reveal_strlit("text");
    reveal_strlit("link");
    reveal_strlit("color");
    reveal_strlit("image");
    reveal_strlit("file");
    reveal_strlit("secret");
    let names = seq!["text"@, "link"@, "color"@, "image"@, "file"@, "secret"@];
    assert forall|i: int, j: int| 0 <= i < j < 6 implies #[trigger] names[i] != #[trigger] names[j] by {
        if names[i].len() == names[j].len() {
            assert(names[i][0] != names[j][0] || names[i][1] != names[j][1]);
        }
    }
    assert(names[0] == "text"@ && names[1] == "link"@ && names[2] == "color"@);
    assert(names[3] == "image"@ && names[4] == "file"@ && names[5] == "secret"@);
}

/// The entry `ClipboardCommander::store` writes for a payload, or the reason it
/// refuses it: payloads over `max_bytes` bytes are refused; otherwise the
/// payload is classified, decoded lossily as its content, and keyed by its
/// content hash.
pub open spec fn prepared_entry(mime: Seq<char>, content: Seq<u8>, max_bytes: nat) -> Result<(Seq<char>, Seq<char>, ClipEntryKind, Seq<char>, Seq<char>, int), StoreError> {
    if content.len() > max_bytes {
        Err(StoreError::PayloadTooLarge)
    } else {
        let (kind, preview) = classification(mime, content);
        Ok((content_hash_of(content), mime, kind, preview, utf8_lossy(content), content.len() as int))
    }
}

/// The fields of a prepared entry, in the order of [`prepared_entry`].
pub open spec fn entry_fields(e: NewClipEntry) -> (Seq<char>, Seq<char>, ClipEntryKind, Seq<char>, Seq<char>, int) {
    (e.content_hash@, e.mime@, e.kind, e.preview@, match e.content { Some(c) => c@, None => Seq::empty() }, e.size_bytes as int)
}

/// Build the entry to store for a clipboard payload (the part of
/// `ClipboardCommander::store` before the database write).
pub fn prepare_entry(mime: String, content: &[u8], max_bytes: usize) -> (r: Result<NewClipEntry, StoreError>)
    requires
        content@.len() <= i64::MAX,
    ensures
        match r {
            Ok(e) => prepared_entry(mime@, content@, max_bytes as nat) == Ok::<_, StoreError>(entry_fields(e))
                && e.content is Some,
            Err(err) => prepared_entry(mime@, content@, max_bytes as nat) == Err::<(Seq<char>, Seq<char>, ClipEntryKind, Seq<char>, Seq<char>, int), StoreError>(err),
        },
{
    if content.len() > max_bytes {
        return Err(StoreError::PayloadTooLarge);
    }
    let (kind, preview) = classify(mime.as_str(), content);
    let content_str = lossy_text(content);
    let hash = content_hash(content);
    Ok(NewClipEntry {
        content_hash: hash,
        mime,
        kind,
        preview,
        content: Some(content_str),
        size_bytes: content.len() as i64,
    })
}

/// How many entries a listing returns: the requested limit, or the configured
/// maximum (`max_entries as usize`, which wraps for a negative maximum).
pub fn effective_limit(limit: Option<usize>, max_entries: i64) -> (r: usize)
    ensures
        r == match limit {
            Some(l) => l,
            None => max_entries as usize,
        },
{
    match limit {
        Some(l) => l,
        None => max_entries as usize,
    }
}

/// The day count passed to cleanup: `cleanup_unpinned_after_days as u32`
/// (truncating).
pub fn cleanup_days(days: i64) -> (r: u32)
    ensures
        r == days as u32,
{
    days as u32
}

/// The cutoff time for deleting old unpinned entries: `None` (delete nothing)
/// for zero days, else `days` days before `now`.
pub fn cleanup_cutoff(now: i64, days: u32) -> (r: Option<i64>)
    requires
        now >= i64::MIN + 86_400 * (u32::MAX as int),
    ensures
        r == if days == 0 {
            None
        } else {
            Some((now - days * 86_400) as i64)
        },
{
    if days == 0 {
        return None;
    }
    Some(now - (days as i64) * 86_400)
}

/// A row count as a length: negative counts read as zero.
pub fn count_from_row(count: i64) -> (r: usize)
    ensures
        r == if count < 0 {
            0
        } else {
            count as usize
        },
{
    if count < 0 {
        0
    } else {
        count as usize
    }
}

/// The rows from `offset` on, at most `limit` of them.
pub open spec fn page_of<T>(rows: Seq<T>, offset: nat, limit: nat) -> Seq<T> {
    let rest = if offset < rows.len() { rows.skip(offset as int) } else { Seq::empty() };
    if limit < rest.len() {
        rest.take(limit as int)
    } else {
        rest
    }
}

/// Applies offset and limit to query rows (`skip(offset).take(limit)`).
pub fn paginate<T>(rows: Vec<T>, offset: usize, limit: usize) -> (r: Vec<T>)
    ensures
        r@ == page_of(rows@, offset as nat, limit as nat),
{
    let mut rows = rows;
    if offset >= rows.len() {
        return Vec::new();
    }
    let mut rest = rows.split_off(offset);
    rest.truncate(limit);
    rest
}

/// An entry read back from a database row: the stored kind name is decoded and
/// a nonzero `pinned` column means pinned.
pub fn entry_from_row(
    id: i64,
    mime: String,
    kind: &str,
    preview: String,
    content: Option<String>,
    pinned: i64,
    created_at: i64,
    updated_at: i64,
) -> (r: ClipEntry)
    ensures
        r.id == id,
        r.mime == mime,
        r.kind == kind_from_name(kind@),
        r.preview == preview,
        r.content == content,
        r.pinned == (pinned != 0),
        r.created_at == created_at,
        r.updated_at == updated_at,
{
    ClipEntry {
        id,
        mime,
        kind: str_to_kind(kind),
        preview,
        content,
        pinned: pinned != 0,
        created_at,
        updated_at,
    }
}

/// The base of the listing query: every live entry.
pub open spec fn list_sql_base() -> Seq<char> {
    "SELECT id, content_hash, kind, mime, preview, content, pinned, created_at, updated_at, size_bytes FROM entries WHERE deleted = 0"@
}

/// The listing query for a search string and its `LIKE` pattern: a blank search
/// lists everything; otherwise previews must contain the trimmed search.
/// Pinned entries come first, then the most recently updated.
pub open spec fn list_plan(query: Seq<char>) -> (Seq<char>, Option<Seq<char>>) {
    let t = trim(query);
    if t.len() == 0 {
        (list_sql_base() + " ORDER BY pinned DESC, updated_at DESC"@, None)
    } else {
        (
            list_sql_base() + " AND preview LIKE ?1"@ + " ORDER BY pinned DESC, updated_at DESC"@,
            Some("%"@ + t + "%"@),
        )
    }
}

/// A listing query and the `LIKE` pattern bound to `?1`, if any.
pub struct ListQuery {
    pub sql: String,
    pub pattern: Option<String>,
}

fn append_str(v: &mut Vec<char>, s: &str)
    ensures
        final(v)@ == old(v)@ + s@,
{
    let c = chars_of(s);
    let n = c.len();
    let ghost start = v@;
    for i in 0..n
        invariant
            n == c@.len(),
            v@ == start + c@.take(i as int),
    {
        v.push(c[i]);
        assert(v@ =~= start + c@.take(i + 1));
    }
    assert(c@.take(n as int) =~= c@);
}

/// Builds the listing query for a search string (`Database::list_entries`).
pub fn list_query(query: &str) -> (r: ListQuery)
    ensures
        (r.sql@, match r.pattern { Some(p) => Some(p@), None => None }) == list_plan(query@),
{
    let t = trim_chars(&chars_of(query));
    let mut sql: Vec<char> = chars_of(
        "SELECT id, content_hash, kind, mime, preview, content, pinned, created_at, updated_at, size_bytes \
             FROM entries WHERE deleted = 0",
    );
    assert(sql@ == list_sql_base());
    let has_query = t.len() != 0;
    if has_query {
        append_str(&mut sql, " AND preview LIKE ?1");
    }
    append_str(&mut sql, " ORDER BY pinned DESC, updated_at DESC");
    let pattern = if has_query {
        let mut p: Vec<char> = chars_of("%");
        let ghost start = p@;
        let n = t.len();
        for i in 0..n
            invariant
                n == t@.len(),
                p@ == start + t@.take(i as int),
        {
            p.push(t[i]);
            assert(p@ =~= start + t@.take(i + 1));
        }
        assert(t@.take(n as int) =~= t@);
        append_str(&mut p, "%");
        Some(string_from_chars(&p))
    } else {
        None
    };
    ListQuery { sql: string_from_chars(&sql), pattern }
}

} // verus!
