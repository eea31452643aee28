use vstd::prelude::*;
use vstd::utf8::{decode_utf8, encode_utf8, valid_utf8};
use crate::events::ClipEntryKind;
use crate::launcher::index::{opt_view, strings_view};
use crate::text::{chars_eq, chars_of, starts_with, string_from_chars, trim, trim_chars, utf8_len_capped};

verus! {

/// What `String::from_utf8_lossy` makes of a byte sequence.
pub uninterp spec fn utf8_lossy(bytes: Seq<u8>) -> Seq<char>;

/// What `str::to_lowercase` makes of a string (Unicode lowercase mapping).
pub uninterp spec fn unicode_lowercase(s: Seq<char>) -> Seq<char>;

/// `String::from_utf8_lossy(bytes).into_owned()`: the bytes decoded as UTF-8,
/// each invalid sequence replaced by U+FFFD. The result is named; the documented
/// case that valid UTF-8 comes back unchanged is stated.
#[verifier::external_body]
pub(crate) fn lossy_text(bytes: &[u8]) -> (r: String)
    ensures
        r@ == utf8_lossy(bytes@),
        valid_utf8(bytes@) ==> r@ == decode_utf8(bytes@),
{
    String::from_utf8_lossy(bytes).into_owned()
}

/// `str::to_lowercase`: the Unicode lowercase of `s`, named, not stated.
#[verifier::external_body]
fn lowercase(s: &str) -> (r: String)
    ensures
        r@ == unicode_lowercase(s@),
{
    s.to_lowercase()
}

/// A preview: `\n` becomes a space and `\r` is dropped.
pub open spec fn flatten_lines(s: Seq<char>) -> Seq<char>
    decreases s.len(),
{
    if s.len() == 0 {
        Seq::empty()
    } else {
        let prev = flatten_lines(s.drop_last());
        if s.last() == '\n' {
            prev.push(' ')
        } else if s.last() == '\r' {
            prev
        } else {
            prev.push(s.last())
        }
    }
}

/// The first `n` characters of `s` (all of them when it is shorter).
pub open spec fn first_chars(s: Seq<char>, n: nat) -> Seq<char> {
    if n < s.len() {
        s.take(n as int)
    } else {
        s
    }
}

/// Preview of a text: its first `max_len` characters, with newlines turned into
/// spaces and carriage returns removed.
pub open spec fn preview_chars(text: Seq<char>, max_len: nat) -> Seq<char> {
    flatten_lines(first_chars(text, max_len))
}

/// Preview of a payload: the preview of its text, decoded lossily.
pub open spec fn preview_of(content: Seq<u8>, max_len: nat) -> Seq<char> {
    preview_chars(utf8_lossy(content), max_len)
}

/// Preview of a decoded text, at most `max_len` characters long.
pub fn preview_of_text(text: &str, max_len: usize) -> (r: String)
    ensures
        r@ == preview_chars(text@, max_len as nat),
{
    let chars = chars_of(text);
    let n = if max_len < chars.len() {
        max_len
    } else {
        chars.len()
    };
    let ghost head = first_chars(chars@, max_len as nat);
    assert(head =~= chars@.take(n as int));
    let mut out: Vec<char> = Vec::new();
    for i in 0..n
        invariant
            n <= chars@.len(),
            head == chars@.take(n as int),
            out@ == flatten_lines(head.take(i as int)),
    {
        assert(head.take(i + 1).drop_last() =~= head.take(i as int));
        let c = chars[i];
        if c == '\n' {
            out.push(' ');
        } else if c != '\r' {
            out.push(c);
        }
    }
    assert(head.take(n as int) =~= head);
    string_from_chars(&out)
}

/// Preview of a payload, at most `max_len` characters long.
pub fn preview_text(content: &[u8], max_len: usize) -> (r: String)
    ensures
        r@ == preview_of(content@, max_len as nat),
{
    preview_of_text(lossy_text(content).as_str(), max_len)
}

/// A color literal: `#` with 3, 6 or 8 hex digits' worth of bytes, or an
/// `rgb`, `hsl` or `oklch` function.
pub open spec fn looks_like_color_spec(s: Seq<char>) -> bool {
    (s.len() > 0 && s[0] == '#' && (encode_utf8(s).len() == 4 || encode_utf8(s).len() == 7
        || encode_utf8(s).len() == 9)) || "rgb"@.is_prefix_of(s) || "hsl"@.is_prefix_of(s)
        || "oklch"@.is_prefix_of(s)
}

/// A URL with one of the schemes `http`, `https`, `ftp`, `file`.
pub open spec fn looks_like_url_spec(s: Seq<char>) -> bool {
    "http://"@.is_prefix_of(s) || "https://"@.is_prefix_of(s) || "ftp://"@.is_prefix_of(s)
        || "file://"@.is_prefix_of(s)
}

/// Whether a trimmed payload looks like a color literal.
fn looks_like_color(s: &[char]) -> (r: bool)
    ensures
        r == looks_like_color_spec(s@),
{
    if s.len() > 0 && s[0] == '#' {
        match utf8_len_capped(s, 9) {
            Some(len) => {
                if len == 4 || len == 7 || len == 9 {
                    return true;
                }
            },
            None => {},
        }
    }
    starts_with(s, &chars_of("rgb")) || starts_with(s, &chars_of("hsl")) || starts_with(
        s,
        &chars_of("oklch"),
    )
}

/// Whether a trimmed payload looks like a URL.
fn looks_like_url(s: &[char]) -> (r: bool)
    ensures
        r == looks_like_url_spec(s@),
{
    starts_with(s, &chars_of("http://")) || starts_with(s, &chars_of("https://")) || starts_with(
        s,
        &chars_of("ftp://"),
    ) || starts_with(s, &chars_of("file://"))
}

/// How a payload is classified, with its preview, from its lowercase MIME type
/// and its decoded text.
pub open spec fn classified(mime_lower: Seq<char>, text: Seq<char>) -> (ClipEntryKind, Seq<char>) {
    let m = mime_lower;
    if "image/"@.is_prefix_of(m) {
        (ClipEntryKind::Image, "<image>"@)
    } else if m == "text/uri-list"@ {
        (ClipEntryKind::File, preview_chars(text, 80))
    } else {
        let t = trim(text);
        if "text/"@.is_prefix_of(m) || m.len() == 0 {
            if looks_like_color_spec(t) {
                (ClipEntryKind::Color, t)
            } else if looks_like_url_spec(t) {
                (ClipEntryKind::Link, preview_chars(text, 80))
            } else {
                (ClipEntryKind::Text, preview_chars(text, 80))
            }
        } else {
            (ClipEntryKind::Secret, preview_chars(text, 80))
        }
    }
}

/// How a payload is classified, with its preview: by its MIME type in Unicode
/// lowercase and its bytes decoded lossily.
pub open spec fn classification(mime: Seq<char>, content: Seq<u8>) -> (ClipEntryKind, Seq<char>) {
    classified(unicode_lowercase(mime), utf8_lossy(content))
}

/// Classify a payload given its lowercase MIME type and decoded text.
///
/// Images (by MIME) preview as `<image>`; `text/uri-list` is a file list;
/// textual (or untyped) payloads are colors, links or text by their trimmed
/// content; anything else is treated as a secret. Previews hold at most 80
/// characters; a color's preview is the trimmed text itself.
pub fn classify_decoded(mime_lower: &str, text: &str) -> (r: (ClipEntryKind, String))
    ensures
        (r.0, r.1@) == classified(mime_lower@, text@),
{
    let m = chars_of(mime_lower);
    if starts_with(&m, &chars_of("image/")) {
        return (ClipEntryKind::Image, "<image>".to_owned());
    }
    if chars_eq(&m, &chars_of("text/uri-list")) {
        return (ClipEntryKind::File, preview_of_text(text, 80));
    }
    let trimmed = trim_chars(&chars_of(text));
    if starts_with(&m, &chars_of("text/")) || m.len() == 0 {
        if looks_like_color(&trimmed) {
            return (ClipEntryKind::Color, string_from_chars(&trimmed));
        }
        if looks_like_url(&trimmed) {
            return (ClipEntryKind::Link, preview_of_text(text, 80));
        }
        return (ClipEntryKind::Text, preview_of_text(text, 80));
    }
    (ClipEntryKind::Secret, preview_of_text(text, 80))
}

/// Classify a clipboard payload based on MIME type and content: the MIME type
/// is lowercased (Unicode) and the content decoded lossily as UTF-8, then
/// [`classify_decoded`] decides.
pub fn classify(mime: &str, content: &[u8]) -> (r: (ClipEntryKind, String))
    ensures
        (r.0, r.1@) == classification(mime@, content@),
{
    let m = lowercase(mime);
    let text = lossy_text(content);
    classify_decoded(m.as_str(), text.as_str())
}

/// Whether an offered MIME type satisfies a preferred one: equal to it, or, for a
/// `type/*` pattern, starting with `type/`.
pub open spec fn mime_matches(pref: Seq<char>, mt: Seq<char>) -> bool {
    mt == pref || (pref.len() >= 2 && pref[pref.len() - 2] == '/' && pref.last() == '*'
        && pref.drop_last().is_prefix_of(mt))
}

/// The first offered MIME type that satisfies `pref`.
pub open spec fn first_match_in(mts: Seq<Seq<char>>, pref: Seq<char>) -> Option<Seq<char>>
    decreases mts.len(),
{
    if mts.len() == 0 {
        None
    } else if mime_matches(pref, mts[0]) {
        Some(mts[0])
    } else {
        first_match_in(mts.drop_first(), pref)
    }
}

/// The first option that holds a value.
pub open spec fn or_else(a: Option<Seq<char>>, b: Option<Seq<char>>) -> Option<Seq<char>> {
    match a {
        Some(v) => Some(v),
        None => b,
    }
}

/// The offered type chosen by the preference list, in order: `text/plain`,
/// `text/plain;charset=utf-8`, `text/*`, `image/png`, `image/jpeg`,
/// `image/webp`, `image/*`, `application/octet-stream`.
pub open spec fn preferred_choice(mts: Seq<Seq<char>>) -> Option<Seq<char>> {
    or_else(first_match_in(mts, "text/plain"@), or_else(first_match_in(mts, "text/plain;charset=utf-8"@),
    or_else(first_match_in(mts, "text/*"@), or_else(first_match_in(mts, "image/png"@),
    or_else(first_match_in(mts, "image/jpeg"@), or_else(first_match_in(mts, "image/webp"@),
    or_else(first_match_in(mts, "image/*"@), first_match_in(mts, "application/octet-stream"@))))))))
}

/// The MIME type to request from an offer: `None` when nothing is offered, else
/// the preferred choice, falling back to the first offered type.
pub open spec fn best_mime(mts: Seq<Seq<char>>) -> Option<Seq<char>> {
    if mts.len() == 0 {
        None
    } else {
        match preferred_choice(mts) {
            Some(m) => Some(m),
            None => Some(mts[0]),
        }
    }
}

/// The first offered type matching `pref`.
fn first_match(mime_types: &[String], pref: &str) -> (r: Option<String>)
    ensures
        opt_view(r) == first_match_in(strings_view(mime_types@), pref@),
{
    let p = chars_of(pref);
    let pn = p.len();
    let wildcard = pn >= 2 && p[pn - 2] == '/' && p[pn - 1] == '*';
    let mut stem: Vec<char> = Vec::new();
    if wildcard {
        for k in 0..pn - 1
            invariant
                pn == p@.len(),
                pn >= 2,
                stem@ == p@.take(k as int),
        {
            stem.push(p[k]);
            assert(stem@ =~= p@.take(k + 1));
        }
        assert(stem@ =~= p@.drop_last());
    }
    let n = mime_types.len();
    let ghost mts = strings_view(mime_types@);
    assert(mts.skip(0) =~= mts);
    let mut i: usize = 0;
    while i < n
        invariant
            n == mime_types@.len(),
            mts == strings_view(mime_types@),
            i <= n,
            wildcard == (p@.len() >= 2 && p@[p@.len() - 2] == '/' && p@.last() == '*'),
            wildcard ==> stem@ == p@.drop_last(),
            p@ == pref@,
            first_match_in(mts, pref@) == first_match_in(mts.skip(i as int), pref@),
        decreases n - i,
    {
        let mt = chars_of(mime_types[i].as_str());
        assert(mts.skip(i as int).drop_first() =~= mts.skip(i + 1));
        assert(mts.skip(i as int)[0] == mt@);
        if chars_eq(&mt, &p) || (wildcard && starts_with(&mt, &stem)) {
            return Some(mime_types[i].clone());
        }
        i = i + 1;
    }
    None
}

/// Pick the MIME type to request from a clipboard offer.
pub fn pick_best_mime(mime_types: &[String]) -> (r: Option<String>)
    ensures
        opt_view(r) == best_mime(strings_view(mime_types@)),
{
    if mime_types.len() == 0 {
        return None;
    }
    let candidates: [&str; 8] = [
        "text/plain",
        "text/plain;charset=utf-8",
        "text/*",
        "image/png",
        "image/jpeg",
        "image/webp",
        "image/*",
        "application/octet-stream",
    ];
    let r = match first_match(mime_types, "text/plain") {
        Some(m) => Some(m),
        None => match first_match(mime_types, "text/plain;charset=utf-8") {
            Some(m) => Some(m),
            None => match first_match(mime_types, "text/*") {
                Some(m) => Some(m),
                None => match first_match(mime_types, "image/png") {
                    Some(m) => Some(m),
                    None => match first_match(mime_types, "image/jpeg") {
                        Some(m) => Some(m),
                        None => match first_match(mime_types, "image/webp") {
                            Some(m) => Some(m),
                            None => match first_match(mime_types, "image/*") {
                                Some(m) => Some(m),
                                None => first_match(mime_types, "application/octet-stream"),
                            },
                        },
                    },
                },
            },
        },
    };
    match r {
        Some(m) => Some(m),
        None => Some(mime_types[0].clone()),
    }
}

/// The first offered type matching a preference is one that matches it and was
/// offered, and one is found whenever some offered type matches.
proof fn lemma_first_match_in(mts: Seq<Seq<char>>, pref: Seq<char>)
    ensures
        match first_match_in(mts, pref) {
            Some(v) => mts.contains(v) && mime_matches(pref, v),
            None => forall|i: int| 0 <= i < mts.len() ==> !mime_matches(pref, #[trigger] mts[i]),
        },
    decreases mts.len(),
{
    if mts.len() > 0 {
        lemma_first_match_in(mts.drop_first(), pref);
        if mime_matches(pref, mts[0]) {
            assert(mts[0] == mts[0]);
        } else {
            match first_match_in(mts.drop_first(), pref) {
                Some(v) => {
                    let k = choose|k: int| 0 <= k < mts.drop_first().len() && mts.drop_first()[k] == v;
                    assert(mts[k + 1] == v);
                },
                None => {
                    assert forall|i: int| 0 <= i < mts.len() implies !mime_matches(pref, #[trigger] mts[i]) by {
                        if i > 0 {
                            assert(mts[i] == mts.drop_first()[i - 1]);
                        }
                    }
                },
            }
        }
    }
}

/// The MIME type requested from an offer: nothing for an empty offer, otherwise
/// one of the offered types; and whenever `text/plain` itself is offered, it is
/// the one requested.
pub proof fn lemma_best_mime_prefers_plain_text(mts: Seq<Seq<char>>)
    ensures
        (best_mime(mts) is None) == (mts.len() == 0),
        best_mime(mts) matches Some(m) ==> mts.contains(m),
        mts.contains("text/plain"@) ==> best_mime(mts) == Some("text/plain"@),
{
    reveal_strlit("text/plain");
    let prefs: Seq<Seq<char>> = seq![
        "text/plain"@,
        "text/plain;charset=utf-8"@,
        "text/*"@,
        "image/png"@,
        "image/jpeg"@,
        "image/webp"@,
        "image/*"@,
        "application/octet-stream"@,
    ];
    lemma_first_match_in(mts, "text/plain"@);
    lemma_first_match_in(mts, "text/plain;charset=utf-8"@);
    lemma_first_match_in(mts, "text/*"@);
    lemma_first_match_in(mts, "image/png"@);
    lemma_first_match_in(mts, "image/jpeg"@);
    lemma_first_match_in(mts, "image/webp"@);
    lemma_first_match_in(mts, "image/*"@);
    lemma_first_match_in(mts, "application/octet-stream"@);
    if mts.len() > 0 {
        assert(mts.contains(mts[0]));
    }
    if mts.contains("text/plain"@) {
        let k = choose|k: int| 0 <= k < mts.len() && mts[k] == "text/plain"@;
        assert(mime_matches("text/plain"@, mts[k]));
        match first_match_in(mts, "text/plain"@) {
            Some(v) => {
                assert("text/plain"@.last() == 'n');
                assert(v == "text/plain"@);
            },
            None => {
                assert(!mime_matches("text/plain"@, mts[k]));
            },
        }
    }
}

/// The characters of a prefix are the first characters of the sequence.
proof fn lemma_prefix_chars(p: Seq<char>, t: Seq<char>)
    requires
        p.is_prefix_of(t),
    ensures
        p.len() <= t.len(),
        forall|i: int| 0 <= i < p.len() ==> t[i] == #[trigger] p[i],
{
    assert forall|i: int| 0 <= i < p.len() implies t[i] == #[trigger] p[i] by {
        assert(t.subrange(0, p.len() as int)[i] == t[i]);
    }
}

/// A textual (or untyped) payload, other than a file list, whose trimmed text
/// starts with `http://`, `https://`, `ftp://` or `file://` is a link.
pub proof fn lemma_url_payloads_are_links(mime_lower: Seq<char>, text: Seq<char>)
    requires
        mime_lower.len() == 0 || ("text/"@.is_prefix_of(mime_lower) && mime_lower != "text/uri-list"@),
        "http://"@.is_prefix_of(trim(text)) || "https://"@.is_prefix_of(trim(text)) || "ftp://"@.is_prefix_of(
            trim(text),
        ) || "file://"@.is_prefix_of(trim(text)),
    ensures
        classified(mime_lower, text).0 == ClipEntryKind::Link,
{
    reveal_strlit("text/");
    reveal_strlit("image/");
    reveal_strlit("text/uri-list");
    reveal_strlit("http://");
    reveal_strlit("https://");
    reveal_strlit("ftp://");
    reveal_strlit("file://");
    reveal_strlit("rgb");
    reveal_strlit("hsl");
    reveal_strlit("oklch");
    let t = trim(text);
    if mime_lower.len() > 0 {
        lemma_prefix_chars("text/"@, mime_lower);
        assert("text/"@[0] == 't');
        assert(mime_lower[0] == 't');
        assert("image/"@[0] == 'i');
        assert(!"image/"@.is_prefix_of(mime_lower));
    }
    if "http://"@.is_prefix_of(t) {
        lemma_prefix_chars("http://"@, t);
        assert("http://"@[0] == 'h' && "http://"@[1] == 't');
    }
    if "https://"@.is_prefix_of(t) {
        lemma_prefix_chars("https://"@, t);
        assert("https://"@[0] == 'h' && "https://"@[1] == 't');
    }
    if "ftp://"@.is_prefix_of(t) {
        lemma_prefix_chars("ftp://"@, t);
        assert("ftp://"@[0] == 'f');
    }
    if "file://"@.is_prefix_of(t) {
        lemma_prefix_chars("file://"@, t);
        assert("file://"@[0] == 'f');
    }
    assert(t.len() >= 6);
    assert(t[0] == 'h' || t[0] == 'f');
    assert(t[0] == 'h' ==> t[1] == 't');
    assert("rgb"@[0] == 'r' && "oklch"@[0] == 'o' && "hsl"@[1] == 's');
    if "image/"@.is_prefix_of(mime_lower) {
        lemma_prefix_chars("image/"@, mime_lower);
    }
    if "rgb"@.is_prefix_of(t) {
        lemma_prefix_chars("rgb"@, t);
    }
    if "oklch"@.is_prefix_of(t) {
        lemma_prefix_chars("oklch"@, t);
    }
    if "hsl"@.is_prefix_of(t) {
        lemma_prefix_chars("hsl"@, t);
    }
    assert(!"rgb"@.is_prefix_of(t));
    assert(!"oklch"@.is_prefix_of(t));
    assert(!"hsl"@.is_prefix_of(t));
    assert(!looks_like_color_spec(t));
    assert(looks_like_url_spec(t));
}

/// The same for a raw payload: the MIME type is taken in lowercase and the
/// content decoded lossily.
pub proof fn lemma_url_content_is_link(mime: Seq<char>, content: Seq<u8>)
    requires
        unicode_lowercase(mime).len() == 0 || ("text/"@.is_prefix_of(unicode_lowercase(mime))
            && unicode_lowercase(mime) != "text/uri-list"@),
        "http://"@.is_prefix_of(trim(utf8_lossy(content))) || "https://"@.is_prefix_of(trim(utf8_lossy(content)))
            || "ftp://"@.is_prefix_of(trim(utf8_lossy(content))) || "file://"@.is_prefix_of(
            trim(utf8_lossy(content)),
        ),
    ensures
        classification(mime, content).0 == ClipEntryKind::Link,
{
    lemma_url_payloads_are_links(unicode_lowercase(mime), utf8_lossy(content));
}

} // verus!
