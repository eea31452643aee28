use std::hash::{Hash, Hasher};
use sone_papdi::clipboard::hash::{blake3_content_key, content_hash, hash_hex};
use sone_papdi::clipboard::mime::{
    classify, classify_decoded, pick_best_mime, preview_of_text, preview_text,
};
use sone_papdi::clipboard::store::{
    cleanup_cutoff, cleanup_days, count_from_row, effective_limit, entry_from_row, kind_to_str,
    list_query, paginate, prepare_entry, str_to_kind, StoreError,
};
use sone_papdi::clipboard::watcher::{sniff_mime, text_read_result, untyped_read_result, ClipWatcher};
use sone_papdi::clipboard::wayland::{
    content_event, registry_action, set_clipboard_command, RegistryAction, WaylandCmd, WaylandEvent,
};
use sone_papdi::events::ClipEntryKind;

#[test]
fn same_content_same_hash() {
    assert_eq!(content_hash(b"hello"), content_hash(b"hello"));
}

#[test]
fn different_content_different_hash() {
    assert_ne!(content_hash(b"hello"), content_hash(b"world"));
}

#[test]
fn empty_content_hashes() {
    // Empty should not panic
    let h = content_hash(b"");
    assert_eq!(h.len(), 16);
}

#[test]
fn content_hash_is_zero_padded_lower_hex() {
    let mut hasher = std::collections::hash_map::DefaultHasher::new();
    b"abc"[..].hash(&mut hasher);
    let expected = format!("{:016x}", hasher.finish());
    let h = content_hash(b"abc");
    assert_eq!(h, expected);
    assert!(h.chars().all(|c| c.is_ascii_digit() || ('a'..='f').contains(&c)));
}

#[test]
fn blake3_key_matches_known_digest() {
    assert_eq!(
        blake3_content_key(b""),
        "af1349b9f5f9a1a6a0404dea36dcc9499bcb25c9adc112b7cc9a93cae41f3262"
    );
    assert_eq!(blake3_content_key(b"abc").len(), 64);
}

#[test]
fn classify_text() {
    let (kind, preview) = classify("text/plain", b"hello world");
    assert_eq!(kind, ClipEntryKind::Text);
    assert_eq!(preview, "hello world");
}

#[test]
fn classify_link() {
    let (kind, _) = classify("text/plain", b"https://example.com");
    assert_eq!(kind, ClipEntryKind::Link);
}

#[test]
fn classify_color() {
    let (kind, _) = classify("text/plain", b"#7dcfff");
    assert_eq!(kind, ClipEntryKind::Color);
}

#[test]
fn classify_image() {
    let (kind, preview) = classify("image/png", b"fake");
    assert_eq!(kind, ClipEntryKind::Image);
    assert_eq!(preview, "<image>");
}

#[test]
fn classify_other_kinds() {
    assert_eq!(classify("IMAGE/JPEG", b"x").0, ClipEntryKind::Image);
    let (kind, preview) = classify("text/uri-list", b"file:///a\r\nfile:///b");
    assert_eq!(kind, ClipEntryKind::File);
    assert_eq!(preview, "file:///a file:///b");
    let (kind, preview) = classify("", b"  rgb(1, 2, 3)\n");
    assert_eq!(kind, ClipEntryKind::Color);
    assert_eq!(preview, "rgb(1, 2, 3)");
    assert_eq!(classify("text/plain", b"#12345").0, ClipEntryKind::Text);
    assert_eq!(classify("text/plain", b"#1234567a").0, ClipEntryKind::Color);
    assert_eq!(classify("application/json", b"{}").0, ClipEntryKind::Secret);
    assert_eq!(classify("text/html", b" ftp://host ").0, ClipEntryKind::Link);
}

#[test]
fn preview_is_truncated_and_flattened() {
    assert_eq!(preview_text(b"a\nb\r\nc", 80), "a b c");
    assert_eq!(preview_text("héllo wörld".as_bytes(), 4), "héll");
    assert_eq!(preview_text(b"ab\xffcd", 80), "ab\u{fffd}cd");
    let long = "x".repeat(200);
    assert_eq!(preview_text(long.as_bytes(), 80).len(), 80);
}

#[test]
fn best_mime_follows_preferences() {
    let v = |xs: &[&str]| xs.iter().map(|s| s.to_string()).collect::<Vec<_>>();
    assert_eq!(pick_best_mime(&v(&[])), None);
    assert_eq!(pick_best_mime(&v(&["image/png", "text/plain"])), Some("text/plain".into()));
    assert_eq!(pick_best_mime(&v(&["image/png", "text/html"])), Some("text/html".into()));
    assert_eq!(pick_best_mime(&v(&["image/gif", "image/jpeg"])), Some("image/jpeg".into()));
    assert_eq!(pick_best_mime(&v(&["image/gif", "x/y"])), Some("image/gif".into()));
    assert_eq!(pick_best_mime(&v(&["x/y", "z/w"])), Some("x/y".into()));
}

#[test]
fn kinds_round_trip_through_their_names() {
    for kind in [
        ClipEntryKind::Text,
        ClipEntryKind::Link,
        ClipEntryKind::Color,
        ClipEntryKind::Image,
        ClipEntryKind::File,
        ClipEntryKind::Secret,
    ] {
        assert_eq!(str_to_kind(kind_to_str(&kind)), kind);
    }
    assert_eq!(kind_to_str(&ClipEntryKind::Secret), "secret");
    assert_eq!(str_to_kind("bogus"), ClipEntryKind::Text);
}

#[test]
fn prepare_entry_builds_and_refuses() {
    let e = prepare_entry("text/plain".to_string(), b"hello world", 100).unwrap();
    assert_eq!(e.content_hash, content_hash(b"hello world"));
    assert_eq!(e.kind, ClipEntryKind::Text);
    assert_eq!(e.preview, "hello world");
    assert_eq!(e.content.as_deref(), Some("hello world"));
    assert_eq!(e.size_bytes, 11);
    assert_eq!(e.mime, "text/plain");
    assert_eq!(prepare_entry("text/plain".to_string(), b"hello", 4).unwrap_err(), StoreError::PayloadTooLarge);
    assert!(prepare_entry("text/plain".to_string(), b"hello", 5).is_ok());
}

#[test]
fn listing_helpers() {
    let q = list_query("  alpha ");
    assert_eq!(q.pattern.as_deref(), Some("%alpha%"));
    assert_eq!(
        q.sql,
        "SELECT id, content_hash, kind, mime, preview, content, pinned, created_at, updated_at, size_bytes FROM entries WHERE deleted = 0 AND preview LIKE ?1 ORDER BY pinned DESC, updated_at DESC"
    );
    let q = list_query("   ");
    assert_eq!(q.pattern, None);
    assert!(q.sql.ends_with("WHERE deleted = 0 ORDER BY pinned DESC, updated_at DESC"));
    assert_eq!(paginate(vec![1, 2, 3, 4, 5], 1, 2), vec![2, 3]);
    assert_eq!(paginate(vec![1, 2, 3], 5, 2), Vec::<i32>::new());
    assert_eq!(paginate(vec![1, 2, 3], 0, 10), vec![1, 2, 3]);
    assert_eq!(effective_limit(Some(3), 5000), 3);
    assert_eq!(effective_limit(None, 5000), 5000);
    assert_eq!(cleanup_days(30), 30);
    assert_eq!(cleanup_cutoff(1_000_000, 0), None);
    assert_eq!(cleanup_cutoff(1_000_000, 1), Some(1_000_000 - 86_400));
    assert_eq!(count_from_row(-3), 0);
    assert_eq!(count_from_row(7), 7);
    let e = entry_from_row(4, "text/plain".into(), "link", "p".into(), None, 1, 10, 20);
    assert_eq!(e.kind, ClipEntryKind::Link);
    assert!(e.pinned);
    assert_eq!((e.id, e.created_at, e.updated_at), (4, 10, 20));
}

#[test]
fn watcher_skips_repeats_and_empty_payloads() {
    let mut w = ClipWatcher::new();
    assert!(!w.observe(b""));
    assert!(w.observe(b"one"));
    assert!(!w.observe(b"one"));
    assert!(w.observe(b"two"));
    assert!(w.observe(b"one"));
    assert_eq!(w.last_hash, Some(blake3_content_key(b"one")));
}

#[test]
fn poll_results() {
    assert_eq!(text_read_result(true, b"x".to_vec()), Some(("text/plain".to_string(), b"x".to_vec())));
    assert_eq!(text_read_result(true, Vec::new()), None);
    assert_eq!(text_read_result(false, b"x".to_vec()), None);
    let jpeg = vec![0xFF, 0xD8, 0xFF, 0xAA];
    assert_eq!(sniff_mime(&jpeg), "image/jpeg");
    assert_eq!(
        untyped_read_result(true, jpeg.clone(), b""),
        Ok(("image/jpeg".to_string(), jpeg))
    );
    assert_eq!(
        untyped_read_result(true, b"plain".to_vec(), b""),
        Ok(("application/octet-stream".to_string(), b"plain".to_vec()))
    );
    assert_eq!(
        untyped_read_result(false, Vec::new(), b"No selection"),
        Err("wl-paste failed: No selection".to_string())
    );
}

#[test]
fn registry_binds_manager_then_seat() {
    assert_eq!(
        registry_action("zwlr_data_control_manager_v1", 5, false),
        RegistryAction::BindManager { version: 2 }
    );
    assert_eq!(
        registry_action("zwlr_data_control_manager_v1", 1, true),
        RegistryAction::BindManager { version: 1 }
    );
    assert_eq!(registry_action("wl_seat", 9, false), RegistryAction::Ignore);
    assert_eq!(registry_action("wl_seat", 9, true), RegistryAction::BindSeat { version: 7 });
    assert_eq!(registry_action("wl_seat", 3, true), RegistryAction::BindSeat { version: 3 });
    assert_eq!(registry_action("wl_output", 4, true), RegistryAction::Ignore);
}

#[test]
fn empty_offers_produce_no_event() {
    assert!(content_event("text/plain".into(), Vec::new()).is_none());
    match content_event("text/plain".into(), b"hi".to_vec()) {
        Some(WaylandEvent::Content { mime, data }) => {
            assert_eq!(mime, "text/plain");
            assert_eq!(data, b"hi".to_vec());
        }
        other => panic!("unexpected {other:?}"),
    }
}

#[test]
fn copy_command_carries_utf8_bytes() {
    match set_clipboard_command("text/plain".into(), Some("héllo".into())) {
        WaylandCmd::SetClipboard { mime, content } => {
            assert_eq!(mime, "text/plain");
            assert_eq!(content, "héllo".as_bytes().to_vec());
        }
        WaylandCmd::Shutdown => panic!("expected a clipboard command"),
    }
    match set_clipboard_command("image/png".into(), None) {
        WaylandCmd::SetClipboard { content, .. } => assert!(content.is_empty()),
        WaylandCmd::Shutdown => panic!("expected a clipboard command"),
    }
}

#[test]
fn classification_after_decoding() {
    assert_eq!(classify_decoded("image/png", "whatever"), (ClipEntryKind::Image, "<image>".to_string()));
    assert_eq!(classify_decoded("", "  #abc \n"), (ClipEntryKind::Color, "#abc".to_string()));
    assert_eq!(classify_decoded("text/html", "file:///tmp/x"), (ClipEntryKind::Link, "file:///tmp/x".to_string()));
    assert_eq!(classify_decoded("application/json", "{}"), (ClipEntryKind::Secret, "{}".to_string()));
    assert_eq!(classify_decoded("text/uri-list", "a\r\nb"), (ClipEntryKind::File, "a b".to_string()));
    // Uppercase MIME types are lowercased before the decision.
    assert_eq!(classify("IMAGE/PNG", b"x").0, ClipEntryKind::Image);
}

#[test]
fn previews_of_decoded_text() {
    assert_eq!(preview_of_text("ab\ncd\r", 80), "ab cd");
    assert_eq!(preview_of_text("abcdef", 3), "abc");
    assert_eq!(preview_of_text("", 3), "");
}

#[test]
fn hash_hex_is_zero_padded() {
    assert_eq!(hash_hex(0), "0000000000000000");
    assert_eq!(hash_hex(0xabc), "0000000000000abc");
    assert_eq!(hash_hex(u64::MAX), "ffffffffffffffff");
}

#[test]
fn watcher_remembers_keys() {
    let mut w = ClipWatcher::new();
    assert!(w.remember("k1".to_string()));
    assert!(!w.remember("k1".to_string()));
    assert!(w.remember("k2".to_string()));
    assert_eq!(w.last_hash.as_deref(), Some("k2"));
}
