use sone_papdi::config::LauncherConfig;
use sone_papdi::launcher::index::{
    accept_candidate, application_dirs, collect_applications, desktop_id, locales,
    strip_field_codes, AppEntry, DesktopCandidate, DesktopFields,
};
use sone_papdi::launcher::score::{is_scorable, search};
use sone_papdi::launcher::{LaunchError, LauncherIndex};

fn app(name: &str, generic: Option<&str>, keywords: &[&str]) -> AppEntry {
    AppEntry {
        id: name.to_ascii_lowercase().replace(' ', "-"),
        name: name.into(),
        exec_line: name.into(),
        icon: None,
        generic_name: generic.map(str::to_string),
        keywords: keywords.iter().map(|s| s.to_string()).collect(),
        terminal: false,
        path: "/dev/null".to_string(),
    }
}

#[test]
fn strips_field_code_tokens() {
    assert_eq!(strip_field_codes("code %F"), "code");
    assert_eq!(strip_field_codes("kitty +open %U"), "kitty +open");
    assert_eq!(strip_field_codes("foo %i %c"), "foo");
}

#[test]
fn desktop_id_parses() {
    let path = "/usr/share/applications/firefox.desktop";
    assert_eq!(desktop_id(path), Some("firefox".to_string()));
}

#[test]
fn exact_match_scores_highest() {
    let apps = vec![app("Firefox", None, &[]), app("Firebird", None, &[])];
    let results = search(&apps, "firefox", 10);
    assert_eq!(results.len(), 1);
    assert_eq!(results[0].entry.name, "Firefox");
}

#[test]
fn subsequence_match() {
    let apps = vec![app("Visual Studio Code", Some("editor"), &["code", "ide"])];
    let results = search(&apps, "vsc", 10);
    assert_eq!(results.len(), 1);
    assert_eq!(results[0].entry.name, "Visual Studio Code");
}

#[test]
fn launcher_index_refresh_and_search() {
    let mut launcher = LauncherIndex::new(LauncherConfig::default());
    launcher.set_apps(vec![app("Firefox", None, &[]), app("Files", None, &["explorer"])]);
    let results = launcher.search("firefox");
    assert!(results.len() <= LauncherConfig::default().max_results);
    assert_eq!(results.len(), 1);
    assert_eq!(results[0].score, 1000);
}

#[test]
fn field_codes_are_whole_words_only() {
    assert_eq!(strip_field_codes("  a   b\t%f  "), "a b");
    assert_eq!(strip_field_codes("echo %ff %x"), "echo %ff %x");
    assert_eq!(strip_field_codes("%k"), "");
    assert_eq!(strip_field_codes(""), "");
}

#[test]
fn desktop_id_edge_cases() {
    assert_eq!(desktop_id("firefox.desktop"), Some("firefox".to_string()));
    assert_eq!(desktop_id("/a/b/app.desktop/"), Some("app".to_string()));
    assert_eq!(desktop_id("/a/b/app.desktop/."), Some("app".to_string()));
    assert_eq!(desktop_id("/a/b/readme.txt"), None);
    assert_eq!(desktop_id("/a/.."), None);
    assert_eq!(desktop_id("/"), None);
    assert_eq!(desktop_id(".desktop"), Some(String::new()));
}

#[test]
fn scores_follow_the_ranking_rules() {
    // name prefix: 900 minus the name's byte length
    let r = search(&[app("Firefox Nightly", None, &[])], "fire", 10);
    assert_eq!(r[0].score, 900 - 15);
    // name substring
    let r = search(&[app("Mozilla Firefox", None, &[])], "fire", 10);
    assert_eq!(r[0].score, 700);
    // subsequence (500) + generic contains (300) + keyword exact (250)
    let r = search(&[app("Visual Studio Code", Some("Code editor"), &["vsc"])], "vsc", 10);
    assert_eq!(r[0].score, 500 + 250);
    let r = search(&[app("Gedit", Some("Text Editor"), &["notepad", "text"])], "text", 10);
    assert_eq!(r[0].score, 300 + 250);
    // keyword prefix, contains and subsequence
    let r = search(&[app("Zzz", None, &["texts", "context", "txt-ext"])], "text", 10);
    assert_eq!(r[0].score, 150 + 75 + 40);
    // no match at all
    assert!(search(&[app("Zzz", None, &[])], "qq", 10).is_empty());
}

#[test]
fn ranking_is_stable_and_truncated() {
    let apps = vec![
        app("Alpha Files", None, &["files"]),
        app("Files", None, &[]),
        app("Beta Files", None, &["files"]),
        app("Gamma", None, &[]),
    ];
    let results = search(&apps, "FILES", 10);
    let names: Vec<&str> = results.iter().map(|r| r.entry.name.as_str()).collect();
    assert_eq!(names, vec!["Files", "Alpha Files", "Beta Files"]);
    assert_eq!(results[1].score, 700);
    assert_eq!(results[2].score, 700);
    let top = search(&apps, "files", 2);
    assert_eq!(top.len(), 2);
    assert_eq!(top[0].entry.name, "Files");
    assert!(search(&apps, "files", 0).is_empty());
}

fn fields(name: &str, exec: &str) -> DesktopFields {
    DesktopFields {
        entry_type: Some("Application".to_string()),
        no_display: false,
        hidden: false,
        name: Some(name.to_string()),
        exec_line: Some(exec.to_string()),
        icon: Some("icon".to_string()),
        generic_name: Some(String::new()),
        keywords: Some(vec!["web".to_string(), String::new()]),
        terminal: false,
    }
}

#[test]
fn candidates_are_filtered_deduplicated_and_sorted() {
    let mut hidden = fields("Hidden", "hidden");
    hidden.hidden = true;
    let mut link = fields("Link", "xdg-open");
    link.entry_type = Some("Link".to_string());
    let candidates = vec![
        DesktopCandidate { path: "/u/zeta.desktop".into(), fields: Some(fields("zeta", "zeta %U")) },
        DesktopCandidate { path: "/u/alpha.desktop".into(), fields: None },
        DesktopCandidate { path: "/s/alpha.desktop".into(), fields: Some(fields("Alpha", "alpha")) },
        DesktopCandidate { path: "/s/zeta.desktop".into(), fields: Some(fields("Zeta two", "z")) },
        DesktopCandidate { path: "/s/beta.desktop".into(), fields: Some(fields("beta", "%f")) },
        DesktopCandidate { path: "/s/hidden.desktop".into(), fields: Some(hidden) },
        DesktopCandidate { path: "/s/link.desktop".into(), fields: Some(link) },
        DesktopCandidate { path: "/s/notes.txt".into(), fields: Some(fields("Notes", "notes")) },
        DesktopCandidate { path: "/s/Mid.desktop".into(), fields: Some(fields("Mid", "mid")) },
    ];
    let apps = collect_applications(&candidates);
    let ids: Vec<&str> = apps.iter().map(|a| a.id.as_str()).collect();
    assert_eq!(ids, vec!["alpha", "Mid", "zeta"]);
    assert_eq!(apps[2].exec_line, "zeta");
    assert_eq!(apps[2].path, "/u/zeta.desktop");
    assert_eq!(apps[0].generic_name, None);
    assert_eq!(apps[0].keywords, vec!["web".to_string()]);
    assert_eq!(apps[0].icon, Some("icon".to_string()));
}

#[test]
fn candidate_without_type_is_accepted() {
    let mut f = fields("Tool", "tool --x");
    f.entry_type = None;
    let c = DesktopCandidate { path: "/p/tool.desktop".into(), fields: Some(f) };
    let e = accept_candidate(&c).unwrap();
    assert_eq!(e.id, "tool");
    assert_eq!(e.exec_line, "tool --x");
}

#[test]
fn locales_and_directories() {
    assert_eq!(
        locales(Some("de_DE.UTF-8".to_string()), Some("de::en")),
        vec!["de_DE.UTF-8".to_string(), "de".to_string(), "en".to_string()]
    );
    assert!(locales(None, None).is_empty());
    assert_eq!(
        application_dirs(None, Some("/home/u"), None),
        vec![
            "/home/u/.local/share/applications".to_string(),
            "/usr/local/share/applications".to_string(),
            "/usr/share/applications".to_string(),
        ]
    );
    assert_eq!(
        application_dirs(Some("/d/"), Some("/home/u"), Some(":/x:")),
        vec!["/d/applications".to_string(), "/x/applications".to_string()]
    );
}

#[test]
fn launch_command_words() {
    let mut config = LauncherConfig::default();
    config.terminal_prefix = "foot -e".to_string();
    let launcher = LauncherIndex::new(config);
    let mut e = app("Htop", None, &[]);
    e.exec_line = "htop  --tree".to_string();
    e.terminal = true;
    assert_eq!(
        launcher.launch_command(&e).unwrap(),
        vec!["foot".to_string(), "-e".to_string(), "htop".to_string(), "--tree".to_string()]
    );
    e.terminal = false;
    e.exec_line = "   ".to_string();
    assert_eq!(launcher.launch_command(&e), Err(LaunchError::EmptyExec("Htop".to_string())));
}

#[test]
fn ordinary_entries_are_scorable() {
    assert!(is_scorable(&app("Firefox", Some("Web Browser"), &["web", "internet"])));
    assert!(is_scorable(&app("", None, &[])));
}

#[test]
fn stripping_field_codes_twice_changes_nothing() {
    let once = strip_field_codes("  env  FOO=1 %U\tapp --new-window %f ");
    assert_eq!(once, "env FOO=1 app --new-window");
    assert_eq!(strip_field_codes(&once), once);
}

#[test]
fn exact_name_outranks_prefix_and_substring() {
    let apps = vec![app("Files Plus", None, &[]), app("My Files", None, &[]), app("Files", None, &[])];
    let results = search(&apps, "files", 10);
    assert_eq!(results[0].entry.name, "Files");
    assert_eq!(results[0].score, 1000);
    assert!(results[1..].iter().all(|r| r.score < 1000));
}

#[test]
fn cloned_index_searches_the_same() {
    let mut launcher = LauncherIndex::new(LauncherConfig::default());
    launcher.set_apps(vec![app("Firefox", None, &[]), app("Files", None, &["explorer"])]);
    let copy = launcher.clone();
    let a: Vec<(String, i64)> = launcher.search("fi").into_iter().map(|r| (r.entry.name, r.score)).collect();
    let b: Vec<(String, i64)> = copy.search("fi").into_iter().map(|r| (r.entry.name, r.score)).collect();
    assert_eq!(a, b);
    assert_eq!(a.len(), 2);
}

#[test]
fn equal_names_keep_scan_order() {
    let candidates = vec![
        DesktopCandidate { path: "/a/term-b.desktop".into(), fields: Some(fields("Terminal", "b")) },
        DesktopCandidate { path: "/a/editor.desktop".into(), fields: Some(fields("Editor", "e")) },
        DesktopCandidate { path: "/a/term-a.desktop".into(), fields: Some(fields("terminal", "a")) },
    ];
    let apps = collect_applications(&candidates);
    let ids: Vec<&str> = apps.iter().map(|a| a.id.as_str()).collect();
    assert_eq!(ids, vec!["editor", "term-b", "term-a"]);
}

#[test]
fn tied_scores_keep_application_order() {
    let apps = vec![app("Alpha Tool", None, &["zz"]), app("Beta Tool", None, &["zz"])];
    let results = search(&apps, "zz", 10);
    assert_eq!(results.len(), 2);
    assert_eq!(results[0].score, results[1].score);
    assert_eq!(results[0].entry.name, "Alpha Tool");
    assert_eq!(results[1].entry.name, "Beta Tool");
}
