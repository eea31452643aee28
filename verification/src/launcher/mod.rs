pub mod index;
pub mod score;

use vstd::prelude::*;
use crate::config::LauncherConfig;
use crate::launcher::index::{AppEntry, AppEntryView, strings_view};
use crate::launcher::score::{app_views, matching, ranked, scorable, scored_views, search, ScoredEntry};
use crate::text::{
    ascii_lower, char_vecs_view, chars_of, split_whitespace, split_ws, string_from_chars,
};

verus! {

/// Launcher state that holds indexed applications.
#[derive(Debug)]
pub struct LauncherIndex {
    apps: Vec<AppEntry>,
    config: LauncherConfig,
}

/// Why an application could not be launched.
#[derive(Debug, Clone, PartialEq, Eq)]
pub enum LaunchError {
    /// The command line has no words; holds the application's name.
    EmptyExec(String),
}

/// The command line an entry runs: its Exec line, behind the terminal prefix
/// when it runs in a terminal.
pub open spec fn command_line(entry: AppEntryView, terminal_prefix: Seq<char>) -> Seq<char> {
    if entry.terminal {
        terminal_prefix + seq![' '] + entry.exec_line
    } else {
        entry.exec_line
    }
}

impl LauncherIndex {
    #[verifier::type_invariant]
    spec fn apps_scorable(self) -> bool {
        forall|i: int| 0 <= i < self.apps@.len() ==> scorable(#[trigger] self.apps@[i]@)
    }

    /// The indexed applications.
    pub closed spec fn apps_view(self) -> Seq<AppEntryView> {
        app_views(self.apps@)
    }

    /// The number of results a search returns at most.
    pub closed spec fn max_results(self) -> usize {
        self.config.max_results
    }

    /// The prefix for applications that run in a terminal.
    pub closed spec fn terminal_prefix(self) -> Seq<char> {
        self.config.terminal_prefix@
    }

    /// Create a new launcher index with the given config and no applications.
    pub fn new(config: LauncherConfig) -> (r: Self)
        ensures
            r.apps_view().len() == 0,
            r.max_results() == config.max_results,
            r.terminal_prefix() == config.terminal_prefix@,
    {
        LauncherIndex { apps: Vec::new(), config }
    }

    /// Replace the indexed applications (what `refresh` stores after a scan).
    pub fn set_apps(&mut self, apps: Vec<AppEntry>)
        requires
            forall|i: int| 0 <= i < apps@.len() ==> scorable(#[trigger] apps@[i]@),
        ensures
            final(self).apps_view() == app_views(apps@),
            final(self).max_results() == old(self).max_results(),
            final(self).terminal_prefix() == old(self).terminal_prefix(),
    {
        self.apps = apps;
    }

    /// Search the index for the given query.
    pub fn search(&self, query: &str) -> (r: Vec<ScoredEntry>)
        ensures
            r@.len() == if self.max_results() < matching(self.apps_view(), ascii_lower(query@)).len() {
                self.max_results() as int
            } else {
                matching(self.apps_view(), ascii_lower(query@)).len() as int
            },
            scored_views(r@) == ranked(self.apps_view(), ascii_lower(query@)).take(r@.len() as int),
    {
        proof {
            use_type_invariant(self);
        }
        search(self.apps.as_slice(), query, self.config.max_results)
    }

    /// The program and arguments that launch `entry`: the words of its command
    /// line, or an error when there are none.
    pub fn launch_command(&self, entry: &AppEntry) -> (r: Result<Vec<String>, LaunchError>)
        ensures
            match r {
                Ok(argv) => strings_view(argv@) == split_ws(command_line(entry@, self.terminal_prefix()))
                    && argv@.len() > 0,
                Err(LaunchError::EmptyExec(name)) => split_ws(command_line(entry@, self.terminal_prefix())).len() == 0
                    && name@ == entry@.name,
            },
    {
        let mut line: Vec<char> = Vec::new();
        if entry.terminal {
            line = chars_of(self.config.terminal_prefix.as_str());
            line.push(' ');
        }
        let exec = chars_of(entry.exec_line.as_str());
        let ghost start = line@;
        let n = exec.len();
        for i in 0..n
            invariant
                n == exec@.len(),
                line@ == start + exec@.take(i as int),
        {
            line.push(exec[i]);
            assert(line@ =~= start + exec@.take(i + 1));
        }
        assert(exec@.take(n as int) =~= exec@);
        assert(line@ =~= command_line(entry@, self.terminal_prefix()));
        let words = split_whitespace(&line);
        if words.len() == 0 {
            return Err(LaunchError::EmptyExec(entry.name.clone()));
        }
        let mut argv: Vec<String> = Vec::new();
        let m = words.len();
        for i in 0..m
            invariant
                m == words@.len(),
                strings_view(argv@) == char_vecs_view(words@).take(i as int),
        {
            let w = string_from_chars(&words[i]);
            assert(w@ == char_vecs_view(words@)[i as int]);
            let ghost before = argv@;
            argv.push(w);
            assert(argv@ == before.push(w));
            assert(strings_view(before.push(w)) =~= strings_view(before).push(w@));
            assert(char_vecs_view(words@).take(i + 1) =~= char_vecs_view(words@).take(i as int).push(char_vecs_view(words@)[i as int]));
            assert(strings_view(argv@) =~= char_vecs_view(words@).take(i + 1));
        }
        assert(char_vecs_view(words@).take(m as int) =~= char_vecs_view(words@));
        Ok(argv)
    }
}

impl Clone for LauncherIndex {
    /// A copy with the same applications and settings.
    fn clone(&self) -> (r: Self)
        ensures
            r.apps_view() == self.apps_view(),
            r.max_results() == self.max_results(),
            r.terminal_prefix() == self.terminal_prefix(),
    {
        proof {
            use_type_invariant(self);
        }
        let mut apps: Vec<AppEntry> = Vec::new();
        let n = self.apps.len();
        for i in 0..n
            invariant
                n == self.apps@.len(),
                forall|k: int| 0 <= k < self.apps@.len() ==> scorable(#[trigger] self.apps@[k]@),
                app_views(apps@) == app_views(self.apps@).take(i as int),
        {
            let ghost before = apps@;
            apps.push(self.apps[i].duplicate());
            assert(app_views(apps@) =~= app_views(before).push(self.apps@[i as int]@));
            assert(app_views(self.apps@).take(i + 1) =~= app_views(self.apps@).take(i as int).push(self.apps@[i as int]@));
        }
        assert(app_views(self.apps@).take(n as int) =~= app_views(self.apps@));
        assert forall|k: int| 0 <= k < apps@.len() implies scorable(#[trigger] apps@[k]@) by {
            assert(app_views(apps@)[k] == apps@[k]@);
            assert(app_views(self.apps@)[k] == self.apps@[k]@);
        }
        let config = LauncherConfig {
            width: self.config.width,
            max_results: self.config.max_results,
            show_icons: self.config.show_icons,
            fuzzy: self.config.fuzzy,
            terminal_prefix: self.config.terminal_prefix.clone(),
        };
        LauncherIndex { apps, config }
    }
}

impl Default for LauncherIndex {
    fn default() -> (r: Self)
        ensures
            r.apps_view().len() == 0,
            r.max_results() == 12,
            r.terminal_prefix() == "foot -e"@,
    {
        LauncherIndex::new(LauncherConfig::default())
    }
}

} // verus!
