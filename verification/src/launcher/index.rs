use vstd::prelude::*;
use crate::sorting::{
    insert_pos, is_sorted_by, is_strict_order, lemma_insert_pos, lemma_stable_sort_distinct,
    lemma_stable_sort_multiset, lemma_stable_sort_sorted, lemma_stable_sort_ties, stable_sort,
};
use crate::text::{
    ascii_lower, char_vecs_view, is_word, lemma_split_join, lemma_split_ws_words, chars_eq, chars_lt, chars_of, join_spaces, join_with_spaces,
    lemma_seq_lt_strict, lower_ascii, seq_lt, split_nonempty, split_on, split_whitespace, split_ws,
    string_from_chars,
};

verus! {

/// A discovered application entry.
#[derive(Clone, Debug, PartialEq, Eq)]
pub struct AppEntry {
    /// Desktop file id (file name without `.desktop`).
    pub id: String,
    /// Display name.
    pub name: String,
    /// Command to execute (field codes stripped).
    pub exec_line: String,
    /// Optional icon name.
    pub icon: Option<String>,
    /// Optional generic name.
    pub generic_name: Option<String>,
    /// Keywords for search.
    pub keywords: Vec<String>,
    /// Whether the app should run in a terminal.
    pub terminal: bool,
    /// Path to the `.desktop` file.
    pub path: String,
}

/// The mathematical content of an [`AppEntry`]: every string as its characters.
pub struct AppEntryView {
    pub id: Seq<char>,
    pub name: Seq<char>,
    pub exec_line: Seq<char>,
    pub icon: Option<Seq<char>>,
    pub generic_name: Option<Seq<char>>,
    pub keywords: Seq<Seq<char>>,
    pub terminal: bool,
    pub path: Seq<char>,
}

/// The characters of an optional string.
pub open spec fn opt_view(s: Option<String>) -> Option<Seq<char>> {
    match s {
        Some(v) => Some(v@),
        None => None,
    }
}

/// The characters of each string of a list.
pub open spec fn strings_view(v: Seq<String>) -> Seq<Seq<char>> {
    v.map_values(|s: String| s@)
}

impl View for AppEntry {
    type V = AppEntryView;

    open spec fn view(&self) -> AppEntryView {
        AppEntryView {
            id: self.id@,
            name: self.name@,
            exec_line: self.exec_line@,
            icon: opt_view(self.icon),
            generic_name: opt_view(self.generic_name),
            keywords: strings_view(self.keywords@),
            terminal: self.terminal,
            path: self.path@,
        }
    }
}

/// A copy of an optional string, equal to the given one.
pub fn copy_opt_string(s: &Option<String>) -> (r: Option<String>)
    ensures
        r == *s,
{
    match s {
        Some(v) => Some(v.clone()),
        None => None,
    }
}

/// A copy of a list of strings, equal to the given one.
pub fn copy_strings(v: &Vec<String>) -> (r: Vec<String>)
    ensures
        r@ == v@,
{
    let mut r: Vec<String> = Vec::new();
    let n = v.len();
    for i in 0..n
        invariant
            n == v@.len(),
            r@ == v@.take(i as int),
    {
        r.push(v[i].clone());
        assert(r@ =~= v@.take(i + 1));
    }
    assert(v@.take(n as int) =~= v@);
    r
}

impl AppEntry {
    /// A copy of this entry, equal to it field by field.
    pub fn duplicate(&self) -> (r: AppEntry)
        ensures
            r@ == self@,
    {
        let keywords = copy_strings(&self.keywords);
        let r = AppEntry {
            id: self.id.clone(),
            name: self.name.clone(),
            exec_line: self.exec_line.clone(),
            icon: copy_opt_string(&self.icon),
            generic_name: copy_opt_string(&self.generic_name),
            keywords,
            terminal: self.terminal,
            path: self.path.clone(),
        };
        assert(strings_view(r.keywords@) =~= strings_view(self.keywords@));
        r
    }
}

/// Whether a word is a freedesktop field code: `%` followed by one of
/// `f F u U i c k`.
pub open spec fn is_field_code(w: Seq<char>) -> bool {
    w.len() == 2 && w[0] == '%' && (w[1] == 'f' || w[1] == 'F' || w[1] == 'u' || w[1] == 'U'
        || w[1] == 'i' || w[1] == 'c' || w[1] == 'k')
}

/// The words that are not field codes, in order.
pub open spec fn without_field_codes(ws: Seq<Seq<char>>) -> Seq<Seq<char>>
    decreases ws.len(),
{
    if ws.len() == 0 {
        Seq::empty()
    } else {
        let prev = without_field_codes(ws.drop_last());
        if is_field_code(ws.last()) {
            prev
        } else {
            prev.push(ws.last())
        }
    }
}

/// An Exec line with its field codes removed: the remaining whitespace-separated
/// words joined by single spaces.
pub open spec fn stripped_exec(exec: Seq<char>) -> Seq<char> {
    join_spaces(without_field_codes(split_ws(exec)))
}

/// What remains after dropping field codes are words of the list, and none is a
/// field code.
proof fn lemma_without_field_codes_words(ws: Seq<Seq<char>>)
    requires
        forall|i: int| 0 <= i < ws.len() ==> is_word(#[trigger] ws[i]),
    ensures
        forall|i: int| 0 <= i < without_field_codes(ws).len() ==> is_word(#[trigger] without_field_codes(ws)[i])
            && !is_field_code(without_field_codes(ws)[i]),
    decreases ws.len(),
{
    if ws.len() > 0 {
        let prev = ws.drop_last();
        assert(forall|i: int| 0 <= i < prev.len() ==> prev[i] == ws[i]);
        lemma_without_field_codes_words(prev);
        assert(is_word(ws[ws.len() - 1]));
        let p = without_field_codes(prev);
        if !is_field_code(ws.last()) {
            assert forall|i: int| 0 <= i < p.push(ws.last()).len() implies is_word(#[trigger] p.push(ws.last())[i])
                && !is_field_code(p.push(ws.last())[i]) by {
                if i < p.len() {
                    assert(p.push(ws.last())[i] == p[i]);
                }
            }
        }
    }
}

/// A list without field codes keeps all its words.
proof fn lemma_without_field_codes_none(ws: Seq<Seq<char>>)
    requires
        forall|i: int| 0 <= i < ws.len() ==> !is_field_code(#[trigger] ws[i]),
    ensures
        without_field_codes(ws) == ws,
    decreases ws.len(),
{
    if ws.len() > 0 {
        let prev = ws.drop_last();
        assert(forall|i: int| 0 <= i < prev.len() ==> prev[i] == ws[i]);
        lemma_without_field_codes_none(prev);
        assert(!is_field_code(ws[ws.len() - 1]));
        assert(prev.push(ws.last()) =~= ws);
    }
}

/// Stripping field codes twice strips nothing more: the result of
/// `strip_field_codes` has no field codes left and its words are single-spaced.
pub proof fn lemma_strip_field_codes_idempotent(exec: Seq<char>)
    ensures
        stripped_exec(stripped_exec(exec)) == stripped_exec(exec),
{
    let w = without_field_codes(split_ws(exec));
    lemma_split_ws_words(exec);
    lemma_without_field_codes_words(split_ws(exec));
    lemma_split_join(w);
    lemma_without_field_codes_none(w);
}

/// The seven field codes, each by its literal spelling.
proof fn lemma_field_code_words(w: Seq<char>)
    ensures
        is_field_code(w) <==> (w == "%f"@ || w == "%F"@ || w == "%u"@ || w == "%U"@ || w == "%i"@
            || w == "%c"@ || w == "%k"@),
{
    reveal_strlit("%f");
    reveal_strlit("%F");
    reveal_strlit("%u");
    reveal_strlit("%U");
    reveal_strlit("%i");
    reveal_strlit("%c");
    reveal_strlit("%k");
    if w.len() == 2 && w[0] == '%' {
        assert(w =~= seq!['%', w[1]]);
        assert("%f"@ =~= seq!['%', 'f']);
        assert("%F"@ =~= seq!['%', 'F']);
        assert("%u"@ =~= seq!['%', 'u']);
        assert("%U"@ =~= seq!['%', 'U']);
        assert("%i"@ =~= seq!['%', 'i']);
        assert("%c"@ =~= seq!['%', 'c']);
        assert("%k"@ =~= seq!['%', 'k']);
    }
}

/// Dropping field codes keeps exactly the words that are not field codes.
proof fn lemma_without_field_codes_filter(ws: Seq<Seq<char>>)
    ensures
        without_field_codes(ws) == ws.filter(
            |w: Seq<char>|
                !(w == "%f"@ || w == "%F"@ || w == "%u"@ || w == "%U"@ || w == "%i"@ || w == "%c"@
                    || w == "%k"@),
        ),
    decreases ws.len(),
{
    reveal(Seq::filter);
    if ws.len() > 0 {
        lemma_without_field_codes_filter(ws.drop_last());
        lemma_field_code_words(ws.last());
    }
}

/// The words of an Exec line after `strip_field_codes`: every word of the line
/// in order, except the field codes `%f %F %u %U %i %c %k`, none of which is
/// left.
pub proof fn lemma_stripped_words(exec: Seq<char>)
    ensures
        split_ws(stripped_exec(exec)) == split_ws(exec).filter(
            |w: Seq<char>|
                !(w == "%f"@ || w == "%F"@ || w == "%u"@ || w == "%U"@ || w == "%i"@ || w == "%c"@
                    || w == "%k"@),
        ),
        forall|i: int|
            0 <= i < split_ws(stripped_exec(exec)).len() ==> {
                let w = #[trigger] split_ws(stripped_exec(exec))[i];
                !(w == "%f"@ || w == "%F"@ || w == "%u"@ || w == "%U"@ || w == "%i"@ || w == "%c"@
                    || w == "%k"@)
            },
{
    let w = without_field_codes(split_ws(exec));
    lemma_split_ws_words(exec);
    lemma_without_field_codes_words(split_ws(exec));
    lemma_split_join(w);
    lemma_without_field_codes_filter(split_ws(exec));
    assert forall|i: int| 0 <= i < w.len() implies {
        let x = #[trigger] w[i];
        !(x == "%f"@ || x == "%F"@ || x == "%u"@ || x == "%U"@ || x == "%i"@ || x == "%c"@ || x == "%k"@)
    } by {
        lemma_field_code_words(w[i]);
    }
}

/// Whether a word is a freedesktop field code.
pub fn is_field_code_token(part: &[char]) -> (r: bool)
    ensures
        r == is_field_code(part@),
{
    part.len() == 2 && part[0] == '%' && (part[1] == 'f' || part[1] == 'F' || part[1] == 'u'
        || part[1] == 'U' || part[1] == 'i' || part[1] == 'c' || part[1] == 'k')
}

/// Remove freedesktop field codes (%f, %F, %u, %U, %i, %c, %k) from an Exec line.
pub fn strip_field_codes(exec: &str) -> (r: String)
    ensures
        r@ == stripped_exec(exec@),
{
    let words = split_whitespace(&chars_of(exec));
    let ghost wv = char_vecs_view(words@);
    let mut kept: Vec<Vec<char>> = Vec::new();
    let n = words.len();
    for i in 0..n
        invariant
            n == words@.len(),
            wv == char_vecs_view(words@),
            char_vecs_view(kept@) == without_field_codes(wv.take(i as int)),
    {
        proof {
            assert(wv.take(i + 1).drop_last() =~= wv.take(i as int));
        }
        if !is_field_code_token(&words[i]) {
            let w = words[i].clone();
            assert(w@ == words@[i as int]@);
            let ghost prev = char_vecs_view(kept@);
            kept.push(w);
            assert(char_vecs_view(kept@) =~= prev.push(wv[i as int]));
        }
    }
    assert(wv.take(n as int) =~= wv);
    let joined = join_with_spaces(&kept);
    string_from_chars(&joined)
}

/// Scan state for the last path component: the last finished component that is
/// not empty and not `.`, and the component being read.
pub open spec fn path_scan(s: Seq<char>) -> (Option<Seq<char>>, Seq<char>)
    decreases s.len(),
{
    if s.len() == 0 {
        (None, Seq::empty())
    } else {
        let (last, cur) = path_scan(s.drop_last());
        let x = s.last();
        if x == '/' {
            (if is_named_component(cur) { Some(cur) } else { last }, Seq::empty())
        } else {
            (last, cur.push(x))
        }
    }
}

/// A path component that names something: neither empty nor `.`.
pub open spec fn is_named_component(c: Seq<char>) -> bool {
    c.len() > 0 && c != seq!['.']
}

/// The final component of a Unix path, as `Path::file_name` gives it: the last
/// component after dropping empty and `.` components, unless that is `..` or
/// there is none.
pub open spec fn file_name(path: Seq<char>) -> Option<Seq<char>> {
    let (last, cur) = path_scan(path);
    let c = if is_named_component(cur) { Some(cur) } else { last };
    match c {
        Some(name) => if name == seq!['.', '.'] { None } else { Some(name) },
        None => None,
    }
}

/// The `.desktop` suffix.
pub open spec fn desktop_suffix() -> Seq<char> {
    seq!['.', 'd', 'e', 's', 'k', 't', 'o', 'p']
}

/// The desktop file id of a path: its file name without the `.desktop` suffix,
/// or `None` when it has no file name or the name lacks the suffix.
pub open spec fn desktop_id_of(path: Seq<char>) -> Option<Seq<char>> {
    match file_name(path) {
        Some(name) => if name.len() >= 8 && name.subrange(name.len() - 8, name.len() as int)
            == desktop_suffix() {
            Some(name.subrange(0, name.len() - 8))
        } else {
            None
        },
        None => None,
    }
}

/// Desktop file id of a path: the file name without `.desktop`.
pub fn desktop_id(path: &str) -> (r: Option<String>)
    ensures
        opt_view(r) == desktop_id_of(path@),
{
    let s = chars_of(path);
    let n = s.len();
    let mut last: Option<Vec<char>> = None;
    let mut cur: Vec<char> = Vec::new();
    for i in 0..n
        invariant
            n == s@.len(),
            (match last { Some(v) => Some(v@), None => None::<Seq<char>> }, cur@) == path_scan(s@.take(i as int)),
    {
        proof {
            assert(s@.take(i + 1).drop_last() =~= s@.take(i as int));
        }
        let x = s[i];
        if x == '/' {
            if cur.len() > 0 && !(cur.len() == 1 && cur[0] == '.') {
                assert(cur@ != seq!['.'] ==> is_named_component(cur@));
                proof {
                    if cur@ == seq!['.'] {
                        assert(cur@.len() == 1 && cur@[0] == '.');
                    }
                }
                last = Some(cur);
            } else {
                proof {
                    if cur@.len() > 0 {
                        assert(cur@ =~= seq!['.']);
                    }
                }
            }
            cur = Vec::new();
        } else {
            cur.push(x);
        }
    }
    assert(s@.take(n as int) =~= s@);
    let named = cur.len() > 0 && !(cur.len() == 1 && cur[0] == '.');
    proof {
        if named {
            if cur@ == seq!['.'] {
                assert(cur@.len() == 1 && cur@[0] == '.');
            }
        } else if cur@.len() > 0 {
            assert(cur@ =~= seq!['.']);
        }
    }
    let c = if named { Some(cur) } else { last };
    match c {
        Some(name) => {
            if name.len() == 2 && name[0] == '.' && name[1] == '.' {
                assert(name@ =~= seq!['.', '.']);
                return None;
            }
            proof {
                if name@ == seq!['.', '.'] {
                    assert(name@.len() == 2 && name@[0] == '.' && name@[1] == '.');
                }
            }
            let suffix: [char; 8] = ['.', 'd', 'e', 's', 'k', 't', 'o', 'p'];
            let m = name.len();
            if m < 8 {
                return None;
            }
            let mut k: usize = 0;
            assert(file_name(path@) == Some(name@));
            while k < 8
                invariant
                    file_name(path@) == Some(name@),
                    m == name@.len(),
                    m >= 8,
                    k <= 8,
                    suffix@ == desktop_suffix(),
                    forall|j: int| 0 <= j < k ==> name@[m - 8 + j] == suffix@[j],
                decreases 8 - k,
            {
                if name[m - 8 + k] != suffix[k] {
                    let ghost sub = name@.subrange(m - 8, m as int);
                    assert(sub[k as int] == name@[m - 8 + k]);
                    assert(sub[k as int] != desktop_suffix()[k as int]);
                    assert(sub != desktop_suffix());
                    return None;
                }
                k = k + 1;
            }
            assert(name@.subrange(m - 8, m as int) =~= desktop_suffix());
            let mut id: Vec<char> = Vec::new();
            for j in 0..m - 8
                invariant
                    file_name(path@) == Some(name@),
                    m == name@.len(),
                    m >= 8,
                    id@ == name@.take(j as int),
            {
                id.push(name[j]);
                assert(id@ =~= name@.take(j + 1));
            }
            assert(id@ =~= name@.subrange(0, m - 8));
            Some(string_from_chars(&id))
        },
        None => None,
    }
}

/// The keys of a parsed `.desktop` file that the index reads.
pub struct DesktopFields {
    /// The `Type` key.
    pub entry_type: Option<String>,
    /// The `NoDisplay` key.
    pub no_display: bool,
    /// The `Hidden` key.
    pub hidden: bool,
    /// The localized `Name`.
    pub name: Option<String>,
    /// The `Exec` line.
    pub exec_line: Option<String>,
    /// The `Icon` key.
    pub icon: Option<String>,
    /// The localized `GenericName`.
    pub generic_name: Option<String>,
    /// The localized `Keywords`.
    pub keywords: Option<Vec<String>>,
    /// The `Terminal` key.
    pub terminal: bool,
}

/// A `.desktop` file found while scanning: its path, and its keys when it parsed.
pub struct DesktopCandidate {
    pub path: String,
    pub fields: Option<DesktopFields>,
}

/// The word `Application`.
pub open spec fn application_word() -> Seq<char> {
    seq!['A', 'p', 'p', 'l', 'i', 'c', 'a', 't', 'i', 'o', 'n']
}

/// The nonempty strings of an optional list, in order.
pub open spec fn nonempty_words(kws: Seq<Seq<char>>) -> Seq<Seq<char>>
    decreases kws.len(),
{
    if kws.len() == 0 {
        Seq::empty()
    } else {
        let prev = nonempty_words(kws.drop_last());
        if kws.last().len() > 0 {
            prev.push(kws.last())
        } else {
            prev
        }
    }
}

/// A nonempty optional string.
pub open spec fn nonempty_opt(s: Option<Seq<char>>) -> Option<Seq<char>> {
    match s {
        Some(v) => if v.len() > 0 { Some(v) } else { None },
        None => None,
    }
}

/// The entry a candidate yields, or `None` when it is skipped: it needs a desktop
/// id, to have parsed, a `Type` that is absent or `Application`, neither
/// `NoDisplay` nor `Hidden`, a nonempty name and an Exec line that is nonempty
/// once its field codes are stripped.
pub open spec fn accepted(c: DesktopCandidate) -> Option<AppEntryView> {
    match (desktop_id_of(c.path@), c.fields) {
        (Some(id), Some(f)) => {
            let type_ok = match f.entry_type {
                Some(t) => t@ == application_word(),
                None => true,
            };
            if !type_ok || f.no_display || f.hidden {
                None
            } else {
                match (nonempty_opt(opt_view(f.name)), opt_view(f.exec_line)) {
                    (Some(name), Some(exec)) => {
                        let stripped = stripped_exec(exec);
                        if stripped.len() > 0 {
                            Some(
                                AppEntryView {
                                    id,
                                    name,
                                    exec_line: stripped,
                                    icon: opt_view(f.icon),
                                    generic_name: nonempty_opt(opt_view(f.generic_name)),
                                    keywords: match f.keywords {
                                        Some(k) => nonempty_words(strings_view(k@)),
                                        None => Seq::empty(),
                                    },
                                    terminal: f.terminal,
                                    path: c.path@,
                                },
                            )
                        } else {
                            None
                        }
                    },
                    _ => None,
                }
            }
        },
        _ => None,
    }
}

/// Whether some entry of `s` has the id `id`.
pub open spec fn has_id(s: Seq<AppEntryView>, id: Seq<char>) -> bool {
    exists|i: int| 0 <= i < s.len() && (#[trigger] s[i]).id == id
}

/// The accepted entries in scan order, each id kept only the first time it is
/// accepted.
pub open spec fn collected(cs: Seq<DesktopCandidate>) -> Seq<AppEntryView>
    decreases cs.len(),
{
    if cs.len() == 0 {
        Seq::empty()
    } else {
        let prev = collected(cs.drop_last());
        match accepted(cs.last()) {
            Some(e) => if has_id(prev, e.id) { prev } else { prev.push(e) },
            None => prev,
        }
    }
}

/// Name order: case-insensitive (ASCII) lexicographic order of the names.
pub open spec fn name_before() -> spec_fn(AppEntryView, AppEntryView) -> bool {
    |a: AppEntryView, b: AppEntryView| seq_lt(ascii_lower(a.name), ascii_lower(b.name))
}

/// The views of a list of entries.
pub open spec fn entry_views(v: Seq<AppEntry>) -> Seq<AppEntryView> {
    v.map_values(|e: AppEntry| e@)
}

fn nonempty_copy(s: &Option<String>) -> (r: Option<String>)
    ensures
        opt_view(r) == nonempty_opt(opt_view(*s)),
{
    match s {
        Some(v) => if v.as_str().is_empty() {
            None
        } else {
            Some(v.clone())
        },
        None => None,
    }
}

fn nonempty_keywords(kws: &Option<Vec<String>>) -> (r: Vec<String>)
    ensures
        strings_view(r@) == match *kws {
            Some(k) => nonempty_words(strings_view(k@)),
            None => Seq::empty(),
        },
{
    let mut r: Vec<String> = Vec::new();
    match kws {
        Some(k) => {
            let ghost kv = strings_view(k@);
            let n = k.len();
            for i in 0..n
                invariant
                    n == k@.len(),
                    kv == strings_view(k@),
                    strings_view(r@) == nonempty_words(kv.take(i as int)),
            {
                proof {
                    assert(kv.take(i + 1).drop_last() =~= kv.take(i as int));
                }
                if !k[i].as_str().is_empty() {
                    let ghost prev = strings_view(r@);
                    r.push(k[i].clone());
                    assert(strings_view(r@) =~= prev.push(kv[i as int]));
                }
            }
            assert(kv.take(n as int) =~= kv);
        },
        None => {
            assert(strings_view(r@) =~= Seq::<Seq<char>>::empty());
        },
    }
    r
}

/// The entry a candidate yields, if it is not skipped.
pub fn accept_candidate(c: &DesktopCandidate) -> (r: Option<AppEntry>)
    ensures
        match r {
            Some(e) => accepted(*c) == Some(e@),
            None => accepted(*c) is None,
        },
{
    let id = match desktop_id(c.path.as_str()) {
        Some(id) => id,
        None => return None,
    };
    let f = match &c.fields {
        Some(f) => f,
        None => return None,
    };
    let application: [char; 11] = ['A', 'p', 'p', 'l', 'i', 'c', 'a', 't', 'i', 'o', 'n'];
    assert(application@ == application_word());
    let type_ok = match &f.entry_type {
        Some(t) => chars_eq(&chars_of(t.as_str()), &application),
        None => true,
    };
    if !type_ok || f.no_display || f.hidden {
        return None;
    }
    let name = match nonempty_copy(&f.name) {
        Some(n) => n,
        None => return None,
    };
    let exec = match &f.exec_line {
        Some(e) => strip_field_codes(e.as_str()),
        None => return None,
    };
    if exec.as_str().is_empty() {
        return None;
    }
    let icon = copy_opt_string(&f.icon);
    let generic_name = nonempty_copy(&f.generic_name);
    let keywords = nonempty_keywords(&f.keywords);
    let e = AppEntry {
        id,
        name,
        exec_line: exec,
        icon,
        generic_name,
        keywords,
        terminal: f.terminal,
        path: c.path.clone(),
    };
    Some(e)
}

proof fn lemma_name_before_strict()
    ensures
        is_strict_order(name_before()),
{
    assert forall|a: AppEntryView| !#[trigger] (name_before())(a, a) by {
        lemma_seq_lt_strict(ascii_lower(a.name), ascii_lower(a.name), ascii_lower(a.name));
    }
    assert forall|a: AppEntryView, b: AppEntryView, c: AppEntryView|
        #[trigger] (name_before())(a, b) && #[trigger] (name_before())(b, c) implies (name_before())(a, c) by {
        lemma_seq_lt_strict(ascii_lower(a.name), ascii_lower(b.name), ascii_lower(c.name));
    }
}

/// Position at which `x` goes into `v`, kept in name order.
fn name_insert_pos(v: &Vec<AppEntry>, x: &AppEntry) -> (p: usize)
    ensures
        p as int == insert_pos(entry_views(v@), x@, name_before()),
        p <= v@.len(),
{
    let ghost s = entry_views(v@);
    proof {
        lemma_insert_pos(s, x@, name_before());
    }
    let xl = lower_ascii(&chars_of(x.name.as_str()));
    let n = v.len();
    let mut i: usize = 0;
    while i < n
        invariant
            n == v@.len(),
            s == entry_views(v@),
            xl@ == ascii_lower(x@.name),
            i <= n,
            forall|j: int| 0 <= j < i ==> !(name_before())(x@, #[trigger] s[j]),
        decreases n - i,
    {
        let yl = lower_ascii(&chars_of(v[i].name.as_str()));
        if chars_lt(&xl, &yl) {
            assert((name_before())(x@, s[i as int]));
            proof {
                lemma_name_insert_pos_unique(s, x@, i as int);
            }
            return i;
        }
        i = i + 1;
    }
    proof {
        lemma_name_insert_pos_unique(s, x@, n as int);
    }
    n
}

proof fn lemma_name_insert_pos_unique(s: Seq<AppEntryView>, x: AppEntryView, i: int)
    requires
        0 <= i <= s.len(),
        forall|j: int| 0 <= j < i ==> !(name_before())(x, #[trigger] s[j]),
        i < s.len() ==> (name_before())(x, s[i]),
    ensures
        insert_pos(s, x, name_before()) == i,
{
    lemma_insert_pos(s, x, name_before());
    let p = insert_pos(s, x, name_before());
    if p < i {
        assert(!(name_before())(x, s[p]));
    } else if p > i {
        assert(!(name_before())(x, s[i]));
    }
}

/// Builds the application list from the scanned candidates, in scan order: skips
/// what [`accepted`] rejects and ids already taken, then sorts by name,
/// case-insensitively (ASCII), keeping the scan order among equal names.
pub fn collect_applications(candidates: &Vec<DesktopCandidate>) -> (r: Vec<AppEntry>)
    ensures
        entry_views(r@) == stable_sort(collected(candidates@), name_before()),
{
    let mut entries: Vec<AppEntry> = Vec::new();
    let mut seen: Vec<String> = Vec::new();
    let n = candidates.len();
    for i in 0..n
        invariant
            n == candidates@.len(),
            entry_views(entries@) == stable_sort(collected(candidates@.take(i as int)), name_before()),
            seen@.len() == collected(candidates@.take(i as int)).len(),
            forall|j: int| 0 <= j < seen@.len() ==> #[trigger] seen@[j]@ == collected(candidates@.take(i as int))[j].id,
    {
        let ghost cs = candidates@.take(i + 1);
        let ghost prev = collected(candidates@.take(i as int));
        proof {
            assert(cs.drop_last() =~= candidates@.take(i as int));
            assert(cs.last() == candidates@[i as int]);
            lemma_stable_sort_multiset(prev, name_before());
        }
        match accept_candidate(&candidates[i]) {
            Some(e) => {
                let m = seen.len();
                let mut found = false;
                let mut k: usize = 0;
                while k < m
                    invariant
                        m == seen@.len(),
                        m == prev.len(),
                        k <= m,
                        forall|j: int| 0 <= j < seen@.len() ==> #[trigger] seen@[j]@ == prev[j].id,
                        found == exists|j: int| 0 <= j < k && prev[j].id == e@.id,
                    decreases m - k,
                {
                    if seen[k] == e.id {
                        found = true;
                        assert(prev[k as int].id == e@.id);
                    }
                    k = k + 1;
                }
                assert(found == has_id(prev, e@.id));
                if !found {
                    let ghost sorted_prev = entry_views(entries@);
                    seen.push(e.id.clone());
                    let p = name_insert_pos(&entries, &e);
                    let ghost ev = e@;
                    entries.insert(p, e);
                    assert(entry_views(entries@) =~= sorted_prev.insert(p as int, ev));
                    assert(prev.push(ev).drop_last() =~= prev);
                }
            },
            None => {},
        }
    }
    assert(candidates@.take(n as int) =~= candidates@);
    entries
}

/// Whether a candidate may be listed at all: it parsed, its `Type` is absent or
/// `Application`, and it is neither `NoDisplay` nor `Hidden`.
pub open spec fn shown_candidate(c: DesktopCandidate) -> bool {
    match c.fields {
        Some(f) => !f.no_display && !f.hidden && match f.entry_type {
            Some(t) => t@ == "Application"@,
            None => true,
        },
        None => false,
    }
}

/// A candidate that did not parse, is `NoDisplay` or `Hidden`, or has a `Type`
/// other than `Application` is never accepted; an accepted one keeps its path.
pub proof fn lemma_skipped_candidates(c: DesktopCandidate)
    ensures
        !shown_candidate(c) ==> accepted(c) is None,
        accepted(c) matches Some(e) ==> e.path == c.path@,
{
    reveal_strlit("Application");
    assert("Application"@ =~= application_word());
}

/// Every listed application comes from a shown candidate with the same path:
/// entries that are `NoDisplay`, `Hidden`, not applications or unparsable are
/// never listed.
pub proof fn lemma_listed_entries_are_shown(cs: Seq<DesktopCandidate>)
    ensures
        forall|k: int|
            0 <= k < stable_sort(collected(cs), name_before()).len() ==> exists|i: int|
                0 <= i < cs.len() && shown_candidate(cs[i]) && cs[i].path@ == (#[trigger] stable_sort(
                    collected(cs),
                    name_before(),
                )[k]).path,
{
    broadcast use vstd::seq_lib::group_to_multiset_ensures;
    let c = collected(cs);
    let sorted = stable_sort(c, name_before());
    lemma_stable_sort_multiset(c, name_before());
    lemma_collected_from_shown(cs);
    assert forall|k: int| 0 <= k < sorted.len() implies exists|i: int|
        0 <= i < cs.len() && shown_candidate(cs[i]) && cs[i].path@ == (#[trigger] sorted[k]).path by {
        assert(sorted.contains(sorted[k]));
        assert(sorted.to_multiset().count(sorted[k]) > 0);
        assert(c.contains(sorted[k]));
        let j = choose|j: int| 0 <= j < c.len() && c[j] == sorted[k];
        assert(c[j] == sorted[k]);
    }
}

/// Each collected entry comes from a shown candidate with the same path.
proof fn lemma_collected_from_shown(cs: Seq<DesktopCandidate>)
    ensures
        forall|k: int|
            0 <= k < collected(cs).len() ==> exists|i: int|
                0 <= i < cs.len() && shown_candidate(cs[i]) && cs[i].path@ == (#[trigger] collected(cs)[k]).path,
    decreases cs.len(),
{
    if cs.len() > 0 {
        let prev_cs = cs.drop_last();
        lemma_collected_from_shown(prev_cs);
        lemma_skipped_candidates(cs.last());
        let prev = collected(prev_cs);
        let cur = collected(cs);
        assert forall|k: int| 0 <= k < cur.len() implies exists|i: int|
            0 <= i < cs.len() && shown_candidate(cs[i]) && cs[i].path@ == (#[trigger] cur[k]).path by {
            if k < prev.len() {
                assert(cur[k] == prev[k]);
                let i = choose|i: int|
                    0 <= i < prev_cs.len() && shown_candidate(prev_cs[i]) && prev_cs[i].path@ == (#[trigger] prev[k]).path;
                assert(cs[i] == prev_cs[i]);
            } else {
                assert(cs[cs.len() - 1] == cs.last());
            }
        }
    }
}

/// The id of an entry.
pub open spec fn entry_id() -> spec_fn(AppEntryView) -> Seq<char> {
    |e: AppEntryView| e.id
}

/// The scanned application list is sorted by name, holds exactly the collected
/// entries, and never holds two entries with the same id; entries whose names
/// are equal (ignoring ASCII case) keep the order in which they were scanned.
pub proof fn lemma_applications_sorted_unique(cs: Seq<DesktopCandidate>)
    ensures
        is_sorted_by(stable_sort(collected(cs), name_before()), name_before()),
        stable_sort(collected(cs), name_before()).to_multiset() == collected(cs).to_multiset(),
        forall|i: int, j: int|
            0 <= i < j < stable_sort(collected(cs), name_before()).len() ==> #[trigger] stable_sort(
                collected(cs),
                name_before(),
            )[i].id != #[trigger] stable_sort(collected(cs), name_before())[j].id,
        (forall|i: int, j: int|
            0 <= i < collected(cs).len() && 0 <= j < collected(cs).len() ==> ascii_lower(
                #[trigger] collected(cs)[i].name,
            ) == ascii_lower(#[trigger] collected(cs)[j].name)) ==> stable_sort(collected(cs), name_before())
            == collected(cs),
{
    let c = collected(cs);
    lemma_name_before_strict();
    lemma_stable_sort_sorted(c, name_before());
    lemma_stable_sort_multiset(c, name_before());
    lemma_collected_unique(cs);
    assert forall|i: int, j: int| 0 <= i < j < c.len() implies (entry_id())(#[trigger] c[i]) != (entry_id())(
        #[trigger] c[j],
    ) by {}
    lemma_stable_sort_distinct(c, name_before(), entry_id());
    if forall|i: int, j: int|
        0 <= i < c.len() && 0 <= j < c.len() ==> ascii_lower(#[trigger] c[i].name) == ascii_lower(#[trigger] c[j].name) {
        assert forall|i: int, j: int| 0 <= i < c.len() && 0 <= j < c.len() implies !(name_before())(
            #[trigger] c[i],
            #[trigger] c[j],
        ) by {
            lemma_seq_lt_strict(ascii_lower(c[i].name), ascii_lower(c[i].name), ascii_lower(c[i].name));
        }
        lemma_stable_sort_ties(c, name_before());
    }
}

proof fn lemma_collected_unique(cs: Seq<DesktopCandidate>)
    ensures
        forall|i: int, j: int|
            0 <= i < j < collected(cs).len() ==> #[trigger] collected(cs)[i].id != #[trigger] collected(cs)[j].id,
    decreases cs.len(),
{
    if cs.len() > 0 {
        lemma_collected_unique(cs.drop_last());
        let prev = collected(cs.drop_last());
        let cur = collected(cs);
        assert forall|i: int, j: int| 0 <= i < j < cur.len() implies #[trigger] cur[i].id != #[trigger] cur[j].id by {
            if j == prev.len() {
                assert(cur[i] == prev[i]);
                if cur[i].id == cur[j].id {
                    assert(has_id(prev, cur[j].id));
                }
            } else {
                assert(cur[i] == prev[i] && cur[j] == prev[j]);
            }
        }
    }
}

/// The locales to read localized keys with: `$LANG` first, then the nonempty
/// entries of the colon-separated `$LANGUAGES`.
pub open spec fn locales_of(lang: Option<Seq<char>>, languages: Option<Seq<char>>) -> Seq<Seq<char>> {
    let first = match lang {
        Some(l) => seq![l],
        None => Seq::empty(),
    };
    first + match languages {
        Some(ls) => split_nonempty(ls, ':'),
        None => Seq::empty(),
    }
}

/// The locales from the values of `$LANG` and `$LANGUAGES`.
pub fn locales(lang: Option<String>, languages: Option<&str>) -> (r: Vec<String>)
    ensures
        strings_view(r@) == locales_of(opt_view(lang), match languages {
            Some(l) => Some(l@),
            None => None,
        }),
{
    let mut values: Vec<String> = Vec::new();
    let ghost first: Seq<Seq<char>> = match opt_view(lang) {
        Some(l) => seq![l],
        None => Seq::empty(),
    };
    match lang {
        Some(l) => {
            values.push(l);
        },
        None => {},
    }
    assert(strings_view(values@) =~= first);
    match languages {
        Some(ls) => {
            let parts = split_on(&chars_of(ls), ':');
            let ghost pv = char_vecs_view(parts@);
            let n = parts.len();
            for i in 0..n
                invariant
                    n == parts@.len(),
                    pv == char_vecs_view(parts@),
                    strings_view(values@) == first + pv.take(i as int),
            {
                let w = string_from_chars(&parts[i]);
                let ghost before = values@;
                values.push(w);
                assert(strings_view(values@) =~= strings_view(before).push(pv[i as int]));
                assert(pv.take(i + 1) =~= pv.take(i as int).push(pv[i as int]));
                assert(first + pv.take(i + 1) =~= (first + pv.take(i as int)).push(pv[i as int]));
            }
            assert(pv.take(n as int) =~= pv);
        },
        None => {
            assert(first + Seq::<Seq<char>>::empty() =~= first);
        },
    }
    values
}

/// The directories holding `.desktop` files, in search order: the user's
/// (`$XDG_DATA_HOME/applications`, else `$HOME/.local/share/applications`),
/// then `applications` under each entry of `$XDG_DATA_DIRS` (default
/// `/usr/local/share:/usr/share`).
pub open spec fn application_dirs_of(
    data_home: Option<Seq<char>>,
    home: Option<Seq<char>>,
    data_dirs: Option<Seq<char>>,
) -> Seq<Seq<char>> {
    let user = match data_home {
        Some(d) => seq![crate::paths::joined(d, "applications"@)],
        None => match home {
            Some(h) => seq![crate::paths::joined(h, ".local/share/applications"@)],
            None => Seq::empty(),
        },
    };
    let dirs = match data_dirs {
        Some(d) => d,
        None => "/usr/local/share:/usr/share"@,
    };
    user + split_nonempty(dirs, ':').map_values(|d: Seq<char>| crate::paths::joined(d, "applications"@))
}

/// The application directories from `$XDG_DATA_HOME`, `$HOME` and `$XDG_DATA_DIRS`.
pub fn application_dirs(data_home: Option<&str>, home: Option<&str>, data_dirs: Option<&str>) -> (r: Vec<String>)
    ensures
        strings_view(r@) == application_dirs_of(
            match data_home { Some(d) => Some(d@), None => None },
            match home { Some(h) => Some(h@), None => None },
            match data_dirs { Some(d) => Some(d@), None => None },
        ),
{
    let mut dirs: Vec<String> = Vec::new();
    match data_home {
        Some(d) => {
            dirs.push(crate::paths::path_join(d, "applications"));
        },
        None => match home {
            Some(h) => {
                dirs.push(crate::paths::path_join(h, ".local/share/applications"));
            },
            None => {},
        },
    }
    let ghost user = strings_view(dirs@);
    let list = match data_dirs {
        Some(d) => chars_of(d),
        None => chars_of("/usr/local/share:/usr/share"),
    };
    let parts = split_on(&list, ':');
    let ghost pv = char_vecs_view(parts@);
    let ghost mapped = pv.map_values(|d: Seq<char>| crate::paths::joined(d, "applications"@));
    let n = parts.len();
    for i in 0..n
        invariant
            n == parts@.len(),
            pv == char_vecs_view(parts@),
            mapped == pv.map_values(|d: Seq<char>| crate::paths::joined(d, "applications"@)),
            strings_view(dirs@) == user + mapped.take(i as int),
    {
        let piece = string_from_chars(&parts[i]);
        let full = crate::paths::path_join(piece.as_str(), "applications");
        let ghost before = dirs@;
        dirs.push(full);
        assert(strings_view(dirs@) =~= strings_view(before).push(mapped[i as int]));
        assert(user + mapped.take(i + 1) =~= (user + mapped.take(i as int)).push(mapped[i as int]));
    }
    assert(mapped.take(n as int) =~= mapped);
    dirs
}

} // verus!
