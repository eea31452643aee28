use vstd::prelude::*;
use vstd::utf8::{encode_scalar, encode_utf8};

verus! {

/// ASCII lowercase of one character; every other character is kept.
pub open spec fn ascii_lower_char(c: char) -> char {
    if 'A' <= c && c <= 'Z' {
        ((c as u32) + 32) as char
    } else {
        c
    }
}

/// ASCII lowercase of a whole sequence of characters.
pub open spec fn ascii_lower(s: Seq<char>) -> Seq<char> {
    s.map_values(|c: char| ascii_lower_char(c))
}

/// `p` occurs in `s` as a contiguous block.
pub open spec fn contains_seq(s: Seq<char>, p: Seq<char>) -> bool {
    exists|i: int| 0 <= i && i + p.len() <= s.len() && #[trigger] s.subrange(i, i + p.len()) == p
}

/// `n` can be obtained from `h` by deleting characters (greedy left-to-right matching).
pub open spec fn is_subseq(h: Seq<char>, n: Seq<char>) -> bool
    decreases h.len(),
{
    if n.len() == 0 {
        true
    } else if h.len() == 0 {
        false
    } else if h[0] == n[0] {
        is_subseq(h.drop_first(), n.drop_first())
    } else {
        is_subseq(h.drop_first(), n)
    }
}

/// The characters of `s`, in order.
pub fn chars_of(s: &str) -> (v: Vec<char>)
    ensures
        v@ == s@,
{
    let mut v: Vec<char> = Vec::new();
    for c in it: s.chars()
        invariant
            v@ == it.seq().take(it.index() as int),
            it.seq() == s@,
    {
        v.push(c);
    }
    v
}

/// Builds a `String` from characters: wraps `FromIterator<&char> for String`
/// (`collect`), whose result holds exactly the given characters in order.
#[verifier::external_body]
pub(crate) fn string_from_chars(v: &[char]) -> (s: String)
    ensures
        s@ == v@,
{
    v.iter().collect()
}

/// ASCII lowercase of one character.
pub fn lower_char(c: char) -> (r: char)
    ensures
        r == ascii_lower_char(c),
{
    if 'A' <= c && c <= 'Z' {
        ((c as u8) + 32) as char
    } else {
        c
    }
}

/// ASCII lowercase of a character sequence.
pub fn lower_ascii(s: &[char]) -> (r: Vec<char>)
    ensures
        r@ == ascii_lower(s@),
{
    let mut r: Vec<char> = Vec::new();
    let n = s.len();
    for i in 0..n
        invariant
            n == s@.len(),
            r@ == ascii_lower(s@.take(i as int)),
    {
        r.push(lower_char(s[i]));
        assert(ascii_lower(s@.take(i + 1)) =~= ascii_lower(s@.take(i as int)).push(ascii_lower_char(s@[i as int])));
    }
    assert(s@.take(n as int) =~= s@);
    r
}

/// Whether two character sequences are equal.
pub fn chars_eq(a: &[char], b: &[char]) -> (r: bool)
    ensures
        r == (a@ == b@),
{
    if a.len() != b.len() {
        return false;
    }
    let n = a.len();
    for i in 0..n
        invariant
            n == a@.len(),
            n == b@.len(),
            forall|j: int| 0 <= j < i ==> a@[j] == b@[j],
    {
        if a[i] != b[i] {
            return false;
        }
    }
    assert(a@ =~= b@);
    true
}

/// Whether `p` is a prefix of `s`.
pub fn starts_with(s: &[char], p: &[char]) -> (r: bool)
    ensures
        r == p@.is_prefix_of(s@),
{
    if p.len() > s.len() {
        return false;
    }
    let n = p.len();
    for i in 0..n
        invariant
            n == p@.len(),
            n <= s@.len(),
            forall|j: int| 0 <= j < i ==> p@[j] == s@[j],
    {
        if p[i] != s[i] {
            return false;
        }
    }
    true
}

/// Whether `p` matches `s` at position `at`.
fn matches_at(s: &[char], p: &[char], at: usize) -> (r: bool)
    requires
        at + p@.len() <= s@.len(),
    ensures
        r == (s@.subrange(at as int, at + p@.len()) == p@),
{
    let n = p.len();
    let sl = s.len();
    for i in 0..n
        invariant
            n == p@.len(),
            sl == s@.len(),
            at + n <= sl,
            forall|j: int| 0 <= j < i ==> p@[j] == s@[at + j],
    {
        if p[i] != s[at + i] {
            assert(s@.subrange(at as int, at + p@.len())[i as int] != p@[i as int]);
            return false;
        }
    }
    assert(s@.subrange(at as int, at + p@.len()) =~= p@);
    true
}

/// Whether `p` occurs in `s` as a contiguous block.
pub fn contains(s: &[char], p: &[char]) -> (r: bool)
    ensures
        r == contains_seq(s@, p@),
{
    if p.len() > s.len() {
        return false;
    }
    let last = s.len() - p.len();
    let mut at: usize = 0;
    loop
        invariant
            last + p@.len() == s@.len(),
            at <= last,
            forall|i: int| 0 <= i < at ==> #[trigger] s@.subrange(i, i + p@.len()) != p@,
        decreases last - at,
    {
        if matches_at(s, p, at) {
            return true;
        }
        if at == last {
            return false;
        }
        at = at + 1;
    }
}

/// Greedy subsequence test: whether `needle` can be read off `haystack` in order.
pub fn is_subsequence(haystack: &[char], needle: &[char]) -> (r: bool)
    ensures
        r == is_subseq(haystack@, needle@),
{
    let hn = haystack.len();
    let nn = needle.len();
    let mut j: usize = 0;
    let mut i: usize = 0;
    assert(haystack@.skip(0) =~= haystack@);
    assert(needle@.skip(0) =~= needle@);
    while i < hn
        invariant
            hn == haystack@.len(),
            nn == needle@.len(),
            i <= hn,
            j <= nn,
            is_subseq(haystack@, needle@) == is_subseq(haystack@.skip(i as int), needle@.skip(j as int)),
        decreases hn - i,
    {
        if j == nn {
            return true;
        }
        let ghost h = haystack@.skip(i as int);
        let ghost n = needle@.skip(j as int);
        assert(h.drop_first() =~= haystack@.skip(i + 1));
        assert(n.drop_first() =~= needle@.skip(j + 1));
        if haystack[i] == needle[j] {
            j = j + 1;
        }
        i = i + 1;
    }
    j == nn
}

/// Unicode `White_Space`, the set of characters `char::is_whitespace` accepts.
pub open spec fn is_ws(c: char) -> bool {
    let u = c as u32;
    (0x09 <= u && u <= 0x0d) || u == 0x20 || u == 0x85 || u == 0xa0 || u == 0x1680 || (0x2000 <= u
        && u <= 0x200a) || u == 0x2028 || u == 0x2029 || u == 0x202f || u == 0x205f || u == 0x3000
}

/// Whether `c` is Unicode whitespace.
pub fn is_whitespace(c: char) -> (r: bool)
    ensures
        r == is_ws(c),
{
    let u = c as u32;
    (0x09 <= u && u <= 0x0d) || u == 0x20 || u == 0x85 || u == 0xa0 || u == 0x1680 || (0x2000 <= u
        && u <= 0x200a) || u == 0x2028 || u == 0x2029 || u == 0x202f || u == 0x205f || u == 0x3000
}

/// Left-to-right scan state of a whitespace split: the finished words and the
/// word being read.
pub open spec fn ws_scan(s: Seq<char>) -> (Seq<Seq<char>>, Seq<char>)
    decreases s.len(),
{
    if s.len() == 0 {
        (Seq::empty(), Seq::empty())
    } else {
        let (done, cur) = ws_scan(s.drop_last());
        let x = s.last();
        if is_ws(x) {
            if cur.len() == 0 {
                (done, cur)
            } else {
                (done.push(cur), Seq::empty())
            }
        } else {
            (done, cur.push(x))
        }
    }
}

/// The maximal runs of non-whitespace characters of `s`, in order
/// (what `str::split_whitespace` yields).
pub open spec fn split_ws(s: Seq<char>) -> Seq<Seq<char>> {
    let (done, cur) = ws_scan(s);
    if cur.len() == 0 {
        done
    } else {
        done.push(cur)
    }
}

/// The words joined with single spaces.
pub open spec fn join_spaces(ws: Seq<Seq<char>>) -> Seq<char>
    decreases ws.len(),
{
    if ws.len() == 0 {
        Seq::empty()
    } else if ws.len() == 1 {
        ws[0]
    } else {
        join_spaces(ws.drop_last()) + seq![' '] + ws.last()
    }
}

/// The characters of each vector of a list.
pub open spec fn char_vecs_view(v: Seq<Vec<char>>) -> Seq<Seq<char>> {
    v.map_values(|x: Vec<char>| x@)
}

/// Splits `s` into its whitespace-separated words.
pub fn split_whitespace(s: &[char]) -> (r: Vec<Vec<char>>)
    ensures
        char_vecs_view(r@) == split_ws(s@),
{
    let mut done: Vec<Vec<char>> = Vec::new();
    let mut cur: Vec<char> = Vec::new();
    let n = s.len();
    for i in 0..n
        invariant
            n == s@.len(),
            (char_vecs_view(done@), cur@) == ws_scan(s@.take(i as int)),
    {
        proof {
            assert(s@.take(i + 1).drop_last() =~= s@.take(i as int));
        }
        let x = s[i];
        if is_whitespace(x) {
            if cur.len() != 0 {
                let word = cur;
                cur = Vec::new();
                done.push(word);
                assert(char_vecs_view(done@) =~= ws_scan(s@.take(i as int)).0.push(word@));
            }
        } else {
            cur.push(x);
        }
    }
    assert(s@.take(n as int) =~= s@);
    if cur.len() != 0 {
        let ghost d = char_vecs_view(done@);
        let ghost c = cur@;
        done.push(cur);
        assert(char_vecs_view(done@) =~= d.push(c));
    }
    done
}

/// Joins words with single spaces.
pub fn join_with_spaces(ws: &Vec<Vec<char>>) -> (r: Vec<char>)
    ensures
        r@ == join_spaces(char_vecs_view(ws@)),
{
    let mut r: Vec<char> = Vec::new();
    let n = ws.len();
    let ghost v = char_vecs_view(ws@);
    for i in 0..n
        invariant
            n == ws@.len(),
            v == char_vecs_view(ws@),
            r@ == join_spaces(v.take(i as int)),
    {
        proof {
            assert(v.take(i + 1).drop_last() =~= v.take(i as int));
        }
        if i > 0 {
            r.push(' ');
        }
        let w = &ws[i];
        let m = w.len();
        let ghost before = r@;
        for k in 0..m
            invariant
                m == w@.len(),
                r@ == before + w@.take(k as int),
        {
            r.push(w[k]);
            assert(r@ =~= before + w@.take(k + 1));
        }
        assert(w@.take(m as int) =~= w@);
        if i == 0 {
            assert(v.take(1) =~= seq![w@]);
            assert(r@ =~= w@);
        } else {
            assert(r@ =~= join_spaces(v.take(i as int)) + seq![' '] + w@);
        }
    }
    assert(v.take(n as int) =~= v);
    r
}

/// A word: nonempty, without whitespace.
pub open spec fn is_word(w: Seq<char>) -> bool {
    w.len() > 0 && forall|i: int| 0 <= i < w.len() ==> !is_ws(#[trigger] w[i])
}

/// Reading characters without whitespace extends the current word.
proof fn lemma_ws_scan_append_word(p: Seq<char>, w: Seq<char>)
    requires
        forall|i: int| 0 <= i < w.len() ==> !is_ws(#[trigger] w[i]),
    ensures
        ws_scan(p + w) == (ws_scan(p).0, ws_scan(p).1 + w),
    decreases w.len(),
{
    if w.len() == 0 {
        assert(p + w =~= p);
        assert(ws_scan(p).1 + w =~= ws_scan(p).1);
    } else {
        let w0 = w.drop_last();
        assert(forall|i: int| 0 <= i < w0.len() ==> w0[i] == w[i]);
        lemma_ws_scan_append_word(p, w0);
        assert((p + w).drop_last() =~= p + w0);
        assert((p + w).last() == w.last());
        assert(!is_ws(w[w.len() - 1]));
        assert(ws_scan(p).1 + w0 + seq![w.last()] =~= ws_scan(p).1 + w);
        assert((ws_scan(p).1 + w0).push(w.last()) =~= ws_scan(p).1 + w);
    }
}

/// The words joined by single spaces split back into the same words.
pub proof fn lemma_split_join(ws: Seq<Seq<char>>)
    requires
        forall|i: int| 0 <= i < ws.len() ==> is_word(#[trigger] ws[i]),
    ensures
        split_ws(join_spaces(ws)) == ws,
    decreases ws.len(),
{
    if ws.len() > 0 {
        lemma_scan_join(ws);
        assert(ws.drop_last().push(ws.last()) =~= ws);
    } else {
        assert(ws_scan(join_spaces(ws)) == (Seq::<Seq<char>>::empty(), Seq::<char>::empty()));
    }
}

/// Scanning nonempty joined words leaves all but the last finished and the last
/// one current.
proof fn lemma_scan_join(ws: Seq<Seq<char>>)
    requires
        ws.len() > 0,
        forall|i: int| 0 <= i < ws.len() ==> is_word(#[trigger] ws[i]),
    ensures
        ws_scan(join_spaces(ws)) == (ws.drop_last(), ws.last()),
    decreases ws.len(),
{
    let last = ws.last();
    assert(is_word(ws[ws.len() - 1]));
    if ws.len() == 1 {
        lemma_ws_scan_append_word(Seq::<char>::empty(), last);
        assert(Seq::<char>::empty() + last =~= last);
        assert(Seq::<char>::empty() + last =~= ws[0]);
        assert(ws.drop_last() =~= Seq::<Seq<char>>::empty());
    } else {
        let prev = ws.drop_last();
        assert(forall|i: int| 0 <= i < prev.len() ==> prev[i] == ws[i]);
        lemma_scan_join(prev);
        let j = join_spaces(prev);
        let js = j + seq![' '];
        assert(js.drop_last() =~= j);
        assert(is_ws(js.last()));
        assert(is_word(prev[prev.len() - 1]));
        assert(prev.drop_last().push(prev.last()) =~= prev);
        assert(ws_scan(js) == (prev, Seq::<char>::empty()));
        lemma_ws_scan_append_word(js, last);
        assert(Seq::<char>::empty() + last =~= last);
    }
}

/// The whitespace split yields words only.
pub proof fn lemma_split_ws_words(s: Seq<char>)
    ensures
        forall|i: int| 0 <= i < split_ws(s).len() ==> is_word(#[trigger] split_ws(s)[i]),
{
    lemma_ws_scan_words(s);
}

/// While scanning, finished words are words and the current one has no whitespace.
proof fn lemma_ws_scan_words(s: Seq<char>)
    ensures
        forall|i: int| 0 <= i < ws_scan(s).0.len() ==> is_word(#[trigger] ws_scan(s).0[i]),
        forall|k: int| 0 <= k < ws_scan(s).1.len() ==> !is_ws(#[trigger] ws_scan(s).1[k]),
    decreases s.len(),
{
    if s.len() > 0 {
        lemma_ws_scan_words(s.drop_last());
        let (done, cur) = ws_scan(s.drop_last());
        if !is_ws(s.last()) {
            assert forall|k: int| 0 <= k < cur.push(s.last()).len() implies !is_ws(#[trigger] cur.push(s.last())[k]) by {
                if k < cur.len() {
                    assert(cur.push(s.last())[k] == cur[k]);
                }
            }
        } else if cur.len() > 0 {
            assert forall|i: int| 0 <= i < done.push(cur).len() implies is_word(#[trigger] done.push(cur)[i]) by {
                if i < done.len() {
                    assert(done.push(cur)[i] == done[i]);
                }
            }
        }
    }
}

/// Lexicographic order on character sequences by code point
/// (the order of `String`'s `Ord`, since UTF-8 keeps code point order).
pub open spec fn seq_lt(a: Seq<char>, b: Seq<char>) -> bool
    decreases a.len(),
{
    if a.len() == 0 {
        b.len() > 0
    } else if b.len() == 0 {
        false
    } else if (a[0] as u32) < (b[0] as u32) {
        true
    } else if (a[0] as u32) > (b[0] as u32) {
        false
    } else {
        seq_lt(a.drop_first(), b.drop_first())
    }
}

/// `seq_lt` is irreflexive and transitive.
pub proof fn lemma_seq_lt_strict(a: Seq<char>, b: Seq<char>, c: Seq<char>)
    ensures
        !seq_lt(a, a),
        seq_lt(a, b) && seq_lt(b, c) ==> seq_lt(a, c),
    decreases a.len(),
{
    if a.len() > 0 && b.len() > 0 && c.len() > 0 {
        lemma_seq_lt_strict(a.drop_first(), b.drop_first(), c.drop_first());
    }
    if a.len() > 0 {
        lemma_seq_lt_strict(a.drop_first(), a.drop_first(), a.drop_first());
    }
}

/// Whether `a` comes strictly before `b` lexicographically.
pub fn chars_lt(a: &[char], b: &[char]) -> (r: bool)
    ensures
        r == seq_lt(a@, b@),
{
    let an = a.len();
    let bn = b.len();
    let mut i: usize = 0;
    assert(a@.skip(0) =~= a@);
    assert(b@.skip(0) =~= b@);
    while i < an && i < bn
        invariant
            an == a@.len(),
            bn == b@.len(),
            i <= an,
            i <= bn,
            seq_lt(a@, b@) == seq_lt(a@.skip(i as int), b@.skip(i as int)),
        decreases an - i,
    {
        let ghost sa = a@.skip(i as int);
        let ghost sb = b@.skip(i as int);
        assert(sa.drop_first() =~= a@.skip(i + 1));
        assert(sb.drop_first() =~= b@.skip(i + 1));
        if (a[i] as u32) < (b[i] as u32) {
            return true;
        }
        if (a[i] as u32) > (b[i] as u32) {
            return false;
        }
        i = i + 1;
    }
    i == an && i < bn
}

/// The digit character for a value below 16 (lowercase for 10..15).
pub open spec fn hex_digit(d: int) -> char {
    if d < 10 {
        ((d + 48) as u32) as char
    } else {
        ((d + 87) as u32) as char
    }
}

/// The decimal digits of `n`, most significant first, without leading zeros.
pub open spec fn decimal(n: nat) -> Seq<char>
    decreases n,
{
    if n < 10 {
        seq![hex_digit(n as int)]
    } else {
        decimal(n / 10).push(hex_digit((n % 10) as int))
    }
}

/// The last `width` hexadecimal digits of `n` (lowercase), zero-padded.
pub open spec fn hex_padded(n: nat, width: nat) -> Seq<char>
    decreases width,
{
    if width == 0 {
        Seq::empty()
    } else {
        hex_padded(n / 16, (width - 1) as nat).push(hex_digit((n % 16) as int))
    }
}

/// The digit character for a value below 16.
pub fn digit_char(d: u64) -> (c: char)
    requires
        d < 16,
    ensures
        c == hex_digit(d as int),
{
    if d < 10 {
        ((d as u8) + 48) as char
    } else {
        ((d as u8) + 87) as char
    }
}

/// Decimal representation of `n`, as `format!("{}", n)` writes it.
pub fn decimal_chars(n: u64) -> (r: Vec<char>)
    ensures
        r@ == decimal(n as nat),
{
    let mut r: Vec<char> = Vec::new();
    let mut rest = n;
    r.push(digit_char(rest % 10));
    rest = rest / 10;
    assert(decimal(n as nat) == decimal(rest as nat) + r@ || n < 10);
    while rest > 0
        invariant
            rest < n || (rest == 0),
            rest > 0 ==> decimal(n as nat) == decimal(rest as nat) + r@,
            rest == 0 ==> decimal(n as nat) == r@,
        decreases rest,
    {
        let ghost old_r = r@;
        let ghost old_rest = rest;
        r.insert(0, digit_char(rest % 10));
        rest = rest / 10;
        proof {
            if rest > 0 {
                assert(decimal(old_rest as nat) == decimal(rest as nat).push(hex_digit((old_rest % 10) as int)));
                assert(decimal(n as nat) =~= decimal(rest as nat) + r@);
            } else {
                assert(decimal(old_rest as nat) == seq![hex_digit(old_rest as int)]);
                assert(decimal(n as nat) =~= r@);
            }
        }
    }
    r
}

/// The 16 lowercase hexadecimal digits of `n`, zero-padded, as
/// `format!("{:016x}", n)` writes them.
pub fn hex16_chars(n: u64) -> (r: Vec<char>)
    ensures
        r@ == hex_padded(n as nat, 16),
{
    let mut r: Vec<char> = Vec::new();
    let mut rest = n;
    let mut i: u64 = 0;
    while i < 16
        invariant
            i <= 16,
            hex_padded(n as nat, 16) == hex_padded(rest as nat, (16 - i) as nat) + r@,
        decreases 16 - i,
    {
        let ghost old_r = r@;
        let ghost old_rest = rest;
        r.insert(0, digit_char(rest % 16));
        rest = rest / 16;
        assert(hex_padded(old_rest as nat, (16 - i) as nat) == hex_padded(rest as nat, (16 - i - 1) as nat).push(hex_digit((old_rest % 16) as int)));
        assert(hex_padded(n as nat, 16) =~= hex_padded(rest as nat, (16 - i - 1) as nat) + r@);
        i = i + 1;
    }
    assert(hex_padded(rest as nat, 0) =~= Seq::<char>::empty());
    assert(r@ =~= hex_padded(n as nat, 16));
    r
}

/// `s` without its leading whitespace.
pub open spec fn trim_start(s: Seq<char>) -> Seq<char>
    decreases s.len(),
{
    if s.len() > 0 && is_ws(s[0]) {
        trim_start(s.drop_first())
    } else {
        s
    }
}

/// `s` without its trailing whitespace.
pub open spec fn trim_end(s: Seq<char>) -> Seq<char>
    decreases s.len(),
{
    if s.len() > 0 && is_ws(s.last()) {
        trim_end(s.drop_last())
    } else {
        s
    }
}

/// `s` without leading and trailing whitespace (what `str::trim` returns).
pub open spec fn trim(s: Seq<char>) -> Seq<char> {
    trim_end(trim_start(s))
}

/// Removes leading and trailing Unicode whitespace.
pub fn trim_chars(s: &[char]) -> (r: Vec<char>)
    ensures
        r@ == trim(s@),
{
    let n = s.len();
    let mut a: usize = 0;
    assert(s@.skip(0) =~= s@);
    while a < n && is_whitespace(s[a])
        invariant
            n == s@.len(),
            a <= n,
            trim_start(s@) == trim_start(s@.skip(a as int)),
        decreases n - a,
    {
        assert(s@.skip(a as int).drop_first() =~= s@.skip(a + 1));
        a = a + 1;
    }
    let ghost front = s@.skip(a as int);
    assert(trim_start(s@) == front);
    let mut b: usize = n;
    assert(front.take((b - a) as int) =~= front);
    while b > a && is_whitespace(s[b - 1])
        invariant
            n == s@.len(),
            a <= b <= n,
            front == s@.skip(a as int),
            trim_end(front) == trim_end(front.take((b - a) as int)),
        decreases b - a,
    {
        assert(front.take((b - a) as int).drop_last() =~= front.take((b - 1 - a) as int));
        b = b - 1;
    }
    let mut r: Vec<char> = Vec::new();
    for k in a..b
        invariant
            a <= b <= n,
            n == s@.len(),
            front == s@.skip(a as int),
            r@ == front.take((k - a) as int),
    {
        r.push(s[k]);
        assert(r@ =~= front.take((k + 1 - a) as int));
    }
    r
}

/// UTF-8 encoding distributes over concatenation.
pub proof fn lemma_encode_utf8_concat(a: Seq<char>, b: Seq<char>)
    ensures
        encode_utf8(a + b) == encode_utf8(a) + encode_utf8(b),
    decreases a.len(),
{
    if a.len() > 0 {
        assert((a + b).drop_first() =~= a.drop_first() + b);
        lemma_encode_utf8_concat(a.drop_first(), b);
        assert(encode_utf8(a + b) =~= encode_utf8(a) + encode_utf8(b));
    } else {
        assert(a + b =~= b);
        assert(encode_utf8(a) =~= Seq::<u8>::empty());
        assert(encode_utf8(a) + encode_utf8(b) =~= encode_utf8(b));
    }
}

/// Number of bytes of the UTF-8 encoding of one character.
pub fn char_utf8_width(c: char) -> (w: usize)
    ensures
        w == encode_scalar(c as u32).len(),
        1 <= w <= 4,
{
    let u = c as u32;
    if u <= 0x7f {
        1
    } else if u <= 0x7ff {
        2
    } else if u <= 0xffff {
        3
    } else {
        4
    }
}

/// Length in bytes of the UTF-8 encoding of `s` when it is at most `cap`;
/// `None` when it is longer.
pub fn utf8_len_capped(s: &[char], cap: usize) -> (r: Option<usize>)
    ensures
        match r {
            Some(n) => n as int == encode_utf8(s@).len() && n <= cap,
            None => encode_utf8(s@).len() > cap,
        },
{
    let n = s.len();
    let mut total: usize = 0;
    assert(encode_utf8(s@.take(0)) =~= Seq::<u8>::empty());
    for i in 0..n
        invariant
            n == s@.len(),
            total <= cap,
            total as int == encode_utf8(s@.take(i as int)).len(),
    {
        proof {
            assert(s@.take(i + 1) =~= s@.take(i as int) + seq![s@[i as int]]);
            lemma_encode_utf8_concat(s@.take(i as int), seq![s@[i as int]]);
            assert(seq![s@[i as int]].drop_first() =~= Seq::<char>::empty());
            assert(encode_utf8(seq![s@[i as int]]) =~= encode_scalar(s@[i as int] as u32) + encode_utf8(Seq::<char>::empty()));
        }
        let w = char_utf8_width(s[i]);
        if w > cap - total {
            proof {
                lemma_encode_utf8_concat(s@.take(i + 1), s@.skip(i + 1));
                assert(s@.take(i + 1) + s@.skip(i + 1) =~= s@);
            }
            return None;
        }
        total = total + w;
    }
    assert(s@.take(n as int) =~= s@);
    Some(total)
}

/// Left-to-right scan state of a split on `sep` that drops empty pieces.
pub open spec fn sep_scan(s: Seq<char>, sep: char) -> (Seq<Seq<char>>, Seq<char>)
    decreases s.len(),
{
    if s.len() == 0 {
        (Seq::empty(), Seq::empty())
    } else {
        let (done, cur) = sep_scan(s.drop_last(), sep);
        let x = s.last();
        if x == sep {
            if cur.len() == 0 {
                (done, cur)
            } else {
                (done.push(cur), Seq::empty())
            }
        } else {
            (done, cur.push(x))
        }
    }
}

/// The nonempty pieces of `s` between occurrences of `sep`, in order
/// (`s.split(sep).filter(|p| !p.is_empty())`).
pub open spec fn split_nonempty(s: Seq<char>, sep: char) -> Seq<Seq<char>> {
    let (done, cur) = sep_scan(s, sep);
    if cur.len() == 0 {
        done
    } else {
        done.push(cur)
    }
}

/// Splits `s` on `sep`, keeping the nonempty pieces.
pub fn split_on(s: &[char], sep: char) -> (r: Vec<Vec<char>>)
    ensures
        char_vecs_view(r@) == split_nonempty(s@, sep),
{
    let mut done: Vec<Vec<char>> = Vec::new();
    let mut cur: Vec<char> = Vec::new();
    let n = s.len();
    for i in 0..n
        invariant
            n == s@.len(),
            (char_vecs_view(done@), cur@) == sep_scan(s@.take(i as int), sep),
    {
        proof {
            assert(s@.take(i + 1).drop_last() =~= s@.take(i as int));
        }
        let x = s[i];
        if x == sep {
            if cur.len() != 0 {
                let word = cur;
                cur = Vec::new();
                done.push(word);
                assert(char_vecs_view(done@) =~= sep_scan(s@.take(i as int), sep).0.push(word@));
            }
        } else {
            cur.push(x);
        }
    }
    assert(s@.take(n as int) =~= s@);
    if cur.len() != 0 {
        let ghost d = char_vecs_view(done@);
        let ghost c = cur@;
        done.push(cur);
        assert(char_vecs_view(done@) =~= d.push(c));
    }
    done
}

} // verus!
