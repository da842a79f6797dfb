//! Template placeholders and their substitution.
//!
//! A placeholder is `{{`, optional white space, a non-empty run of word
//! characters (the variable's name), optional white space, and `}}`, as the
//! regular expression `\{\{\s*([\w]+)\s*\}\}` describes it. Templates are
//! scanned from left to right; each placeholder whose name has a value is
//! replaced by that value, and every other character is kept.
use vstd::prelude::*;

use crate::dtypes::{Method, StoredRequest, RequestHeader, RequestQueryParam, Variable};
use crate::text::{chars_of, extend_chars, str_eq, string_from_chars};

verus! {

// ── Character classes ───────────────────────────────────────────────────

/// Whether the regex class `\w` holds a character that is neither ASCII
/// nor white space; the tables behind it list the Alphabetic, Mark,
/// Decimal_Number, Connector_Punctuation and Join_Control characters.
pub uninterp spec fn unicode_word_char(c: char) -> bool;

/// Whether `c` belongs to the Unicode word class `\w` of the `regex` crate.
/// The tables of `regex-syntax` that back the class show that its ASCII
/// members are `[0-9A-Za-z_]` and that it holds no `White_Space`
/// character; for the other characters the class is asked.
pub open spec fn is_word_char(c: char) -> bool {
    if (c as u32) < 128 {
        is_ascii_word_char(c)
    } else if is_space_char(c) {
        false
    } else {
        unicode_word_char(c)
    }
}

/// The ASCII word characters: `[0-9A-Za-z_]`.
pub open spec fn is_ascii_word_char(c: char) -> bool {
    ('0' <= c && c <= '9') || ('A' <= c && c <= 'Z') || ('a' <= c && c <= 'z') || c == '_'
}

/// The Unicode `White_Space` characters, the class `\s` of the `regex` crate.
pub open spec fn is_space_char(c: char) -> bool {
    ||| ('\t' <= c && c <= '\r')
    ||| c == ' '
    ||| c == '\u{85}'
    ||| c == '\u{a0}'
    ||| c == '\u{1680}'
    ||| ('\u{2000}' <= c && c <= '\u{200a}')
    ||| c == '\u{2028}'
    ||| c == '\u{2029}'
    ||| c == '\u{202f}'
    ||| c == '\u{205f}'
    ||| c == '\u{3000}'
}

/// Tests `c` against the class `\w` of `regex::Regex`, by matching the
/// one-character string against `\A\w\z` (a valid pattern, so `new`
/// succeeds). It is asked only about characters outside ASCII that are not
/// white space; its answer for them is named `unicode_word_char`.
#[verifier::external_body]
fn regex_word_char(c: char) -> (r: bool)
    requires
        (c as u32) >= 128,
        !is_space_char(c),
    ensures
        r == unicode_word_char(c),
{
    let mut buf = [0u8; 4];
    match regex::Regex::new(r"\A\w\z") {
        Ok(re) => re.is_match(c.encode_utf8(&mut buf)),
        Err(_) => false,
    }
}

/// Whether `c` is a word character (`\w`); the regex engine is consulted
/// only for characters outside ASCII that are not white space.
pub fn word_char(c: char) -> (r: bool)
    ensures
        r == is_word_char(c),
{
    if (c as u32) < 128 {
        ('0' <= c && c <= '9') || ('A' <= c && c <= 'Z') || ('a' <= c && c <= 'z') || c == '_'
    } else if space_char(c) {
        false
    } else {
        regex_word_char(c)
    }
}

/// Whether `c` is a white-space character (`\s`).
pub fn space_char(c: char) -> (r: bool)
    ensures
        r == is_space_char(c),
{
    ('\t' <= c && c <= '\r') || c == ' ' || c == '\u{85}' || c == '\u{a0}' || c == '\u{1680}'
        || ('\u{2000}' <= c && c <= '\u{200a}') || c == '\u{2028}' || c == '\u{2029}'
        || c == '\u{202f}' || c == '\u{205f}' || c == '\u{3000}'
}

// ── Placeholder grammar ─────────────────────────────────────────────────

/// The end of the run of white space that starts at `i`.
pub open spec fn space_run_end(t: Seq<char>, i: int) -> int
    decreases t.len() - i,
{
    if 0 <= i < t.len() && is_space_char(t[i]) {
        space_run_end(t, i + 1)
    } else {
        i
    }
}

/// The end of the run of word characters that starts at `i`.
pub open spec fn word_run_end(t: Seq<char>, i: int) -> int
    decreases t.len() - i,
{
    if 0 <= i < t.len() && is_word_char(t[i]) {
        word_run_end(t, i + 1)
    } else {
        i
    }
}

pub proof fn lemma_space_run_end_bounds(t: Seq<char>, i: int)
    requires
        0 <= i <= t.len(),
    ensures
        i <= space_run_end(t, i) <= t.len(),
        forall|k: int| i <= k < space_run_end(t, i) ==> is_space_char(#[trigger] t[k]),
        space_run_end(t, i) < t.len() ==> !is_space_char(t[space_run_end(t, i)]),
    decreases t.len() - i,
{
    if i < t.len() && is_space_char(t[i]) {
        lemma_space_run_end_bounds(t, i + 1);
    }
}

pub proof fn lemma_word_run_end_bounds(t: Seq<char>, i: int)
    requires
        0 <= i <= t.len(),
    ensures
        i <= word_run_end(t, i) <= t.len(),
        forall|k: int| i <= k < word_run_end(t, i) ==> is_word_char(#[trigger] t[k]),
        word_run_end(t, i) < t.len() ==> !is_word_char(t[word_run_end(t, i)]),
    decreases t.len() - i,
{
    if i < t.len() && is_word_char(t[i]) {
        lemma_word_run_end_bounds(t, i + 1);
    }
}

/// The placeholder that starts at position `i` of `t`, if one does: the
/// position just past its closing `}}` and the variable's name.
pub open spec fn placeholder_at(t: Seq<char>, i: int) -> Option<(int, Seq<char>)> {
    if 0 <= i && i + 1 < t.len() && t[i] == '{' && t[i + 1] == '{' {
        let b = space_run_end(t, i + 2);
        let c = word_run_end(t, b);
        let d = space_run_end(t, c);
        if b < c && d < t.len() && d + 1 < t.len() && t[d] == '}' && t[d + 1] == '}' {
            Some((d + 2, t.subrange(b, c)))
        } else {
            None
        }
    } else {
        None
    }
}

pub proof fn lemma_placeholder_at_bounds(t: Seq<char>, i: int)
    requires
        0 <= i <= t.len(),
    ensures
        placeholder_at(t, i) matches Some((end, name)) ==> i + 5 <= end <= t.len() && name.len()
            > 0,
{
    if i < t.len() && i + 1 < t.len() && t[i] == '{' && t[i + 1] == '{' {
        let b = space_run_end(t, i + 2);
        lemma_space_run_end_bounds(t, i + 2);
        lemma_word_run_end_bounds(t, b);
        let c = word_run_end(t, b);
        lemma_space_run_end_bounds(t, c);
    }
}

/// The text that `t` becomes from position `i` on, when every placeholder
/// whose name `vars` defines is replaced by its value.
pub open spec fn render(t: Seq<char>, vars: Map<Seq<char>, Seq<char>>, i: int) -> Seq<char>
    decreases t.len() - i,
{
    if 0 <= i < t.len() {
        match placeholder_at(t, i) {
            Some((end, name)) => {
                proof {
                    lemma_placeholder_at_bounds(t, i);
                }
                (if vars.contains_key(name) {
                    vars[name]
                } else {
                    t.subrange(i, end)
                }) + render(t, vars, end)
            },
            None => seq![t[i]] + render(t, vars, i + 1),
        }
    } else {
        Seq::empty()
    }
}

/// The names of the placeholders of `t` from position `i` on, in order of
/// appearance (with repetitions).
pub open spec fn placeholder_names(t: Seq<char>, i: int) -> Seq<Seq<char>>
    decreases t.len() - i,
{
    if 0 <= i < t.len() {
        match placeholder_at(t, i) {
            Some((end, name)) => {
                proof {
                    lemma_placeholder_at_bounds(t, i);
                }
                seq![name] + placeholder_names(t, end)
            },
            None => placeholder_names(t, i + 1),
        }
    } else {
        Seq::empty()
    }
}

/// The names in `names` that `vars` does not define, each once, in order of
/// first appearance.
pub open spec fn undefined_names(names: Seq<Seq<char>>, vars: Map<Seq<char>, Seq<char>>) -> Seq<
    Seq<char>,
>
    decreases names.len(),
{
    if names.len() == 0 {
        Seq::empty()
    } else {
        let rest = undefined_names(names.drop_last(), vars);
        let n = names.last();
        if vars.contains_key(n) || rest.contains(n) {
            rest
        } else {
            rest.push(n)
        }
    }
}

/// What filling `t` from `vars` gives: the rendered text when every
/// placeholder's name is defined, else the undefined names.
pub open spec fn fill_spec(t: Seq<char>, vars: Map<Seq<char>, Seq<char>>) -> Result<
    Seq<char>,
    Seq<Seq<char>>,
> {
    let missing = undefined_names(placeholder_names(t, 0), vars);
    if missing.len() == 0 {
        Ok(render(t, vars, 0))
    } else {
        Err(missing)
    }
}

// ── Scanning ────────────────────────────────────────────────────────────

fn skip_spaces(t: &Vec<char>, i: usize) -> (j: usize)
    requires
        i <= t@.len(),
    ensures
        j == space_run_end(t@, i as int),
{
    let mut j = i;
    while j < t.len() && space_char(t[j])
        invariant
            i <= j <= t@.len(),
            space_run_end(t@, i as int) == space_run_end(t@, j as int),
        decreases t@.len() - j,
    {
        j = j + 1;
    }
    j
}

fn skip_word(t: &Vec<char>, i: usize) -> (j: usize)
    requires
        i <= t@.len(),
    ensures
        j == word_run_end(t@, i as int),
{
    let mut j = i;
    while j < t.len() && word_char(t[j])
        invariant
            i <= j <= t@.len(),
            word_run_end(t@, i as int) == word_run_end(t@, j as int),
        decreases t@.len() - j,
    {
        j = j + 1;
    }
    j
}

/// Finds the placeholder that starts at `i`: the bounds of its name and the
/// position just past it.
fn scan_placeholder(t: &Vec<char>, i: usize) -> (r: Option<(usize, usize, usize)>)
    requires
        i <= t@.len(),
    ensures
        match placeholder_at(t@, i as int) {
            Some((end, name)) => r matches Some((b, c, e)) && e == end && b < c <= t@.len()
                && t@.subrange(b as int, c as int) == name,
            None => r is None,
        },
{
    proof {
        lemma_placeholder_at_bounds(t@, i as int);
    }
    if i < t.len() && i + 1 < t.len() && t[i] == '{' && t[i + 1] == '{' {
        let b = skip_spaces(t, i + 2);
        proof {
            lemma_space_run_end_bounds(t@, i + 2);
        }
        let c = skip_word(t, b);
        proof {
            lemma_word_run_end_bounds(t@, b as int);
        }
        let d = skip_spaces(t, c);
        proof {
            lemma_space_run_end_bounds(t@, c as int);
        }
        if b < c && d < t.len() && d + 1 < t.len() && t[d] == '}' && t[d + 1] == '}' {
            Some((b, c, d + 2))
        } else {
            None
        }
    } else {
        None
    }
}

// ── Variable maps ───────────────────────────────────────────────────────

/// A map from variable names to their values. Inserting a name that is
/// already present replaces its value.
pub struct VarMap {
    entries: Vec<(String, String)>,
}

/// The map that a list of entries stands for.
pub open spec fn entries_map(s: Seq<(String, String)>) -> Map<Seq<char>, Seq<char>>
    decreases s.len(),
{
    if s.len() == 0 {
        Map::empty()
    } else {
        entries_map(s.drop_last()).insert(s.last().0@, s.last().1@)
    }
}

/// No name occurs twice among the entries.
pub open spec fn keys_unique(s: Seq<(String, String)>) -> bool {
    forall|i: int, j: int| 0 <= i < j < s.len() ==> s[i].0@ != s[j].0@
}

impl View for VarMap {
    type V = Map<Seq<char>, Seq<char>>;

    closed spec fn view(&self) -> Map<Seq<char>, Seq<char>> {
        entries_map(self.entries@)
    }
}

proof fn lemma_entries_map_lookup(s: Seq<(String, String)>, k: Seq<char>)
    requires
        keys_unique(s),
    ensures
        forall|i: int|
            0 <= i < s.len() && (#[trigger] s[i]).0@ == k ==> entries_map(s).contains_key(k)
                && entries_map(s)[k] == s[i].1@,
        (forall|i: int| 0 <= i < s.len() ==> (#[trigger] s[i]).0@ != k) ==> !entries_map(
            s,
        ).contains_key(k),
    decreases s.len(),
{
    if s.len() > 0 {
        let p = s.drop_last();
        assert(keys_unique(p));
        lemma_entries_map_lookup(p, k);
        assert forall|i: int| 0 <= i < s.len() && (#[trigger] s[i]).0@ == k implies entries_map(
            s,
        ).contains_key(k) && entries_map(s)[k] == s[i].1@ by {
            if i < s.len() - 1 {
                assert(p[i] == s[i]);
            }
        }
        if forall|i: int| 0 <= i < s.len() ==> (#[trigger] s[i]).0@ != k {
            assert forall|i: int| 0 <= i < p.len() implies (#[trigger] p[i]).0@ != k by {
                assert(p[i] == s[i]);
            }
        }
    }
}

proof fn lemma_entries_map_update(s: Seq<(String, String)>, i: int, e: (String, String))
    requires
        keys_unique(s),
        0 <= i < s.len(),
        s[i].0@ == e.0@,
    ensures
        keys_unique(s.update(i, e)),
        entries_map(s.update(i, e)) == entries_map(s).insert(e.0@, e.1@),
{
    let u = s.update(i, e);
    assert(keys_unique(u)) by {
        assert forall|a: int, b: int| 0 <= a < b < u.len() implies u[a].0@ != u[b].0@ by {
            if a != i && b != i {
                assert(u[a] == s[a] && u[b] == s[b]);
            } else if a == i {
                assert(s[a].0@ != s[b].0@);
            } else {
                assert(s[a].0@ != s[b].0@);
            }
        }
    }
    let m = entries_map(s).insert(e.0@, e.1@);
    assert forall|k: Seq<char>| #[trigger] entries_map(u).contains_key(k) == m.contains_key(k)
        && (m.contains_key(k) ==> entries_map(u)[k] == m[k]) by {
        lemma_entries_map_lookup(s, k);
        lemma_entries_map_lookup(u, k);
        assert(u[i] == e);
        if k != e.0@ {
            if exists|j: int| 0 <= j < s.len() && (#[trigger] s[j]).0@ == k {
                let j = choose|j: int| 0 <= j < s.len() && (#[trigger] s[j]).0@ == k;
                assert(u[j] == s[j]);
            } else {
                assert forall|j: int| 0 <= j < u.len() implies (#[trigger] u[j]).0@ != k by {
                    if j != i {
                        assert(u[j] == s[j]);
                    }
                }
            }
        }
    }
    assert(entries_map(u) =~= m);
}

impl VarMap {
    #[verifier::type_invariant]
    closed spec fn wf(&self) -> bool {
        keys_unique(self.entries@)
    }

    /// An empty map.
    pub fn new() -> (m: VarMap)
        ensures
            m@ == Map::<Seq<char>, Seq<char>>::empty(),
    {
        VarMap { entries: Vec::new() }
    }

    /// The number of names the map defines.
    pub fn len(&self) -> (n: usize)
        ensures
            n == self@.len(),
    {
        proof {
            use_type_invariant(self);
            lemma_entries_map_len(self.entries@);
        }
        self.entries.len()
    }

    /// The value of `name`, if the map defines it.
    pub fn get(&self, name: &str) -> (r: Option<&String>)
        ensures
            r is Some <==> self@.contains_key(name@),
            r matches Some(v) ==> v@ == self@[name@],
    {
        proof {
            use_type_invariant(self);
            lemma_entries_map_lookup(self.entries@, name@);
        }
        let mut i: usize = 0;
        while i < self.entries.len()
            invariant
                i <= self.entries@.len(),
                forall|j: int| 0 <= j < i ==> (#[trigger] self.entries@[j]).0@ != name@,
            decreases self.entries@.len() - i,
        {
            if str_eq(self.entries[i].0.as_str(), name) {
                proof {
                    use_type_invariant(self);
                    lemma_entries_map_lookup(self.entries@, name@);
                    assert(self.entries@[i as int].0@ == name@);
                }
                return Some(&self.entries[i].1);
            }
            i = i + 1;
        }
        None
    }

    /// Sets the value of `name`, replacing any value it had.
    pub fn insert(&mut self, name: String, value: String)
        ensures
            final(self)@ == old(self)@.insert(name@, value@),
    {
        proof {
            use_type_invariant(&*self);
        }
        let mut entries: Vec<(String, String)> = Vec::new();
        std::mem::swap(&mut entries, &mut self.entries);
        let ghost s = entries@;
        proof {
            lemma_entries_map_lookup(s, name@);
        }
        let mut i: usize = 0;
        while i < entries.len()
            invariant
                entries@ == s,
                keys_unique(s),
                entries_map(s) == old(self)@,
                i <= s.len(),
                forall|j: int| 0 <= j < i ==> (#[trigger] s[j]).0@ != name@,
            decreases s.len() - i,
        {
            if str_eq(entries[i].0.as_str(), name.as_str()) {
                let ghost e = (name, value);
                proof {
                    lemma_entries_map_update(s, i as int, e);
                }
                entries.set(i, (name, value));
                assert(entries@ == s.update(i as int, e));
                self.entries = entries;
                assert(self@ == entries_map(s).insert(e.0@, e.1@));
                return;
            }
            i = i + 1;
        }
        let ghost e = (name, value);
        entries.push((name, value));
        proof {
            assert(entries@.drop_last() == s);
            assert(keys_unique(entries@)) by {
                assert forall|a: int, b: int| 0 <= a < b < entries@.len() implies entries@[a].0@
                    != entries@[b].0@ by {
                    if b == s.len() {
                        assert(entries@[a] == s[a]);
                    } else {
                        assert(entries@[a] == s[a] && entries@[b] == s[b]);
                    }
                }
            }
        }
        self.entries = entries;
    }
}

proof fn lemma_entries_map_len(s: Seq<(String, String)>)
    requires
        keys_unique(s),
    ensures
        entries_map(s).dom().finite(),
        entries_map(s).len() == s.len(),
    decreases s.len(),
{
    if s.len() > 0 {
        let p = s.drop_last();
        assert(keys_unique(p));
        lemma_entries_map_len(p);
        lemma_entries_map_lookup(p, s.last().0@);
        assert forall|i: int| 0 <= i < p.len() implies (#[trigger] p[i]).0@ != s.last().0@ by {
            assert(p[i] == s[i]);
        }
    }
}

// ── Filling templates ───────────────────────────────────────────────────

/// The error of filling a template that names variables no map defines.
#[derive(Debug)]
pub struct UndefinedVarsError {
    /// The undefined names, each once, in order of first appearance.
    pub names: Vec<String>,
}

/// The character sequences of a list of strings.
pub open spec fn string_views(v: Seq<String>) -> Seq<Seq<char>> {
    v.map_values(|s: String| s@)
}

/// Joins the views of `names` with `sep`.
pub open spec fn join_views(names: Seq<Seq<char>>, sep: Seq<char>) -> Seq<char>
    decreases names.len(),
{
    if names.len() == 0 {
        Seq::empty()
    } else if names.len() == 1 {
        names[0]
    } else {
        join_views(names.drop_last(), sep) + sep + names.last()
    }
}

impl UndefinedVarsError {
    /// The error's message: `undefined variables: ` and the names,
    /// separated by `, `.
    pub fn message(&self) -> (r: String)
        ensures
            r@ == "undefined variables: "@ + join_views(string_views(self.names@), ", "@),
    {
        let mut out = chars_of("undefined variables: ");
        let ghost prefix = out@;
        let sep = chars_of(", ");
        let ghost names = string_views(self.names@);
        let mut i: usize = 0;
        while i < self.names.len()
            invariant
                i <= self.names@.len(),
                names == string_views(self.names@),
                sep@ == ", "@,
                prefix == "undefined variables: "@,
                out@ == prefix + join_views(names.take(i as int), sep@),
            decreases self.names@.len() - i,
        {
            if i > 0 {
                extend_chars(&mut out, &sep);
            }
            let name = chars_of(self.names[i].as_str());
            extend_chars(&mut out, &name);
            proof {
                assert(names.take(i + 1).drop_last() == names.take(i as int));
                assert(names.take(i + 1).last() == names[i as int]);
                if i == 0 {
                    assert(names.take(1)[0] == names[0]);
                }
            }
            i = i + 1;
        }
        assert(names.take(self.names@.len() as int) == names);
        string_from_chars(&out)
    }
}

/// The characters `t[b..c]`.
fn sub_chars(t: &Vec<char>, b: usize, c: usize) -> (v: Vec<char>)
    requires
        b <= c <= t@.len(),
    ensures
        v@ == t@.subrange(b as int, c as int),
{
    let mut v: Vec<char> = Vec::new();
    let mut k = b;
    while k < c
        invariant
            b <= k <= c <= t@.len(),
            v@ == t@.subrange(b as int, k as int),
        decreases c - k,
    {
        v.push(t[k]);
        assert(t@.subrange(b as int, k + 1) == t@.subrange(b as int, k as int).push(t@[k as int]));
        k = k + 1;
    }
    v
}

/// Whether `v` holds a string equal to `s`.
fn contains_string(v: &Vec<String>, s: &String) -> (r: bool)
    ensures
        r == string_views(v@).contains(s@),
{
    let mut i: usize = 0;
    while i < v.len()
        invariant
            i <= v@.len(),
            forall|j: int| 0 <= j < i ==> (#[trigger] v@[j])@ != s@,
        decreases v@.len() - i,
    {
        if v[i] == *s {
            assert(string_views(v@)[i as int] == s@);
            return true;
        }
        i = i + 1;
    }
    assert forall|j: int| 0 <= j < string_views(v@).len() implies #[trigger] string_views(v@)[j]
        != s@ by {
        assert(string_views(v@)[j] == v@[j]@);
    }
    false
}

/// Replaces `{{ var_name }}` placeholders in `template` with values from
/// `vars`. Returns an error listing all missing variable names.
pub fn fill(template: &str, vars: &VarMap) -> (r: Result<String, UndefinedVarsError>)
    ensures
        match fill_spec(template@, vars@) {
            Ok(text) => r matches Ok(s) && s@ == text,
            Err(missing) => r matches Err(e) && string_views(e.names@) == missing,
        },
{
    let t = chars_of(template);
    let mut out: Vec<char> = Vec::new();
    let mut missing: Vec<String> = Vec::new();
    let ghost mut seen: Seq<Seq<char>> = Seq::empty();
    let mut p: usize = 0;
    assert(out@ + render(t@, vars@, 0) == render(t@, vars@, 0));
    assert(seen + placeholder_names(t@, 0) == placeholder_names(t@, 0));
    while p < t.len()
        invariant
            p <= t@.len(),
            t@ == template@,
            render(t@, vars@, 0) == out@ + render(t@, vars@, p as int),
            placeholder_names(t@, 0) == seen + placeholder_names(t@, p as int),
            string_views(missing@) == undefined_names(seen, vars@),
        decreases t@.len() - p,
    {
        let ghost old_out = out@;
        let ghost old_seen = seen;
        let ghost old_missing = missing@;
        proof {
            lemma_placeholder_at_bounds(t@, p as int);
        }
        match scan_placeholder(&t, p) {
            Some((b, c, e)) => {
                let name_chars = sub_chars(&t, b, c);
                let name = string_from_chars(&name_chars);
                let ghost n = name@;
                match vars.get(name.as_str()) {
                    Some(v) => {
                        let value = chars_of(v.as_str());
                        extend_chars(&mut out, &value);
                    },
                    None => {
                        let whole = sub_chars(&t, p, e);
                        extend_chars(&mut out, &whole);
                        if !contains_string(&missing, &name) {
                            missing.push(name);
                            assert(string_views(missing@) == string_views(old_missing).push(n));
                        } else {
                            assert(missing@ == old_missing);
                        }
                    },
                }
                proof {
                    seen = seen.push(n);
                    assert(seen.drop_last() == old_seen);
                    assert(out@ + render(t@, vars@, e as int) == old_out + render(
                        t@,
                        vars@,
                        p as int,
                    ));
                    assert(seen + placeholder_names(t@, e as int) == old_seen
                        + placeholder_names(t@, p as int));
                }
                p = e;
            },
            None => {
                out.push(t[p]);
                proof {
                    assert(out@ + render(t@, vars@, p + 1) == old_out + render(
                        t@,
                        vars@,
                        p as int,
                    ));
                }
                p = p + 1;
            },
        }
    }
    assert(out@ + render(t@, vars@, p as int) == out@);
    assert(seen + placeholder_names(t@, p as int) == seen);
    if missing.len() > 0 {
        Err(UndefinedVarsError { names: missing })
    } else {
        Ok(string_from_chars(&out))
    }
}

// ── Variable maps from stored variables ─────────────────────────────────

/// The map that inserting the variables of `s` in order gives: a later
/// variable of a name replaces an earlier one.
pub open spec fn vars_map(s: Seq<Variable>) -> Map<Seq<char>, Seq<char>>
    decreases s.len(),
{
    if s.len() == 0 {
        Map::empty()
    } else {
        vars_map(s.drop_last()).insert(s.last().name@, s.last().value@)
    }
}

/// Build a variable map from collection and environment variables.
/// Environment variables override collection variables on name collision.
pub fn build_var_map(coll_vars: &[Variable], env_vars: &[Variable]) -> (m: VarMap)
    ensures
        m@ == vars_map(coll_vars@ + env_vars@),
        forall|k: int|
            0 <= k < coll_vars@.len() ==> #[trigger] m@.contains_key(coll_vars@[k].name@),
        forall|k: int|
            0 <= k < env_vars@.len() ==> #[trigger] m@.contains_key(env_vars@[k].name@),
        forall|k: int|
            0 <= k < env_vars@.len() && (forall|j: int|
                k < j < env_vars@.len() ==> env_vars@[j].name@ != env_vars@[k].name@)
                ==> #[trigger] m@[env_vars@[k].name@] == env_vars@[k].value@,
{
    let mut map = VarMap::new();
    let ghost all = coll_vars@ + env_vars@;
    let mut i: usize = 0;
    while i < coll_vars.len()
        invariant
            i <= coll_vars@.len(),
            all == coll_vars@ + env_vars@,
            map@ == vars_map(all.take(i as int)),
        decreases coll_vars@.len() - i,
    {
        map.insert(coll_vars[i].name.clone(), coll_vars[i].value.clone());
        proof {
            assert(all.take(i + 1).drop_last() == all.take(i as int));
            assert(all.take(i + 1).last() == coll_vars@[i as int]);
        }
        i = i + 1;
    }
    let mut j: usize = 0;
    while j < env_vars.len()
        invariant
            j <= env_vars@.len(),
            i == coll_vars@.len(),
            all == coll_vars@ + env_vars@,
            map@ == vars_map(all.take(i + j)),
        decreases env_vars@.len() - j,
    {
        map.insert(env_vars[j].name.clone(), env_vars[j].value.clone());
        proof {
            assert(all.take(i + j + 1).drop_last() == all.take(i + j));
            assert(all.take(i + j + 1).last() == env_vars@[j as int]);
        }
        j = j + 1;
    }
    assert(all.take(i + j) == all);
    proof {
        law_every_variable_is_in_the_map(all);
        let n = coll_vars@.len() as int;
        assert forall|k: int| 0 <= k < coll_vars@.len() implies #[trigger] map@.contains_key(
            coll_vars@[k].name@,
        ) by {
            assert(all[k] == coll_vars@[k]);
        }
        assert forall|k: int| 0 <= k < env_vars@.len() implies #[trigger] map@.contains_key(
            env_vars@[k].name@,
        ) by {
            assert(all[n + k] == env_vars@[k]);
        }
        assert forall|k: int|
            0 <= k < env_vars@.len() && (forall|j: int|
                k < j < env_vars@.len() ==> env_vars@[j].name@ != env_vars@[k].name@)
                implies #[trigger] map@[env_vars@[k].name@] == env_vars@[k].value@ by {
            assert(all[n + k] == env_vars@[k]);
            assert forall|j: int| n + k < j < all.len() implies (#[trigger] all[j]).name@ != all[n + k].name@ by {
                assert(all[j] == env_vars@[j - n]);
            }
        }
    }
    map
}

/// The map of `a + b` is the map of `a` overridden by the map of `b`.
pub proof fn lemma_vars_map_concat(a: Seq<Variable>, b: Seq<Variable>)
    ensures
        vars_map(a + b) == vars_map(a).union_prefer_right(vars_map(b)),
    decreases b.len(),
{
    if b.len() == 0 {
        assert(a + b == a);
        assert(vars_map(a).union_prefer_right(vars_map(b)) =~= vars_map(a));
    } else {
        lemma_vars_map_concat(a, b.drop_last());
        assert((a + b).drop_last() == a + b.drop_last());
        assert((a + b).last() == b.last());
        assert(vars_map(a + b) =~= vars_map(a).union_prefer_right(vars_map(b)));
    }
}

// ── Resolving requests ──────────────────────────────────────────────────

/// A request whose placeholders have all been filled.
pub struct ResolvedRequest {
    pub method: Method,
    pub url: String,
    pub body: Option<String>,
    pub headers: Vec<(String, String)>,
    pub query_params: Vec<(String, String)>,
}

/// The templates that resolving a request fills, in the order it fills
/// them: the URL, the body if there is one, the header values, the query
/// parameter values.
pub open spec fn request_templates(
    request: StoredRequest,
    headers: Seq<RequestHeader>,
    query_params: Seq<RequestQueryParam>,
) -> Seq<Seq<char>> {
    seq![request.url@] + body_templates(request.body) + headers.map_values(|h: RequestHeader| h.hval@) + query_params.map_values(
        |q: RequestQueryParam| q.qval@,
    )
}

/// The body's template, if the request has a body.
pub open spec fn body_templates(body: Option<String>) -> Seq<Seq<char>> {
    match body {
        Some(b) => seq![b@],
        None => Seq::empty(),
    }
}

/// The undefined names of the first template in `ts` that has any.
pub open spec fn first_failure(ts: Seq<Seq<char>>, vars: Map<Seq<char>, Seq<char>>) -> Option<
    Seq<Seq<char>>,
>
    decreases ts.len(),
{
    if ts.len() == 0 {
        None
    } else {
        match fill_spec(ts[0], vars) {
            Err(missing) => Some(missing),
            Ok(_) => first_failure(ts.drop_first(), vars),
        }
    }
}

pub proof fn lemma_first_failure_concat(
    x: Seq<Seq<char>>,
    y: Seq<Seq<char>>,
    vars: Map<Seq<char>, Seq<char>>,
)
    ensures
        first_failure(x + y, vars) == (match first_failure(x, vars) {
            Some(m) => Some(m),
            None => first_failure(y, vars),
        }),
    decreases x.len(),
{
    if x.len() == 0 {
        assert(x + y == y);
    } else {
        lemma_first_failure_concat(x.drop_first(), y, vars);
        assert((x + y).drop_first() == x.drop_first() + y);
        assert((x + y)[0] == x[0]);
    }
}

/// The rendering of a template that fills without error.
pub open spec fn filled(t: Seq<char>, vars: Map<Seq<char>, Seq<char>>) -> Seq<char> {
    render(t, vars, 0)
}

/// Fills one template, reporting its error as the first failure of a list
/// that ends with it.
fn fill_step(t: &str, vars: &VarMap, Ghost(done): Ghost<Seq<Seq<char>>>) -> (r: Result<
    String,
    UndefinedVarsError,
>)
    requires
        first_failure(done, vars@) is None,
    ensures
        match fill_spec(t@, vars@) {
            Ok(text) => r matches Ok(s) && s@ == text && first_failure(done.push(t@), vars@) is None,
            Err(m) => r matches Err(e) && string_views(e.names@) == m && first_failure(
                done.push(t@),
                vars@,
            ) == Some(m),
        },
{
    proof {
        lemma_first_failure_concat(done, seq![t@], vars@);
        assert(seq![t@].drop_first() == Seq::<Seq<char>>::empty());
        assert(seq![t@][0] == t@);
        assert(first_failure(Seq::<Seq<char>>::empty(), vars@) is None);
        assert(done + seq![t@] == done.push(t@));
    }
    fill(t, vars)
}

/// Resolve all template placeholders in a request's fields.
pub fn resolve_request(
    request: &StoredRequest,
    headers: &[RequestHeader],
    query_params: &[RequestQueryParam],
    vars: &VarMap,
) -> (r: Result<ResolvedRequest, UndefinedVarsError>)
    ensures
        match first_failure(request_templates(*request, headers@, query_params@), vars@) {
            Some(m) => r matches Err(e) && string_views(e.names@) == m,
            None => r matches Ok(rr) && {
                &&& rr.method == request.method
                &&& rr.url@ == filled(request.url@, vars@)
                &&& match request.body {
                    Some(b) => rr.body matches Some(x) && x@ == filled(b@, vars@),
                    None => rr.body is None,
                }
                &&& rr.headers@.len() == headers@.len()
                &&& forall|i: int|
                    0 <= i < headers@.len() ==> (#[trigger] rr.headers@[i]).0@
                        == headers@[i].hkey@ && rr.headers@[i].1@ == filled(
                        headers@[i].hval@,
                        vars@,
                    )
                &&& rr.query_params@.len() == query_params@.len()
                &&& forall|i: int|
                    0 <= i < query_params@.len() ==> (#[trigger] rr.query_params@[i]).0@
                        == query_params@[i].qkey@ && rr.query_params@[i].1@ == filled(
                        query_params@[i].qval@,
                        vars@,
                    )
            },
        },
{
    let ghost ts = request_templates(*request, headers@, query_params@);
    let ghost hvals = headers@.map_values(|h: RequestHeader| h.hval@);
    let ghost qvals = query_params@.map_values(|q: RequestQueryParam| q.qval@);
    let ghost body_ts = body_templates(request.body);
    let ghost done: Seq<Seq<char>> = Seq::empty();
    assert(ts == seq![request.url@] + body_ts + hvals + qvals);
    let url = match fill_step(request.url.as_str(), vars, Ghost(done)) {
        Ok(u) => u,
        Err(e) => {
            proof {
                lemma_first_failure_concat(seq![request.url@], body_ts + hvals + qvals, vars@);
                assert(done.push(request.url@) == seq![request.url@]);
                assert(ts == seq![request.url@] + (body_ts + hvals + qvals));
            }
            return Err(e);
        },
    };
    proof {
        done = done.push(request.url@);
        assert(done == seq![request.url@]);
    }
    let body = match &request.body {
        Some(b) => {
            match fill_step(b.as_str(), vars, Ghost(done)) {
                Ok(x) => {
                    proof {
                        done = done.push(b@);
                    }
                    Some(x)
                },
                Err(e) => {
                    proof {
                        lemma_first_failure_concat(done.push(b@), hvals + qvals, vars@);
                        assert(done.push(b@) == seq![request.url@] + body_ts);
                        assert(ts == done.push(b@) + (hvals + qvals));
                    }
                    return Err(e);
                },
            }
        },
        None => None,
    };
    assert(done == seq![request.url@] + body_ts);
    let ghost pre = done;
    let mut resolved_headers: Vec<(String, String)> = Vec::new();
    let mut i: usize = 0;
    while i < headers.len()
        invariant
            i <= headers@.len(),
            hvals == headers@.map_values(|h: RequestHeader| h.hval@),
            done == pre + hvals.take(i as int),
            first_failure(done, vars@) is None,
            ts == pre + hvals + qvals,
            ts == request_templates(*request, headers@, query_params@),
            resolved_headers@.len() == i,
            forall|k: int|
                0 <= k < i ==> (#[trigger] resolved_headers@[k]).0@ == headers@[k].hkey@
                    && resolved_headers@[k].1@ == filled(headers@[k].hval@, vars@),
        decreases headers@.len() - i,
    {
        assert(hvals[i as int] == headers@[i as int].hval@);
        match fill_step(headers[i].hval.as_str(), vars, Ghost(done)) {
            Ok(v) => {
                resolved_headers.push((headers[i].hkey.clone(), v));
                proof {
                    assert(hvals.take(i + 1) == hvals.take(i as int).push(hvals[i as int]));
                    done = done.push(headers@[i as int].hval@);
                }
            },
            Err(e) => {
                proof {
                    let rest = hvals.skip(i + 1) + qvals;
                    lemma_first_failure_concat(done.push(headers@[i as int].hval@), rest, vars@);
                    assert(hvals == hvals.take(i as int).push(hvals[i as int]) + hvals.skip(i + 1));
                    assert(ts == done.push(headers@[i as int].hval@) + rest);
                }
                return Err(e);
            },
        }
        i = i + 1;
    }
    assert(hvals.take(i as int) == hvals);
    let ghost pre2 = done;
    let mut resolved_qp: Vec<(String, String)> = Vec::new();
    let mut j: usize = 0;
    while j < query_params.len()
        invariant
            j <= query_params@.len(),
            qvals == query_params@.map_values(|q: RequestQueryParam| q.qval@),
            done == pre2 + qvals.take(j as int),
            first_failure(done, vars@) is None,
            ts == pre2 + qvals,
            ts == request_templates(*request, headers@, query_params@),
            resolved_qp@.len() == j,
            forall|k: int|
                0 <= k < j ==> (#[trigger] resolved_qp@[k]).0@ == query_params@[k].qkey@
                    && resolved_qp@[k].1@ == filled(query_params@[k].qval@, vars@),
        decreases query_params@.len() - j,
    {
        assert(qvals[j as int] == query_params@[j as int].qval@);
        match fill_step(query_params[j].qval.as_str(), vars, Ghost(done)) {
            Ok(v) => {
                resolved_qp.push((query_params[j].qkey.clone(), v));
                proof {
                    assert(qvals.take(j + 1) == qvals.take(j as int).push(qvals[j as int]));
                    done = done.push(query_params@[j as int].qval@);
                }
            },
            Err(e) => {
                proof {
                    let rest = qvals.skip(j + 1);
                    lemma_first_failure_concat(done.push(query_params@[j as int].qval@), rest, vars@);
                    assert(qvals == qvals.take(j as int).push(qvals[j as int]) + qvals.skip(j + 1));
                    assert(ts == done.push(query_params@[j as int].qval@) + rest);
                }
                return Err(e);
            },
        }
        j = j + 1;
    }
    assert(qvals.take(j as int) == qvals);
    assert(done == ts);
    Ok(
        ResolvedRequest {
            method: request.method,
            url,
            body,
            headers: resolved_headers,
            query_params: resolved_qp,
        },
    )
}

// ── Headers as JSON ─────────────────────────────────────────────────────

/// `serde_json::Error`, the error type of `serde_json`'s serializer.
#[verifier::external_type_specification]
#[verifier::external_body]
pub struct ExSerdeJsonError(serde_json::Error);

/// The lower-case hexadecimal digit of `n`, for `n` below 16.
pub open spec fn hex_digit(n: int) -> char {
    if n < 10 {
        (48 + n) as char
    } else {
        (87 + n) as char
    }
}

/// How `serde_json` writes one character inside a JSON string: a quote, a
/// backslash and the control characters below U+0020 escaped (those
/// without a short form as `\u00` and two lower-case hex digits), every
/// other character as it is.
pub open spec fn json_escape_char(c: char) -> Seq<char> {
    if c == '"' {
        seq!['\\', '"']
    } else if c == '\\' {
        seq!['\\', '\\']
    } else if c == '\x08' {
        seq!['\\', 'b']
    } else if c == '\t' {
        seq!['\\', 't']
    } else if c == '\n' {
        seq!['\\', 'n']
    } else if c == '\x0C' {
        seq!['\\', 'f']
    } else if c == '\r' {
        seq!['\\', 'r']
    } else if (c as int) < 32 {
        seq!['\\', 'u', '0', '0', hex_digit((c as int) / 16), hex_digit((c as int) % 16)]
    } else {
        seq![c]
    }
}

/// The characters of a string, each as `json_escape_char` writes it.
pub open spec fn json_escaped(s: Seq<char>) -> Seq<char>
    decreases s.len(),
{
    if s.len() == 0 {
        Seq::empty()
    } else {
        json_escaped(s.drop_last()) + json_escape_char(s.last())
    }
}

/// The JSON text that `serde_json` writes for a string with the given
/// characters: the escaped characters in double quotes.
pub open spec fn json_string_literal(s: Seq<char>) -> Seq<char> {
    seq!['"'] + json_escaped(s) + seq!['"']
}

/// `serde_json::to_string` on a string slice. It serializes the `str` into
/// an in-memory buffer, which cannot fail, so the call returns `Ok`; the
/// text is the string in double quotes with each character escaped by
/// serde_json's escape table, as `json_string_literal` states.
#[verifier::external_body]
fn json_quote(s: &str) -> (r: Result<String, serde_json::Error>)
    ensures
        r is Ok,
        r matches Ok(q) ==> q@ == json_string_literal(s@),
{
    serde_json::to_string(s)
}

/// The JSON object of one header: `{"key":K,"value":V}`.
pub open spec fn header_object_json(h: (String, String)) -> Seq<char> {
    "{\"key\":"@ + json_string_literal(h.0@) + ",\"value\":"@ + json_string_literal(h.1@) + "}"@
}

/// The JSON objects of the headers, separated by commas.
pub open spec fn header_objects_json(hs: Seq<(String, String)>) -> Seq<char>
    decreases hs.len(),
{
    if hs.len() == 0 {
        Seq::empty()
    } else if hs.len() == 1 {
        header_object_json(hs[0])
    } else {
        header_objects_json(hs.drop_last()) + ","@ + header_object_json(hs.last())
    }
}

/// The JSON array of header objects, as the `serde_json` serialization of
/// a list of `HeaderEntry` values writes it.
pub open spec fn headers_json(hs: Seq<(String, String)>) -> Seq<char> {
    "["@ + header_objects_json(hs) + "]"@
}

/// A list of headers as a JSON array of `{"key":..,"value":..}` objects,
/// as `serde_json` writes a list of header entries.
pub fn headers_to_json(headers: &Vec<(String, String)>) -> (r: String)
    ensures
        r@ == headers_json(headers@),
{
    let mut out = chars_of("[");
    let ghost hs = headers@;
    let mut i: usize = 0;
    while i < headers.len()
        invariant
            i <= hs.len(),
            hs == headers@,
            out@ == "["@ + header_objects_json(hs.take(i as int)),
        decreases hs.len() - i,
    {
        let key = match json_quote(headers[i].0.as_str()) {
            Ok(k) => k,
            Err(_) => return String::from_str("[]"),
        };
        let value = match json_quote(headers[i].1.as_str()) {
            Ok(v) => v,
            Err(_) => return String::from_str("[]"),
        };
        let ghost before = out@;
        if i > 0 {
            extend_chars(&mut out, &chars_of(","));
        }
        extend_chars(&mut out, &chars_of("{\"key\":"));
        extend_chars(&mut out, &chars_of(key.as_str()));
        extend_chars(&mut out, &chars_of(",\"value\":"));
        extend_chars(&mut out, &chars_of(value.as_str()));
        extend_chars(&mut out, &chars_of("}"));
        proof {
            let t = hs.take(i + 1);
            assert(t.drop_last() == hs.take(i as int));
            assert(t.last() == hs[i as int]);
            if i == 0 {
                assert(t[0] == hs[0]);
                assert(out@ == before + header_object_json(hs[i as int]));
            } else {
                assert(out@ == before + ","@ + header_object_json(hs[i as int]));
            }
        }
        i = i + 1;
    }
    assert(hs.take(i as int) == hs);
    extend_chars(&mut out, &chars_of("]"));
    string_from_chars(&out)
}

impl ResolvedRequest {
    /// The resolved headers as a JSON array of `{"key":..,"value":..}`
    /// objects.
    pub fn to_header_json(&self) -> (r: String)
        ensures
            r@ == headers_json(self.headers@),
    {
        headers_to_json(&self.headers)
    }
}

// ── Laws of filling ─────────────────────────────────────────────────────

proof fn lemma_space_run_end_exact(t: Seq<char>, i: int, j: int)
    requires
        0 <= i <= j <= t.len(),
        forall|k: int| i <= k < j ==> is_space_char(#[trigger] t[k]),
        j == t.len() || !is_space_char(t[j]),
    ensures
        space_run_end(t, i) == j,
    decreases j - i,
{
    if i < j {
        lemma_space_run_end_exact(t, i + 1, j);
    }
}

proof fn lemma_word_run_end_exact(t: Seq<char>, i: int, j: int)
    requires
        0 <= i <= j <= t.len(),
        forall|k: int| i <= k < j ==> is_word_char(#[trigger] t[k]),
        j == t.len() || !is_word_char(t[j]),
    ensures
        word_run_end(t, i) == j,
    decreases j - i,
{
    if i < j {
        lemma_word_run_end_exact(t, i + 1, j);
    }
}

/// No character is both a word character and white space.
pub proof fn lemma_word_chars_are_not_space(c: char)
    ensures
        is_word_char(c) ==> !is_space_char(c),
        !is_word_char('}'),
        !is_space_char('}'),
{
}

/// A placeholder fills with its variable's value, whatever white space
/// surrounds the name: `{{x}}`, `{{ x }}` and `{{  x  }}` all give the value
/// of `x`.
pub proof fn law_placeholder_fills_with_value(
    name: Seq<char>,
    before: Seq<char>,
    after: Seq<char>,
    vars: Map<Seq<char>, Seq<char>>,
)
    requires
        name.len() > 0,
        forall|k: int| 0 <= k < name.len() ==> is_word_char(#[trigger] name[k]),
        forall|k: int| 0 <= k < before.len() ==> is_space_char(#[trigger] before[k]),
        forall|k: int| 0 <= k < after.len() ==> is_space_char(#[trigger] after[k]),
        vars.contains_key(name),
    ensures
        fill_spec(seq!['{', '{'] + before + name + after + seq!['}', '}'], vars) == Ok::<
            Seq<char>,
            Seq<Seq<char>>,
        >(vars[name]),
{
    let t = seq!['{', '{'] + before + name + after + seq!['}', '}'];
    let b: int = 2 + before.len() as int;
    let c: int = b + name.len();
    let d: int = c + after.len();
    assert(t.len() == d + 2);
    assert forall|k: int| 2 <= k < b implies is_space_char(#[trigger] t[k]) by {
        assert(t[k] == before[k - 2]);
    }
    assert forall|k: int| b <= k < c implies is_word_char(#[trigger] t[k]) by {
        assert(t[k] == name[k - b]);
    }
    assert forall|k: int| c <= k < d implies is_space_char(#[trigger] t[k]) by {
        assert(t[k] == after[k - c]);
    }
    assert(t[b] == name[0]);
    lemma_word_chars_are_not_space(name[0]);
    lemma_space_run_end_exact(t, 2, b);
    assert(t[d] == '}' && t[d + 1] == '}');
    if c < d {
        assert(t[c] == after[0]);
        lemma_word_chars_are_not_space(t[c]);
    }
    lemma_word_run_end_exact(t, b, c);
    lemma_space_run_end_exact(t, c, d);
    assert(t.subrange(b, c) == name);
    assert(placeholder_at(t, 0) == Some((d + 2, name)));
    assert(render(t, vars, d + 2) == Seq::<char>::empty());
    assert(render(t, vars, 0) == vars[name] + render(t, vars, d + 2));
    assert(placeholder_names(t, d + 2) == Seq::<Seq<char>>::empty());
    assert(placeholder_names(t, 0) == seq![name] + placeholder_names(t, d + 2));
    let ns = placeholder_names(t, 0);
    assert(ns == seq![name]);
    assert(ns.drop_last() == Seq::<Seq<char>>::empty());
    assert(ns.last() == name);
    assert(undefined_names(ns.drop_last(), vars) == Seq::<Seq<char>>::empty());
    assert(undefined_names(ns, vars) == Seq::<Seq<char>>::empty());
    assert(render(t, vars, 0) == vars[name]);
}

/// Whether `t` holds `{{` anywhere.
pub open spec fn has_double_brace(t: Seq<char>) -> bool {
    exists|i: int| 0 <= i && i + 1 < t.len() && #[trigger] t[i] == '{' && t[i + 1] == '{'
}

proof fn lemma_render_plain(t: Seq<char>, vars: Map<Seq<char>, Seq<char>>, i: int)
    requires
        0 <= i <= t.len(),
        !has_double_brace(t),
    ensures
        render(t, vars, i) == t.subrange(i, t.len() as int),
        placeholder_names(t, i) == Seq::<Seq<char>>::empty(),
    decreases t.len() - i,
{
    if i < t.len() {
        if i + 1 < t.len() && t[i] == '{' && t[i + 1] == '{' {
            assert(has_double_brace(t));
        }
        assert(placeholder_at(t, i) is None);
        lemma_render_plain(t, vars, i + 1);
        assert(t.subrange(i, t.len() as int) == seq![t[i]] + t.subrange(i + 1, t.len() as int));
    }
}

/// A template without `{{` fills to itself, whatever the variables.
pub proof fn law_plain_text_passes_through(t: Seq<char>, vars: Map<Seq<char>, Seq<char>>)
    requires
        !has_double_brace(t),
    ensures
        fill_spec(t, vars) == Ok::<Seq<char>, Seq<Seq<char>>>(t),
{
    lemma_render_plain(t, vars, 0);
    assert(t.subrange(0, t.len() as int) == t);
}

proof fn lemma_undefined_names_exact(names: Seq<Seq<char>>, vars: Map<Seq<char>, Seq<char>>)
    ensures
        forall|x: Seq<char>|
            #[trigger] undefined_names(names, vars).contains(x) <==> (names.contains(x)
                && !vars.contains_key(x)),
        undefined_names(names, vars).no_duplicates(),
    decreases names.len(),
{
    if names.len() > 0 {
        let p = names.drop_last();
        lemma_undefined_names_exact(p, vars);
        let rest = undefined_names(p, vars);
        let n = names.last();
        assert forall|x: Seq<char>| #[trigger] names.contains(x) <==> (p.contains(x) || x == n) by {
            if names.contains(x) {
                let k = choose|k: int| 0 <= k < names.len() && names[k] == x;
                if k < names.len() - 1 {
                    assert(p[k] == x);
                }
            }
            if p.contains(x) {
                let k = choose|k: int| 0 <= k < p.len() && p[k] == x;
                assert(names[k] == x);
            }
            if x == n {
                assert(names[names.len() - 1] == x);
            }
        }
        if !(vars.contains_key(n) || rest.contains(n)) {
            let u = rest.push(n);
            assert forall|x: Seq<char>| #[trigger] u.contains(x) <==> (rest.contains(x) || x == n) by {
                if u.contains(x) {
                    let k = choose|k: int| 0 <= k < u.len() && u[k] == x;
                    if k < rest.len() {
                        assert(rest[k] == x);
                    }
                }
                if rest.contains(x) {
                    let k = choose|k: int| 0 <= k < rest.len() && rest[k] == x;
                    assert(u[k] == x);
                }
                if x == n {
                    assert(u[rest.len() as int] == x);
                }
            }
            assert forall|a: int, b: int| 0 <= a < u.len() && 0 <= b < u.len() && a != b implies u[a]
                != u[b] by {
                if a == rest.len() {
                    assert(!rest.contains(n));
                    assert(rest[b] == u[b]);
                } else if b == rest.len() {
                    assert(!rest.contains(n));
                    assert(rest[a] == u[a]);
                } else {
                    assert(rest[a] == u[a] && rest[b] == u[b]);
                }
            }
        }
    }
}

/// Filling succeeds exactly when every placeholder's name is defined; when
/// it fails, the names it reports are exactly the undefined ones, each
/// once.
pub proof fn law_fill_reports_exactly_the_undefined_names(
    t: Seq<char>,
    vars: Map<Seq<char>, Seq<char>>,
)
    ensures
        fill_spec(t, vars) is Ok <==> (forall|x: Seq<char>|
            #[trigger] placeholder_names(t, 0).contains(x) ==> vars.contains_key(x)),
        fill_spec(t, vars) matches Err(m) ==> m.no_duplicates() && (forall|x: Seq<char>|
            #[trigger] m.contains(x) <==> (placeholder_names(t, 0).contains(x)
                && !vars.contains_key(x))),
{
    let names = placeholder_names(t, 0);
    let m = undefined_names(names, vars);
    lemma_undefined_names_exact(names, vars);
    if m.len() > 0 {
        assert(m.contains(m[0]));
    } else {
        assert forall|x: Seq<char>| #[trigger] names.contains(x) implies vars.contains_key(x) by {
            if !vars.contains_key(x) {
                assert(m.contains(x));
            }
        }
    }
}

/// Templates without `{{` resolve without error, each to itself: a
/// request whose URL, body, header values and query values hold no
/// placeholder resolves to its own fields.
pub proof fn law_plain_templates_resolve_to_themselves(
    ts: Seq<Seq<char>>,
    vars: Map<Seq<char>, Seq<char>>,
)
    requires
        forall|k: int| 0 <= k < ts.len() ==> !has_double_brace(#[trigger] ts[k]),
    ensures
        first_failure(ts, vars) is None,
        forall|k: int| 0 <= k < ts.len() ==> filled(#[trigger] ts[k], vars) == ts[k],
    decreases ts.len(),
{
    if ts.len() > 0 {
        law_plain_text_passes_through(ts[0], vars);
        let rest = ts.drop_first();
        assert forall|k: int| 0 <= k < rest.len() implies !has_double_brace(#[trigger] rest[k]) by {
            assert(rest[k] == ts[k + 1]);
        }
        law_plain_templates_resolve_to_themselves(rest, vars);
        assert forall|k: int| 0 <= k < ts.len() implies filled(#[trigger] ts[k], vars) == ts[k] by {
            law_plain_text_passes_through(ts[k], vars);
        }
    }
}

/// Environment variables override collection variables: a name defined by
/// an environment variable has the environment's value, any other name
/// keeps the collection's.
pub proof fn law_env_overrides_collection(coll: Seq<Variable>, env: Seq<Variable>)
    ensures
        forall|n: Seq<char>| #[trigger]
            vars_map(env).contains_key(n) ==> vars_map(coll + env).contains_key(n) && vars_map(
                coll + env,
            )[n] == vars_map(env)[n],
        forall|n: Seq<char>|
            !vars_map(env).contains_key(n) ==> (#[trigger] vars_map(coll + env).contains_key(n)
                == vars_map(coll).contains_key(n)) && (vars_map(coll).contains_key(n) ==> vars_map(
                coll + env,
            )[n] == vars_map(coll)[n]),
{
    lemma_vars_map_concat(coll, env);
}

/// A request without headers gives the empty JSON array.
pub proof fn law_no_headers_give_empty_json_array()
    ensures
        headers_json(Seq::empty()) == "[]"@,
{
    reveal_strlit("[");
    reveal_strlit("]");
    reveal_strlit("[]");
    assert(headers_json(Seq::empty()) =~= "[]"@);
}


/// Every ASCII digit, letter of either case and the underscore is a word
/// character, as `\w` holds them.
pub proof fn law_ascii_alphanumerics_are_word_chars(c: char)
    requires
        ('0' <= c && c <= '9') || ('A' <= c && c <= 'Z') || ('a' <= c && c <= 'z') || c == '_',
    ensures
        is_word_char(c),
{
}

/// A placeholder `{{n}}` whose name is made of ASCII digits, letters and
/// underscores fills with the value of `n`.
pub proof fn law_ascii_placeholder_fills(n: Seq<char>, vars: Map<Seq<char>, Seq<char>>)
    requires
        n.len() > 0,
        forall|k: int|
            0 <= k < n.len() ==> ('0' <= #[trigger] n[k] && n[k] <= '9') || ('A' <= n[k] && n[k]
                <= 'Z') || ('a' <= n[k] && n[k] <= 'z') || n[k] == '_',
        vars.contains_key(n),
    ensures
        fill_spec(seq!['{', '{'] + n + seq!['}', '}'], vars) == Ok::<Seq<char>, Seq<Seq<char>>>(
            vars[n],
        ),
{
    assert forall|k: int| 0 <= k < n.len() implies is_word_char(#[trigger] n[k]) by {
        law_ascii_alphanumerics_are_word_chars(n[k]);
    }
    let e = Seq::<char>::empty();
    law_placeholder_fills_with_value(n, e, e, vars);
    assert(seq!['{', '{'] + e + n + e + seq!['}', '}'] =~= seq!['{', '{'] + n + seq!['}', '}']);
}

/// Adding a variable after others sets its name to its value and leaves
/// every other name as it was, whatever the variable's other fields.
pub proof fn law_vars_map_push(s: Seq<Variable>, v: Variable)
    ensures
        vars_map(s.push(v)) == vars_map(s).insert(v.name@, v.value@),
{
    assert(s.push(v).drop_last() =~= s);
}

/// Every variable given has its name in the map, and a variable that no
/// later one of the same name follows gives the name its value.
pub proof fn law_every_variable_is_in_the_map(s: Seq<Variable>)
    ensures
        forall|i: int| 0 <= i < s.len() ==> #[trigger] vars_map(s).contains_key(s[i].name@),
        forall|i: int|
            0 <= i < s.len() && (forall|j: int| i < j < s.len() ==> s[j].name@ != s[i].name@)
                ==> #[trigger] vars_map(s)[s[i].name@] == s[i].value@,
    decreases s.len(),
{
    if s.len() > 0 {
        let p = s.drop_last();
        law_every_variable_is_in_the_map(p);
        law_vars_map_push(p, s.last());
        assert(p.push(s.last()) =~= s);
        assert forall|i: int| 0 <= i < s.len() implies #[trigger] vars_map(s).contains_key(
            s[i].name@,
        ) by {
            if i < s.len() - 1 {
                assert(s[i] == p[i]);
            }
        }
        assert forall|i: int|
            0 <= i < s.len() && (forall|j: int| i < j < s.len() ==> s[j].name@ != s[i].name@)
                implies #[trigger] vars_map(s)[s[i].name@] == s[i].value@ by {
            if i < s.len() - 1 {
                assert(s[i] == p[i]);
                assert(s[s.len() - 1].name@ != s[i].name@);
                assert forall|j: int| i < j < p.len() implies p[j].name@ != p[i].name@ by {
                    assert(p[j] == s[j]);
                }
            }
        }
    }
}

/// The JSON of headers holds one object per header, in order: appending a
/// header puts its object, after a comma when others come before it, just
/// before the closing bracket.
pub proof fn law_headers_json_appends_one_object(hs: Seq<(String, String)>, h: (String, String))
    ensures
        headers_json(hs.push(h)) == headers_json(hs).drop_last() + (if hs.len() > 0 {
            ","@
        } else {
            Seq::<char>::empty()
        }) + header_object_json(h) + "]"@,
{
    reveal_strlit("]");
    reveal_strlit("[");
    let t = hs.push(h);
    assert(t.drop_last() =~= hs);
    assert(t.last() == h);
    if hs.len() == 0 {
        assert(t[0] == h);
        assert(header_objects_json(hs) == Seq::<char>::empty());
    }
    assert(headers_json(hs).drop_last() =~= "["@ + header_objects_json(hs));
    if hs.len() > 0 {
        assert(headers_json(t) =~= "["@ + header_objects_json(hs) + ","@ + header_object_json(h)
            + "]"@);
    } else {
        assert(headers_json(t) =~= "["@ + header_object_json(h) + "]"@);
    }
}

} // verus!
