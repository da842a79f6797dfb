//! The decisions behind the command handlers: which workspace, collection
//! and environment a command means, how `Key: Value` and `key=value`
//! arguments split, and which values an update keeps.
use vstd::prelude::*;

use crate::cli::{
    CollUpdateArgs, EnvUpdateArgs, EnvVarUpdateArgs, ReqUpdateArgs, WorkUpdateArgs,
};
use crate::conf::AppConfig;
use crate::dtypes::{method_name, Collection, Environment, StoredRequest, Variable, Workspace};
use crate::text::{chars_of, extend_chars, string_from_chars};

verus! {

// ── Creating ────────────────────────────────────────────────────────────

/// Checks the name given to a create command: it must not be empty. The
/// error is the message the command fails with, `<kind> name must not be
/// empty`.
pub fn check_new_name(kind: &str, name: &str) -> (r: Result<(), String>)
    ensures
        r is Ok <==> name@.len() > 0,
        r matches Err(m) ==> m@ == kind@ + " name must not be empty"@,
{
    let n = chars_of(name);
    if n.len() > 0 {
        Ok(())
    } else {
        let mut m = chars_of(kind);
        extend_chars(&mut m, &chars_of(" name must not be empty"));
        Err(string_from_chars(&m))
    }
}

/// The description a create command stores: the one given, or the empty
/// string.
pub fn description_or_empty(description: Option<&str>) -> (r: String)
    ensures
        r@ == match description {
            Some(d) => d@,
            None => Seq::<char>::empty(),
        },
{
    match description {
        Some(d) => String::from_str(d),
        None => string_from_chars(&Vec::new()),
    }
}

/// The method a new request gets: the one given, or `GET`.
pub fn method_or_get(method: Option<&str>) -> (r: String)
    ensures
        r@ == match method {
            Some(m) => m@,
            None => "GET"@,
        },
{
    match method {
        Some(m) => String::from_str(m),
        None => String::from_str("GET"),
    }
}

// ── Splitting arguments ─────────────────────────────────────────────────

/// Whether `pat` occurs in `s` at position `i`.
pub open spec fn occurs_at(s: Seq<char>, pat: Seq<char>, i: int) -> bool {
    0 <= i && i + pat.len() <= s.len() && s.subrange(i, i + pat.len()) == pat
}

/// The first position, from `i` on, where `pat` occurs in `s`.
pub open spec fn find_from(s: Seq<char>, pat: Seq<char>, i: int) -> Option<int>
    decreases s.len() + 1 - i,
{
    if i < 0 || i + pat.len() > s.len() {
        None
    } else if occurs_at(s, pat, i) {
        Some(i)
    } else {
        find_from(s, pat, i + 1)
    }
}

/// `s` split around the first occurrence of `pat`, as `str::split_once`
/// splits it.
pub open spec fn split_once_spec(s: Seq<char>, pat: Seq<char>) -> Option<(Seq<char>, Seq<char>)> {
    match find_from(s, pat, 0) {
        Some(i) => Some((s.subrange(0, i), s.subrange(i + pat.len(), s.len() as int))),
        None => None,
    }
}

fn occurs_at_exec(s: &Vec<char>, pat: &Vec<char>, i: usize) -> (r: bool)
    requires
        i + pat@.len() <= s@.len(),
    ensures
        r == occurs_at(s@, pat@, i as int),
{
    let mut k: usize = 0;
    while k < pat.len()
        invariant
            k <= pat@.len(),
            i + pat@.len() <= s@.len(),
            s@.len() == s.len(),
            pat@.len() == pat.len(),
            forall|j: int| 0 <= j < k ==> s@[i + j] == pat@[j],
        decreases pat@.len() - k,
    {
        if s[i + k] != pat[k] {
            assert(s@.subrange(i as int, i + pat@.len())[k as int] != pat@[k as int]);
            return false;
        }
        k = k + 1;
    }
    assert(s@.subrange(i as int, i + pat@.len()) =~= pat@);
    true
}

fn substring(s: &Vec<char>, b: usize, e: usize) -> (r: String)
    requires
        b <= e <= s@.len(),
    ensures
        r@ == s@.subrange(b as int, e as int),
{
    let mut v: Vec<char> = Vec::new();
    let mut k = b;
    while k < e
        invariant
            b <= k <= e <= s@.len(),
            v@ == s@.subrange(b as int, k as int),
        decreases e - k,
    {
        v.push(s[k]);
        assert(s@.subrange(b as int, k + 1) == s@.subrange(b as int, k as int).push(s@[k as int]));
        k = k + 1;
    }
    string_from_chars(&v)
}

proof fn lemma_find_from(s: Seq<char>, pat: Seq<char>, i: int)
    requires
        0 <= i,
    ensures
        find_from(s, pat, i) matches Some(k) ==> i <= k && occurs_at(s, pat, k) && forall|j: int|
            i <= j < k ==> !#[trigger] occurs_at(s, pat, j),
        find_from(s, pat, i) is None ==> forall|j: int| i <= j ==> !#[trigger] occurs_at(s, pat, j),
    decreases s.len() + 1 - i,
{
    if i + pat.len() <= s.len() && !occurs_at(s, pat, i) {
        lemma_find_from(s, pat, i + 1);
    }
}

/// Splitting cuts `s` at the first place `pat` occurs: the part before,
/// the pattern and the part after make up `s`, and the pattern occurs
/// nowhere earlier; where it occurs nowhere there is no split.
pub proof fn law_split_once_at_first_occurrence(s: Seq<char>, pat: Seq<char>)
    ensures
        split_once_spec(s, pat) matches Some((a, b)) ==> s == a + pat + b && forall|i: int|
            0 <= i < a.len() ==> !#[trigger] occurs_at(s, pat, i),
        split_once_spec(s, pat) is None ==> forall|i: int| 0 <= i ==> !#[trigger] occurs_at(s, pat, i),
{
    lemma_find_from(s, pat, 0);
    if let Some(k) = find_from(s, pat, 0) {
        assert(s =~= s.subrange(0, k) + s.subrange(k, k + pat.len()) + s.subrange(
            k + pat.len(),
            s.len() as int,
        ));
    }
}

/// Splits `s` around the first occurrence of `pat`.
pub fn split_once(s: &str, pat: &str) -> (r: Option<(String, String)>)
    ensures
        match split_once_spec(s@, pat@) {
            Some((a, b)) => r matches Some((x, y)) && x@ == a && y@ == b,
            None => r is None,
        },
{
    let cs = chars_of(s);
    let ps = chars_of(pat);
    if ps.len() > cs.len() {
        return None;
    }
    let last = cs.len() - ps.len();
    let plen = ps.len();
    let mut i: usize = 0;
    loop
        invariant
            cs@ == s@,
            ps@ == pat@,
            last + ps@.len() == cs@.len(),
            plen == ps@.len(),
            cs@.len() == cs.len(),
            i <= last,
            find_from(cs@, ps@, 0) == find_from(cs@, ps@, i as int),
        decreases last - i,
    {
        if occurs_at_exec(&cs, &ps, i) {
            let a = substring(&cs, 0, i);
            let start = i + plen;
            let b = substring(&cs, start, cs.len());
            return Some((a, b));
        }
        if i == last {
            assert(find_from(cs@, ps@, i + 1) is None);
            return None;
        }
        i = i + 1;
    }
}

/// Splits a header argument `Key: Value` at its first `": "`.
pub fn parse_header_arg(h: &str) -> (r: Option<(String, String)>)
    ensures
        match split_once_spec(h@, ": "@) {
            Some((a, b)) => r matches Some((x, y)) && x@ == a && y@ == b,
            None => r is None,
        },
{
    split_once(h, ": ")
}

/// Splits a query argument `key=value` at its first `=`.
pub fn parse_query_arg(q: &str) -> (r: Option<(String, String)>)
    ensures
        match split_once_spec(q@, "="@) {
            Some((a, b)) => r matches Some((x, y)) && x@ == a && y@ == b,
            None => r is None,
        },
{
    split_once(q, "=")
}

// ── Which workspace, collection and environment ─────────────────────────

/// The workspace a command means: the one it names, else the configured
/// default, else `default`.
pub open spec fn workspace_name_spec(name: Option<Seq<char>>, config: AppConfig) -> Seq<char> {
    match name {
        Some(n) => n,
        None => match config.defaults {
            Some(d) => match d.workspace {
                Some(w) => w@,
                None => "default"@,
            },
            None => "default"@,
        },
    }
}

/// The workspace a command means is the one it names; with no name, the
/// configured default workspace; with neither, `default`.
pub proof fn law_workspace_choice(name: Option<Seq<char>>, config: AppConfig)
    ensures
        name matches Some(n) ==> workspace_name_spec(name, config) == n,
        name is None && (config.defaults is None || config.defaults->0.workspace is None)
            ==> workspace_name_spec(name, config) == "default"@,
        name is None ==> (config.defaults matches Some(d) ==> (d.workspace matches Some(w)
            ==> workspace_name_spec(name, config) == w@)),
{
}

/// The name of the workspace a command means.
pub fn workspace_name(name: Option<&str>, config: &AppConfig) -> (r: String)
    ensures
        r@ == workspace_name_spec(
            match name {
                Some(n) => Some(n@),
                None => None,
            },
            *config,
        ),
        name matches Some(n) ==> r@ == n@,
        name is None && (config.defaults is None || config.defaults->0.workspace is None) ==> r@
            == "default"@,
        name is None ==> (config.defaults matches Some(d) ==> (d.workspace matches Some(w) ==> r@
            == w@)),
{
    match name {
        Some(n) => String::from_str(n),
        None => match &config.defaults {
            Some(d) => match &d.workspace {
                Some(w) => w.clone(),
                None => String::from_str("default"),
            },
            None => String::from_str("default"),
        },
    }
}

/// The name of the collection a command means: the one it names, else the
/// configured default, if any.
pub fn collection_name(name: Option<&str>, config: &AppConfig) -> (r: Option<String>)
    ensures
        match name {
            Some(n) => r matches Some(c) && c@ == n@,
            None => match config.defaults {
                Some(d) => match d.collection {
                    Some(c) => r matches Some(x) && x@ == c@,
                    None => r is None,
                },
                None => r is None,
            },
        },
{
    match name {
        Some(n) => Some(String::from_str(n)),
        None => match &config.defaults {
            Some(d) => match &d.collection {
                Some(c) => Some(c.clone()),
                None => None,
            },
            None => None,
        },
    }
}

/// With no collection named or configured, a command uses the workspace's
/// only collection; with none or several, there is no choice.
pub fn sole_collection(colls: Vec<Collection>) -> (r: Option<Collection>)
    ensures
        colls@.len() == 1 ==> r == Some(colls@[0]),
        colls@.len() != 1 ==> r is None,
{
    let mut colls = colls;
    if colls.len() == 1 {
        colls.pop()
    } else {
        None
    }
}

/// Which environment's variables a run uses.
#[derive(Debug)]
pub enum EnvChoice {
    /// The environment of this name, in the request's workspace.
    Named(String),
    /// The collection's default environment.
    ById(i64),
    /// No environment.
    NoEnv,
}

/// A run uses the environment it names, else the collection's default
/// environment, else none.
pub fn choose_environment(env: Option<&str>, coll: &Collection) -> (r: EnvChoice)
    ensures
        match env {
            Some(n) => r matches EnvChoice::Named(x) && x@ == n@,
            None => match coll.default_env {
                Some(id) => r == EnvChoice::ById(id),
                None => r == EnvChoice::NoEnv,
            },
        },
{
    match env {
        Some(n) => EnvChoice::Named(String::from_str(n)),
        None => match coll.default_env {
            Some(id) => EnvChoice::ById(id),
            None => EnvChoice::NoEnv,
        },
    }
}

// ── Updates ─────────────────────────────────────────────────────────────

/// The new value if one is given, else the current one.
pub open spec fn updated(new: Option<String>, current: Seq<char>) -> Seq<char> {
    match new {
        Some(n) => n@,
        None => current,
    }
}

/// An update takes each value it is given and keeps the current value of
/// each it is not given.
pub proof fn law_update_takes_given_values(new: Option<String>, current: Seq<char>)
    ensures
        new matches Some(n) ==> updated(new, current) == n@,
        new is None ==> updated(new, current) == current,
{
}

fn new_or_current(new: &Option<String>, current: &String) -> (r: String)
    ensures
        r@ == updated(*new, current@),
{
    match new {
        Some(n) => n.clone(),
        None => current.clone(),
    }
}

/// The fields a request keeps after an update.
#[derive(Debug)]
pub struct RequestFields {
    pub name: String,
    pub method: String,
    pub url: String,
    pub body: Option<String>,
}

/// The request's fields after an update: each given value replaces the
/// current one; the others stay.
pub fn request_update(args: &ReqUpdateArgs, req: &StoredRequest) -> (r: RequestFields)
    ensures
        r.name@ == updated(args.new_name, req.name@),
        r.method@ == updated(args.new_method, method_name(req.method)),
        r.url@ == updated(args.new_url, req.url@),
        match args.new_body {
            Some(b) => r.body matches Some(x) && x@ == b@,
            None => match req.body {
                Some(b) => r.body matches Some(x) && x@ == b@,
                None => r.body is None,
            },
        },
{
    let current_method = String::from_str(req.method.as_str());
    RequestFields {
        name: new_or_current(&args.new_name, &req.name),
        method: new_or_current(&args.new_method, &current_method),
        url: new_or_current(&args.new_url, &req.url),
        body: match &args.new_body {
            Some(b) => Some(b.clone()),
            None => match &req.body {
                Some(b) => Some(b.clone()),
                None => None,
            },
        },
    }
}

/// A workspace's name and description after an update.
pub fn workspace_update(args: &WorkUpdateArgs, ws: &Workspace) -> (r: (String, String))
    ensures
        r.0@ == updated(args.new_name, ws.name@),
        r.1@ == updated(args.new_description, ws.description@),
{
    (new_or_current(&args.new_name, &ws.name), new_or_current(&args.new_description, &ws.description))
}

/// A collection's name and description after an update.
pub fn collection_update(args: &CollUpdateArgs, coll: &Collection) -> (r: (String, String))
    ensures
        r.0@ == updated(args.new_name, coll.name@),
        r.1@ == updated(args.new_description, coll.description@),
{
    (
        new_or_current(&args.new_name, &coll.name),
        new_or_current(&args.new_description, &coll.description),
    )
}

/// An environment's name and description after an update.
pub fn environment_update(args: &EnvUpdateArgs, env: &Environment) -> (r: (String, String))
    ensures
        r.0@ == updated(args.new_name, env.name@),
        r.1@ == updated(args.new_description, env.description@),
{
    (
        new_or_current(&args.new_name, &env.name),
        new_or_current(&args.new_description, &env.description),
    )
}

/// The fields a variable keeps after an update.
#[derive(Debug)]
pub struct VariableFields {
    pub name: String,
    pub value: String,
    pub is_secret: bool,
    pub description: String,
}

/// A variable's fields after an update.
pub fn variable_update(args: &EnvVarUpdateArgs, var: &Variable) -> (r: VariableFields)
    ensures
        r.name@ == updated(args.new_name, var.name@),
        r.value@ == updated(args.new_value, var.value@),
        r.is_secret == match args.secret {
            Some(s) => s,
            None => var.is_secret,
        },
        r.description@ == updated(args.new_description, var.description@),
{
    VariableFields {
        name: new_or_current(&args.new_name, &var.name),
        value: new_or_current(&args.new_value, &var.value),
        is_secret: match args.secret {
            Some(s) => s,
            None => var.is_secret,
        },
        description: new_or_current(&args.new_description, &var.description),
    }
}

/// What listings show of a variable's value: a mask for secrets.
pub fn display_value(var: &Variable) -> (r: String)
    ensures
        r@ == if var.is_secret {
            "********"@
        } else {
            var.value@
        },
{
    if var.is_secret {
        String::from_str("********")
    } else {
        var.value.clone()
    }
}

} // verus!
