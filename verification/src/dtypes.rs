//! The data types of the application: HTTP methods, stored requests and
//! their headers and query parameters, workspaces, collections,
//! environments and variables.
use vstd::prelude::*;

use crate::text::str_eq;

verus! {

/// The HTTP methods a stored request can use.
#[derive(Debug, Clone, Copy, PartialEq, Eq, Structural)]
pub enum Method {
    GET,
    POST,
    PUT,
    DELETE,
    HEAD,
    OPTIONS,
    CONNECT,
    PATCH,
    TRACE,
}

/// The canonical (upper-case) name of a method.
pub open spec fn method_name(m: Method) -> Seq<char> {
    match m {
        Method::GET => "GET"@,
        Method::POST => "POST"@,
        Method::PUT => "PUT"@,
        Method::DELETE => "DELETE"@,
        Method::HEAD => "HEAD"@,
        Method::OPTIONS => "OPTIONS"@,
        Method::CONNECT => "CONNECT"@,
        Method::PATCH => "PATCH"@,
        Method::TRACE => "TRACE"@,
    }
}

/// The method whose canonical name is `s`, if any.
pub open spec fn method_from_name(s: Seq<char>) -> Option<Method> {
    if s == "GET"@ {
        Some(Method::GET)
    } else if s == "POST"@ {
        Some(Method::POST)
    } else if s == "PUT"@ {
        Some(Method::PUT)
    } else if s == "DELETE"@ {
        Some(Method::DELETE)
    } else if s == "HEAD"@ {
        Some(Method::HEAD)
    } else if s == "OPTIONS"@ {
        Some(Method::OPTIONS)
    } else if s == "CONNECT"@ {
        Some(Method::CONNECT)
    } else if s == "PATCH"@ {
        Some(Method::PATCH)
    } else if s == "TRACE"@ {
        Some(Method::TRACE)
    } else {
        None
    }
}

impl Method {
    /// The canonical name of the method, e.g. `"GET"`.
    pub fn as_str(&self) -> (r: &'static str)
        ensures
            r@ == method_name(*self),
    {
        match self {
            Method::GET => "GET",
            Method::POST => "POST",
            Method::PUT => "PUT",
            Method::DELETE => "DELETE",
            Method::HEAD => "HEAD",
            Method::OPTIONS => "OPTIONS",
            Method::CONNECT => "CONNECT",
            Method::PATCH => "PATCH",
            Method::TRACE => "TRACE",
        }
    }
}

impl<'a> TryFrom<&'a str> for Method {
    type Error = &'static str;

    fn try_from(value: &'a str) -> (r: Result<Method, &'static str>) {
        parse_method(value)
    }
}

impl<'a> vstd::std_specs::convert::TryFromSpecImpl<&'a str> for Method {
    open spec fn obeys_try_from_spec() -> bool {
        true
    }

    open spec fn try_from_spec(v: &'a str) -> Result<Method, &'static str> {
        match method_from_name(v@) {
            Some(m) => Ok(m),
            None => Err("unknown/unsupported method"),
        }
    }
}

/// Parses a method from its canonical name (case-sensitive).
pub fn parse_method(value: &str) -> (r: Result<Method, &'static str>)
    ensures
        match method_from_name(value@) {
            Some(m) => r == Ok::<Method, &'static str>(m),
            None => r == Err::<Method, &'static str>("unknown/unsupported method"),
        },
{
    if str_eq(value, "GET") {
        Ok(Method::GET)
    } else if str_eq(value, "POST") {
        Ok(Method::POST)
    } else if str_eq(value, "PUT") {
        Ok(Method::PUT)
    } else if str_eq(value, "DELETE") {
        Ok(Method::DELETE)
    } else if str_eq(value, "HEAD") {
        Ok(Method::HEAD)
    } else if str_eq(value, "OPTIONS") {
        Ok(Method::OPTIONS)
    } else if str_eq(value, "CONNECT") {
        Ok(Method::CONNECT)
    } else if str_eq(value, "PATCH") {
        Ok(Method::PATCH)
    } else if str_eq(value, "TRACE") {
        Ok(Method::TRACE)
    } else {
        Err("unknown/unsupported method")
    }
}

/// Every method's name parses back to that method, and a name parses only
/// to the method it names.
pub proof fn lemma_method_name_roundtrip(m: Method)
    ensures
        method_from_name(method_name(m)) == Some(m),
        forall|s: Seq<char>| #[trigger] method_from_name(s) == Some(m) ==> method_name(m) == s,
{
    reveal_strlit("GET");
    reveal_strlit("POST");
    reveal_strlit("PUT");
    reveal_strlit("DELETE");
    reveal_strlit("HEAD");
    reveal_strlit("OPTIONS");
    reveal_strlit("CONNECT");
    reveal_strlit("PATCH");
    reveal_strlit("TRACE");
    assert("GET"@.len() == 3 && "GET"@[0] == 'G');
    assert("POST"@.len() == 4 && "POST"@[0] == 'P');
    assert("PUT"@.len() == 3 && "PUT"@[0] == 'P');
    assert("DELETE"@.len() == 6 && "DELETE"@[0] == 'D');
    assert("HEAD"@.len() == 4 && "HEAD"@[0] == 'H');
    assert("OPTIONS"@.len() == 7 && "OPTIONS"@[0] == 'O');
    assert("CONNECT"@.len() == 7 && "CONNECT"@[0] == 'C');
    assert("PATCH"@.len() == 5 && "PATCH"@[0] == 'P');
    assert("TRACE"@.len() == 5 && "TRACE"@[0] == 'T');
}

/// `chrono::NaiveDateTime`, the timestamps the database records; the
/// library only carries them.
#[verifier::external_type_specification]
#[verifier::external_body]
pub struct ExNaiveDateTime(chrono::NaiveDateTime);

/// A response or request header.
#[derive(Debug)]
pub struct HeaderEntry {
    pub key: String,
    pub value: String,
}

/// A workspace: the top-level grouping of collections and environments.
#[derive(Debug)]
pub struct Workspace {
    pub id: i64,
    pub name: String,
    pub description: String,
    pub default_env: Option<i64>,
    pub created_at: chrono::NaiveDateTime,
    pub updated_at: chrono::NaiveDateTime,
}

/// An environment: a named set of variables within a workspace.
#[derive(Debug)]
pub struct Environment {
    pub id: i64,
    pub workspace_id: i64,
    pub name: String,
    pub description: String,
    pub created_at: chrono::NaiveDateTime,
    pub updated_at: chrono::NaiveDateTime,
}

/// A variable of an environment or a collection.
#[derive(Debug)]
pub struct Variable {
    pub id: i64,
    pub name: String,
    pub description: String,
    pub value: String,
    pub is_secret: bool,
    pub created_at: chrono::NaiveDateTime,
    pub updated_at: chrono::NaiveDateTime,
}

/// A collection of requests within a workspace.
#[derive(Debug)]
pub struct Collection {
    pub id: i64,
    pub workspace_id: i64,
    pub name: String,
    pub description: String,
    pub default_env: Option<i64>,
    pub created_at: chrono::NaiveDateTime,
    pub updated_at: chrono::NaiveDateTime,
}

/// A stored request; its URL, body and the values of its headers and query
/// parameters may hold `{{ name }}` placeholders.
#[derive(Debug)]
pub struct StoredRequest {
    pub id: i64,
    pub coll_id: i64,
    pub name: String,
    pub method: Method,
    pub url: String,
    pub body: Option<String>,
    pub created_at: chrono::NaiveDateTime,
    pub updated_at: chrono::NaiveDateTime,
}

/// A header of a stored request.
#[derive(Debug)]
pub struct RequestHeader {
    pub id: i64,
    pub req_id: i64,
    pub hkey: String,
    pub hval: String,
    pub created_at: chrono::NaiveDateTime,
    pub updated_at: chrono::NaiveDateTime,
}

/// A query parameter of a stored request.
#[derive(Debug)]
pub struct RequestQueryParam {
    pub id: i64,
    pub req_id: i64,
    pub qkey: String,
    pub qval: String,
    pub created_at: chrono::NaiveDateTime,
    pub updated_at: chrono::NaiveDateTime,
}

} // verus!
