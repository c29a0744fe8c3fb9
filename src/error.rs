//! Errors of the server side and the JSON body that reports them.
use vstd::prelude::*;
use vstd::string::StringExecFns;

verus! {

/// The HTTP status of a missing route.
pub const STATUS_NOT_FOUND: u16 = 404;

/// The HTTP status of an internal failure.
pub const STATUS_INTERNAL_SERVER_ERROR: u16 = 500;

/// A failure of the server's configuration or startup.
#[derive(Debug)]
pub enum MetrsError {
    Error(String),
    /// Text that the command line asked for (help or version), to show before
    /// a successful exit.
    Usage(String),
}

impl MetrsError {
    /// The description carried by the error.
    pub fn message(&self) -> (r: &str)
        ensures
            match self {
                MetrsError::Error(m) => r@ == m@,
                MetrsError::Usage(m) => r@ == m@,
            },
    {
        match self {
            MetrsError::Error(m) => m.as_str(),
            MetrsError::Usage(m) => m.as_str(),
        }
    }
}

/// A failure reported to an HTTP client: a status code and a description.
#[derive(Debug)]
pub struct HttpError {
    pub status: u16,
    pub msg: String,
}

/// The lower-case hexadecimal digit of `d`, for `d` below 16.
pub open spec fn hex_digit(d: u32) -> char {
    seq!['0', '1', '2', '3', '4', '5', '6', '7', '8', '9', 'a', 'b', 'c', 'd', 'e', 'f'][d as int]
}

/// Whether JSON needs `c` escaped inside a string: a quote, a backslash, or a
/// control character below U+0020.
pub open spec fn needs_escape(c: char) -> bool {
    c == '"' || c == '\\' || (c as u32) < 0x20
}

/// How serde_json writes `c` inside a string: the short escapes for quote,
/// backslash, backspace, tab, line feed, form feed and carriage return,
/// `\u00XX` for the other control characters, and any other character as is.
pub open spec fn json_escape(c: char) -> Seq<char> {
    if c == '"' {
        seq!['\\', '"']
    } else if c == '\\' {
        seq!['\\', '\\']
    } else if c == '\u{8}' {
        seq!['\\', 'b']
    } else if c == '\t' {
        seq!['\\', 't']
    } else if c == '\n' {
        seq!['\\', 'n']
    } else if c == '\u{c}' {
        seq!['\\', 'f']
    } else if c == '\r' {
        seq!['\\', 'r']
    } else if (c as u32) < 0x20 {
        seq!['\\', 'u', '0', '0', hex_digit(c as u32 / 16), hex_digit(c as u32 % 16)]
    } else {
        seq![c]
    }
}

/// The characters of `s`, each written as `json_escape` writes it.
pub open spec fn json_escaped(s: Seq<char>) -> Seq<char>
    decreases s.len(),
{
    if s.len() == 0 {
        Seq::empty()
    } else {
        json_escaped(s.drop_last()) + json_escape(s.last())
    }
}

/// The JSON string literal of `s`: quoted, with its characters escaped.
pub open spec fn json_string_literal(s: Seq<char>) -> Seq<char> {
    seq!['"'] + json_escaped(s) + seq!['"']
}

/// A string with nothing to escape is written as it is.
pub proof fn lemma_json_escaped_plain(s: Seq<char>)
    requires
        forall|i: int| 0 <= i < s.len() ==> !needs_escape(#[trigger] s[i]),
    ensures
        json_escaped(s) == s,
    decreases s.len(),
{
    if s.len() > 0 {
        let init = s.drop_last();
        assert forall|i: int| 0 <= i < init.len() implies !needs_escape(#[trigger] init[i]) by {
            assert(init[i] == s[i]);
        }
        lemma_json_escaped_plain(init);
        assert(!needs_escape(s[s.len() - 1]));
        assert(init + seq![s.last()] =~= s);
    }
}

/// Relies on serde_json::to_string on a `str`: it writes the quoted literal,
/// escaping through its `ESCAPE` table and `write_char_escape`, into an
/// in-memory buffer, which cannot fail for a string.
#[verifier::external_body]
fn json_string(s: &str) -> (r: String)
    ensures
        r@ == json_string_literal(s@),
{
    serde_json::to_string(s).unwrap_or_default()
}

/// The JSON body of an error response with description `msg@`.
pub open spec fn error_body_of(msg: Seq<char>) -> Seq<char> {
    "{\"msg\":"@ + json_string_literal(msg) + "}"@
}

impl HttpError {
    /// The error answered for a path that no route handles.
    pub fn unhandled_route() -> (r: HttpError)
        ensures
            r.status == STATUS_NOT_FOUND,
            r.msg@ == "Unhandled route"@,
    {
        HttpError { status: STATUS_NOT_FOUND, msg: String::from_str("Unhandled route") }
    }

    /// An internal failure with description `msg`.
    pub fn internal(msg: &str) -> (r: HttpError)
        ensures
            r.status == STATUS_INTERNAL_SERVER_ERROR,
            r.msg@ == msg@,
    {
        HttpError { status: STATUS_INTERNAL_SERVER_ERROR, msg: String::from_str(msg) }
    }

    /// The JSON body sent with the error: `{"msg":"<description>"}`.
    pub fn body(&self) -> (r: String)
        ensures
            r@ == error_body_of(self.msg@),
    {
        let quoted = json_string(self.msg.as_str());
        let r = String::from_str("{\"msg\":").concat(quoted.as_str()).concat("}");
        r
    }
}

/// The body answered for a path that no route handles is exactly
/// `{"msg":"Unhandled route"}`.
pub proof fn lemma_unhandled_route_body()
    ensures
        error_body_of("Unhandled route"@) == "{\"msg\":\"Unhandled route\"}"@,
{
    reveal_strlit("Unhandled route");
    reveal_strlit("{\"msg\":");
    reveal_strlit("}");
    reveal_strlit("{\"msg\":\"Unhandled route\"}");
    let m = "Unhandled route"@;
    assert forall|i: int| 0 <= i < m.len() implies !needs_escape(#[trigger] m[i]) by {}
    lemma_json_escaped_plain(m);
    assert(error_body_of(m) =~= "{\"msg\":\"Unhandled route\"}"@);
}

} // verus!
