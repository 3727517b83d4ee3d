use vstd::prelude::*;
use vstd::utf8::encode_utf8;

verus! {

/// The HTTP verbs a request can use.
#[derive(Clone, Copy, Debug, PartialEq, Eq, Structural)]
pub enum Method {
    GET,
    POST,
    PUT,
    PATCH,
    DELETE,
    HEAD,
    OPTIONS,
}

/// The verb's name, in upper case.
pub open spec fn method_name(m: Method) -> Seq<char> {
    match m {
        Method::GET => "GET"@,
        Method::POST => "POST"@,
        Method::PUT => "PUT"@,
        Method::PATCH => "PATCH"@,
        Method::DELETE => "DELETE"@,
        Method::HEAD => "HEAD"@,
        Method::OPTIONS => "OPTIONS"@,
    }
}

/// The verb that an upper-case name stands for; an unknown name stands for GET.
pub open spec fn method_named(u: Seq<char>) -> Method {
    if u == "GET"@ {
        Method::GET
    } else if u == "POST"@ {
        Method::POST
    } else if u == "PUT"@ {
        Method::PUT
    } else if u == "PATCH"@ {
        Method::PATCH
    } else if u == "DELETE"@ {
        Method::DELETE
    } else if u == "HEAD"@ {
        Method::HEAD
    } else if u == "OPTIONS"@ {
        Method::OPTIONS
    } else {
        Method::GET
    }
}

/// The verbs whose requests carry a body.
pub open spec fn sends_body(m: Method) -> bool {
    m == Method::POST || m == Method::PUT || m == Method::PATCH
}

impl Method {
    /// All verbs, in the order a picker lists them.
    pub fn all() -> (r: Vec<Method>)
        ensures
            r@ == seq![
                Method::GET,
                Method::POST,
                Method::PUT,
                Method::PATCH,
                Method::DELETE,
                Method::HEAD,
                Method::OPTIONS,
            ],
    {
        vec![
            Method::GET,
            Method::POST,
            Method::PUT,
            Method::PATCH,
            Method::DELETE,
            Method::HEAD,
            Method::OPTIONS,
        ]
    }

    /// The verb's name, in upper case.
    pub fn as_str(&self) -> (r: &'static str)
        ensures
            r@ == method_name(*self),
    {
        match self {
            Method::GET => "GET",
            Method::POST => "POST",
            Method::PUT => "PUT",
            Method::PATCH => "PATCH",
            Method::DELETE => "DELETE",
            Method::HEAD => "HEAD",
            Method::OPTIONS => "OPTIONS",
        }
    }

    /// The verb that an upper-case name stands for; an unknown name gives GET.
    pub fn from_upper(u: &str) -> (r: Method)
        ensures
            r == method_named(u@),
    {
        let cs = crate::text::chars_of(u);
        if crate::text::chars_eq(&cs, "GET") {
            Method::GET
        } else if crate::text::chars_eq(&cs, "POST") {
            Method::POST
        } else if crate::text::chars_eq(&cs, "PUT") {
            Method::PUT
        } else if crate::text::chars_eq(&cs, "PATCH") {
            Method::PATCH
        } else if crate::text::chars_eq(&cs, "DELETE") {
            Method::DELETE
        } else if crate::text::chars_eq(&cs, "HEAD") {
            Method::HEAD
        } else if crate::text::chars_eq(&cs, "OPTIONS") {
            Method::OPTIONS
        } else {
            Method::GET
        }
    }

    /// Whether a request with this verb carries its body.
    pub fn sends_body(&self) -> (r: bool)
        ensures
            r == sends_body(*self),
    {
        matches!(self, Method::POST | Method::PUT | Method::PATCH)
    }
}

impl Default for Method {
    fn default() -> (r: Method)
        ensures
            r == Method::GET,
    {
        Method::GET
    }
}

/// The credentials that a request presents.
#[derive(Clone, Debug, PartialEq, Eq)]
pub enum Auth {
    NoAuth,
    Bearer { token: String },
    Basic { username: String, password: String },
}

/// What an `Auth` holds, as character sequences.
pub enum AuthView {
    NoAuth,
    Bearer(Seq<char>),
    Basic(Seq<char>, Seq<char>),
}

impl View for Auth {
    type V = AuthView;

    open spec fn view(&self) -> AuthView {
        match self {
            Auth::NoAuth => AuthView::NoAuth,
            Auth::Bearer { token } => AuthView::Bearer(token@),
            Auth::Basic { username, password } => AuthView::Basic(username@, password@),
        }
    }
}

/// The kinds of credentials that the request form offers.
#[derive(Clone, Copy, Debug, PartialEq, Eq, Structural)]
pub enum AuthKind {
    NoAuth,
    Bearer,
    Basic,
}

impl AuthKind {
    /// The label that the form shows for this kind.
    pub fn label(&self) -> (r: &'static str)
        ensures
            r@ == match *self {
                AuthKind::NoAuth => "No Auth"@,
                AuthKind::Bearer => "Bearer Token"@,
                AuthKind::Basic => "Basic Auth"@,
            },
    {
        match self {
            AuthKind::NoAuth => "No Auth",
            AuthKind::Bearer => "Bearer Token",
            AuthKind::Basic => "Basic Auth",
        }
    }
}

/// The credentials that the form's fields describe: a kind whose field is left empty
/// (the token, or the user name) presents nothing.
pub open spec fn form_auth(kind: AuthKind, token: Seq<char>, username: Seq<char>, password: Seq<char>) -> AuthView {
    match kind {
        AuthKind::NoAuth => AuthView::NoAuth,
        AuthKind::Bearer => if token.len() == 0 {
            AuthView::NoAuth
        } else {
            AuthView::Bearer(token)
        },
        AuthKind::Basic => if username.len() == 0 {
            AuthView::NoAuth
        } else {
            AuthView::Basic(username, password)
        },
    }
}

impl Auth {
    /// The credentials that the form's fields describe.
    pub fn from_form(kind: AuthKind, token: &str, username: &str, password: &str) -> (r: Auth)
        ensures
            r@ == form_auth(kind, token@, username@, password@),
    {
        match kind {
            AuthKind::NoAuth => Auth::NoAuth,
            AuthKind::Bearer => if token.is_empty() {
                Auth::NoAuth
            } else {
                Auth::Bearer { token: token.to_owned() }
            },
            AuthKind::Basic => if username.is_empty() {
                Auth::NoAuth
            } else {
                Auth::Basic { username: username.to_owned(), password: password.to_owned() }
            },
        }
    }
}

/// One outgoing request, as the user describes it.
#[derive(Clone, Debug, PartialEq, Eq)]
pub struct RequestSpec {
    pub method: Method,
    pub url: String,
    /// Raw `Name: Value` lines, in order; a name may repeat.
    pub headers: Vec<String>,
    /// Raw `key=value` lines, in order.
    pub params: Vec<String>,
    pub body: String,
    pub auth: Auth,
}

/// A response as received: status, reason phrase, headers in order, body, and timing.
#[derive(Clone, Debug, PartialEq, Eq)]
pub struct Response {
    pub status: u16,
    pub status_text: String,
    pub headers: Vec<(String, String)>,
    pub body: String,
    /// Round trip time, body read included, in microseconds.
    pub duration_micros: u64,
    /// Length of the body in bytes.
    pub size: usize,
}

impl Response {
    /// A response whose size is the byte length of its body.
    pub fn new(
        status: u16,
        status_text: String,
        headers: Vec<(String, String)>,
        body: String,
        duration_micros: u64,
    ) -> (r: Response)
        ensures
            r.status == status,
            r.status_text == status_text,
            r.headers == headers,
            r.body == body,
            r.duration_micros == duration_micros,
            r.size == encode_utf8(body@).len() as usize,
    {
        let size = body.as_str().len();
        Response { status, status_text, headers, body, duration_micros, size }
    }
}

/// What is kept of each completed request.
#[derive(Clone, Debug, PartialEq, Eq)]
pub struct HistoryEntry {
    pub method: Method,
    pub url: String,
    pub status: u16,
}

} // verus!
