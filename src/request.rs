use vstd::prelude::*;

use crate::codec::{base64_encode, base64_text};
use crate::model::{sends_body, Auth, AuthView, Method, RequestSpec};
use crate::text::{chars_of, split_first, split_first_char, string_of, strings_view, trim, trimmed};

verus! {

/// The `key=value` lines that go into a query: those holding `=`.
pub open spec fn query_pairs(lines: Seq<Seq<char>>) -> Seq<Seq<char>>
    decreases lines.len(),
{
    if lines.len() == 0 {
        Seq::empty()
    } else {
        let kept = query_pairs(lines.drop_last());
        if lines.last().contains('=') {
            kept.push(lines.last())
        } else {
            kept
        }
    }
}

/// The pieces one after another, with `&` between each two.
pub open spec fn join_amp(ps: Seq<Seq<char>>) -> Seq<char>
    decreases ps.len(),
{
    if ps.len() == 0 {
        Seq::empty()
    } else if ps.len() == 1 {
        ps[0]
    } else {
        join_amp(ps.drop_last()) + seq!['&'] + ps.last()
    }
}

/// The URL with its query lines appended: after `?`, or after `&` where the URL already
/// holds a `?`; unchanged where no line holds `=`. Nothing is percent-encoded.
pub open spec fn url_with_query(base: Seq<char>, lines: Seq<Seq<char>>) -> Seq<char> {
    let ps = query_pairs(lines);
    if ps.len() == 0 {
        base
    } else {
        base + seq![if base.contains('?') { '&' } else { '?' }] + join_amp(ps)
    }
}

/// The `Authorization` header that credentials give, if any.
pub open spec fn auth_header(a: AuthView) -> Option<(Seq<char>, Seq<char>)> {
    match a {
        AuthView::NoAuth => None,
        AuthView::Bearer(token) => Some(("Authorization"@, "Bearer "@ + token)),
        AuthView::Basic(user, pass) => Some(
            ("Authorization"@, "Basic "@ + base64_text(user + seq![':'] + pass)),
        ),
    }
}

/// A `Name: Value` line as a header: split at the first `:`, both sides trimmed. A line
/// without `:` gives none.
pub open spec fn header_pair(line: Seq<char>) -> Option<(Seq<char>, Seq<char>)> {
    match split_first(line, ':') {
        Some((k, v)) => Some((trim(k), trim(v))),
        None => None,
    }
}

/// The headers that the lines give, in order.
pub open spec fn header_pairs(lines: Seq<Seq<char>>) -> Seq<(Seq<char>, Seq<char>)>
    decreases lines.len(),
{
    if lines.len() == 0 {
        Seq::empty()
    } else {
        let kept = header_pairs(lines.drop_last());
        match header_pair(lines.last()) {
            Some(h) => kept.push(h),
            None => kept,
        }
    }
}

/// Every header sent: the one from the credentials first, then those of the lines.
pub open spec fn sent_headers(a: AuthView, lines: Seq<Seq<char>>) -> Seq<(Seq<char>, Seq<char>)> {
    match auth_header(a) {
        Some(h) => seq![h] + header_pairs(lines),
        None => header_pairs(lines),
    }
}

/// The body sent: only POST, PUT and PATCH send one, and only when it is not empty.
pub open spec fn sent_body(m: Method, body: Seq<char>) -> Option<Seq<char>> {
    if sends_body(m) && body.len() > 0 {
        Some(body)
    } else {
        None
    }
}

/// Credentials short enough to be encoded.
pub open spec fn auth_fits(a: AuthView) -> bool {
    match a {
        AuthView::Basic(user, pass) => user.len() + pass.len() + 1 <= usize::MAX / 8,
        _ => true,
    }
}

/// A request as it goes to the network.
#[derive(Clone, Debug, PartialEq, Eq)]
pub struct OutgoingRequest {
    pub method: Method,
    pub url: String,
    pub headers: Vec<(String, String)>,
    pub body: Option<String>,
}

pub open spec fn pairs_view(v: Seq<(String, String)>) -> Seq<(Seq<char>, Seq<char>)> {
    v.map_values(|p: (String, String)| (p.0@, p.1@))
}

pub open spec fn body_view(b: Option<String>) -> Option<Seq<char>> {
    match b {
        Some(t) => Some(t@),
        None => None,
    }
}

/// The URL with its query lines appended.
pub fn url_with_params(base: &str, lines: &Vec<String>) -> (r: String)
    ensures
        r@ == url_with_query(base@, strings_view(lines@)),
{
    let ghost ls = strings_view(lines@);
    let mut query = String::new();
    let mut count: usize = 0;
    let mut i: usize = 0;
    while i < lines.len()
        invariant
            i <= lines@.len(),
            ls == strings_view(lines@),
            count <= i,
            count == query_pairs(ls.take(i as int)).len(),
            query@ == join_amp(query_pairs(ls.take(i as int))),
        decreases lines@.len() - i,
    {
        let line = &lines[i];
        let cs = chars_of(line.as_str());
        assert(ls.take(i + 1).drop_last() =~= ls.take(i as int));
        assert(ls.take(i + 1).last() == cs@);
        if let Some(_) = crate::text::find_char(&cs, '=') {
            assert(cs@.contains('='));
            let ghost ps = query_pairs(ls.take(i as int));
            assert(ps.push(cs@).drop_last() =~= ps);
            if count > 0 {
                query.push('&');
            }
            query.append(line.as_str());
            assert(query@ =~= join_amp(ps.push(cs@)));
            count = count + 1;
        } else {
            assert(!cs@.contains('='));
        }
        i += 1;
    }
    assert(ls.take(lines@.len() as int) =~= ls);
    if count == 0 {
        return base.to_owned();
    }
    let bc = chars_of(base);
    let mut url = base.to_owned();
    match crate::text::find_char(&bc, '?') {
        Some(_) => {
            url.push('&');
        },
        None => {
            url.push('?');
        },
    }
    url.append(query.as_str());
    url
}

/// The `Authorization` header that credentials give, if any.
pub fn authorization(auth: &Auth) -> (r: Option<(String, String)>)
    requires
        auth_fits(auth@),
    ensures
        match (r, auth_header(auth@)) {
            (Some((k, v)), Some((x, y))) => k@ == x && v@ == y,
            (None, None) => true,
            _ => false,
        },
{
    match auth {
        Auth::NoAuth => None,
        Auth::Bearer { token } => {
            let mut v = "Bearer ".to_owned();
            v.append(token.as_str());
            Some(("Authorization".to_owned(), v))
        },
        Auth::Basic { username, password } => {
            let mut creds = username.clone();
            creds.push(':');
            creds.append(password.as_str());
            assert(creds@ == username@ + seq![':'] + password@);
            let mut v = "Basic ".to_owned();
            v.append(base64_encode(creds.as_str()).as_str());
            Some(("Authorization".to_owned(), v))
        },
    }
}

/// A `Name: Value` line as a header, both sides trimmed; a line without `:` gives none.
pub fn split_header(line: &str) -> (r: Option<(String, String)>)
    ensures
        match (r, header_pair(line@)) {
            (Some((k, v)), Some((x, y))) => k@ == x && v@ == y,
            (None, None) => true,
            _ => false,
        },
{
    let cs = chars_of(line);
    match split_first_char(&cs, ':') {
        Some((k, v)) => {
            let k2 = string_of(&trimmed(&chars_of(k.as_str())));
            let v2 = string_of(&trimmed(&chars_of(v.as_str())));
            Some((k2, v2))
        },
        None => None,
    }
}

/// The request that goes to the network for a description: its verb, its URL with the
/// query appended, the credentials' header before the header lines, and the body only for
/// POST, PUT and PATCH, and only when it is not empty.
pub fn prepare_request(spec: &RequestSpec) -> (r: OutgoingRequest)
    requires
        auth_fits(spec.auth@),
    ensures
        r.method == spec.method,
        r.url@ == url_with_query(spec.url@, strings_view(spec.params@)),
        pairs_view(r.headers@) == sent_headers(spec.auth@, strings_view(spec.headers@)),
        body_view(r.body) == sent_body(spec.method, spec.body@),
        !sends_body(spec.method) ==> r.body is None,
        sends_body(spec.method) && spec.body@.len() > 0 ==> body_view(r.body) == Some(spec.body@),
{
    let url = url_with_params(spec.url.as_str(), &spec.params);
    let ghost ls = strings_view(spec.headers@);
    let mut headers: Vec<(String, String)> = Vec::new();
    let ghost first: Seq<(Seq<char>, Seq<char>)> = Seq::empty();
    if let Some(h) = authorization(&spec.auth) {
        headers.push(h);
        proof {
            first = seq![auth_header(spec.auth@).unwrap()];
        }
    }
    assert(pairs_view(headers@) =~= first);
    let mut i: usize = 0;
    while i < spec.headers.len()
        invariant
            i <= spec.headers@.len(),
            ls == strings_view(spec.headers@),
            pairs_view(headers@) == first + header_pairs(ls.take(i as int)),
        decreases spec.headers@.len() - i,
    {
        assert(ls.take(i + 1).drop_last() =~= ls.take(i as int));
        if let Some(h) = split_header(spec.headers[i].as_str()) {
            let ghost before = pairs_view(headers@);
            headers.push(h);
            assert(pairs_view(headers@) =~= before.push((h.0@, h.1@)));
        }
        assert(first + header_pairs(ls.take(i + 1)) =~= pairs_view(headers@));
        i += 1;
    }
    assert(ls.take(spec.headers@.len() as int) =~= ls);
    proof {
        if auth_header(spec.auth@) is None {
            assert(first + header_pairs(ls) =~= header_pairs(ls));
        }
    }
    let body = if spec.method.sends_body() && !spec.body.as_str().is_empty() {
        Some(spec.body.clone())
    } else {
        None
    };
    OutgoingRequest { method: spec.method, url, headers, body }
}

/// Two query lines go after a `?` when the URL has none, and after a `&` when it has one.
pub proof fn lemma_query_separator(base: Seq<char>, a: Seq<char>, b: Seq<char>)
    requires
        a.contains('='),
        b.contains('='),
    ensures
        !base.contains('?') ==> url_with_query(base, seq![a, b]) == base + seq!['?'] + a + seq!['&'] + b,
        base.contains('?') ==> url_with_query(base, seq![a, b]) == base + seq!['&'] + a + seq!['&'] + b,
{
    let ls = seq![a, b];
    assert(ls.drop_last() =~= seq![a]);
    assert(seq![a].drop_last() =~= Seq::<Seq<char>>::empty());
    assert(query_pairs(Seq::<Seq<char>>::empty()) == Seq::<Seq<char>>::empty());
    assert(seq![a].last() == a);
    assert(query_pairs(seq![a]) =~= seq![a]);
    let ps = query_pairs(ls);
    assert(ps =~= seq![a].push(b));
    assert(ps.drop_last() =~= seq![a]);
    assert(join_amp(seq![a]) == a);
    assert(join_amp(ps) == a + seq!['&'] + b);
    assert(base + seq!['?'] + (a + seq!['&'] + b) =~= base + seq!['?'] + a + seq!['&'] + b);
    assert(base + seq!['&'] + (a + seq!['&'] + b) =~= base + seq!['&'] + a + seq!['&'] + b);
}

} // verus!
