use vstd::prelude::*;
use vstd::utf8::{decode_utf8, valid_utf8};

use crate::codec::{base64_bytes, base64_decode, upper_of, uppercase, utf8_string};
use crate::model::{method_named, Auth, AuthView, Method, RequestSpec};
use crate::text::{
    chars_eq, chars_from, chars_of, chars_start_with, chars_start_with_fold, has_prefix,
    has_prefix_fold, split_first, split_first_char, string_of, string_of_range, strings_view, trim,
    trimmed,
};

verus! {

/// Where the word scan of a command line stands: the finished words, the word being read,
/// and the quote character that is open, if one is.
pub struct Scan {
    pub words: Seq<Seq<char>>,
    pub current: Seq<char>,
    pub quote: Option<char>,
}

/// `st` with the word being read finished, if it is not empty.
pub open spec fn flush(st: Scan) -> Scan {
    if st.current.len() > 0 {
        Scan { words: st.words.push(st.current), current: Seq::empty(), quote: st.quote }
    } else {
        st
    }
}

/// One character of the scan. Outside quotes, `"` or `'` opens a quote, a space, tab or
/// newline ends the word, and a backslash is dropped. Inside quotes every character but the
/// closing one is kept. Quote characters are never kept.
pub open spec fn scan_step(st: Scan, c: char) -> Scan {
    match st.quote {
        Some(q) => if c == q {
            Scan { quote: None, ..st }
        } else {
            Scan { current: st.current.push(c), ..st }
        },
        None => if c == '"' || c == '\'' {
            Scan { quote: Some(c), ..st }
        } else if c == ' ' || c == '\n' || c == '\t' {
            flush(st)
        } else if c == '\\' {
            st
        } else {
            Scan { current: st.current.push(c), ..st }
        },
    }
}

/// The scan after the first `n` characters of `s`.
pub open spec fn scan_upto(s: Seq<char>, n: nat) -> Scan
    decreases n,
{
    if n == 0 || n > s.len() {
        Scan { words: Seq::empty(), current: Seq::empty(), quote: None }
    } else {
        scan_step(scan_upto(s, (n - 1) as nat), s[n - 1])
    }
}

/// The words of a command line.
pub open spec fn command_words(s: Seq<char>) -> Seq<Seq<char>> {
    flush(scan_upto(s, s.len())).words
}

/// What an import has gathered so far.
pub struct Import {
    pub url: Seq<char>,
    pub method: Method,
    pub headers: Seq<Seq<char>>,
    pub body: Seq<char>,
    pub auth: Option<AuthView>,
}

/// What an import starts from.
pub open spec fn import_start() -> Import {
    Import {
        url: Seq::empty(),
        method: Method::GET,
        headers: Seq::empty(),
        body: Seq::empty(),
        auth: None,
    }
}

/// User name and password of a `Basic` credential: the base64 text decodes to UTF-8 that
/// holds a `:`.
pub open spec fn basic_pair(encoded: Seq<char>) -> Option<(Seq<char>, Seq<char>)> {
    match base64_bytes(trim(encoded)) {
        Some(b) => if valid_utf8(b) {
            split_first(decode_utf8(b), ':')
        } else {
            None
        },
        None => None,
    }
}

/// The effect of a `-H` line. An `Authorization` line with a `Bearer` or `Basic` value
/// becomes credentials (a `Basic` value that does not decode is dropped); every other line
/// is kept as it is. Names and schemes are matched without regard to case; ASCII case is
/// enough, as no other character lower-cases to a lone letter of these words.
pub open spec fn header_effect(st: Import, h: Seq<char>) -> Import {
    if has_prefix_fold(h, "authorization:"@) {
        let v = trim(h.skip(14));
        if has_prefix_fold(v, "bearer "@) {
            Import { auth: Some(AuthView::Bearer(v.skip(7))), ..st }
        } else if has_prefix_fold(v, "basic "@) {
            match basic_pair(v.skip(6)) {
                Some((u, p)) => Import { auth: Some(AuthView::Basic(u, p)), ..st },
                None => st,
            }
        } else {
            Import { headers: st.headers.push(h), ..st }
        }
    } else {
        Import { headers: st.headers.push(h), ..st }
    }
}

/// The effect of a `-d` value: it becomes the body, and a GET becomes a POST.
pub open spec fn data_effect(st: Import, d: Seq<char>) -> Import {
    Import { body: d, method: if st.method == Method::GET { Method::POST } else { st.method }, ..st }
}

/// The effect of a `-u` value `user:password`; one without `:` changes nothing.
pub open spec fn user_effect(st: Import, u: Seq<char>) -> Import {
    match split_first(u, ':') {
        Some((name, pass)) => Import { auth: Some(AuthView::Basic(name, pass)), ..st },
        None => st,
    }
}

pub open spec fn is_method_flag(t: Seq<char>) -> bool {
    t == "-X"@ || t == "--request"@
}

pub open spec fn is_header_flag(t: Seq<char>) -> bool {
    t == "-H"@ || t == "--header"@
}

pub open spec fn is_data_flag(t: Seq<char>) -> bool {
    t == "-d"@ || t == "--data"@ || t == "--data-raw"@ || t == "--data-binary"@
}

pub open spec fn is_user_flag(t: Seq<char>) -> bool {
    t == "-u"@ || t == "--user"@
}

pub open spec fn is_url_word(t: Seq<char>) -> bool {
    has_prefix(t, "http://"@) || has_prefix(t, "https://"@)
}

/// The import after reading the words from position `i` on. A flag takes the word after it
/// as its value; a flag with no word after it is passed over.
pub open spec fn read_words(w: Seq<Seq<char>>, i: int, st: Import) -> Import
    decreases w.len() - i,
{
    if i < 0 || i >= w.len() {
        st
    } else {
        let t = w[i];
        let more = i + 1 < w.len();
        if more && is_method_flag(t) {
            read_words(w, i + 2, Import { method: method_named(upper_of(w[i + 1])), ..st })
        } else if more && is_header_flag(t) {
            read_words(w, i + 2, header_effect(st, w[i + 1]))
        } else if more && is_data_flag(t) {
            read_words(w, i + 2, data_effect(st, w[i + 1]))
        } else if more && is_user_flag(t) {
            read_words(w, i + 2, user_effect(st, w[i + 1]))
        } else if is_url_word(t) {
            read_words(w, i + 1, Import { url: t, ..st })
        } else {
            read_words(w, i + 1, st)
        }
    }
}

/// What a command line imports: nothing unless, once trimmed, it starts with `curl` and
/// names a URL.
pub open spec fn curl_import(input: Seq<char>) -> Option<Import> {
    let s = trim(input);
    if !has_prefix(s, "curl"@) {
        None
    } else {
        let st = read_words(command_words(s), 0, import_start());
        if st.url.len() == 0 {
            None
        } else {
            Some(st)
        }
    }
}

/// The fields that a cURL command line gives a request.
#[derive(Clone, Debug, PartialEq, Eq)]
pub struct ParsedCurl {
    pub url: String,
    pub method: Method,
    pub headers: Vec<String>,
    pub body: String,
    pub auth: Option<Auth>,
}

pub open spec fn words_view(v: Seq<Vec<char>>) -> Seq<Seq<char>> {
    v.map_values(|t: Vec<char>| t@)
}

impl View for ParsedCurl {
    type V = Import;

    open spec fn view(&self) -> Import {
        Import {
            url: self.url@,
            method: self.method,
            headers: strings_view(self.headers@),
            body: self.body@,
            auth: match self.auth {
                Some(a) => Some(a@),
                None => None,
            },
        }
    }
}

/// The words of a command line, quotes resolved.
pub fn split_words(s: &[char]) -> (r: Vec<Vec<char>>)
    ensures
        words_view(r@) == command_words(s@),
{
    let mut words: Vec<Vec<char>> = Vec::new();
    let mut current: Vec<char> = Vec::new();
    let mut quote: Option<char> = None;
    let mut i: usize = 0;
    assert(words_view(words@) =~= Seq::empty());
    while i < s.len()
        invariant
            i <= s@.len(),
            scan_upto(s@, i as nat) == (Scan { words: words_view(words@), current: current@, quote }),
        decreases s@.len() - i,
    {
        let c = s[i];
        match quote {
            Some(q) => {
                if c == q {
                    quote = None;
                } else {
                    current.push(c);
                }
            },
            None => {
                if c == '"' || c == '\'' {
                    quote = Some(c);
                } else if c == ' ' || c == '\n' || c == '\t' {
                    if current.len() > 0 {
                        let ghost before = words_view(words@);
                        words.push(current);
                        current = Vec::new();
                        assert(words_view(words@) =~= before.push(scan_upto(s@, i as nat).current));
                    }
                } else if c != '\\' {
                    current.push(c);
                }
            },
        }
        i += 1;
    }
    if current.len() > 0 {
        let ghost before = words_view(words@);
        let ghost cur = current@;
        words.push(current);
        assert(words_view(words@) =~= before.push(cur));
    }
    words
}

/// User name and password from the base64 text of a `Basic` credential.
fn basic_credentials(encoded: &[char]) -> (r: Option<(String, String)>)
    ensures
        match (r, basic_pair(encoded@)) {
            (Some((a, b)), Some((x, y))) => a@ == x && b@ == y,
            (None, None) => true,
            _ => false,
        },
{
    let text = string_of(&trimmed(encoded));
    match base64_decode(text.as_str()) {
        Ok(bytes) => match utf8_string(bytes) {
            Ok(creds) => {
                let cs = chars_of(creds.as_str());
                split_first_char(&cs, ':')
            },
            Err(_) => None,
        },
        Err(_) => None,
    }
}

impl ParsedCurl {
    /// Takes in one `-H` line.
    fn take_header(&mut self, h: &[char])
        ensures
            final(self)@ == header_effect(old(self)@, h@),
    {
        let ghost st = self@;
        if chars_start_with_fold(h, "authorization:") {
            proof {
                reveal_strlit("authorization:");
            }
            let v = trimmed(&chars_from(h, 14));
            if chars_start_with_fold(&v, "bearer ") {
                proof {
                    reveal_strlit("bearer ");
                }
                let token = string_of_range(&v, 7, v.len());
                assert(v@.subrange(7, v@.len() as int) =~= v@.skip(7));
                self.auth = Some(Auth::Bearer { token });
            } else if chars_start_with_fold(&v, "basic ") {
                proof {
                    reveal_strlit("basic ");
                }
                let rest = chars_from(&v, 6);
                if let Some((username, password)) = basic_credentials(&rest) {
                    self.auth = Some(Auth::Basic { username, password });
                }
            } else {
                self.headers.push(string_of(h));
                assert(strings_view(self.headers@) =~= st.headers.push(h@));
            }
        } else {
            self.headers.push(string_of(h));
            assert(strings_view(self.headers@) =~= st.headers.push(h@));
        }
    }

    /// Takes in one `-u` value.
    fn take_user(&mut self, u: &[char])
        ensures
            final(self)@ == user_effect(old(self)@, u@),
    {
        if let Some((username, password)) = split_first_char(u, ':') {
            self.auth = Some(Auth::Basic { username, password });
        }
    }
}

/// Reads a cURL command line into request fields: its URL (the last `http://` or
/// `https://` word), its verb, its headers, its body and its credentials.
pub fn parse_curl(input: &str) -> (r: Option<ParsedCurl>)
    ensures
        match (r, curl_import(input@)) {
            (Some(p), Some(m)) => p@ == m,
            (None, None) => true,
            _ => false,
        },
{
    let all = chars_of(input);
    let s = trimmed(&all);
    if !chars_start_with(&s, "curl") {
        return None;
    }
    let words = split_words(&s);
    let ghost w = words_view(words@);
    let mut st = ParsedCurl {
        url: String::new(),
        method: Method::GET,
        headers: Vec::new(),
        body: String::new(),
        auth: None,
    };
    assert(st@.headers =~= Seq::<Seq<char>>::empty());
    let mut i: usize = 0;
    while i < words.len()
        invariant
            w == words_view(words@),
            w.len() == words@.len(),
            i <= words@.len(),
            read_words(w, i as int, st@) == read_words(w, 0, import_start()),
        decreases words@.len() - i,
    {
        let t = &words[i];
        let more = i + 1 < words.len();
        assert(t@ == w[i as int]);
        if more && (chars_eq(t, "-X") || chars_eq(t, "--request")) {
            assert(words[i + 1 as int]@ == w[i + 1]);
            let verb = uppercase(string_of(&words[i + 1]).as_str());
            st.method = Method::from_upper(verb.as_str());
            i += 2;
        } else if more && (chars_eq(t, "-H") || chars_eq(t, "--header")) {
            assert(words[i + 1 as int]@ == w[i + 1]);
            st.take_header(&words[i + 1]);
            i += 2;
        } else if more && (chars_eq(t, "-d") || chars_eq(t, "--data") || chars_eq(t, "--data-raw")
            || chars_eq(t, "--data-binary")) {
            assert(words[i + 1 as int]@ == w[i + 1]);
            st.body = string_of(&words[i + 1]);
            if st.method == Method::GET {
                st.method = Method::POST;
            }
            i += 2;
        } else if more && (chars_eq(t, "-u") || chars_eq(t, "--user")) {
            assert(words[i + 1 as int]@ == w[i + 1]);
            st.take_user(&words[i + 1]);
            i += 2;
        } else if chars_start_with(t, "http://") || chars_start_with(t, "https://") {
            st.url = string_of(t);
            i += 1;
        } else {
            i += 1;
        }
    }
    if st.url.as_str().is_empty() {
        None
    } else {
        Some(st)
    }
}

impl RequestSpec {
    /// Takes in what a cURL command line gave: its URL and verb always; its headers, body
    /// and credentials only where it gave some.
    pub fn apply_import(&mut self, p: ParsedCurl)
        ensures
            final(self).url@ == p.url@,
            final(self).method == p.method,
            final(self).headers@ == if p.headers@.len() > 0 {
                p.headers@
            } else {
                old(self).headers@
            },
            final(self).body@ == if p.body@.len() > 0 {
                p.body@
            } else {
                old(self).body@
            },
            final(self).auth == match p.auth {
                Some(a) => a,
                None => old(self).auth,
            },
            final(self).params == old(self).params,
    {
        self.url = p.url;
        self.method = p.method;
        if p.headers.len() > 0 {
            self.headers = p.headers;
        }
        if !p.body.as_str().is_empty() {
            self.body = p.body;
        }
        if let Some(a) = p.auth {
            self.auth = a;
        }
    }
}

} // verus!
