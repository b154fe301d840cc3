//! HTTP request descriptors: headers, requests and sessions, with the checks
//! that keep header injection out and the redacted debug texts.
use crate::error::{viewed, Error};
use crate::json::{join, lemma_join_push};
use crate::text::{
    chars_eq_ignore_ascii_case, chars_have_line_break, chars_of, eq_ignore_ascii_case,
    has_line_break, is_blank, is_ws, lemma_subrange_no_line_break, lemma_trim_idempotent,
    lemma_trim_is_subrange, push_decimal, push_str, str_is_blank, string_of, sub_chars, trim,
    trim_chars, dec,
};
use vstd::prelude::*;
use vstd::utf8::encode_utf8;

verus! {

/// The method of a request.
#[derive(Clone, Copy, Debug, PartialEq, Eq, Structural)]
pub enum HttpMethod {
    Get,
    Post,
}

/// What a header holds.
pub struct HeaderModel {
    pub name: Seq<char>,
    pub value: Seq<char>,
}

/// A header that a request may carry: its name is not blank, and neither
/// name nor value holds a line break.
pub open spec fn valid_header(name: Seq<char>, value: Seq<char>) -> bool {
    &&& !is_blank(name)
    &&& !has_line_break(name)
    &&& !has_line_break(value)
}

/// The error that `Header::new` gives for a name and a value, if any.
pub open spec fn header_error(name: Seq<char>, value: Seq<char>) -> Option<Error> {
    if is_blank(name) {
        Some(Error::EmptyHeaderName)
    } else if has_line_break(name) {
        Some(Error::InvalidHeaderName)
    } else if has_line_break(value) {
        Some(Error::InvalidHeaderValue)
    } else {
        None
    }
}

/// One request header.
pub struct Header {
    name: String,
    value: String,
}

impl View for Header {
    type V = HeaderModel;

    closed spec fn view(&self) -> HeaderModel {
        HeaderModel { name: self.name@, value: self.value@ }
    }
}

/// The models of `headers`, in order.
pub open spec fn header_models(headers: Seq<Header>) -> Seq<HeaderModel> {
    headers.map_values(|h: Header| h@)
}

impl Header {
    #[verifier::type_invariant]
    spec fn well_formed(self) -> bool {
        valid_header(self.name@, self.value@)
    }

    /// A header with `name` and `value`; refused when the name is blank or
    /// when name or value holds CR or LF.
    pub fn new(name: &str, value: &str) -> (r: Result<Header, Error>)
        ensures
            match header_error(name@, value@) {
                Some(e) => r matches Err(f) && f == e,
                None => r matches Ok(h) && h@ == HeaderModel { name: name@, value: value@ },
            },
    {
        if str_is_blank(name) {
            return Err(Error::EmptyHeaderName);
        }
        let name_chars = chars_of(name);
        if chars_have_line_break(&name_chars) {
            return Err(Error::InvalidHeaderName);
        }
        let value_chars = chars_of(value);
        if chars_have_line_break(&value_chars) {
            return Err(Error::InvalidHeaderValue);
        }
        Ok(Header { name: String::from_str(name), value: String::from_str(value) })
    }

    /// The header's name. Every header is valid: its name is not blank and
    /// neither name nor value holds a line break.
    pub fn name(&self) -> (r: &str)
        ensures
            r@ == self@.name,
            valid_header(self@.name, self@.value),
    {
        proof {
            use_type_invariant(self);
        }
        self.name.as_str()
    }

    /// The header's value.
    pub fn value(&self) -> (r: &str)
        ensures
            r@ == self@.value,
    {
        self.value.as_str()
    }

    /// Name and value, by move.
    pub fn into_parts(self) -> (r: (String, String))
        ensures
            r.0@ == self@.name,
            r.1@ == self@.value,
    {
        (self.name, self.value)
    }
}

/// What `normalize_url` gives: the trimmed url, refused when empty.
pub open spec fn spec_normalize_url(value: Seq<char>) -> Result<Seq<char>, Error> {
    let t = trim(value);
    if t.len() == 0 {
        Err(Error::EmptyUrl)
    } else {
        Ok(t)
    }
}

/// The url, trimmed; refused when nothing is left.
pub fn normalize_url(value: &str) -> (r: Result<String, Error>)
    ensures
        viewed(r) == spec_normalize_url(value@),
{
    let chars = chars_of(value);
    let trimmed = trim_chars(&chars);
    if trimmed.len() == 0 {
        Err(Error::EmptyUrl)
    } else {
        Ok(string_of(&trimmed))
    }
}

/// The prefix that a cookie header value may carry.
pub open spec fn cookie_prefix() -> Seq<char> {
    seq!['C', 'o', 'o', 'k', 'i', 'e', ':']
}

/// `v` without a leading `Cookie:` in any ASCII case.
pub open spec fn strip_cookie_prefix(v: Seq<char>) -> Seq<char> {
    if v.len() >= 7 && eq_ignore_ascii_case(v.take(7), cookie_prefix()) {
        v.skip(7)
    } else {
        v
    }
}

/// What `normalize_cookie_header` gives: the trimmed value without a
/// `Cookie:` prefix, refused when empty or when it holds a line break.
pub open spec fn spec_normalize_cookie_header(value: Seq<char>) -> Result<Seq<char>, Error> {
    let v = trim(strip_cookie_prefix(trim(value)));
    if v.len() == 0 {
        Err(Error::EmptyCookieHeader)
    } else if has_line_break(v) {
        Err(Error::InvalidCookieHeader)
    } else {
        Ok(v)
    }
}

/// A cookie header value keeps everything between its leading and
/// trailing whitespace: when `value` holds no line break, is not blank, and
/// does not start with `Cookie:` in any ASCII case, it normalizes to its
/// trimmed self, every cookie of a `a=1; b=2` list included.
pub proof fn lemma_cookie_value_kept_whole(value: Seq<char>)
    requires
        !has_line_break(value),
        trim(value).len() > 0,
        !(trim(value).len() >= 7 && eq_ignore_ascii_case(
            trim(value).take(7),
            seq!['C', 'o', 'o', 'k', 'i', 'e', ':'],
        )),
    ensures
        spec_normalize_cookie_header(value) == Ok::<Seq<char>, Error>(trim(value)),
{
    lemma_trim_idempotent(value);
    let (a, b) = lemma_trim_is_subrange(value);
    lemma_subrange_no_line_break(value, a, b);
    assert(strip_cookie_prefix(trim(value)) == trim(value));
}

/// A cookie header value, trimmed and without a leading `Cookie:`.
pub fn normalize_cookie_header(value: &str) -> (r: Result<String, Error>)
    ensures
        viewed(r) == spec_normalize_cookie_header(value@),
{
    let chars = chars_of(value);
    let trimmed = trim_chars(&chars);
    let prefix: Vec<char> = vec!['C', 'o', 'o', 'k', 'i', 'e', ':'];
    assert(prefix@ == cookie_prefix());
    let stripped = if trimmed.len() >= 7 {
        let head = sub_chars(&trimmed, 0, 7);
        if chars_eq_ignore_ascii_case(&head, &prefix) {
            sub_chars(&trimmed, 7, trimmed.len())
        } else {
            trimmed
        }
    } else {
        trimmed
    };
    let result = trim_chars(&stripped);
    if result.len() == 0 {
        return Err(Error::EmptyCookieHeader);
    }
    if chars_have_line_break(&result) {
        return Err(Error::InvalidCookieHeader);
    }
    Ok(string_of(&result))
}

/// The `Accept` header of every descriptor.
pub open spec fn accept_header() -> HeaderModel {
    HeaderModel { name: "Accept"@, value: "application/json, text/plain, */*"@ }
}

/// The `Content-Type` header of a request with a JSON body.
pub open spec fn content_type_header() -> HeaderModel {
    HeaderModel { name: "Content-Type"@, value: "application/json"@ }
}

/// The protocol headers of a descriptor, with or without a JSON body.
pub open spec fn spec_request_headers(json: bool) -> Seq<HeaderModel> {
    if json {
        seq![accept_header(), content_type_header()]
    } else {
        seq![accept_header()]
    }
}

/// The protocol headers: `Accept`, and `Content-Type` for a JSON body.
pub fn request_headers(json: bool) -> (r: Result<Vec<Header>, Error>)
    ensures
        r matches Ok(headers) && header_models(headers@) == spec_request_headers(json),
{
    proof {
        reveal_strlit("Accept");
        reveal_strlit("application/json, text/plain, */*");
        reveal_strlit("Content-Type");
        reveal_strlit("application/json");
        assert(!is_ws("Accept"@[0]));
        assert(!is_ws("Content-Type"@[0]));
    }
    let accept = match Header::new("Accept", "application/json, text/plain, */*") {
        Ok(h) => h,
        Err(e) => return Err(e),
    };
    let mut headers: Vec<Header> = Vec::new();
    headers.push(accept);
    if json {
        let content_type = match Header::new("Content-Type", "application/json") {
            Ok(h) => h,
            Err(e) => return Err(e),
        };
        headers.push(content_type);
    }
    assert(header_models(headers@) =~= spec_request_headers(json));
    Ok(headers)
}

/// What a request descriptor holds.
pub struct HttpRequestModel {
    pub method: HttpMethod,
    pub url: Seq<char>,
    pub headers: Seq<HeaderModel>,
    pub body: Option<Seq<char>>,
}

/// The text of an optional string.
pub open spec fn opt_text(o: Option<String>) -> Option<Seq<char>> {
    match o {
        Some(s) => Some(s@),
        None => None,
    }
}

/// A request descriptor: method, url, headers and an optional body, to be
/// handed to any HTTP client.
pub struct HttpRequest {
    method: HttpMethod,
    url: String,
    headers: Vec<Header>,
    body: Option<String>,
}

impl View for HttpRequest {
    type V = HttpRequestModel;

    closed spec fn view(&self) -> HttpRequestModel {
        HttpRequestModel {
            method: self.method,
            url: self.url@,
            headers: header_models(self.headers@),
            body: opt_text(self.body),
        }
    }
}

/// What `HttpRequest::get` gives.
pub open spec fn spec_get(url: Seq<char>) -> Result<HttpRequestModel, Error> {
    match spec_normalize_url(url) {
        Ok(u) => Ok(
            HttpRequestModel {
                method: HttpMethod::Get,
                url: u,
                headers: spec_request_headers(false),
                body: None,
            },
        ),
        Err(e) => Err(e),
    }
}

/// What `HttpRequest::json` gives for a body that is already JSON text.
pub open spec fn spec_json(url: Seq<char>, body: Seq<char>) -> Result<HttpRequestModel, Error> {
    match spec_normalize_url(url) {
        Ok(u) => Ok(
            HttpRequestModel {
                method: HttpMethod::Post,
                url: u,
                headers: spec_request_headers(true),
                body: Some(body),
            },
        ),
        Err(e) => Err(e),
    }
}

/// A header name that `with_cookie_header` replaces.
pub open spec fn is_cookie_name(name: Seq<char>) -> bool {
    eq_ignore_ascii_case(name, "cookie"@)
}

/// `headers` without those named `cookie` in any ASCII case, in order.
pub open spec fn without_cookies(headers: Seq<HeaderModel>) -> Seq<HeaderModel>
    decreases headers.len(),
{
    if headers.len() == 0 {
        headers
    } else if is_cookie_name(headers.last().name) {
        without_cookies(headers.drop_last())
    } else {
        without_cookies(headers.drop_last()).push(headers.last())
    }
}

/// What `with_cookie_header` gives: every cookie header dropped and one
/// `Cookie` header with the normalized value added last.
pub open spec fn spec_with_cookie_header(request: HttpRequestModel, value: Seq<char>) -> Result<
    HttpRequestModel,
    Error,
> {
    match spec_normalize_cookie_header(value) {
        Ok(v) => Ok(
            HttpRequestModel {
                headers: without_cookies(request.headers).push(
                    HeaderModel { name: "Cookie"@, value: v },
                ),
                ..request
            },
        ),
        Err(e) => Err(e),
    }
}

/// What `with_header` gives: the header added last.
pub open spec fn spec_with_header(
    request: HttpRequestModel,
    name: Seq<char>,
    value: Seq<char>,
) -> Result<HttpRequestModel, Error> {
    match header_error(name, value) {
        Some(e) => Err(e),
        None => Ok(
            HttpRequestModel {
                headers: request.headers.push(HeaderModel { name, value }),
                ..request
            },
        ),
    }
}

impl HttpRequest {
    /// A GET descriptor for `url`, which is trimmed and must not be empty.
    pub fn get(url: &str) -> (r: Result<HttpRequest, Error>)
        ensures
            viewed(r) == spec_get(url@),
    {
        let url = match normalize_url(url) {
            Ok(u) => u,
            Err(e) => return Err(e),
        };
        let headers = match request_headers(false) {
            Ok(h) => h,
            Err(e) => return Err(e),
        };
        Ok(HttpRequest { method: HttpMethod::Get, url, headers, body: None })
    }

    /// A POST descriptor for `url` whose body is the JSON text `body`.
    pub fn json(url: &str, body: &str) -> (r: Result<HttpRequest, Error>)
        ensures
            viewed(r) == spec_json(url@, body@),
    {
        let url = match normalize_url(url) {
            Ok(u) => u,
            Err(e) => return Err(e),
        };
        let headers = match request_headers(true) {
            Ok(h) => h,
            Err(e) => return Err(e),
        };
        Ok(HttpRequest { method: HttpMethod::Post, url, headers, body: Some(String::from_str(body)) })
    }

    /// The method.
    pub fn method(&self) -> (r: HttpMethod)
        ensures
            r == self@.method,
    {
        self.method
    }

    /// The url.
    pub fn url(&self) -> (r: &str)
        ensures
            r@ == self@.url,
    {
        self.url.as_str()
    }

    /// The headers, in order.
    pub fn headers(&self) -> (r: &[Header])
        ensures
            header_models(r@) == self@.headers,
    {
        self.headers.as_slice()
    }

    /// The body, if any.
    pub fn body(&self) -> (r: Option<&str>)
        ensures
            match r {
                Some(b) => self@.body == Some(b@),
                None => self@.body is None,
            },
    {
        match &self.body {
            Some(b) => Some(b.as_str()),
            None => None,
        }
    }

    /// Method, url, headers and body, by move.
    pub fn into_parts(self) -> (r: (HttpMethod, String, Vec<Header>, Option<String>))
        ensures
            r.0 == self@.method,
            r.1@ == self@.url,
            header_models(r.2@) == self@.headers,
            opt_text(r.3) == self@.body,
    {
        (self.method, self.url, self.headers, self.body)
    }

    /// The descriptor with its cookie headers replaced by one `Cookie` header
    /// holding the normalized `value`.
    pub fn with_cookie_header(self, value: &str) -> (r: Result<HttpRequest, Error>)
        ensures
            viewed(r) == spec_with_cookie_header(self@, value@),
    {
        let value = match normalize_cookie_header(value) {
            Ok(v) => v,
            Err(e) => return Err(e),
        };
        let HttpRequest { method, url, headers, body } = self;
        let ghost models = header_models(headers@);
        let cookie: Vec<char> = vec!['c', 'o', 'o', 'k', 'i', 'e'];
        proof {
            reveal_strlit("cookie");
            assert(cookie@ == "cookie"@);
        }
        let mut rest = headers;
        let mut kept: Vec<Header> = Vec::new();
        let ghost mut done: int = 0;
        while rest.len() > 0
            invariant
                0 <= done <= models.len(),
                header_models(rest@) == models.skip(done),
                header_models(kept@) == without_cookies(models.take(done)),
                cookie@ == "cookie"@,
            decreases rest.len(),
        {
            let ghost rest_before = rest@;
            let ghost kept_before = kept@;
            let header = rest.remove(0);
            let name = chars_of(header.name.as_str());
            proof {
                assert(header@ == header_models(rest_before)[0]);
                assert(header_models(rest_before).len() == rest_before.len());
                assert(models.skip(done).len() > 0);
                assert(done < models.len());
                assert(models.skip(done)[0] == models[done]);
                assert(header@ == models[done]);
                assert(models.take(done + 1).drop_last() == models.take(done));
                assert(models.take(done + 1).last() == models[done]);
                assert(rest@.len() + 1 == rest_before.len());
                assert forall|k: int| 0 <= k < rest@.len() implies header_models(rest@)[k]
                    == models.skip(done + 1)[k] by {
                    assert(rest@[k] == rest_before[k + 1]);
                    assert(header_models(rest_before)[k + 1] == models.skip(done)[k + 1]);
                }
                assert(header_models(rest@) =~= models.skip(done + 1));
            }
            if !chars_eq_ignore_ascii_case(&name, &cookie) {
                kept.push(header);
                assert(header_models(kept@) =~= header_models(kept_before).push(header@));
            }
            proof {
                done = done + 1;
            }
        }
        assert(models.take(done) == models);
        proof {
            reveal_strlit("Cookie");
            assert(!is_ws("Cookie"@[0]));
        }
        let cookie_header = match Header::new("Cookie", value.as_str()) {
            Ok(h) => h,
            Err(e) => return Err(e),
        };
        let ghost kept_before = kept@;
        kept.push(cookie_header);
        assert(header_models(kept@) =~= header_models(kept_before).push(cookie_header@));
        Ok(HttpRequest { method, url, headers: kept, body })
    }

    /// The descriptor with the session's cookie attached, as
    /// `with_cookie_header` attaches it.
    pub fn with_session(self, session: &Session) -> (r: Result<HttpRequest, Error>)
        ensures
            viewed(r) == spec_with_cookie_header(self@, session@),
    {
        self.with_cookie_header(session.cookie_header())
    }

    /// The descriptor with one more header, added last.
    pub fn with_header(self, name: &str, value: &str) -> (r: Result<HttpRequest, Error>)
        ensures
            viewed(r) == spec_with_header(self@, name@, value@),
    {
        let header = match Header::new(name, value) {
            Ok(h) => h,
            Err(e) => return Err(e),
        };
        let HttpRequest { method, url, mut headers, body } = self;
        let ghost before = headers@;
        headers.push(header);
        assert(header_models(headers@) =~= header_models(before).push(header@));
        Ok(HttpRequest { method, url, headers, body })
    }

    /// The debug text of the descriptor: the values of sensitive headers are
    /// replaced by `<redacted>` and the body is shown by its length in bytes.
    pub fn debug_repr(&self) -> (r: String)
        ensures
            r@ == request_debug(self@),
    {
        let mut out: Vec<char> = Vec::new();
        push_str(&mut out, "HttpRequest { method: ");
        match self.method {
            HttpMethod::Get => push_str(&mut out, "Get"),
            HttpMethod::Post => push_str(&mut out, "Post"),
        }
        push_str(&mut out, ", url: ");
        push_debug(&mut out, self.url.as_str());
        push_str(&mut out, ", headers: [");
        let ghost start = out@;
        let ghost texts = self@.headers.map_values(|h: HeaderModel| header_debug(h));
        let mut i: usize = 0;
        while i < self.headers.len()
            invariant
                i <= self.headers.len(),
                texts == self@.headers.map_values(|h: HeaderModel| header_debug(h)),
                texts.len() == self.headers.len(),
                self@.headers == header_models(self.headers@),
                out@ == start + join(texts.take(i as int), ", "@),
            decreases self.headers.len() - i,
        {
            if i > 0 {
                push_str(&mut out, ", ");
            }
            let text = self.headers[i].debug_repr();
            push_str(&mut out, text.as_str());
            proof {
                assert(texts[i as int] == header_debug(self.headers@[i as int]@));
                assert(texts.take(i + 1) == texts.take(i as int).push(texts[i as int]));
                lemma_join_push(texts.take(i as int), ", "@, texts[i as int]);
            }
            i += 1;
        }
        assert(texts.take(self.headers.len() as int) == texts);
        push_str(&mut out, "], body_bytes: ");
        let ghost head = out@;
        match &self.body {
            Some(b) => {
                push_str(&mut out, "Some(");
                let n = b.as_str().len();
                push_decimal(&mut out, n as u64);
                push_str(&mut out, ")");
            },
            None => push_str(&mut out, "None"),
        }
        assert(out@ =~= head + body_bytes_debug(self@.body));
        push_str(&mut out, " }");
        assert(out@ =~= request_debug(self@));
        string_of(&out)
    }
}

/// The text that `Debug` writes for a string: quoted and escaped.
pub uninterp spec fn debug_text(s: Seq<char>) -> Seq<char>;

/// Calls `<str as Debug>::fmt` through `format!("{:?}")`. Claimed: the
/// result is the text named by [`debug_text`], a function of `s` alone.
#[verifier::external_body]
fn debug_quote(s: &str) -> (r: String)
    ensures
        r@ == debug_text(s@),
{
    format!("{:?}", s)
}

/// Appends the debug text of `s` to `out`.
pub(crate) fn push_debug(out: &mut Vec<char>, s: &str)
    ensures
        final(out)@ == old(out)@ + debug_text(s@),
{
    let quoted = debug_quote(s);
    push_str(out, quoted.as_str());
}

/// A header whose value a debug text must not show.
pub open spec fn is_sensitive_name(name: Seq<char>) -> bool {
    ||| eq_ignore_ascii_case(name, "cookie"@)
    ||| eq_ignore_ascii_case(name, "set-cookie"@)
    ||| eq_ignore_ascii_case(name, "authorization"@)
    ||| eq_ignore_ascii_case(name, "proxy-authorization"@)
}

/// Whether a debug text must hide the value of a header named `name`.
fn name_is_sensitive(name: &str) -> (r: bool)
    ensures
        r == is_sensitive_name(name@),
{
    let n = chars_of(name);
    chars_eq_ignore_ascii_case(&n, &chars_of("cookie")) || chars_eq_ignore_ascii_case(
        &n,
        &chars_of("set-cookie"),
    ) || chars_eq_ignore_ascii_case(&n, &chars_of("authorization"))
        || chars_eq_ignore_ascii_case(&n, &chars_of("proxy-authorization"))
}

/// The debug text of a header.
pub open spec fn header_debug(h: HeaderModel) -> Seq<char> {
    "Header { name: "@ + debug_text(h.name) + ", value: "@ + debug_text(
        if is_sensitive_name(h.name) {
            "<redacted>"@
        } else {
            h.value
        },
    ) + " }"@
}

/// The name of a method, as `Debug` writes it.
pub open spec fn method_name(m: HttpMethod) -> Seq<char> {
    match m {
        HttpMethod::Get => "Get"@,
        HttpMethod::Post => "Post"@,
    }
}

/// The body of a request, shown by its length in bytes.
pub open spec fn body_bytes_debug(body: Option<Seq<char>>) -> Seq<char> {
    match body {
        Some(b) => "Some("@ + dec((encode_utf8(b).len() as usize) as nat) + ")"@,
        None => "None"@,
    }
}

/// The debug text of a request descriptor.
pub open spec fn request_debug(r: HttpRequestModel) -> Seq<char> {
    "HttpRequest { method: "@ + method_name(r.method) + ", url: "@ + debug_text(r.url)
        + ", headers: ["@ + join(r.headers.map_values(|h: HeaderModel| header_debug(h)), ", "@)
        + "], body_bytes: "@ + body_bytes_debug(r.body) + " }"@
}

/// The debug text of a session: the cookie is never shown.
pub open spec fn session_debug() -> Seq<char> {
    "Session { cookie_header: "@ + debug_text("<redacted>"@) + " }"@
}

impl Header {
    /// The debug text of the header; the value of a sensitive header is
    /// replaced by `<redacted>`.
    pub fn debug_repr(&self) -> (r: String)
        ensures
            r@ == header_debug(self@),
    {
        let mut out: Vec<char> = Vec::new();
        push_str(&mut out, "Header { name: ");
        push_debug(&mut out, self.name.as_str());
        push_str(&mut out, ", value: ");
        if name_is_sensitive(self.name.as_str()) {
            push_debug(&mut out, "<redacted>");
        } else {
            push_debug(&mut out, self.value.as_str());
        }
        push_str(&mut out, " }");
        string_of(&out)
    }
}

/// A cookie session that can be attached to descriptors.
pub struct Session {
    cookie_header: String,
}

impl View for Session {
    type V = Seq<char>;

    closed spec fn view(&self) -> Seq<char> {
        self.cookie_header@
    }
}

impl Session {
    /// A session from a cookie header value, normalized as
    /// `normalize_cookie_header` does.
    pub fn from_cookie_header(value: &str) -> (r: Result<Session, Error>)
        ensures
            viewed(r) == spec_normalize_cookie_header(value@),
    {
        match normalize_cookie_header(value) {
            Ok(cookie_header) => Ok(Session { cookie_header }),
            Err(e) => Err(e),
        }
    }

    /// The cookie header value.
    pub fn cookie_header(&self) -> (r: &str)
        ensures
            r@ == self@,
    {
        self.cookie_header.as_str()
    }

    /// The debug text of the session, which never shows the cookie.
    pub fn debug_repr(&self) -> (r: String)
        ensures
            r@ == session_debug(),
    {
        let mut out: Vec<char> = Vec::new();
        push_str(&mut out, "Session { cookie_header: ");
        push_debug(&mut out, "<redacted>");
        push_str(&mut out, " }");
        string_of(&out)
    }
}

/// The debug text of a request does not depend on the values of its
/// sensitive headers (`Cookie`, `Set-Cookie`, `Authorization` and
/// `Proxy-Authorization`, in any ASCII case): two requests that differ only
/// there read the same.
pub proof fn lemma_debug_hides_sensitive_values(a: HttpRequestModel, b: HttpRequestModel)
    requires
        a.method == b.method,
        a.url == b.url,
        a.body == b.body,
        a.headers.len() == b.headers.len(),
        forall|i: int|
            0 <= i < a.headers.len() ==> (#[trigger] a.headers[i]).name == b.headers[i].name,
        forall|i: int|
            0 <= i < a.headers.len() && !is_sensitive_name(#[trigger] a.headers[i].name)
                ==> a.headers[i].value == b.headers[i].value,
    ensures
        request_debug(a) == request_debug(b),
{
    let ta = a.headers.map_values(|h: HeaderModel| header_debug(h));
    let tb = b.headers.map_values(|h: HeaderModel| header_debug(h));
    assert forall|i: int| 0 <= i < ta.len() implies ta[i] == tb[i] by {
        assert(a.headers[i].name == b.headers[i].name);
    }
    assert(ta =~= tb);
}

proof fn lemma_without_cookies_has_none(headers: Seq<HeaderModel>)
    ensures
        forall|i: int|
            0 <= i < without_cookies(headers).len() ==> !is_cookie_name(
                (#[trigger] without_cookies(headers)[i]).name,
            ),
    decreases headers.len(),
{
    if headers.len() > 0 {
        let prev = headers.drop_last();
        lemma_without_cookies_has_none(prev);
        assert forall|i: int| 0 <= i < without_cookies(headers).len() implies !is_cookie_name(
            (#[trigger] without_cookies(headers)[i]).name,
        ) by {
            if i < without_cookies(prev).len() {
                assert(without_cookies(headers)[i] == without_cookies(prev)[i]);
            }
        }
    }
}

proof fn lemma_without_cookies_keeps(headers: Seq<HeaderModel>)
    requires
        forall|i: int| 0 <= i < headers.len() ==> !is_cookie_name((#[trigger] headers[i]).name),
    ensures
        without_cookies(headers) == headers,
    decreases headers.len(),
{
    if headers.len() > 0 {
        lemma_without_cookies_keeps(headers.drop_last());
        assert(headers.drop_last().push(headers.last()) == headers);
    }
}

/// After a cookie header is attached, the request holds exactly one header
/// named `cookie` in any ASCII case, last, and the other headers are those
/// it held before that were not cookies, in order.
pub proof fn lemma_single_cookie(request: HttpRequestModel, value: Seq<char>)
    requires
        spec_with_cookie_header(request, value) is Ok,
    ensures
        ({
            let r = spec_with_cookie_header(request, value)->Ok_0;
            &&& r.headers.len() >= 1
            &&& is_cookie_name(r.headers.last().name)
            &&& r.headers.drop_last() == without_cookies(request.headers)
            &&& forall|i: int|
                0 <= i < r.headers.len() - 1 ==> !is_cookie_name((#[trigger] r.headers[i]).name)
        }),
{
    let r = spec_with_cookie_header(request, value)->Ok_0;
    lemma_without_cookies_has_none(request.headers);
    reveal_strlit("Cookie");
    reveal_strlit("cookie");
    assert(r.headers.drop_last() == without_cookies(request.headers));
    assert forall|i: int| 0 <= i < r.headers.len() - 1 implies !is_cookie_name(
        (#[trigger] r.headers[i]).name,
    ) by {
        assert(r.headers[i] == without_cookies(request.headers)[i]);
    }
}

/// Attaching a cookie header to a request that already had one attached
/// gives what attaching only the second would give: the first is replaced,
/// never kept beside it.
pub proof fn lemma_cookie_replaces_cookie(
    request: HttpRequestModel,
    first: Seq<char>,
    second: Seq<char>,
)
    requires
        spec_with_cookie_header(request, first) is Ok,
    ensures
        spec_with_cookie_header(spec_with_cookie_header(request, first)->Ok_0, second)
            == spec_with_cookie_header(request, second),
{
    let once = spec_with_cookie_header(request, first)->Ok_0;
    lemma_single_cookie(request, first);
    lemma_without_cookies_has_none(request.headers);
    lemma_without_cookies_keeps(without_cookies(request.headers));
    assert(once.headers.drop_last().push(once.headers.last()) == once.headers);
    assert(without_cookies(once.headers) == without_cookies(request.headers));
}

} // verus!
