//! The Element RPC facade: base url and locale, the query of every UI path,
//! and the descriptors of module calls, entity reads, presentations and
//! dynamic lists with their JSON bodies.
use crate::error::{viewed, Error};
use crate::http::{spec_json, HttpRequest, HttpRequestModel};
use crate::json::{
    json_array, json_string_text, json_strings, lemma_join_push, push_json_string,
    push_json_string_array, join,
};
use crate::text::{
    chars_are_blank, chars_of, is_blank, push_chars, push_decimal, push_str, str_is_blank,
    string_of, sub_chars, trim, trim_chars, dec,
};
use vstd::prelude::*;
use vstd::utf8::encode_utf8;

verus! {

/// `s` without its trailing slashes.
pub open spec fn trim_end_slashes(s: Seq<char>) -> Seq<char>
    decreases s.len(),
{
    if s.len() > 0 && s.last() == '/' {
        trim_end_slashes(s.drop_last())
    } else {
        s
    }
}

/// What `normalize_base_url` gives: the url trimmed and without trailing
/// slashes, refused when nothing is left.
pub open spec fn spec_normalize_base_url(value: Seq<char>) -> Result<Seq<char>, Error> {
    let t = trim_end_slashes(trim(value));
    if t.len() == 0 {
        Err(Error::EmptyBaseUrl)
    } else {
        Ok(t)
    }
}

/// A base url, trimmed and without trailing slashes.
pub fn normalize_base_url(value: &str) -> (r: Result<String, Error>)
    ensures
        viewed(r) == spec_normalize_base_url(value@),
{
    let chars = chars_of(value);
    let trimmed = trim_chars(&chars);
    let mut end: usize = trimmed.len();
    assert(trimmed@.subrange(0, end as int) == trimmed@);
    while end > 0 && trimmed[end - 1] == '/'
        invariant
            end <= trimmed.len(),
            trim_end_slashes(trimmed@) == trim_end_slashes(trimmed@.subrange(0, end as int)),
        decreases end,
    {
        assert(trimmed@.subrange(0, end as int).drop_last() == trimmed@.subrange(0, end - 1));
        end -= 1;
    }
    if end == 0 {
        return Err(Error::EmptyBaseUrl);
    }
    let base = sub_chars(&trimmed, 0, end);
    Ok(string_of(&base))
}

/// `value`, refused with the argument's `name` when it is blank.
pub fn require_argument<'a>(name: &'static str, value: &'a str) -> (r: Result<&'a str, Error>)
    ensures
        is_blank(value@) ==> (r matches Err(e) && e == Error::EmptyArgument(name)),
        !is_blank(value@) ==> (r matches Ok(v) && v@ == value@),
{
    if str_is_blank(value) {
        Err(Error::EmptyArgument(name))
    } else {
        Ok(value)
    }
}

/// A byte that a query component keeps as it is: an ASCII letter or digit,
/// `-`, `.`, `_` or `~`.
pub open spec fn is_unreserved(b: u8) -> bool {
    ||| (48 <= b && b <= 57)
    ||| (65 <= b && b <= 90)
    ||| (97 <= b && b <= 122)
    ||| b == 45
    ||| b == 46
    ||| b == 95
    ||| b == 126
}

/// The upper-case hexadecimal digit for `d < 16`.
pub open spec fn hex_digit(d: u8) -> char {
    if d < 10 {
        (48 + d) as char
    } else {
        (55 + d) as char
    }
}

/// One byte of a query component: itself when unreserved, `%XX` otherwise.
pub open spec fn encode_byte(b: u8) -> Seq<char> {
    if is_unreserved(b) {
        seq![b as char]
    } else {
        seq!['%', hex_digit(b / 16), hex_digit(b % 16)]
    }
}

/// The percent-encoding of `bytes`.
pub open spec fn encode_bytes(bytes: Seq<u8>) -> Seq<char>
    decreases bytes.len(),
{
    if bytes.len() == 0 {
        Seq::empty()
    } else {
        encode_bytes(bytes.drop_last()) + encode_byte(bytes.last())
    }
}

/// The percent-encoding of the UTF-8 bytes of `s`.
pub open spec fn spec_encode_component(s: Seq<char>) -> Seq<char> {
    encode_bytes(encode_utf8(s))
}

fn hex(d: u8) -> (c: char)
    requires
        d < 16,
    ensures
        c == hex_digit(d),
{
    if d < 10 {
        (48 + d) as char
    } else {
        (55 + d) as char
    }
}

/// `value` percent-encoded byte by byte: unreserved bytes stay, every other
/// byte becomes `%` and two upper-case hexadecimal digits.
pub fn encode_component(value: &str) -> (r: String)
    ensures
        r@ == spec_encode_component(value@),
{
    let bytes = value.as_bytes();
    let mut out: Vec<char> = Vec::new();
    let mut i: usize = 0;
    while i < bytes.len()
        invariant
            i <= bytes.len(),
            bytes@ == encode_utf8(value@),
            out@ == encode_bytes(bytes@.take(i as int)),
        decreases bytes.len() - i,
    {
        let b = bytes[i];
        let ghost before = out@;
        if (48 <= b && b <= 57) || (65 <= b && b <= 90) || (97 <= b && b <= 122) || b == 45 || b
            == 46 || b == 95 || b == 126 {
            out.push(b as char);
        } else {
            out.push('%');
            out.push(hex(b / 16));
            out.push(hex(b % 16));
        }
        proof {
            assert(bytes@.take(i + 1).drop_last() == bytes@.take(i as int));
            assert(out@ =~= before + encode_byte(b));
        }
        i += 1;
    }
    assert(bytes@.take(bytes.len() as int) == bytes@);
    string_of(&out)
}

/// A character that a percent-encoded component may hold: an unreserved
/// ASCII character or `%`.
pub open spec fn is_query_safe(c: char) -> bool {
    ||| ('0' <= c && c <= '9')
    ||| ('A' <= c && c <= 'Z')
    ||| ('a' <= c && c <= 'z')
    ||| c == '-'
    ||| c == '.'
    ||| c == '_'
    ||| c == '~'
    ||| c == '%'
}

/// A percent-encoded component holds only unreserved ASCII characters and
/// `%`, so a locale can add no query separator (`&`, `=`, `#`) and no
/// whitespace to a url.
pub proof fn lemma_encoded_component_is_query_safe(s: Seq<char>)
    ensures
        forall|i: int|
            0 <= i < spec_encode_component(s).len() ==> is_query_safe(
                #[trigger] spec_encode_component(s)[i],
            ),
{
    lemma_encoded_bytes_safe(encode_utf8(s));
}

proof fn lemma_encoded_bytes_safe(bytes: Seq<u8>)
    ensures
        forall|i: int| 0 <= i < encode_bytes(bytes).len() ==> is_query_safe(#[trigger] encode_bytes(bytes)[i]),
    decreases bytes.len(),
{
    if bytes.len() > 0 {
        lemma_encoded_bytes_safe(bytes.drop_last());
        let prev = encode_bytes(bytes.drop_last());
        let last = encode_byte(bytes.last());
        let b = bytes.last();
        assert(b / 16 < 16 && b % 16 < 16);
        assert forall|i: int| 0 <= i < last.len() implies is_query_safe(#[trigger] last[i]) by {
            if is_unreserved(b) {
                assert(last[i] == b as char);
            }
        }
        assert forall|i: int| 0 <= i < encode_bytes(bytes).len() implies is_query_safe(
            #[trigger] encode_bytes(bytes)[i],
        ) by {
            if i < prev.len() {
                assert(encode_bytes(bytes)[i] == prev[i]);
            } else {
                assert(encode_bytes(bytes)[i] == last[i - prev.len()]);
            }
        }
    }
}

/// What `ui_path` gives: the path with its `locale` and `pubLocale` query.
pub open spec fn spec_ui_path(path: Seq<char>, locale: Seq<char>, pub_locale: Seq<char>) -> Result<
    Seq<char>,
    Error,
> {
    if is_blank(locale) {
        Err(Error::EmptyArgument("locale"))
    } else if is_blank(pub_locale) {
        Err(Error::EmptyArgument("pubLocale"))
    } else {
        Ok(
            path + "?locale="@ + spec_encode_component(locale) + "&pubLocale="@
                + spec_encode_component(pub_locale),
        )
    }
}

/// `path` with the encoded `locale` and `pubLocale` query.
pub fn ui_path(path: &str, locale: &str, pub_locale: &str) -> (r: Result<String, Error>)
    ensures
        viewed(r) == spec_ui_path(path@, locale@, pub_locale@),
{
    let locale = match require_argument("locale", locale) {
        Ok(v) => v,
        Err(e) => return Err(e),
    };
    let pub_locale = match require_argument("pubLocale", pub_locale) {
        Ok(v) => v,
        Err(e) => return Err(e),
    };
    let mut out: Vec<char> = Vec::new();
    push_str(&mut out, path);
    push_str(&mut out, "?locale=");
    let encoded = encode_component(locale);
    push_str(&mut out, encoded.as_str());
    push_str(&mut out, "&pubLocale=");
    let encoded = encode_component(pub_locale);
    push_str(&mut out, encoded.as_str());
    Ok(string_of(&out))
}

/// What `json_request` gives: a POST to `base_url` followed by `path`.
pub open spec fn spec_json_request(base_url: Seq<char>, path: Seq<char>, body: Seq<char>) -> Result<
    crate::http::HttpRequestModel,
    Error,
> {
    spec_json(base_url + path, body)
}

/// A POST descriptor for `base_url` followed by `path`, with the JSON text
/// `body`.
pub fn json_request(base_url: &str, path: &str, body: &str) -> (r: Result<HttpRequest, Error>)
    ensures
        viewed(r) == spec_json_request(base_url@, path@, body@),
{
    let mut url: Vec<char> = Vec::new();
    push_str(&mut url, base_url);
    push_str(&mut url, path);
    let url = string_of(&url);
    HttpRequest::json(url.as_str(), body)
}

pub const MODULE_CALL_PATH: &'static str = "/ui/module/call";

pub const DYNAMIC_LIST_PATH: &'static str = "/ui/dynamic-list";

pub const DYNAMIC_LIST_INFO_PATH: &'static str = "/ui/dynamic-list-info";

pub const ENTITY_READ_PATH: &'static str = "/ui/entity/read";

pub const PRESENTATION_PATH: &'static str = "/ui/presentation";

/// What a descriptor for an Element UI endpoint is: a POST of `body` to the
/// normalized base url followed by `path` and its locale query.
pub open spec fn spec_descriptor(
    base_url: Seq<char>,
    path: Seq<char>,
    locale: Seq<char>,
    pub_locale: Seq<char>,
    body: Seq<char>,
) -> Result<HttpRequestModel, Error> {
    match spec_normalize_base_url(base_url) {
        Err(e) => Err(e),
        Ok(base) => match spec_ui_path(path, locale, pub_locale) {
            Err(e) => Err(e),
            Ok(p) => spec_json_request(base, p, body),
        },
    }
}

fn descriptor(base_url: &str, path: &str, locale: &str, pub_locale: &str, body: &Vec<char>) -> (r:
    Result<HttpRequest, Error>)
    ensures
        viewed(r) == spec_descriptor(base_url@, path@, locale@, pub_locale@, body@),
{
    let base = match normalize_base_url(base_url) {
        Ok(b) => b,
        Err(e) => return Err(e),
    };
    let path = match ui_path(path, locale, pub_locale) {
        Ok(p) => p,
        Err(e) => return Err(e),
    };
    let body = string_of(body);
    json_request(base.as_str(), path.as_str(), body.as_str())
}

/// The base url and locales of an Element deployment.
pub struct ElementRpcModel {
    pub base_url: Seq<char>,
    pub locale: Seq<char>,
    pub pub_locale: Seq<char>,
}

/// The entry point of the facade: a deployment's base url and locales.
pub struct ElementRpc {
    base_url: String,
    locale: String,
    pub_locale: String,
}

impl View for ElementRpc {
    type V = ElementRpcModel;

    closed spec fn view(&self) -> ElementRpcModel {
        ElementRpcModel {
            base_url: self.base_url@,
            locale: self.locale@,
            pub_locale: self.pub_locale@,
        }
    }
}

/// What `ElementRpc::with_base_url` gives: the normalized base url with the
/// default locales `ru-RU` and `ru_RU`.
pub open spec fn spec_with_base_url(base_url: Seq<char>) -> Result<ElementRpcModel, Error> {
    match spec_normalize_base_url(base_url) {
        Ok(b) => Ok(ElementRpcModel { base_url: b, locale: "ru-RU"@, pub_locale: "ru_RU"@ }),
        Err(e) => Err(e),
    }
}

/// What `ElementRpc::with_locale` gives.
pub open spec fn spec_with_locale(
    rpc: ElementRpcModel,
    locale: Seq<char>,
    pub_locale: Seq<char>,
) -> Result<ElementRpcModel, Error> {
    if is_blank(locale) {
        Err(Error::EmptyArgument("locale"))
    } else if is_blank(pub_locale) {
        Err(Error::EmptyArgument("pubLocale"))
    } else {
        Ok(ElementRpcModel { locale, pub_locale, ..rpc })
    }
}

/// Every descriptor of an Element UI endpoint is a POST that carries the
/// protocol headers only: `Accept` and `Content-Type`, never `Origin`,
/// `Referer` or a cookie.
pub proof fn lemma_descriptors_carry_protocol_headers_only(
    base_url: Seq<char>,
    path: Seq<char>,
    locale: Seq<char>,
    pub_locale: Seq<char>,
    body: Seq<char>,
)
    ensures
        spec_descriptor(base_url, path, locale, pub_locale, body) matches Ok(r) ==> {
            &&& r.method == crate::http::HttpMethod::Post
            &&& r.headers == seq![crate::http::accept_header(), crate::http::content_type_header()]
            &&& r.body == Some(body)
        },
{
}

impl ElementRpc {
    /// A facade for the deployment at `base_url`, with the default locales.
    pub fn with_base_url(base_url: &str) -> (r: Result<ElementRpc, Error>)
        ensures
            viewed(r) == spec_with_base_url(base_url@),
    {
        let base_url = match normalize_base_url(base_url) {
            Ok(b) => b,
            Err(e) => return Err(e),
        };
        Ok(
            ElementRpc {
                base_url,
                locale: String::from_str("ru-RU"),
                pub_locale: String::from_str("ru_RU"),
            },
        )
    }

    /// The facade with other locales; neither may be blank.
    pub fn with_locale(self, locale: &str, pub_locale: &str) -> (r: Result<ElementRpc, Error>)
        ensures
            viewed(r) == spec_with_locale(self@, locale@, pub_locale@),
    {
        let locale = match require_argument("locale", locale) {
            Ok(v) => v,
            Err(e) => return Err(e),
        };
        let pub_locale = match require_argument("pubLocale", pub_locale) {
            Ok(v) => v,
            Err(e) => return Err(e),
        };
        Ok(
            ElementRpc {
                base_url: self.base_url,
                locale: String::from_str(locale),
                pub_locale: String::from_str(pub_locale),
            },
        )
    }

    /// The normalized base url.
    pub fn base_url(&self) -> (r: &str)
        ensures
            r@ == self@.base_url,
    {
        self.base_url.as_str()
    }

    /// The locale.
    pub fn locale(&self) -> (r: &str)
        ensures
            r@ == self@.locale,
    {
        self.locale.as_str()
    }

    /// The publication locale.
    pub fn pub_locale(&self) -> (r: &str)
        ensures
            r@ == self@.pub_locale,
    {
        self.pub_locale.as_str()
    }

    /// A builder for a call of `method_name` in `module_name`.
    pub fn call(&self, module_name: &str, method_name: &str) -> (r: Result<
        ModuleCallBuilder<'_>,
        Error,
    >)
        ensures
            match spec_module_call_new(module_name@, method_name@) {
                Ok(c) => r matches Ok(b) && b@ == (self@, c),
                Err(e) => r matches Err(f) && f == e,
            },
    {
        match ModuleCall::new(module_name, method_name) {
            Ok(call) => Ok(ModuleCallBuilder { rpc: self, call }),
            Err(e) => Err(e),
        }
    }

    fn module_call_request(&self, call: ModuleCall) -> (r: Result<HttpRequest, Error>)
        ensures
            viewed(r) == spec_module_call_request(call@, self@.base_url, self@.locale, self@.pub_locale),
    {
        call.into_http_request_without_session(
            self.base_url.as_str(),
            self.locale.as_str(),
            self.pub_locale.as_str(),
        )
    }
}

/// A module call under construction for one facade.
pub struct ModuleCallBuilder<'a> {
    rpc: &'a ElementRpc,
    call: ModuleCall,
}

impl<'a> View for ModuleCallBuilder<'a> {
    type V = (ElementRpcModel, ModuleCallModel);

    closed spec fn view(&self) -> (ElementRpcModel, ModuleCallModel) {
        (self.rpc@, self.call@)
    }
}

impl<'a> ModuleCallBuilder<'a> {
    /// The call with one more typed parameter whose value is the JSON text
    /// `value`.
    pub fn param(self, type_label: &str, value: &str) -> (r: Result<ModuleCallBuilder<'a>, Error>)
        ensures
            match spec_typed(type_label@, value@) {
                Ok(p) => r matches Ok(b) && b@ == (self@.0, ModuleCallModel {
                    parameters: self@.1.parameters.push(p),
                    ..self@.1
                }),
                Err(e) => r matches Err(f) && f == e,
            },
    {
        let parameter = match Parameter::typed(type_label, value) {
            Ok(p) => p,
            Err(e) => return Err(e),
        };
        Ok(ModuleCallBuilder { rpc: self.rpc, call: self.call.with_parameter(parameter) })
    }

    /// The call with the information of a remote caller whose debugging is
    /// disabled.
    pub fn remote_caller(self, id: &str) -> (r: Result<ModuleCallBuilder<'a>, Error>)
        ensures
            match spec_disabled(id@) {
                Ok(info) => r matches Ok(b) && b@ == (self@.0, ModuleCallModel {
                    remote_caller_info: Some(info),
                    ..self@.1
                }),
                Err(e) => r matches Err(f) && f == e,
            },
    {
        let info = match RemoteCallerInfo::disabled(id) {
            Ok(i) => i,
            Err(e) => return Err(e),
        };
        Ok(ModuleCallBuilder { rpc: self.rpc, call: self.call.with_remote_caller_info(info) })
    }

    /// The sessionless descriptor of the call.
    pub fn request(self) -> (r: Result<HttpRequest, Error>)
        ensures
            viewed(r) == spec_module_call_request(
                self@.1,
                self@.0.base_url,
                self@.0.locale,
                self@.0.pub_locale,
            ),
    {
        self.rpc.module_call_request(self.call)
    }

    /// The call itself.
    pub fn build(self) -> (r: ModuleCall)
        ensures
            r@ == self@.1,
    {
        self.call
    }
}

/// What a parameter of a module call holds: its type and, unless it is
/// undefined, the JSON text of its value.
pub struct ParameterModel {
    pub type_label: Seq<char>,
    pub value: Option<Seq<char>>,
}

/// A typed parameter of a module call.
pub struct Parameter {
    type_label: String,
    value: Option<String>,
}

impl View for Parameter {
    type V = ParameterModel;

    closed spec fn view(&self) -> ParameterModel {
        ParameterModel {
            type_label: self.type_label@,
            value: match self.value {
                Some(v) => Some(v@),
                None => None,
            },
        }
    }
}

/// What `Parameter::typed` gives.
pub open spec fn spec_typed(type_label: Seq<char>, value: Seq<char>) -> Result<ParameterModel, Error> {
    if is_blank(type_label) {
        Err(Error::EmptyArgument("parameter type"))
    } else {
        Ok(ParameterModel { type_label, value: Some(value) })
    }
}

/// The JSON object of a parameter: its `type` and, when defined, its
/// `value`.
pub open spec fn parameter_json(p: ParameterModel) -> Seq<char> {
    "{\"type\":"@ + json_string_text(p.type_label) + match p.value {
        Some(v) => ",\"value\":"@ + v,
        None => Seq::empty(),
    } + "}"@
}

/// A typed parameter is written with the JSON text of its value verbatim,
/// whatever that text is (a number, a boolean, an object, `null` or a
/// string), and an undefined one with its type alone.
pub proof fn lemma_parameter_value_verbatim(type_label: Seq<char>, value: Seq<char>)
    ensures
        parameter_json(ParameterModel { type_label, value: Some(value) }) == "{\"type\":"@
            + json_string_text(type_label) + ",\"value\":"@ + value + "}"@,
        parameter_json(ParameterModel { type_label, value: None }) == "{\"type\":"@
            + json_string_text(type_label) + "}"@,
{
    assert("{\"type\":"@ + json_string_text(type_label) + Seq::<char>::empty() =~= "{\"type\":"@
        + json_string_text(type_label));
}

impl Parameter {
    /// A parameter of type `type_label` whose value is the JSON text `value`;
    /// the type may not be blank.
    pub fn typed(type_label: &str, value: &str) -> (r: Result<Parameter, Error>)
        ensures
            viewed(r) == spec_typed(type_label@, value@),
    {
        let type_label = match require_argument("parameter type", type_label) {
            Ok(t) => t,
            Err(e) => return Err(e),
        };
        Ok(Parameter { type_label: String::from_str(type_label), value: Some(String::from_str(value)) })
    }

    /// The undefined parameter, of type `Std::Undefined` and without value.
    pub fn undefined() -> (r: Parameter)
        ensures
            r@ == (ParameterModel { type_label: "Std::Undefined"@, value: None }),
    {
        Parameter { type_label: String::from_str("Std::Undefined"), value: None }
    }

    /// The parameter's type.
    pub fn type_label(&self) -> (r: &str)
        ensures
            r@ == self@.type_label,
    {
        self.type_label.as_str()
    }

    /// The JSON text of the parameter's value, if it has one.
    pub fn value(&self) -> (r: Option<&str>)
        ensures
            match r {
                Some(v) => self@.value == Some(v@),
                None => self@.value is None,
            },
    {
        match &self.value {
            Some(v) => Some(v.as_str()),
            None => None,
        }
    }
}

fn push_parameter_json(out: &mut Vec<char>, p: &Parameter)
    ensures
        final(out)@ == old(out)@ + parameter_json(p@),
{
    let ghost start = out@;
    push_str(out, "{\"type\":");
    push_json_string(out, p.type_label.as_str());
    let ghost mid = out@;
    match &p.value {
        Some(v) => {
            push_str(out, ",\"value\":");
            push_str(out, v.as_str());
        },
        None => {},
    }
    assert(out@ =~= mid + match p@.value {
        Some(v) => ",\"value\":"@ + v,
        None => Seq::<char>::empty(),
    });
    push_str(out, "}");
    assert(out@ =~= start + parameter_json(p@));
}

/// The JSON objects of `parameters`.
pub open spec fn parameters_json(parameters: Seq<ParameterModel>) -> Seq<Seq<char>> {
    parameters.map_values(|p: ParameterModel| parameter_json(p))
}

fn push_parameters_json(out: &mut Vec<char>, parameters: &Vec<Parameter>)
    ensures
        final(out)@ == old(out)@ + json_array(
            parameters_json(parameters@.map_values(|p: Parameter| p@)),
        ),
{
    let ghost start = out@;
    let ghost texts = parameters_json(parameters@.map_values(|p: Parameter| p@));
    out.push('[');
    let mut i: usize = 0;
    while i < parameters.len()
        invariant
            i <= parameters.len(),
            texts == parameters_json(parameters@.map_values(|p: Parameter| p@)),
            texts.len() == parameters.len(),
            out@ == start + seq!['['] + join(texts.take(i as int), seq![',']),
        decreases parameters.len() - i,
    {
        if i > 0 {
            out.push(',');
        }
        push_parameter_json(out, &parameters[i]);
        proof {
            assert(texts[i as int] == parameter_json(parameters@[i as int]@));
            assert(texts.take(i + 1) == texts.take(i as int).push(texts[i as int]));
            lemma_join_push(texts.take(i as int), seq![','], texts[i as int]);
        }
        i += 1;
    }
    assert(texts.take(parameters.len() as int) == texts);
    out.push(']');
}

/// What the information of a remote caller holds.
pub struct RemoteCallerModel {
    pub id: Seq<char>,
    pub debug_state: Seq<char>,
    pub bsl_stack: Seq<Seq<char>>,
}

/// The information of the remote caller of a module call.
pub struct RemoteCallerInfo {
    id: String,
    debug_state: String,
    bsl_stack: Vec<String>,
}

impl View for RemoteCallerInfo {
    type V = RemoteCallerModel;

    closed spec fn view(&self) -> RemoteCallerModel {
        RemoteCallerModel {
            id: self.id@,
            debug_state: self.debug_state@,
            bsl_stack: self.bsl_stack@.map_values(|s: String| s@),
        }
    }
}

/// What `RemoteCallerInfo::disabled` gives: debugging disabled and an empty
/// stack.
pub open spec fn spec_disabled(id: Seq<char>) -> Result<RemoteCallerModel, Error> {
    if is_blank(id) {
        Err(Error::EmptyArgument("remote caller id"))
    } else {
        Ok(RemoteCallerModel { id, debug_state: "DISABLED"@, bsl_stack: Seq::empty() })
    }
}

/// The JSON object of a remote caller's information.
pub open spec fn remote_caller_json(r: RemoteCallerModel) -> Seq<char> {
    "{\"id\":"@ + json_string_text(r.id) + ",\"debugState\":"@ + json_string_text(r.debug_state)
        + ",\"bslStack\":"@ + json_array(json_strings(r.bsl_stack)) + "}"@
}

impl RemoteCallerInfo {
    /// A remote caller `id` with debugging disabled; the id may not be blank.
    pub fn disabled(id: &str) -> (r: Result<RemoteCallerInfo, Error>)
        ensures
            viewed(r) == spec_disabled(id@),
    {
        let id = match require_argument("remote caller id", id) {
            Ok(i) => i,
            Err(e) => return Err(e),
        };
        let bsl_stack: Vec<String> = Vec::new();
        assert(bsl_stack@.map_values(|s: String| s@) =~= Seq::<Seq<char>>::empty());
        Ok(
            RemoteCallerInfo {
                id: String::from_str(id),
                debug_state: String::from_str("DISABLED"),
                bsl_stack,
            },
        )
    }
}

fn push_remote_caller_json(out: &mut Vec<char>, r: &RemoteCallerInfo)
    ensures
        final(out)@ == old(out)@ + remote_caller_json(r@),
{
    let ghost start = out@;
    push_str(out, "{\"id\":");
    push_json_string(out, r.id.as_str());
    push_str(out, ",\"debugState\":");
    push_json_string(out, r.debug_state.as_str());
    push_str(out, ",\"bslStack\":");
    push_json_string_array(out, &r.bsl_stack);
    push_str(out, "}");
    assert(out@ =~= start + remote_caller_json(r@));
}

/// What a module call holds.
pub struct ModuleCallModel {
    pub module_name: Seq<char>,
    pub method_name: Seq<char>,
    pub parameters: Seq<ParameterModel>,
    pub remote_caller_info: Option<RemoteCallerModel>,
}

/// A call of a method of a server module.
pub struct ModuleCall {
    module_name: String,
    method_name: String,
    parameters: Vec<Parameter>,
    remote_caller_info: Option<RemoteCallerInfo>,
}

impl View for ModuleCall {
    type V = ModuleCallModel;

    closed spec fn view(&self) -> ModuleCallModel {
        ModuleCallModel {
            module_name: self.module_name@,
            method_name: self.method_name@,
            parameters: self.parameters@.map_values(|p: Parameter| p@),
            remote_caller_info: match self.remote_caller_info {
                Some(i) => Some(i@),
                None => None,
            },
        }
    }
}

/// What `ModuleCall::new` gives.
pub open spec fn spec_module_call_new(module_name: Seq<char>, method_name: Seq<char>) -> Result<
    ModuleCallModel,
    Error,
> {
    if is_blank(module_name) {
        Err(Error::EmptyArgument("moduleName"))
    } else if is_blank(method_name) {
        Err(Error::EmptyArgument("methodName"))
    } else {
        Ok(
            ModuleCallModel {
                module_name,
                method_name,
                parameters: Seq::empty(),
                remote_caller_info: None,
            },
        )
    }
}

/// The JSON body of a module call.
pub open spec fn module_call_json(c: ModuleCallModel) -> Seq<char> {
    "{\"moduleName\":"@ + json_string_text(c.module_name) + ",\"methodName\":"@
        + json_string_text(c.method_name) + ",\"parameters\":"@ + json_array(
        parameters_json(c.parameters),
    ) + match c.remote_caller_info {
        Some(info) => ",\"remoteCallerInfo\":"@ + remote_caller_json(info),
        None => Seq::empty(),
    } + "}"@
}

/// The descriptor of a module call.
pub open spec fn spec_module_call_request(
    c: ModuleCallModel,
    base_url: Seq<char>,
    locale: Seq<char>,
    pub_locale: Seq<char>,
) -> Result<HttpRequestModel, Error> {
    spec_descriptor(base_url, MODULE_CALL_PATH@, locale, pub_locale, module_call_json(c))
}

impl ModuleCall {
    /// A call of `method_name` in `module_name`, without parameters; neither
    /// name may be blank.
    pub fn new(module_name: &str, method_name: &str) -> (r: Result<ModuleCall, Error>)
        ensures
            viewed(r) == spec_module_call_new(module_name@, method_name@),
    {
        let module_name = match require_argument("moduleName", module_name) {
            Ok(v) => v,
            Err(e) => return Err(e),
        };
        let method_name = match require_argument("methodName", method_name) {
            Ok(v) => v,
            Err(e) => return Err(e),
        };
        let parameters: Vec<Parameter> = Vec::new();
        assert(parameters@.map_values(|p: Parameter| p@) =~= Seq::<ParameterModel>::empty());
        Ok(
            ModuleCall {
                module_name: String::from_str(module_name),
                method_name: String::from_str(method_name),
                parameters,
                remote_caller_info: None,
            },
        )
    }

    /// The module's name.
    pub fn module_name(&self) -> (r: &str)
        ensures
            r@ == self@.module_name,
    {
        self.module_name.as_str()
    }

    /// The method's name.
    pub fn method_name(&self) -> (r: &str)
        ensures
            r@ == self@.method_name,
    {
        self.method_name.as_str()
    }

    /// The parameters, in order.
    pub fn parameters(&self) -> (r: &[Parameter])
        ensures
            r@.map_values(|p: Parameter| p@) == self@.parameters,
    {
        self.parameters.as_slice()
    }

    /// The call with `parameter` added last.
    pub fn with_parameter(self, parameter: Parameter) -> (r: ModuleCall)
        ensures
            r@ == (ModuleCallModel { parameters: self@.parameters.push(parameter@), ..self@ }),
    {
        let ModuleCall { module_name, method_name, mut parameters, remote_caller_info } = self;
        let ghost before = parameters@;
        parameters.push(parameter);
        assert(parameters@.map_values(|p: Parameter| p@) =~= before.map_values(|p: Parameter| p@).push(
            parameter@,
        ));
        ModuleCall { module_name, method_name, parameters, remote_caller_info }
    }

    /// The call with the remote caller's information set.
    pub fn with_remote_caller_info(self, remote_caller_info: RemoteCallerInfo) -> (r: ModuleCall)
        ensures
            r@ == (ModuleCallModel { remote_caller_info: Some(remote_caller_info@), ..self@ }),
    {
        ModuleCall {
            module_name: self.module_name,
            method_name: self.method_name,
            parameters: self.parameters,
            remote_caller_info: Some(remote_caller_info),
        }
    }

    /// The sessionless descriptor of the call at `base_url` with the given
    /// locales.
    pub fn into_http_request_without_session(
        self,
        base_url: &str,
        locale: &str,
        pub_locale: &str,
    ) -> (r: Result<HttpRequest, Error>)
        ensures
            viewed(r) == spec_module_call_request(self@, base_url@, locale@, pub_locale@),
    {
        let mut body: Vec<char> = Vec::new();
        push_str(&mut body, "{\"moduleName\":");
        push_json_string(&mut body, self.module_name.as_str());
        push_str(&mut body, ",\"methodName\":");
        push_json_string(&mut body, self.method_name.as_str());
        push_str(&mut body, ",\"parameters\":");
        push_parameters_json(&mut body, &self.parameters);
        let ghost mid = body@;
        match &self.remote_caller_info {
            Some(info) => {
                push_str(&mut body, ",\"remoteCallerInfo\":");
                push_remote_caller_json(&mut body, info);
            },
            None => {},
        }
        assert(body@ =~= mid + match self@.remote_caller_info {
            Some(info) => ",\"remoteCallerInfo\":"@ + remote_caller_json(info),
            None => Seq::<char>::empty(),
        });
        push_str(&mut body, "}");
        assert(body@ =~= module_call_json(self@));
        descriptor(base_url, MODULE_CALL_PATH, locale, pub_locale, &body)
    }
}

/// What a reference to an entity holds.
pub struct ReferenceModel {
    pub type_label: Seq<char>,
    pub value: Seq<char>,
}

/// A typed reference to an entity.
pub struct Reference {
    type_label: String,
    value: String,
}

impl View for Reference {
    type V = ReferenceModel;

    closed spec fn view(&self) -> ReferenceModel {
        ReferenceModel { type_label: self.type_label@, value: self.value@ }
    }
}

/// What `Reference::new` gives: neither the type nor the value may be
/// blank.
pub open spec fn spec_reference_new(type_label: Seq<char>, value: Seq<char>) -> Result<
    ReferenceModel,
    Error,
> {
    if is_blank(type_label) {
        Err(Error::EmptyArgument("reference type"))
    } else if is_blank(value) {
        Err(Error::EmptyReferenceValue)
    } else {
        Ok(ReferenceModel { type_label, value })
    }
}

/// The JSON object of a reference.
pub open spec fn reference_json(r: ReferenceModel) -> Seq<char> {
    "{\"type\":"@ + json_string_text(r.type_label) + ",\"value\":"@ + json_string_text(r.value)
        + "}"@
}

impl Reference {
    /// A reference of type `type_label` to `value`.
    pub fn new(type_label: &str, value: &str) -> (r: Result<Reference, Error>)
        ensures
            viewed(r) == spec_reference_new(type_label@, value@),
    {
        let type_label = match require_argument("reference type", type_label) {
            Ok(t) => t,
            Err(e) => return Err(e),
        };
        if str_is_blank(value) {
            return Err(Error::EmptyReferenceValue);
        }
        Ok(Reference { type_label: String::from_str(type_label), value: String::from_str(value) })
    }

    /// The reference's type.
    pub fn type_label(&self) -> (r: &str)
        ensures
            r@ == self@.type_label,
    {
        self.type_label.as_str()
    }

    /// The referenced value.
    pub fn value(&self) -> (r: &str)
        ensures
            r@ == self@.value,
    {
        self.value.as_str()
    }
}

/// A request to read the entity that a reference names.
pub struct EntityReadRequest {
    reference: Reference,
}

impl View for EntityReadRequest {
    type V = ReferenceModel;

    closed spec fn view(&self) -> ReferenceModel {
        self.reference@
    }
}

/// The JSON body of an entity read.
pub open spec fn entity_read_json(r: ReferenceModel) -> Seq<char> {
    "{\"reference\":"@ + reference_json(r) + "}"@
}

impl EntityReadRequest {
    /// A read of the entity `reference` names.
    pub fn new(reference: Reference) -> (r: EntityReadRequest)
        ensures
            r@ == reference@,
    {
        EntityReadRequest { reference }
    }

    /// The reference.
    pub fn reference(&self) -> (r: &Reference)
        ensures
            r@ == self@,
    {
        &self.reference
    }

    /// The sessionless descriptor of the read.
    pub fn into_http_request_without_session(
        self,
        base_url: &str,
        locale: &str,
        pub_locale: &str,
    ) -> (r: Result<HttpRequest, Error>)
        ensures
            viewed(r) == spec_descriptor(
                base_url@,
                ENTITY_READ_PATH@,
                locale@,
                pub_locale@,
                entity_read_json(self@),
            ),
    {
        let mut body: Vec<char> = Vec::new();
        push_str(&mut body, "{\"reference\":{\"type\":");
        push_json_string(&mut body, self.reference.type_label.as_str());
        push_str(&mut body, ",\"value\":");
        push_json_string(&mut body, self.reference.value.as_str());
        push_str(&mut body, "}}");
        proof {
            reveal_strlit("{\"reference\":{\"type\":");
            reveal_strlit("{\"reference\":");
            reveal_strlit("{\"type\":");
            reveal_strlit("}}");
            reveal_strlit("}");
        }
        assert(body@ =~= entity_read_json(self@));
        descriptor(base_url, ENTITY_READ_PATH, locale, pub_locale, &body)
    }
}

/// What a presentation lookup holds: a type and the ids to present.
pub struct PresentationLookupModel {
    pub type_label: Seq<char>,
    pub ids: Seq<Seq<char>>,
}

/// The ids of one type whose presentations are asked for.
pub struct PresentationLookup {
    type_label: String,
    ids: Vec<String>,
}

impl View for PresentationLookup {
    type V = PresentationLookupModel;

    closed spec fn view(&self) -> PresentationLookupModel {
        PresentationLookupModel {
            type_label: self.type_label@,
            ids: self.ids@.map_values(|s: String| s@),
        }
    }
}

/// What `PresentationLookup::new` gives: the type may not be blank, nor may
/// any id.
pub open spec fn spec_lookup_new(type_label: Seq<char>, ids: Seq<Seq<char>>) -> Result<
    PresentationLookupModel,
    Error,
> {
    if is_blank(type_label) {
        Err(Error::EmptyArgument("presentation type"))
    } else if exists|i: int| 0 <= i < ids.len() && is_blank(#[trigger] ids[i]) {
        Err(Error::EmptyReferenceValue)
    } else {
        Ok(PresentationLookupModel { type_label, ids })
    }
}

/// The JSON object of a presentation lookup.
pub open spec fn lookup_json(l: PresentationLookupModel) -> Seq<char> {
    "{\"typeName\":"@ + json_string_text(l.type_label) + ",\"ids\":"@ + json_array(
        json_strings(l.ids),
    ) + "}"@
}

/// The ids of a lookup are always written as a JSON array of their
/// strings, separated by commas, whatever their number; one id gives
/// `["<id>"]`.
pub proof fn lemma_lookup_ids_are_an_array(type_label: Seq<char>, ids: Seq<Seq<char>>, id: Seq<char>)
    ensures
        lookup_json(PresentationLookupModel { type_label, ids }) == "{\"typeName\":"@
            + json_string_text(type_label) + ",\"ids\":["@ + join(
            ids.map_values(|s: Seq<char>| json_string_text(s)),
            seq![','],
        ) + "]}"@,
        lookup_json(PresentationLookupModel { type_label, ids: seq![id] }) == "{\"typeName\":"@
            + json_string_text(type_label) + ",\"ids\":["@ + json_string_text(id) + "]}"@,
{
    let prefix = "{\"typeName\":"@ + json_string_text(type_label) + ",\"ids\":"@;
    assert(prefix + json_array(json_strings(ids)) + "}"@ =~= "{\"typeName\":"@ + json_string_text(
        type_label,
    ) + ",\"ids\":["@ + join(ids.map_values(|s: Seq<char>| json_string_text(s)), seq![','])
        + "]}"@) by {
        reveal_strlit(",\"ids\":");
        reveal_strlit(",\"ids\":[");
        reveal_strlit("}");
        reveal_strlit("]}");
    }
    let one = seq![id].map_values(|s: Seq<char>| json_string_text(s));
    assert(one =~= seq![json_string_text(id)]);
    assert(join(one, seq![',']) == json_string_text(id));
    assert(prefix + json_array(json_strings(seq![id])) + "}"@ =~= "{\"typeName\":"@
        + json_string_text(type_label) + ",\"ids\":["@ + json_string_text(id) + "]}"@) by {
        reveal_strlit(",\"ids\":");
        reveal_strlit(",\"ids\":[");
        reveal_strlit("}");
        reveal_strlit("]}");
    }
}

impl PresentationLookup {
    /// A lookup of `ids` of type `type_label`.
    pub fn new(type_label: &str, ids: Vec<String>) -> (r: Result<PresentationLookup, Error>)
        ensures
            viewed(r) == spec_lookup_new(type_label@, ids@.map_values(|s: String| s@)),
    {
        let label = match require_argument("presentation type", type_label) {
            Ok(t) => t,
            Err(e) => return Err(e),
        };
        let ghost texts = ids@.map_values(|s: String| s@);
        let mut i: usize = 0;
        while i < ids.len()
            invariant
                i <= ids.len(),
                texts == ids@.map_values(|s: String| s@),
                forall|k: int| 0 <= k < i ==> !is_blank(#[trigger] texts[k]),
                !is_blank(type_label@),
            decreases ids.len() - i,
        {
            if str_is_blank(ids[i].as_str()) {
                assert(is_blank(texts[i as int]));
                assert(exists|k: int| 0 <= k < texts.len() && is_blank(#[trigger] texts[k]));
                return Err(Error::EmptyReferenceValue);
            }
            i += 1;
        }
        Ok(PresentationLookup { type_label: String::from_str(label), ids })
    }
}

fn push_lookup_json(out: &mut Vec<char>, l: &PresentationLookup)
    ensures
        final(out)@ == old(out)@ + lookup_json(l@),
{
    let ghost start = out@;
    push_str(out, "{\"typeName\":");
    push_json_string(out, l.type_label.as_str());
    push_str(out, ",\"ids\":");
    push_json_string_array(out, &l.ids);
    push_str(out, "}");
    assert(out@ =~= start + lookup_json(l@));
}

/// A request for the presentations of several lookups.
pub struct PresentationRequest {
    lookups: Vec<PresentationLookup>,
}

impl View for PresentationRequest {
    type V = Seq<PresentationLookupModel>;

    closed spec fn view(&self) -> Seq<PresentationLookupModel> {
        self.lookups@.map_values(|l: PresentationLookup| l@)
    }
}

/// The JSON body of a presentation request: the array of its lookups.
pub open spec fn presentation_json(lookups: Seq<PresentationLookupModel>) -> Seq<char> {
    json_array(lookups.map_values(|l: PresentationLookupModel| lookup_json(l)))
}

impl PresentationRequest {
    /// A request for `lookups`.
    pub fn new(lookups: Vec<PresentationLookup>) -> (r: PresentationRequest)
        ensures
            r@ == lookups@.map_values(|l: PresentationLookup| l@),
    {
        PresentationRequest { lookups }
    }

    /// The sessionless descriptor of the request.
    pub fn into_http_request_without_session(
        self,
        base_url: &str,
        locale: &str,
        pub_locale: &str,
    ) -> (r: Result<HttpRequest, Error>)
        ensures
            viewed(r) == spec_descriptor(
                base_url@,
                PRESENTATION_PATH@,
                locale@,
                pub_locale@,
                presentation_json(self@),
            ),
    {
        let mut body: Vec<char> = Vec::new();
        let ghost texts = self@.map_values(|l: PresentationLookupModel| lookup_json(l));
        body.push('[');
        let mut i: usize = 0;
        while i < self.lookups.len()
            invariant
                i <= self.lookups.len(),
                texts == self@.map_values(|l: PresentationLookupModel| lookup_json(l)),
                self@ == self.lookups@.map_values(|l: PresentationLookup| l@),
                texts.len() == self.lookups.len(),
                body@ == seq!['['] + join(texts.take(i as int), seq![',']),
            decreases self.lookups.len() - i,
        {
            if i > 0 {
                body.push(',');
            }
            push_lookup_json(&mut body, &self.lookups[i]);
            proof {
                assert(texts[i as int] == lookup_json(self.lookups@[i as int]@));
                assert(texts.take(i + 1) == texts.take(i as int).push(texts[i as int]));
                lemma_join_push(texts.take(i as int), seq![','], texts[i as int]);
            }
            i += 1;
        }
        assert(texts.take(self.lookups.len() as int) == texts);
        body.push(']');
        assert(body@ =~= presentation_json(self@));
        descriptor(base_url, PRESENTATION_PATH, locale, pub_locale, &body)
    }
}

/// The JSON text of an integer.
pub open spec fn int_text(i: int) -> Seq<char> {
    if i < 0 {
        seq!['-'] + dec((-i) as nat)
    } else {
        dec(i as nat)
    }
}

/// The JSON text of a boolean.
pub open spec fn bool_text(b: bool) -> Seq<char> {
    if b {
        "true"@
    } else {
        "false"@
    }
}

fn push_int(out: &mut Vec<char>, i: i32)
    ensures
        final(out)@ == old(out)@ + int_text(i as int),
{
    if i < 0 {
        out.push('-');
        let magnitude: i64 = -(i as i64);
        push_decimal(out, magnitude as u64);
    } else {
        push_decimal(out, i as u64);
    }
}

fn push_bool(out: &mut Vec<char>, b: bool)
    ensures
        final(out)@ == old(out)@ + bool_text(b),
{
    if b {
        push_str(out, "true");
    } else {
        push_str(out, "false");
    }
}

/// What a dynamic list request holds.
pub struct DynamicListRequestModel {
    pub dynamic_list: Seq<char>,
    pub cursor_direction: i32,
    pub key_row_position: i32,
    pub show_deleted: bool,
    pub limit: u32,
    pub use_hierarchy: bool,
}

/// A request for the rows of a dynamic list, whose specification is JSON
/// text.
pub struct DynamicListRequest {
    dynamic_list: String,
    cursor_direction: i32,
    key_row_position: i32,
    show_deleted: bool,
    limit: u32,
    use_hierarchy: bool,
}

impl View for DynamicListRequest {
    type V = DynamicListRequestModel;

    closed spec fn view(&self) -> DynamicListRequestModel {
        DynamicListRequestModel {
            dynamic_list: self.dynamic_list@,
            cursor_direction: self.cursor_direction,
            key_row_position: self.key_row_position,
            show_deleted: self.show_deleted,
            limit: self.limit,
            use_hierarchy: self.use_hierarchy,
        }
    }
}

/// The JSON body of a dynamic list request.
pub open spec fn dynamic_list_json(d: DynamicListRequestModel) -> Seq<char> {
    "{\"dynamicList\":"@ + d.dynamic_list + ",\"cursorDirection\":"@ + int_text(
        d.cursor_direction as int,
    ) + ",\"keyRowPosition\":"@ + int_text(d.key_row_position as int) + ",\"showDeleted\":"@
        + bool_text(d.show_deleted) + ",\"limit\":"@ + dec(d.limit as nat) + ",\"useHierarchy\":"@
        + bool_text(d.use_hierarchy) + "}"@
}

impl DynamicListRequest {
    /// The first `limit` rows of the list `dynamic_list` (JSON text), from
    /// the start, deleted rows included, without hierarchy.
    pub fn new(dynamic_list: &str, limit: u32) -> (r: DynamicListRequest)
        ensures
            r@ == (DynamicListRequestModel {
                dynamic_list: dynamic_list@,
                cursor_direction: 0,
                key_row_position: 0,
                show_deleted: true,
                limit,
                use_hierarchy: false,
            }),
    {
        DynamicListRequest {
            dynamic_list: String::from_str(dynamic_list),
            cursor_direction: 0,
            key_row_position: 0,
            show_deleted: true,
            limit,
            use_hierarchy: false,
        }
    }

    /// The sessionless descriptor of the request.
    pub fn into_http_request_without_session(
        self,
        base_url: &str,
        locale: &str,
        pub_locale: &str,
    ) -> (r: Result<HttpRequest, Error>)
        ensures
            viewed(r) == spec_descriptor(
                base_url@,
                DYNAMIC_LIST_PATH@,
                locale@,
                pub_locale@,
                dynamic_list_json(self@),
            ),
    {
        let mut body: Vec<char> = Vec::new();
        push_str(&mut body, "{\"dynamicList\":");
        push_str(&mut body, self.dynamic_list.as_str());
        push_str(&mut body, ",\"cursorDirection\":");
        push_int(&mut body, self.cursor_direction);
        push_str(&mut body, ",\"keyRowPosition\":");
        push_int(&mut body, self.key_row_position);
        push_str(&mut body, ",\"showDeleted\":");
        push_bool(&mut body, self.show_deleted);
        push_str(&mut body, ",\"limit\":");
        push_decimal(&mut body, self.limit as u64);
        push_str(&mut body, ",\"useHierarchy\":");
        push_bool(&mut body, self.use_hierarchy);
        push_str(&mut body, "}");
        assert(body@ =~= dynamic_list_json(self@));
        descriptor(base_url, DYNAMIC_LIST_PATH, locale, pub_locale, &body)
    }
}

/// A request for what a dynamic list offers (its filters and columns).
pub struct DynamicListInfoRequest {
    dynamic_list: String,
}

impl View for DynamicListInfoRequest {
    type V = Seq<char>;

    closed spec fn view(&self) -> Seq<char> {
        self.dynamic_list@
    }
}

/// The JSON body of a dynamic list info request.
pub open spec fn dynamic_list_info_json(dynamic_list: Seq<char>) -> Seq<char> {
    "{\"dynamicList\":"@ + dynamic_list + "}"@
}

impl DynamicListInfoRequest {
    /// A request about the list `dynamic_list` (JSON text).
    pub fn new(dynamic_list: &str) -> (r: DynamicListInfoRequest)
        ensures
            r@ == dynamic_list@,
    {
        DynamicListInfoRequest { dynamic_list: String::from_str(dynamic_list) }
    }

    /// The sessionless descriptor of the request.
    pub fn into_http_request_without_session(
        self,
        base_url: &str,
        locale: &str,
        pub_locale: &str,
    ) -> (r: Result<HttpRequest, Error>)
        ensures
            viewed(r) == spec_descriptor(
                base_url@,
                DYNAMIC_LIST_INFO_PATH@,
                locale@,
                pub_locale@,
                dynamic_list_info_json(self@),
            ),
    {
        let mut body: Vec<char> = Vec::new();
        push_str(&mut body, "{\"dynamicList\":");
        push_str(&mut body, self.dynamic_list.as_str());
        push_str(&mut body, "}");
        descriptor(base_url, DYNAMIC_LIST_INFO_PATH, locale, pub_locale, &body)
    }
}

} // verus!
