//! The session configuration: the env-file format and the cookie it must
//! hold.
use crate::failure::{detail_models, Detail, DetailModel, ToolFailure, ToolFailureModel};
use crate::http::{debug_text, push_debug};
use crate::text::{
    chars_are_blank, chars_eq, chars_of, is_blank, push_str, string_of, sub_chars, trim,
    trim_chars,
};
use vstd::prelude::*;

verus! {

/// The pieces of `s` between line feeds, the last one included even when
/// empty. `str::lines` gives the same pieces but a final empty one and the
/// carriage return before a line feed; the env-file format trims every
/// line and skips empty ones, so neither difference shows.
pub open spec fn split_lines(s: Seq<char>) -> Seq<Seq<char>>
    decreases s.len(),
{
    if s.len() == 0 {
        seq![Seq::empty()]
    } else {
        let p = split_lines(s.drop_last());
        if s.last() == '\n' {
            p.push(Seq::empty())
        } else {
            p.update(p.len() - 1, p.last().push(s.last()))
        }
    }
}

/// The index of the first `c` in `s`, if any.
pub open spec fn index_of(s: Seq<char>, c: char) -> Option<int>
    decreases s.len(),
{
    if s.len() == 0 {
        None
    } else if s[0] == c {
        Some(0)
    } else {
        match index_of(s.drop_first(), c) {
            Some(i) => Some(i + 1),
            None => None,
        }
    }
}

/// The keyword that may start an env-file line.
pub open spec fn export_keyword() -> Seq<char> {
    seq!['e', 'x', 'p', 'o', 'r', 't', ' ']
}

/// `t` without a leading `export `.
pub open spec fn strip_export(t: Seq<char>) -> Seq<char> {
    if t.len() >= 7 && t.take(7) == export_keyword() {
        t.skip(7)
    } else {
        t
    }
}

/// A value without the double or single quotes around it, when it has a
/// matching pair.
pub open spec fn unquote(v: Seq<char>) -> Seq<char> {
    if v.len() >= 2 && ((v[0] == '"' && v.last() == '"') || (v[0] == '\'' && v.last() == '\'')) {
        v.subrange(1, v.len() - 1)
    } else {
        v
    }
}

/// What one env-file line holds: nothing for a blank line, a comment or a
/// line without `=`; otherwise the trimmed key and the trimmed, unquoted
/// value around the first `=`, after an optional `export `.
pub open spec fn parse_line(line: Seq<char>) -> Option<(Seq<char>, Seq<char>)> {
    let t = trim(line);
    if t.len() == 0 || t[0] == '#' {
        None
    } else {
        let u = strip_export(t);
        match index_of(u, '=') {
            Some(i) => Some((trim(u.take(i)), unquote(trim(u.skip(i + 1))))),
            None => None,
        }
    }
}

/// The entries of `lines`, in order.
pub open spec fn parse_lines(lines: Seq<Seq<char>>) -> Seq<(Seq<char>, Seq<char>)>
    decreases lines.len(),
{
    if lines.len() == 0 {
        Seq::empty()
    } else {
        parse_lines(lines.drop_last()) + match parse_line(lines.last()) {
            Some(kv) => seq![kv],
            None => Seq::empty(),
        }
    }
}

/// The map that `entries` fill when inserted in order: a later entry for a
/// key replaces an earlier one.
pub open spec fn as_map(entries: Seq<(Seq<char>, Seq<char>)>) -> Map<Seq<char>, Seq<char>>
    decreases entries.len(),
{
    if entries.len() == 0 {
        Map::empty()
    } else {
        as_map(entries.drop_last()).insert(entries.last().0, entries.last().1)
    }
}

/// What `parse_env_file` gives for `contents`.
pub open spec fn spec_parse_env_file(contents: Seq<char>) -> Map<Seq<char>, Seq<char>> {
    as_map(parse_lines(split_lines(contents)))
}

/// The key-value pairs of an env file.
pub struct EnvValues {
    entries: Vec<(String, String)>,
}

/// The models of entries, in order.
pub open spec fn entry_models(entries: Seq<(String, String)>) -> Seq<(Seq<char>, Seq<char>)> {
    entries.map_values(|e: (String, String)| (e.0@, e.1@))
}

impl View for EnvValues {
    type V = Map<Seq<char>, Seq<char>>;

    closed spec fn view(&self) -> Map<Seq<char>, Seq<char>> {
        as_map(entry_models(self.entries@))
    }
}

proof fn lemma_as_map_tail(entries: Seq<(Seq<char>, Seq<char>)>, j: int, k: Seq<char>)
    requires
        0 <= j <= entries.len(),
        forall|i: int| j <= i < entries.len() ==> (#[trigger] entries[i]).0 != k,
    ensures
        as_map(entries).dom().contains(k) == as_map(entries.take(j)).dom().contains(k),
        as_map(entries).dom().contains(k) ==> as_map(entries)[k] == as_map(entries.take(j))[k],
    decreases entries.len() - j,
{
    if j < entries.len() {
        lemma_as_map_tail(entries, j + 1, k);
        let t = entries.take(j + 1);
        assert(t.drop_last() == entries.take(j));
        assert(t.last() == entries[j]);
    } else {
        assert(entries.take(j) == entries);
    }
}

impl EnvValues {
    /// No values.
    pub fn new() -> (r: EnvValues)
        ensures
            r@ == Map::<Seq<char>, Seq<char>>::empty(),
    {
        let r = EnvValues { entries: Vec::new() };
        assert(entry_models(r.entries@) =~= Seq::<(Seq<char>, Seq<char>)>::empty());
        r
    }

    /// The values with `key` set to `value`.
    pub fn insert(&mut self, key: String, value: String)
        ensures
            final(self)@ == old(self)@.insert(key@, value@),
    {
        let ghost before = self.entries@;
        self.entries.push((key, value));
        assert(entry_models(self.entries@) =~= entry_models(before).push((key@, value@)));
        assert(entry_models(self.entries@).drop_last() == entry_models(before));
    }

    /// The value of `key`, if set.
    pub fn get(&self, key: &str) -> (r: Option<&str>)
        ensures
            match r {
                Some(v) => self@.dom().contains(key@) && self@[key@] == v@,
                None => !self@.dom().contains(key@),
            },
    {
        let target = chars_of(key);
        let ghost models = entry_models(self.entries@);
        let mut j: usize = self.entries.len();
        while j > 0
            invariant
                j <= self.entries.len(),
                models == entry_models(self.entries@),
                target@ == key@,
                forall|i: int| j <= i < models.len() ==> (#[trigger] models[i]).0 != key@,
            decreases j,
        {
            let entry = &self.entries[j - 1];
            if chars_eq(&chars_of(entry.0.as_str()), &target) {
                proof {
                    lemma_as_map_tail(models, j as int, key@);
                    let t = models.take(j as int);
                    assert(t.drop_last() == models.take(j - 1));
                    assert(t.last() == models[j - 1]);
                }
                return Some(entry.1.as_str());
            }
            j -= 1;
        }
        proof {
            lemma_as_map_tail(models, 0, key@);
            assert(models.take(0) == Seq::<(Seq<char>, Seq<char>)>::empty());
        }
        None
    }
}

fn find_char(s: &Vec<char>, c: char) -> (r: Option<usize>)
    ensures
        match r {
            Some(i) => index_of(s@, c) == Some(i as int) && i < s.len(),
            None => index_of(s@, c) is None,
        },
{
    let mut i: usize = 0;
    while i < s.len()
        invariant
            i <= s.len(),
            forall|k: int| 0 <= k < i ==> s@[k] != c,
        decreases s.len() - i,
    {
        if s[i] == c {
            proof {
                lemma_index_of_first(s@, c, i as int);
            }
            return Some(i);
        }
        i += 1;
    }
    proof {
        lemma_index_of_none(s@, c);
    }
    None
}

proof fn lemma_index_of_first(s: Seq<char>, c: char, i: int)
    requires
        0 <= i < s.len(),
        s[i] == c,
        forall|k: int| 0 <= k < i ==> s[k] != c,
    ensures
        index_of(s, c) == Some(i),
    decreases i,
{
    if i > 0 {
        assert(s[0] != c);
        assert forall|k: int| 0 <= k < i - 1 implies s.drop_first()[k] != c by {
            assert(s.drop_first()[k] == s[k + 1]);
        }
        lemma_index_of_first(s.drop_first(), c, i - 1);
    }
}

proof fn lemma_index_of_none(s: Seq<char>, c: char)
    requires
        forall|k: int| 0 <= k < s.len() ==> s[k] != c,
    ensures
        index_of(s, c) is None,
    decreases s.len(),
{
    if s.len() > 0 {
        assert forall|k: int| 0 <= k < s.len() - 1 implies s.drop_first()[k] != c by {
            assert(s.drop_first()[k] == s[k + 1]);
        }
        lemma_index_of_none(s.drop_first(), c);
    }
}

/// `value` without the double or single quotes around it, when it starts
/// and ends with the same one of them and has at least two characters.
pub fn unquote_env_value(value: &str) -> (r: String)
    ensures
        r@ == unquote(value@),
{
    let v = chars_of(value);
    let n = v.len();
    if n >= 2 {
        let quoted = (v[0] == '"' && v[n - 1] == '"') || (v[0] == '\'' && v[n - 1] == '\'');
        if quoted {
            let inner = sub_chars(&v, 1, n - 1);
            return string_of(&inner);
        }
    }
    string_of(&v)
}

fn parse_line_exec(line: &Vec<char>) -> (r: Option<(String, String)>)
    ensures
        match r {
            Some(kv) => parse_line(line@) == Some((kv.0@, kv.1@)),
            None => parse_line(line@) is None,
        },
{
    let t = trim_chars(line);
    if t.len() == 0 || t[0] == '#' {
        return None;
    }
    let export: Vec<char> = vec!['e', 'x', 'p', 'o', 'r', 't', ' '];
    assert(export@ == export_keyword());
    let u = if t.len() >= 7 && chars_eq(&sub_chars(&t, 0, 7), &export) {
        sub_chars(&t, 7, t.len())
    } else {
        t
    };
    match find_char(&u, '=') {
        Some(i) => {
            let key = trim_chars(&sub_chars(&u, 0, i));
            let raw = trim_chars(&sub_chars(&u, i + 1, u.len()));
            let raw = string_of(&raw);
            let value = unquote_env_value(raw.as_str());
            Some((string_of(&key), value))
        },
        None => None,
    }
}

/// The key-value pairs of an env file: one per line of the form
/// `[export ]KEY=VALUE`, blank lines and `#` comments skipped; a later pair
/// for a key replaces an earlier one.
pub fn parse_env_file(contents: &str) -> (r: EnvValues)
    ensures
        r@ == spec_parse_env_file(contents@),
{
    let s = chars_of(contents);
    let mut values = EnvValues::new();
    let mut cur: Vec<char> = Vec::new();
    let ghost mut done: Seq<Seq<char>> = Seq::empty();
    let mut i: usize = 0;
    assert(s@.take(0) == Seq::<char>::empty());
    while i < s.len()
        invariant
            i <= s.len(),
            split_lines(s@.take(i as int)) == done.push(cur@),
            values@ == as_map(parse_lines(done)),
        decreases s.len() - i,
    {
        let c = s[i];
        proof {
            assert(s@.take(i + 1).drop_last() == s@.take(i as int));
            assert(s@.take(i + 1).last() == c);
        }
        if c == '\n' {
            let ghost line = cur@;
            match parse_line_exec(&cur) {
                Some(kv) => {
                    let (k, v) = kv;
                    values.insert(k, v);
                },
                None => {},
            }
            proof {
                assert(done.push(line).drop_last() == done);
                let pl = parse_lines(done.push(line));
                assert(pl == parse_lines(done) + match parse_line(line) {
                    Some(kv) => seq![kv],
                    None => Seq::<(Seq<char>, Seq<char>)>::empty(),
                });
                match parse_line(line) {
                    Some(kv) => {
                        assert(pl == parse_lines(done).push(kv));
                        assert(pl.drop_last() == parse_lines(done));
                    },
                    None => {
                        assert(pl == parse_lines(done));
                    },
                }
                done = done.push(line);
            }
            cur = Vec::new();
        } else {
            let ghost before = cur@;
            cur.push(c);
            proof {
                let p = split_lines(s@.take(i as int));
                assert(p.len() - 1 == done.len());
                assert(split_lines(s@.take(i + 1)) =~= done.push(cur@));
            }
        }
        i += 1;
    }
    assert(s@.take(s.len() as int) == s@);
    let ghost line = cur@;
    match parse_line_exec(&cur) {
        Some(kv) => {
            let (k, v) = kv;
            values.insert(k, v);
        },
        None => {},
    }
    proof {
        assert(done.push(line).drop_last() == done);
        let pl = parse_lines(done.push(line));
        match parse_line(line) {
            Some(kv) => {
                assert(pl == parse_lines(done).push(kv));
                assert(pl.drop_last() == parse_lines(done));
            },
            None => {
                assert(pl == parse_lines(done));
            },
        }
    }
    values
}

/// Why no session configuration could be had.
#[derive(Debug)]
pub enum ConfigError {
    MissingEnvFilePath,
    MissingCookie,
    ReadEnvFile { path: String, source: String },
}

/// The failure that a configuration error is reported as.
pub open spec fn config_failure(e: ConfigError) -> ToolFailureModel {
    match e {
        ConfigError::MissingEnvFilePath => ToolFailureModel {
            code: "config_missing"@,
            message: "Set BUGBOARD_SESSION_ENV to an env-file outside the repository."@,
            details: seq![("required_env"@, DetailModel::Text("BUGBOARD_SESSION_ENV"@))],
            delivery_uncertain: false,
        },
        ConfigError::MissingCookie => ToolFailureModel {
            code: "config_missing"@,
            message: "Session env-file must contain BUGBOARD_COOKIE."@,
            details: seq![("required_key"@, DetailModel::Text("BUGBOARD_COOKIE"@))],
            delivery_uncertain: false,
        },
        ConfigError::ReadEnvFile { path, source } => ToolFailureModel {
            code: "config_error"@,
            message: "Could not read BUGBOARD_SESSION_ENV file."@,
            details: seq![("path"@, DetailModel::Text(path@)), ("source"@, DetailModel::Text(source@))],
            delivery_uncertain: false,
        },
    }
}

impl ConfigError {
    /// The failure reported to a client for this error.
    pub fn into_tool_failure(self) -> (r: ToolFailure)
        ensures
            r@ == config_failure(self),
    {
        let ghost e = self;
        match self {
            ConfigError::MissingEnvFilePath => {
                let mut details: Vec<(String, Detail)> = Vec::new();
                details.push(
                    (
                        String::from_str("required_env"),
                        Detail::Text(String::from_str("BUGBOARD_SESSION_ENV")),
                    ),
                );
                let r = ToolFailure::new(
                    "config_missing",
                    "Set BUGBOARD_SESSION_ENV to an env-file outside the repository.",
                    details,
                );
                assert(r@.details =~= config_failure(e).details);
                r
            },
            ConfigError::MissingCookie => {
                let mut details: Vec<(String, Detail)> = Vec::new();
                details.push(
                    (String::from_str("required_key"), Detail::Text(String::from_str("BUGBOARD_COOKIE"))),
                );
                let r = ToolFailure::new(
                    "config_missing",
                    "Session env-file must contain BUGBOARD_COOKIE.",
                    details,
                );
                assert(r@.details =~= config_failure(e).details);
                r
            },
            ConfigError::ReadEnvFile { path, source } => {
                let mut details: Vec<(String, Detail)> = Vec::new();
                details.push((String::from_str("path"), Detail::Text(path)));
                details.push((String::from_str("source"), Detail::Text(source)));
                let r = ToolFailure::new(
                    "config_error",
                    "Could not read BUGBOARD_SESSION_ENV file.",
                    details,
                );
                assert(r@.details =~= config_failure(e).details);
                r
            },
        }
    }
}

/// The session configuration: the cookie to use.
pub struct SessionConfig {
    cookie: String,
}

impl View for SessionConfig {
    type V = Seq<char>;

    closed spec fn view(&self) -> Seq<char> {
        self.cookie@
    }
}

/// What `SessionConfig::from_values` gives: the value of
/// `BUGBOARD_COOKIE`, which must be set and not blank.
pub open spec fn spec_from_values(values: Map<Seq<char>, Seq<char>>) -> Result<Seq<char>, ()> {
    if values.dom().contains("BUGBOARD_COOKIE"@) && !is_blank(values["BUGBOARD_COOKIE"@]) {
        Ok(values["BUGBOARD_COOKIE"@])
    } else {
        Err(())
    }
}

/// The debug text of a configuration, which never shows the cookie.
pub open spec fn config_debug() -> Seq<char> {
    "SessionConfig { cookie: "@ + debug_text("<redacted>"@) + " }"@
}

impl SessionConfig {
    /// The configuration that `values` give: only `BUGBOARD_COOKIE` is
    /// read.
    pub fn from_values(values: &EnvValues) -> (r: Result<SessionConfig, ConfigError>)
        ensures
            match spec_from_values(values@) {
                Ok(cookie) => r matches Ok(c) && c@ == cookie,
                Err(()) => r matches Err(ConfigError::MissingCookie),
            },
    {
        match values.get("BUGBOARD_COOKIE") {
            Some(value) => {
                if chars_are_blank(&chars_of(value)) {
                    Err(ConfigError::MissingCookie)
                } else {
                    Ok(SessionConfig { cookie: String::from_str(value) })
                }
            },
            None => Err(ConfigError::MissingCookie),
        }
    }

    /// The cookie.
    pub fn cookie(&self) -> (r: &str)
        ensures
            r@ == self@,
    {
        self.cookie.as_str()
    }

    /// The debug text of the configuration, which never shows the cookie.
    pub fn debug_repr(&self) -> (r: String)
        ensures
            r@ == config_debug(),
    {
        let mut out: Vec<char> = Vec::new();
        push_str(&mut out, "SessionConfig { cookie: ");
        push_debug(&mut out, "<redacted>");
        push_str(&mut out, " }");
        string_of(&out)
    }
}

proof fn lemma_split_after_line_feed(c: Seq<char>, l: Seq<char>)
    requires
        forall|i: int| 0 <= i < l.len() ==> l[i] != '\n',
    ensures
        split_lines(c.push('\n') + l) == split_lines(c).push(l),
    decreases l.len(),
{
    if l.len() == 0 {
        assert(c.push('\n') + l =~= c.push('\n'));
        assert(c.push('\n').drop_last() == c);
        assert(c.push('\n').last() == '\n');
        assert(l =~= Seq::<char>::empty());
    } else {
        let p = l.drop_last();
        lemma_split_after_line_feed(c, p);
        let s = c.push('\n') + l;
        assert(s.drop_last() =~= c.push('\n') + p);
        assert(s.last() == l.last());
        assert(l.last() != '\n');
        let q = split_lines(c).push(p);
        assert(split_lines(s) == q.update(q.len() - 1, q.last().push(s.last())));
        assert(p.push(l.last()) =~= l);
        assert(split_lines(s) =~= split_lines(c).push(l));
    }
}

/// A comment line (one whose trimmed text starts with `#`) holds no pair,
/// and adding such a line after any contents leaves what the file holds
/// unchanged: a commented-out assignment never replaces a live one.
pub proof fn lemma_comment_lines_are_ignored(contents: Seq<char>, line: Seq<char>)
    requires
        trim(line).len() > 0,
        trim(line)[0] == '#',
        forall|i: int| 0 <= i < line.len() ==> line[i] != '\n',
    ensures
        parse_line(line) is None,
        spec_parse_env_file(contents + seq!['\n'] + line) == spec_parse_env_file(contents),
{
    assert(contents + seq!['\n'] + line =~= contents.push('\n') + line);
    lemma_split_after_line_feed(contents, line);
    let lines = split_lines(contents);
    assert(lines.push(line).drop_last() == lines);
    assert(parse_lines(lines.push(line)) =~= parse_lines(lines));
}

/// A value written between matching quotes reads back without them.
pub proof fn lemma_unquote_quoted(inner: Seq<char>, quote: char)
    requires
        quote == '"' || quote == '\'',
    ensures
        unquote(seq![quote] + inner + seq![quote]) == inner,
{
    let v = seq![quote] + inner + seq![quote];
    assert(v[0] == quote);
    assert(v.last() == quote);
    assert(v.subrange(1, v.len() - 1) =~= inner);
}

/// A file of one line `KEY=VALUE` with a key and a value that need no
/// trimming, no `=` in the key and no quotes around the value, gives that
/// one pair.
pub proof fn lemma_single_assignment(key: Seq<char>, value: Seq<char>)
    requires
        key.len() > 0,
        key[0] != '#',
        trim(key) == key,
        trim(value) == value,
        unquote(value) == value,
        index_of(key, '=') is None,
        key.len() < 7 || key.take(7) != export_keyword(),
        trim(key + seq!['='] + value) == key + seq!['='] + value,
    ensures
        parse_line(key + seq!['='] + value) == Some((key, value)),
{
    let line = key + seq!['='] + value;
    assert(line[0] == key[0]);
    if line.len() >= 7 && line.take(7) == export_keyword() {
        assert(key.len() >= 7) by {
            if key.len() < 7 {
                assert(line.take(7)[key.len() as int] == '=');
                assert(export_keyword()[key.len() as int] != '=');
            }
        }
        assert(line.take(7) == key.take(7));
    }
    assert(strip_export(line) == line);
    lemma_index_of_none_prefix(key, value);
    assert(line.take(key.len() as int) =~= key);
    assert(line.skip(key.len() + 1int) =~= value);
}

proof fn lemma_index_of_none_prefix(key: Seq<char>, value: Seq<char>)
    requires
        index_of(key, '=') is None,
    ensures
        index_of(key + seq!['='] + value, '=') == Some(key.len() as int),
    decreases key.len(),
{
    let line = key + seq!['='] + value;
    if key.len() == 0 {
        assert(line[0] == '=');
    } else {
        assert(key[0] != '=');
        assert(line[0] == key[0]);
        assert(line.drop_first() == key.drop_first() + seq!['='] + value);
        lemma_index_of_none_prefix(key.drop_first(), value);
    }
}

} // verus!
