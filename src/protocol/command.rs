use crate::json::{
    is_json_value, json_value_ok,
    plain_text,
    find_literal_end, json_quoted, json_unquoted, lemma_literal_end_bounds,
    lemma_literal_end_embedded, literal_end, quote, unquote, well_quoted,
};
use vstd::prelude::*;
use vstd::string::*;

verus! {

/// One field of a JSON object whose values are strings: its name and value.
pub type Field = (Seq<char>, Seq<char>);

/// The mathematical value of a command.
pub enum CommandView {
    SetEnv { key: Seq<char>, value: Seq<char> },
    UnsetEnv { key: Seq<char> },
}

/// One change that the parent shell is asked to make to its environment.
#[derive(Debug)]
pub enum ShellCommand {
    SetEnv { key: String, value: String },
    UnsetEnv { key: String },
}

impl View for ShellCommand {
    type V = CommandView;

    open spec fn view(&self) -> CommandView {
        match self {
            ShellCommand::SetEnv { key, value } => CommandView::SetEnv { key: key@, value: value@ },
            ShellCommand::UnsetEnv { key } => CommandView::UnsetEnv { key: key@ },
        }
    }
}

/// A command could not be turned into text: quoting a string failed.
#[derive(Debug, Clone, Copy, PartialEq, Eq, Structural)]
pub struct EncodeError;

/// Why a text is not a command.
#[derive(Debug, Clone, Copy, PartialEq, Eq, Structural)]
pub enum DecodeError {
    /// Not one JSON object, or a field name or value that serde_json refuses.
    Malformed,
    /// No `action` field whose value is a string.
    MissingAction,
    /// An `action` that is neither `set_env` nor `unset_env`.
    UnknownAction,
    /// A field that the action needs is absent, or its value is not a string.
    MissingField,
}

/// The fields of a command, in the order in which they are written.
pub open spec fn command_fields(c: CommandView) -> Seq<Field> {
    match c {
        CommandView::SetEnv { key, value } => seq![
            ("action"@, "set_env"@),
            ("key"@, key),
            ("value"@, value),
        ],
        CommandView::UnsetEnv { key } => seq![("action"@, "unset_env"@), ("key"@, key)],
    }
}

/// `"name":"value"`, each side quoted.
pub open spec fn render_field(f: Field) -> Seq<char> {
    json_quoted(f.0) + seq![':'] + json_quoted(f.1)
}

/// The fields, separated by commas.
pub open spec fn render_fields(fs: Seq<Field>) -> Seq<char>
    decreases fs.len(),
{
    if fs.len() == 0 {
        Seq::empty()
    } else if fs.len() == 1 {
        render_field(fs[0])
    } else {
        render_field(fs[0]) + seq![','] + render_fields(fs.drop_first())
    }
}

/// The wire form of a command: one JSON object, fields in their fixed order.
pub open spec fn encoding(c: CommandView) -> Seq<char> {
    seq!['{'] + render_fields(command_fields(c)) + seq!['}']
}

/// Prepends `a` to a parse result.
pub open spec fn glue(a: Seq<Field>, o: Option<Seq<Field>>) -> Option<Seq<Field>> {
    match o {
        Some(rest) => Some(a + rest),
        None => None,
    }
}

/// JSON's whitespace.
pub open spec fn is_ws(c: char) -> bool {
    c == ' ' || c == '\t' || c == '\n' || c == '\r'
}

/// The first index from `i` on that holds no whitespace.
pub open spec fn skip_ws(t: Seq<char>, i: int) -> int
    decreases t.len() - i,
{
    if 0 <= i < t.len() && is_ws(t[i]) {
        skip_ws(t, i + 1)
    } else {
        i
    }
}

/// Skipping whitespace moves forward, and stops inside the text only at a
/// character that is not whitespace.
pub proof fn lemma_skip_ws(t: Seq<char>, i: int)
    requires
        0 <= i <= t.len(),
    ensures
        i <= skip_ws(t, i) <= t.len(),
        skip_ws(t, i) < t.len() ==> !is_ws(t[skip_ws(t, i)]),
    decreases t.len() - i,
{
    if i < t.len() && is_ws(t[i]) {
        lemma_skip_ws(t, i + 1);
    }
}

/// Where a value that is not a string ends: the index of the comma or brace
/// that follows it at nesting depth `d`, strings inside it skipped whole.
pub open spec fn value_end(t: Seq<char>, i: int, d: nat) -> Option<int>
    decreases t.len() - i,
{
    if i < 0 || i >= t.len() {
        None
    } else if d == 0 && (t[i] == ',' || t[i] == '}') {
        Some(i)
    } else if t[i] == '"' {
        match literal_end(t, i + 1) {
            Some(k) => if i < k < t.len() {
                value_end(t, k + 1, d)
            } else {
                None
            },
            None => None,
        }
    } else if t[i] == '{' || t[i] == '[' {
        value_end(t, i + 1, d + 1)
    } else if t[i] == '}' || t[i] == ']' {
        if d == 0 {
            None
        } else {
            value_end(t, i + 1, (d - 1) as nat)
        }
    } else {
        value_end(t, i + 1, d)
    }
}

/// The value of a field that starts at `vs`: where it ends (exclusive) and
/// the string it holds, or `None` for a valid JSON value that is no string.
pub open spec fn member_value(t: Seq<char>, vs: int) -> Option<(int, Option<Seq<char>>)> {
    if vs < 0 || vs >= t.len() {
        None
    } else if t[vs] == '"' {
        match literal_end(t, vs + 1) {
            None => None,
            Some(ve) => match json_unquoted(t.subrange(vs, ve + 1)) {
                Some(v) => Some((ve + 1, Some(v))),
                None => None,
            },
        }
    } else {
        match value_end(t, vs, 0) {
            None => None,
            Some(e) => if json_value_ok(t.subrange(vs, e)) {
                Some((e, None))
            } else {
                None
            },
        }
    }
}

/// The field list of one member: the pair where its value is a string.
pub open spec fn member_fields(name: Seq<char>, value: Option<Seq<char>>) -> Seq<Field> {
    match value {
        Some(v) => seq![(name, v)],
        None => Seq::empty(),
    }
}

/// The string fields of an object from the member that starts at `i` (after
/// any whitespace) to the closing brace, after which only whitespace may
/// follow. Members whose value is not a string are checked and left out.
pub open spec fn fields_from(t: Seq<char>, i: int) -> Option<Seq<Field>>
    decreases t.len() - i,
{
    let s = skip_ws(t, i);
    if i < 0 || s >= t.len() || t[s] != '"' {
        None
    } else {
        match literal_end(t, s + 1) {
            None => None,
            Some(ke) => {
                let c = skip_ws(t, ke + 1);
                if c >= t.len() || t[c] != ':' {
                    None
                } else {
                    match (json_unquoted(t.subrange(s, ke + 1)), member_value(
                        t,
                        skip_ws(t, c + 1),
                    )) {
                        (Some(name), Some((after, value))) => {
                            let a = skip_ws(t, after);
                            if a < t.len() && t[a] == '}' && skip_ws(t, a + 1) == t.len() {
                                Some(member_fields(name, value))
                            } else if a < t.len() && t[a] == ',' && a + 1 > i {
                                glue(member_fields(name, value), fields_from(t, a + 1))
                            } else {
                                None
                            }
                        },
                        _ => None,
                    }
                }
            },
        }
    }
}

/// The fields of a text that is one object of string fields, with
/// whitespace allowed between its tokens.
pub open spec fn object_fields(t: Seq<char>) -> Option<Seq<Field>> {
    let s = skip_ws(t, 0);
    if s < t.len() && t[s] == '{' {
        let f = skip_ws(t, s + 1);
        if f < t.len() && t[f] == '}' && skip_ws(t, f + 1) == t.len() {
            Some(Seq::empty())
        } else {
            fields_from(t, s + 1)
        }
    } else {
        None
    }
}

/// The value of the first field named `name`, looking from index `i` on.
pub open spec fn lookup_from(fs: Seq<Field>, name: Seq<char>, i: int) -> Option<Seq<char>>
    decreases fs.len() - i,
{
    if i < 0 || i >= fs.len() {
        None
    } else if fs[i].0 == name {
        Some(fs[i].1)
    } else {
        lookup_from(fs, name, i + 1)
    }
}

/// The value of the first field named `name`.
pub open spec fn lookup(fs: Seq<Field>, name: Seq<char>) -> Option<Seq<char>> {
    lookup_from(fs, name, 0)
}

/// The command that a list of fields describes, dispatched on `action`.
pub open spec fn command_of_fields(fs: Seq<Field>) -> Result<CommandView, DecodeError> {
    match lookup(fs, "action"@) {
        None => Err(DecodeError::MissingAction),
        Some(a) => if a == "set_env"@ {
            match (lookup(fs, "key"@), lookup(fs, "value"@)) {
                (Some(key), Some(value)) => Ok(CommandView::SetEnv { key, value }),
                _ => Err(DecodeError::MissingField),
            }
        } else if a == "unset_env"@ {
            match lookup(fs, "key"@) {
                Some(key) => Ok(CommandView::UnsetEnv { key }),
                None => Err(DecodeError::MissingField),
            }
        } else {
            Err(DecodeError::UnknownAction)
        },
    }
}

/// The command that a text holds.
pub open spec fn decoding(t: Seq<char>) -> Result<CommandView, DecodeError> {
    match object_fields(t) {
        None => Err(DecodeError::Malformed),
        Some(fs) => command_of_fields(fs),
    }
}

/// The views of a vector of string pairs.
pub open spec fn field_views(v: Seq<(String, String)>) -> Seq<Field> {
    v.map_values(|p: (String, String)| (p.0@, p.1@))
}

/// A text without characters to escape is quoted as it is.
pub open spec fn quoted_plainly(s: Seq<char>) -> bool {
    plain_text(s) ==> json_quoted(s) == seq!['"'] + s + seq!['"']
}

/// Each name and value of the fields that needs no escape is quoted as it is.
pub open spec fn fields_quoted_plainly(fs: Seq<Field>) -> bool {
    forall|j: int| 0 <= j < fs.len() ==> quoted_plainly(#[trigger] fs[j].0) && quoted_plainly(fs[j].1)
}

/// Every name and value of the fields reads back from its quoted form.
pub open spec fn fields_well_quoted(fs: Seq<Field>) -> bool {
    forall|j: int| 0 <= j < fs.len() ==> well_quoted(#[trigger] fs[j].0) && well_quoted(fs[j].1)
}

/// Fields written out and closed by a brace are read back as they were.
pub proof fn lemma_fields_read_back(fs: Seq<Field>, t: Seq<char>, d: int)
    requires
        fs.len() >= 1,
        fields_well_quoted(fs),
        0 <= d,
        t.len() == d + render_fields(fs).len() + 1,
        t.subrange(d, d + render_fields(fs).len()) == render_fields(fs),
        t[t.len() - 1] == '}',
    ensures
        fields_from(t, d) == Some(fs),
    decreases fs.len(),
{
    let r = render_fields(fs);
    let qn = json_quoted(fs[0].0);
    let qv = json_quoted(fs[0].1);
    assert(well_quoted(fs[0].0) && well_quoted(fs[0].1));
    let m = render_field(fs[0]);
    assert(r.subrange(0, m.len() as int) == m);
    assert(m.subrange(0, qn.len() as int) == qn);
    assert(m.subrange(qn.len() + 1int, m.len() as int) == qv);
    assert(t.subrange(d, d + qn.len()) == qn) by {
        assert(t.subrange(d, d + qn.len()) == r.subrange(0, qn.len() as int));
    }
    let vs = d + qn.len() + 1;
    assert(t.subrange(vs, vs + qv.len()) == qv) by {
        assert(t.subrange(vs, vs + qv.len()) == r.subrange(qn.len() + 1int, m.len() as int));
    }
    assert(t[d] == qn[0]);
    assert(t[d + qn.len()] == m[qn.len() as int]);
    assert(t[vs] == qv[0]);
    lemma_literal_end_embedded(qn, t, d, 1, qn.len() - 1);
    lemma_literal_end_embedded(qv, t, vs, 1, qv.len() - 1);
    let ke = d + qn.len() - 1;
    let ve = vs + qv.len() - 1;
    assert(ke + 3 == vs + 1);
    assert(t.subrange(d, ke + 1) == qn);
    assert(t.subrange(ke + 2, ve + 1) == qv);
    assert(skip_ws(t, d) == d);
    assert(skip_ws(t, ke + 1) == ke + 1);
    assert(skip_ws(t, ke + 2) == ke + 2);
    if fs.len() == 1 {
        assert(ve + 2 == t.len());
        assert(skip_ws(t, ve + 1) == ve + 1);
        assert(skip_ws(t, ve + 2) == ve + 2);
        assert(seq![(fs[0].0, fs[0].1)] == fs);
    } else {
        let rest = fs.drop_first();
        let rr = render_fields(rest);
        assert(r == m + seq![','] + rr);
        assert(t[ve + 1] == r[m.len() as int]);
        assert(t[ve + 1] == ',');
        assert(skip_ws(t, ve + 1) == ve + 1);
        assert(fields_well_quoted(rest)) by {
            assert forall|j: int| 0 <= j < rest.len() implies well_quoted(#[trigger] rest[j].0)
                && well_quoted(rest[j].1) by {
                assert(rest[j] == fs[j + 1]);
            }
        }
        assert(rest.len() >= 1);
        assert(rr.len() >= 1) by {
            lemma_render_nonempty(rest);
        }
        assert(t.subrange(ve + 2, ve + 2 + rr.len()) == rr) by {
            assert(t.subrange(ve + 2, ve + 2 + rr.len()) == r.subrange(m.len() + 1int, r.len() as int));
        }
        lemma_fields_read_back(rest, t, ve + 2);
        assert(seq![(fs[0].0, fs[0].1)] + rest == fs);
    }
}

/// Written fields are never empty text.
pub proof fn lemma_render_nonempty(fs: Seq<Field>)
    requires
        fs.len() >= 1,
        fields_well_quoted(fs),
    ensures
        render_fields(fs).len() >= 2,
{
    assert(well_quoted(fs[0].0));
}

/// Appends `"name":"value"` to `out`.
fn push_field(out: &mut String, name: &str, value: &str)
    ensures
        final(out)@ == old(out)@ + render_field((name@, value@)),
        well_quoted(name@) && well_quoted(value@),
        quoted_plainly(name@) && quoted_plainly(value@),
{
    let qn = quote(name).unwrap();
    let qv = quote(value).unwrap();
    out.append(qn.as_str());
    out.append(":");
    out.append(qv.as_str());
    proof {
        reveal_strlit(":");
        assert(final(out)@ =~= old(out)@ + render_field((name@, value@)));
    }
}

/// The first index from `i` on that holds no whitespace.
fn skip_whitespace(t: &str, n: usize, i: usize) -> (r: usize)
    requires
        n == t@.len(),
        i <= n,
    ensures
        r as int == skip_ws(t@, i as int),
        i <= r <= n,
{
    let mut j: usize = i;
    while j < n
        invariant
            n == t@.len(),
            i <= j <= n,
            skip_ws(t@, i as int) == skip_ws(t@, j as int),
        decreases n - j,
    {
        let c = t.get_char(j);
        if !(c == ' ' || c == '\t' || c == '\n' || c == '\r') {
            return j;
        }
        j = j + 1;
    }
    j
}

/// The view of an optional string.
pub open spec fn text_of(o: Option<String>) -> Option<Seq<char>> {
    match o {
        Some(x) => Some(x@),
        None => None,
    }
}

/// Where a value that is not a string, starting at `vs`, ends.
fn find_value_end(t: &str, n: usize, vs: usize) -> (r: Option<usize>)
    requires
        n == t@.len(),
        vs <= n,
    ensures
        r matches Some(e) ==> value_end(t@, vs as int, 0) == Some(e as int) && vs <= e < n,
        r is None ==> value_end(t@, vs as int, 0) is None,
{
    let mut j: usize = vs;
    let mut d: usize = 0;
    while j < n
        invariant
            n == t@.len(),
            vs <= j <= n,
            d <= j,
            value_end(t@, vs as int, 0) == value_end(t@, j as int, d as nat),
        decreases n - j,
    {
        let c = t.get_char(j);
        if d == 0 && (c == ',' || c == '}') {
            return Some(j);
        } else if c == '"' {
            match find_literal_end(t, n, j + 1) {
                Some(k) => {
                    proof {
                        lemma_literal_end_bounds(t@, j + 1);
                    }
                    j = k + 1;
                },
                None => return None,
            }
        } else if c == '{' || c == '[' {
            d = d + 1;
            j = j + 1;
        } else if c == '}' || c == ']' {
            if d == 0 {
                return None;
            }
            d = d - 1;
            j = j + 1;
        } else {
            j = j + 1;
        }
    }
    None
}

/// Reads the value of a field that starts at `vs`.
fn read_value(t: &str, n: usize, vs: usize) -> (r: Option<(usize, Option<String>)>)
    requires
        n == t@.len(),
        vs <= n,
    ensures
        match member_value(t@, vs as int) {
            Some((after, value)) => r matches Some((a, v)) && a as int == after && vs <= a <= n
                && text_of(v) == value,
            None => r is None,
        },
{
    if vs >= n {
        return None;
    }
    if t.get_char(vs) == '"' {
        let ve = match find_literal_end(t, n, vs + 1) {
            Some(k) => k,
            None => return None,
        };
        proof {
            lemma_literal_end_bounds(t@, vs + 1);
        }
        match unquote(t.substring_char(vs, ve + 1)) {
            Ok(x) => Some((ve + 1, Some(x))),
            Err(_) => None,
        }
    } else {
        let e = match find_value_end(t, n, vs) {
            Some(e) => e,
            None => return None,
        };
        if is_json_value(t.substring_char(vs, e)) {
            Some((e, None))
        } else {
            None
        }
    }
}

/// Reads the string fields of a text that is one object.
fn parse_fields(t: &str) -> (r: Option<Vec<(String, String)>>)
    ensures
        match object_fields(t@) {
            Some(fs) => r matches Some(v) && field_views(v@) == fs,
            None => r is None,
        },
{
    let n = t.unicode_len();
    let s = skip_whitespace(t, n, 0);
    if s >= n || t.get_char(s) != '{' {
        return None;
    }
    let mut fields: Vec<(String, String)> = Vec::new();
    let f = skip_whitespace(t, n, s + 1);
    if f < n && t.get_char(f) == '}' && skip_whitespace(t, n, f + 1) == n {
        assert(field_views(fields@) =~= Seq::empty());
        return Some(fields);
    }
    let mut pos: usize = s + 1;
    assert(field_views(fields@) =~= Seq::empty());
    assert(glue(Seq::empty(), fields_from(t@, pos as int)) =~= fields_from(t@, pos as int));
    loop
        invariant
            n == t@.len(),
            1 <= pos <= n,
            object_fields(t@) == glue(field_views(fields@), fields_from(t@, pos as int)),
        decreases n - pos,
    {
        let st = skip_whitespace(t, n, pos);
        if st >= n || t.get_char(st) != '"' {
            return None;
        }
        let ke = match find_literal_end(t, n, st + 1) {
            Some(k) => k,
            None => return None,
        };
        proof {
            lemma_literal_end_bounds(t@, st + 1);
        }
        let c = skip_whitespace(t, n, ke + 1);
        if c >= n || t.get_char(c) != ':' {
            return None;
        }
        let vs = skip_whitespace(t, n, c + 1);
        let name = match unquote(t.substring_char(st, ke + 1)) {
            Ok(x) => x,
            Err(_) => return None,
        };
        let (after, value) = match read_value(t, n, vs) {
            Some(p) => p,
            None => return None,
        };
        let a = skip_whitespace(t, n, after);
        let ghost before = field_views(fields@);
        let ghost head = member_fields(name@, text_of(value));
        match value {
            Some(v) => {
                fields.push((name, v));
            },
            None => {},
        }
        assert(field_views(fields@) =~= before + head);
        if a < n && t.get_char(a) == '}' && skip_whitespace(t, n, a + 1) == n {
            return Some(fields);
        }
        if a < n && t.get_char(a) == ',' {
            assert(glue(before, glue(head, fields_from(t@, a + 1)))
                =~= glue(field_views(fields@), fields_from(t@, a + 1)));
            pos = a + 1;
        } else {
            return None;
        }
    }
}

/// The value of the first field named `name`.
fn find_field(fields: &Vec<(String, String)>, name: &str) -> (r: Option<String>)
    ensures
        match lookup(field_views(fields@), name@) {
            Some(v) => r matches Some(s) && s@ == v,
            None => r is None,
        },
{
    let ghost fs = field_views(fields@);
    let target = String::from_str(name);
    let mut i: usize = 0;
    while i < fields.len()
        invariant
            fs == field_views(fields@),
            target@ == name@,
            i <= fields.len(),
            lookup(fs, name@) == lookup_from(fs, name@, i as int),
        decreases fields.len() - i,
    {
        assert(fs[i as int] == (fields@[i as int].0@, fields@[i as int].1@));
        if fields[i].0 == target {
            return Some(fields[i].1.clone());
        }
        i = i + 1;
    }
    None
}

impl ShellCommand {
    /// The key that the command changes.
    pub open spec fn spec_key(&self) -> Seq<char> {
        match self {
            ShellCommand::SetEnv { key, .. } => key@,
            ShellCommand::UnsetEnv { key } => key@,
        }
    }

    /// A command names a key: it is never empty.
    pub open spec fn wf(&self) -> bool {
        self.spec_key().len() > 0
    }

    /// A command to set `key` to `value`.
    pub fn set_env(key: &str, value: &str) -> (r: Self)
        requires
            key@.len() > 0,
        ensures
            r.wf(),
            r@ == (CommandView::SetEnv { key: key@, value: value@ }),
    {
        ShellCommand::SetEnv { key: String::from_str(key), value: String::from_str(value) }
    }

    /// A command to remove `key`.
    pub fn unset_env(key: &str) -> (r: Self)
        requires
            key@.len() > 0,
        ensures
            r.wf(),
            r@ == (CommandView::UnsetEnv { key: key@ }),
    {
        ShellCommand::UnsetEnv { key: String::from_str(key) }
    }

    /// The wire form: a JSON object with `action` first, then `key`, then
    /// `value` for a `SetEnv`. It always succeeds, and decoding it gives the
    /// command back.
    pub fn encode(&self) -> (r: Result<String, EncodeError>)
        ensures
            r is Ok,
            r matches Ok(t) ==> t@ == encoding(self@),
            fields_quoted_plainly(command_fields(self@)),
            r matches Ok(t) ==> decoding(t@) == Ok::<CommandView, DecodeError>(self@),
    {
        let mut out = String::from_str("{");
        let ghost fs = command_fields(self@);
        proof {
            reveal_strlit("{");
            reveal_strlit("}");
            reveal_strlit(",");
            reveal_strlit("action");
            reveal_strlit("key");
            reveal_strlit("value");
            reveal_strlit("set_env");
            reveal_strlit("unset_env");
            assert("key"@.len() != "action"@.len());
            assert("value"@.len() != "action"@.len());
            assert("value"@.len() != "key"@.len());
            assert("set_env"@.len() != "unset_env"@.len());
        }
        match self {
            ShellCommand::SetEnv { key, value } => {
                push_field(&mut out, "action", "set_env");
                out.append(",");
                push_field(&mut out, "key", key.as_str());
                out.append(",");
                push_field(&mut out, "value", value.as_str());
                out.append("}");
                proof {
                    let x = fs.drop_first();
                    assert(x.drop_first() =~= seq![fs[2]]);
                    assert(x =~= seq![fs[1], fs[2]]);
                    assert(render_fields(x.drop_first()) == render_field(fs[2]));
                    assert(render_fields(x) == render_field(fs[1]) + seq![','] + render_field(
                        fs[2],
                    ));
                    assert(out@ =~= encoding(self@));
                    assert(lookup_from(fs, "value"@, 3) is None);
                    assert(lookup_from(fs, "value"@, 2) == Some(fs[2].1));
                    assert(lookup_from(fs, "value"@, 1) == Some(fs[2].1));
                }
            },
            ShellCommand::UnsetEnv { key } => {
                push_field(&mut out, "action", "unset_env");
                out.append(",");
                push_field(&mut out, "key", key.as_str());
                out.append("}");
                proof {
                    assert(fs.drop_first() =~= seq![fs[1]]);
                    assert(render_fields(fs.drop_first()) == render_field(fs[1]));
                    assert(out@ =~= encoding(self@));
                }
            },
        }
        proof {
            let r = render_fields(fs);
            assert(fields_well_quoted(fs));
            assert(fields_quoted_plainly(fs));
            assert(out@.subrange(1, 1int + r.len()) =~= r);
            lemma_fields_read_back(fs, out@, 1);
            assert(well_quoted(fs[0].0));
            assert(r[0] == json_quoted(fs[0].0)[0]);
            assert(out@[1] == r[0]);
            assert(skip_ws(out@, 0) == 0);
            assert(skip_ws(out@, 1) == 1);
            assert(lookup(fs, "action"@) == Some(fs[0].1));
            assert(lookup_from(fs, "key"@, 1) == Some(fs[1].1));
            assert(lookup_from(fs, "key"@, 0) == Some(fs[1].1));
        }
        Ok(out)
    }

    /// Reads a command from its wire form, dispatching on `action`.
    pub fn decode(text: &str) -> (r: Result<ShellCommand, DecodeError>)
        ensures
            match decoding(text@) {
                Ok(c) => r matches Ok(x) && x@ == c,
                Err(e) => r == Err::<ShellCommand, DecodeError>(e),
            },
    {
        let fields = match parse_fields(text) {
            Some(f) => f,
            None => return Err(DecodeError::Malformed),
        };
        let action = match find_field(&fields, "action") {
            Some(a) => a,
            None => return Err(DecodeError::MissingAction),
        };
        let set_tag = String::from_str("set_env");
        let unset_tag = String::from_str("unset_env");
        if action == set_tag {
            match (find_field(&fields, "key"), find_field(&fields, "value")) {
                (Some(key), Some(value)) => Ok(ShellCommand::SetEnv { key, value }),
                _ => Err(DecodeError::MissingField),
            }
        } else if action == unset_tag {
            match find_field(&fields, "key") {
                Some(key) => Ok(ShellCommand::UnsetEnv { key }),
                None => Err(DecodeError::MissingField),
            }
        } else {
            Err(DecodeError::UnknownAction)
        }
    }
}

} // verus!
