use vstd::prelude::*;

verus! {

/// What `serde_json::to_string` makes of a string: the quoted, escaped literal.
pub uninterp spec fn json_quoted(s: Seq<char>) -> Seq<char>;

/// What `serde_json::from_str::<String>` makes of a text: `None` where it fails.
pub uninterp spec fn json_unquoted(t: Seq<char>) -> Option<Seq<char>>;

/// Whether `serde_json::from_str::<serde_json::Value>` reads a text as one JSON value.
pub uninterp spec fn json_value_ok(t: Seq<char>) -> bool;

/// Where the string literal whose contents start at `i` is closed: the index
/// of the first quote that no backslash escapes.
pub open spec fn literal_end(t: Seq<char>, i: int) -> Option<int>
    decreases t.len() - i,
{
    if i < 0 || i >= t.len() {
        None
    } else if t[i] == '"' {
        Some(i)
    } else if t[i] == '\\' {
        if i + 1 >= t.len() {
            None
        } else {
            literal_end(t, i + 2)
        }
    } else {
        literal_end(t, i + 1)
    }
}

/// `t` is one string literal: it opens with a quote that closes at its last character.
pub open spec fn literal_shape(t: Seq<char>) -> bool {
    &&& t.len() >= 2
    &&& t[0] == '"'
    &&& literal_end(t, 1) == Some(t.len() - 1)
}

/// The quoted form of `s` is one literal, and reading it back gives `s`.
pub open spec fn well_quoted(s: Seq<char>) -> bool {
    literal_shape(json_quoted(s)) && json_unquoted(json_quoted(s)) == Some(s)
}

/// The error type of serde_json, carried through opaque.
#[verifier::external_type_specification]
#[verifier::external_body]
pub struct ExJsonError(serde_json::Error);

/// No character of `s` needs an escape in a JSON string: no quote, no
/// backslash, no control character below U+0020.
pub open spec fn plain_text(s: Seq<char>) -> bool {
    forall|i: int| 0 <= i < s.len() ==> #[trigger] s[i] != '"' && s[i] != '\\' && (s[i] as int) >= 0x20
}

/// Relies on `serde_json::to_string` on a `&str`: it writes into a `Vec` and
/// cannot fail; it writes a quote, the characters with `"`, `\` and control
/// characters escaped by a backslash sequence (the others as they are), and a
/// closing quote; `serde_json::from_str` reads that back.
#[verifier::external_body]
pub(crate) fn quote(s: &str) -> (r: Result<String, serde_json::Error>)
    ensures
        r is Ok,
        r matches Ok(t) ==> (plain_text(s@) ==> t@ == seq!['"'] + s@ + seq!['"']),
        r matches Ok(t) ==> t@ == json_quoted(s@),
        r matches Ok(t) ==> literal_shape(t@),
        r matches Ok(t) ==> json_unquoted(t@) == Some(s@),
{
    serde_json::to_string(s)
}

/// Relies on `serde_json::from_str::<String>`: it reads one JSON string.
#[verifier::external_body]
pub(crate) fn unquote(t: &str) -> (r: Result<String, serde_json::Error>)
    ensures
        r is Ok <==> json_unquoted(t@) is Some,
        r matches Ok(s) ==> json_unquoted(t@) == Some(s@),
{
    serde_json::from_str::<String>(t)
}

/// Relies on `serde_json::from_str::<serde_json::Value>`: whether the text is
/// one JSON value, with whitespace allowed around it.
#[verifier::external_body]
pub(crate) fn is_json_value(t: &str) -> (r: bool)
    ensures
        r == json_value_ok(t@),
{
    serde_json::from_str::<serde_json::Value>(t).is_ok()
}

/// A literal found in a text keeps its end when more text stands around it.
pub proof fn lemma_literal_end_embedded(q: Seq<char>, t: Seq<char>, d: int, i: int, k: int)
    requires
        0 <= d,
        0 <= i,
        d + q.len() <= t.len(),
        t.subrange(d, d + q.len()) == q,
        literal_end(q, i) == Some(k),
    ensures
        literal_end(t, d + i) == Some(d + k),
    decreases q.len() - i,
{
    assert(t[d + i] == t.subrange(d, d + q.len())[i]);
    if q[i] == '"' {
    } else if q[i] == '\\' {
        if i + 1 < q.len() {
            lemma_literal_end_embedded(q, t, d, i + 2, k);
        }
    } else {
        lemma_literal_end_embedded(q, t, d, i + 1, k);
    }
}

/// Where a literal ends, it ends inside the text and not before it starts.
pub proof fn lemma_literal_end_bounds(t: Seq<char>, i: int)
    ensures
        literal_end(t, i) matches Some(k) ==> i <= k < t.len() && t[k] == '"',
    decreases t.len() - i,
{
    if i < 0 || i >= t.len() {
    } else if t[i] == '"' {
    } else if t[i] == '\\' {
        if i + 1 < t.len() {
            lemma_literal_end_bounds(t, i + 2);
        }
    } else {
        lemma_literal_end_bounds(t, i + 1);
    }
}

/// The index at which the literal whose contents start at `i` closes.
pub fn find_literal_end(t: &str, n: usize, i: usize) -> (r: Option<usize>)
    requires
        n == t@.len(),
    ensures
        r matches Some(k) ==> literal_end(t@, i as int) == Some(k as int),
        r is None ==> literal_end(t@, i as int) is None,
{
    let mut j: usize = i;
    while j < n
        invariant
            n == t@.len(),
            i <= j,
            literal_end(t@, i as int) == literal_end(t@, j as int),
        decreases n - j,
    {
        let c = t.get_char(j);
        if c == '"' {
            return Some(j);
        } else if c == '\\' {
            if j + 1 >= n {
                return None;
            }
            j = j + 2;
        } else {
            j = j + 1;
        }
    }
    None
}

} // verus!
