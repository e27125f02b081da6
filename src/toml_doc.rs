//! The tool's structured configuration document (TOML), as a tree that the
//! library can read, and the conversion of provider configurations to and
//! from its `[model_providers.<id>]` tables.

use vstd::prelude::*;

use crate::model::CodexError;

verus! {

#[verifier::external_type_specification]
#[verifier::external_body]
pub struct ExTomlValue(toml::Value);

/// A TOML value as far as the library reads it. Integers, floats, dates and
/// arrays, which the library never looks into, are carried through as they
/// were parsed.
pub enum TomlItem {
    Str(String),
    Bool(bool),
    Table(Vec<(String, TomlItem)>),
    Other(toml::Value),
}

/// One level of a TOML value: its children, if it is a table, still parsed.
pub enum TomlShape {
    Str(String),
    Bool(bool),
    Table(Vec<(String, toml::Value)>),
    Other(toml::Value),
}

/// How deep tables are opened when a parsed document is read; the parser
/// itself refuses documents nested deeper than this.
pub const TOML_DEPTH: u64 = 128;

/// What `toml_shape` makes of a value.
pub uninterp spec fn toml_shape_of(v: toml::Value) -> TomlShape;

/// The value `toml::Value::String` makes of a string.
pub uninterp spec fn toml_string_of(s: Seq<char>) -> toml::Value;

/// The value `toml::Value::Boolean` makes of a boolean.
pub uninterp spec fn toml_bool_of(b: bool) -> toml::Value;

/// The table value that `toml::map::Map`'s `FromIterator` makes of entries.
pub uninterp spec fn toml_table_of(t: Seq<(String, toml::Value)>) -> toml::Value;

/// The top-level entries that `toml::from_str` reads from a document.
pub uninterp spec fn toml_entries(text: Seq<char>) -> Seq<(String, toml::Value)>;

/// Whether `toml::from_str` accepts a text as a document.
pub uninterp spec fn toml_parses(text: Seq<char>) -> bool;

/// Whether `toml::to_string_pretty` renders a table of these entries.
pub uninterp spec fn toml_renders(t: Seq<(String, toml::Value)>) -> bool;

/// The text that `toml::to_string_pretty` renders of a table of entries.
pub uninterp spec fn toml_text(t: Seq<(String, toml::Value)>) -> Seq<char>;

/// Relies on toml 0.8's `toml::Value` variants: tells a value's variants
/// apart, moving the table's entries out in the map's order.
#[verifier::external_body]
fn toml_shape(v: toml::Value) -> (r: TomlShape)
    ensures
        r == toml_shape_of(v),
{
    match v {
        toml::Value::String(s) => TomlShape::Str(s),
        toml::Value::Boolean(b) => TomlShape::Bool(b),
        toml::Value::Table(t) => TomlShape::Table(t.into_iter().collect()),
        other => TomlShape::Other(other),
    }
}

/// Relies on `toml::Value::String`.
#[verifier::external_body]
fn toml_from_string(s: String) -> (r: toml::Value)
    ensures
        r == toml_string_of(s@),
{
    toml::Value::String(s)
}

/// Relies on `toml::Value::Boolean`.
#[verifier::external_body]
fn toml_from_bool(b: bool) -> (r: toml::Value)
    ensures
        r == toml_bool_of(b),
{
    toml::Value::Boolean(b)
}

/// Relies on `toml::Value::Table` and `toml::map::Map`'s `FromIterator`.
#[verifier::external_body]
fn toml_from_table(t: Vec<(String, toml::Value)>) -> (r: toml::Value)
    ensures
        r == toml_table_of(t@),
{
    toml::Value::Table(t.into_iter().collect())
}

/// Relies on `toml::from_str` into a `toml::Table`: parses a whole document
/// whose top level is a table; the parser's message on failure.
#[verifier::external_body]
fn toml_parse_table(text: &str) -> (r: Result<Vec<(String, toml::Value)>, String>)
    ensures
        r is Ok <==> toml_parses(text@),
        r is Ok ==> r->Ok_0@ == toml_entries(text@),
{
    match toml::from_str::<toml::Table>(text) {
        Ok(t) => Ok(t.into_iter().collect()),
        Err(e) => Err(e.to_string()),
    }
}

/// Relies on `toml::to_string_pretty` of a `toml::Table`: renders a document
/// whose top level is the given entries; the serialiser's message on failure.
#[verifier::external_body]
fn toml_render_table(entries: Vec<(String, toml::Value)>) -> (r: Result<String, String>)
    ensures
        r is Ok <==> toml_renders(entries@),
        r is Ok ==> r->Ok_0@ == toml_text(entries@),
{
    let t: toml::Table = entries.into_iter().collect();
    toml::to_string_pretty(&t).map_err(|e| e.to_string())
}

/// `item` is what opening `v` gives, `depth` levels of tables deep.
pub open spec fn lifts_to(v: toml::Value, depth: nat, item: TomlItem) -> bool
    decreases depth,
{
    if depth == 0 {
        item == TomlItem::Other(v)
    } else {
        match toml_shape_of(v) {
            TomlShape::Str(s) => item == TomlItem::Str(s),
            TomlShape::Bool(b) => item == TomlItem::Bool(b),
            TomlShape::Other(o) => item == TomlItem::Other(o),
            TomlShape::Table(es) => item is Table && item->Table_0@.len() == es@.len()
                && forall|j: int| 0 <= j < es@.len() ==> (#[trigger] item->Table_0@[j]).0 == es@[j].0
                    && lifts_to(es@[j].1, (depth - 1) as nat, item->Table_0@[j].1),
        }
    }
}

/// `d` is what opening parsed entries gives.
pub open spec fn lifted_doc(es: Seq<(String, toml::Value)>, d: Seq<(String, TomlItem)>) -> bool {
    &&& d.len() == es.len()
    &&& forall|j: int| 0 <= j < es.len() ==> (#[trigger] d[j]).0 == es[j].0
        && lifts_to(es[j].1, TOML_DEPTH as nat, d[j].1)
}

/// `d` is the document that a text reads as: empty when blank, else the
/// parsed entries opened.
pub open spec fn toml_doc_of(text: Seq<char>, d: Seq<(String, TomlItem)>) -> bool {
    if blank(text) {
        d.len() == 0
    } else {
        toml_parses(text) && lifted_doc(toml_entries(text), d)
    }
}

/// `v` is the value that a tree turns back into.
pub open spec fn lowers_to(item: TomlItem, v: toml::Value) -> bool
    decreases item,
{
    match item {
        TomlItem::Str(s) => v == toml_string_of(s@),
        TomlItem::Bool(b) => v == toml_bool_of(b),
        TomlItem::Other(o) => v == o,
        TomlItem::Table(es) => exists|w: Seq<(String, toml::Value)>| #[trigger] toml_table_of(w) == v
            && w.len() == es@.len()
            && forall|j: int| 0 <= j < w.len() ==> (#[trigger] w[j]).0 == es@[j].0 && lowers_to(es@[j].1, w[j].1),
    }
}

/// `w` is what the entries of a document turn back into.
pub open spec fn lowered_doc(d: Seq<(String, TomlItem)>, w: Seq<(String, toml::Value)>) -> bool {
    &&& w.len() == d.len()
    &&& forall|j: int| 0 <= j < d.len() ==> (#[trigger] w[j]).0 == d[j].0 && lowers_to(d[j].1, w[j].1)
}

/// Opens a parsed value into a tree, `depth` levels of tables deep.
pub fn lift_toml(v: toml::Value, depth: u64) -> (r: TomlItem)
    ensures
        lifts_to(v, depth as nat, r),
    decreases depth,
{
    if depth == 0 {
        return TomlItem::Other(v);
    }
    match toml_shape(v) {
        TomlShape::Str(s) => TomlItem::Str(s),
        TomlShape::Bool(b) => TomlItem::Bool(b),
        TomlShape::Other(o) => TomlItem::Other(o),
        TomlShape::Table(entries) => {
            let ghost all = entries@;
            let mut rest = entries;
            let mut out: Vec<(String, TomlItem)> = Vec::new();
            while rest.len() > 0
                invariant
                    depth > 0,
                    all.len() == out@.len() + rest@.len(),
                    rest@ == all.subrange(out@.len() as int, all.len() as int),
                    forall|j: int| 0 <= j < out@.len() ==> (#[trigger] out@[j]).0 == all[j].0
                        && lifts_to(all[j].1, (depth - 1) as nat, out@[j].1),
                decreases rest.len(),
            {
                proof {
                    assert(rest@[0] == all[out@.len() as int]);
                }
                let (k, c) = rest.remove(0);
                let item = lift_toml(c, depth - 1);
                out.push((k, item));
            }
            TomlItem::Table(out)
        },
    }
}

/// Turns a tree back into a value for the serialiser.
pub fn lower_toml(item: TomlItem) -> (r: toml::Value)
    ensures
        lowers_to(item, r),
    decreases item,
{
    match item {
        TomlItem::Str(s) => toml_from_string(s),
        TomlItem::Bool(b) => toml_from_bool(b),
        TomlItem::Other(o) => o,
        TomlItem::Table(entries) => {
            let ghost all = entries@;
            let mut rest = entries;
            let mut out: Vec<(String, toml::Value)> = Vec::new();
            while rest.len() > 0
                invariant
                    all.len() == out@.len() + rest@.len(),
                    rest@ == all.subrange(out@.len() as int, all.len() as int),
                    decreases_to!(item => all),
                    forall|j: int| 0 <= j < out@.len() ==> (#[trigger] out@[j]).0 == all[j].0
                        && lowers_to(all[j].1, out@[j].1),
                decreases rest.len(),
            {
                proof {
                    let j = out@.len() as int;
                    assert(rest@[0] == all[j]);
                    assert(decreases_to!(all => all[j]));
                }
                let (k, c) = rest.remove(0);
                let v = lower_toml(c);
                out.push((k, v));
            }
            let ghost w = out@;
            let r = toml_from_table(out);
            proof {
                assert(toml_table_of(w) == r);
                assert(w.len() == all.len());
            }
            r
        },
    }
}

/// Parses a document's text into its top-level entries, each opened into a
/// tree. Text that is empty or blank is an empty document.
pub fn parse_toml_document(text: &str) -> (r: Result<Vec<(String, TomlItem)>, CodexError>)
    ensures
        r is Ok <==> blank(text@) || toml_parses(text@),
        r is Ok ==> toml_doc_of(text@, r->Ok_0@),
        r is Err ==> r->Err_0 is ParseError,
{
    if is_blank(text) {
        return Ok(Vec::new());
    }
    match toml_parse_table(text) {
        Err(m) => Err(CodexError::ParseError(String::from_str("Failed to parse config.toml: ").concat(m.as_str()))),
        Ok(entries) => {
            let ghost all = entries@;
            let mut rest = entries;
            let mut out: Vec<(String, TomlItem)> = Vec::new();
            while rest.len() > 0
                invariant
                    all.len() == out@.len() + rest@.len(),
                    rest@ == all.subrange(out@.len() as int, all.len() as int),
                    forall|j: int| 0 <= j < out@.len() ==> (#[trigger] out@[j]).0 == all[j].0
                        && lifts_to(all[j].1, TOML_DEPTH as nat, out@[j].1),
                decreases rest.len(),
            {
                proof {
                    assert(rest@[0] == all[out@.len() as int]);
                }
                let (k, v) = rest.remove(0);
                let item = lift_toml(v, TOML_DEPTH);
                out.push((k, item));
            }
            Ok(out)
        },
    }
}

/// Renders top-level entries as a document's text.
pub fn render_toml_document(doc: Vec<(String, TomlItem)>) -> (r: Result<String, CodexError>)
    ensures
        exists|w: Seq<(String, toml::Value)>| #[trigger] lowered_doc(doc@, w)
            && (r is Ok <==> toml_renders(w))
            && (r is Ok ==> r->Ok_0@ == toml_text(w)),
        r is Err ==> r->Err_0 is ParseError,
{
    let ghost all = doc@;
    let mut rest = doc;
    let mut out: Vec<(String, toml::Value)> = Vec::new();
    while rest.len() > 0
        invariant
            all.len() == out@.len() + rest@.len(),
            rest@ == all.subrange(out@.len() as int, all.len() as int),
            forall|j: int| 0 <= j < out@.len() ==> (#[trigger] out@[j]).0 == all[j].0
                && lowers_to(all[j].1, out@[j].1),
            all == doc@,
        decreases rest.len(),
    {
        proof {
            assert(rest@[0] == all[out@.len() as int]);
        }
        let (k, v) = rest.remove(0);
        let lv = lower_toml(v);
        out.push((k, lv));
    }
    let ghost w = out@;
    assert(lowered_doc(all, w));
    match toml_render_table(out) {
        Ok(s) => Ok(s),
        Err(m) => Err(CodexError::ParseError(String::from_str("Failed to serialize config.toml: ").concat(m.as_str()))),
    }
}

/// Whether `c` is white space in the sense of `char::is_whitespace`.
pub open spec fn is_space(c: char) -> bool {
    c == ' ' || c == '\t' || c == '\n' || c == '\r' || c == '\x0B' || c == '\x0C'
        || c == '\u{85}' || c == '\u{A0}' || c == '\u{1680}'
        || ('\u{2000}' <= c && c <= '\u{200A}') || c == '\u{2028}' || c == '\u{2029}'
        || c == '\u{202F}' || c == '\u{205F}' || c == '\u{3000}'
}

/// Whether `c` is white space, as `char::is_whitespace` decides.
pub fn is_space_char(c: char) -> (r: bool)
    ensures
        r == is_space(c),
{
    c == ' ' || c == '\t' || c == '\n' || c == '\r' || c == '\x0B' || c == '\x0C'
        || c == '\u{85}' || c == '\u{A0}' || c == '\u{1680}'
        || ('\u{2000}' <= c && c <= '\u{200A}') || c == '\u{2028}' || c == '\u{2029}'
        || c == '\u{202F}' || c == '\u{205F}' || c == '\u{3000}'
}

/// Text that holds only white space.
pub open spec fn blank(s: Seq<char>) -> bool {
    forall|i: int| 0 <= i < s.len() ==> is_space(#[trigger] s[i])
}

/// Whether the text holds only white space.
pub fn is_blank(text: &str) -> (r: bool)
    ensures
        r == blank(text@),
{
    let n = text.unicode_len();
    let mut i: usize = 0;
    while i < n
        invariant
            n == text@.len(),
            i <= n,
            forall|j: int| 0 <= j < i ==> is_space(#[trigger] text@[j]),
        decreases n - i,
    {
        if !is_space_char(text.get_char(i)) {
            return false;
        }
        i = i + 1;
    }
    true
}

} // verus!
