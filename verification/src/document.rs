//! TOML documents. Every file this crate reads or writes is one: a table of
//! keys and values. The `toml` crate parses and prints; this module takes
//! its value trees apart and puts them together, one level at a time.

use vstd::prelude::*;
use vstd::string::StringExecFns;

verus! {

/// The `toml` crate's value tree, carried through as an opaque value.
#[verifier::external_type_specification]
#[verifier::external_body]
pub struct ExTomlValue(toml::Value);

/// The shape of a TOML value: a text, an integer, a list of values, a table
/// of keys and values in the order in which they stand, or a value of a
/// kind that no file of this crate holds (a float, a truth value, a date).
pub ghost enum Doc {
    Text(Seq<char>),
    Integer(int),
    List(Seq<Doc>),
    Table(Seq<(Seq<char>, Doc)>),
    Other(toml::Value),
}

/// The shape of a value of the `toml` crate.
pub uninterp spec fn shape(v: toml::Value) -> Doc;

/// What `toml::from_slice` makes of the bytes of a file: the shape of the
/// value it returns, or the text of its error.
pub uninterp spec fn parsed(bytes: Seq<u8>) -> Result<Doc, Seq<char>>;

/// What `toml::to_string_pretty` makes of a value of a given shape: the text
/// it returns, or the text of its error.
pub uninterp spec fn printed(doc: Doc) -> Result<Seq<char>, Seq<char>>;

/// One level of a TOML value: what kind it is, with its children still
/// packed.
pub enum Node {
    Text(String),
    Integer(i64),
    List(Vec<toml::Value>),
    Table(Vec<(String, toml::Value)>),
    Other(toml::Value),
}

/// The shapes of a list's items.
pub open spec fn shapes(items: Seq<toml::Value>) -> Seq<Doc> {
    items.map_values(|v: toml::Value| shape(v))
}

/// The keys and shapes of a table's entries.
pub open spec fn entry_shapes(entries: Seq<(String, toml::Value)>) -> Seq<(Seq<char>, Doc)> {
    entries.map_values(|e: (String, toml::Value)| (e.0@, shape(e.1)))
}

/// No key stands twice.
pub open spec fn distinct_keys(entries: Seq<(Seq<char>, Doc)>) -> bool {
    forall|i: int, j: int| 0 <= i < j < entries.len() ==> entries[i].0 != entries[j].0
}

impl Node {
    /// The shape of the value that this is one level of.
    pub open spec fn level(self) -> Doc {
        match self {
            Node::Text(s) => Doc::Text(s@),
            Node::Integer(n) => Doc::Integer(n as int),
            Node::List(items) => Doc::List(shapes(items@)),
            Node::Table(entries) => Doc::Table(entry_shapes(entries@)),
            Node::Other(v) => Doc::Other(v),
        }
    }
}

/// The variants of `toml::Value`, told apart: a string, an integer, an array
/// and a table hand out what they hold, a table entry by entry in its own
/// order, which with the crate's feature `preserve_order` is the order in
/// which the entries were put in; every other variant is handed on as it is.
#[verifier::external_body]
pub(crate) fn unpack(v: &toml::Value) -> (node: Node)
    ensures
        node.level() == shape(*v),
{
    match v {
        toml::Value::String(s) => Node::Text(s.clone()),
        toml::Value::Integer(n) => Node::Integer(*n),
        toml::Value::Array(items) => Node::List(items.clone()),
        toml::Value::Table(t) => Node::Table(t.iter().map(|(k, v)| (k.clone(), v.clone())).collect()),
        other => Node::Other(other.clone()),
    }
}

/// The variants of `toml::Value`, built: a string, an integer, an array, or
/// a table filled entry by entry through `toml::value::Table`'s
/// `FromIterator`, which with the crate's feature `preserve_order` keeps the
/// order of entries whose keys differ.
#[verifier::external_body]
pub(crate) fn pack(node: Node) -> (v: toml::Value)
    requires
        !(node is Other),
        node is Table ==> distinct_keys(entry_shapes(node->Table_0@)),
    ensures
        shape(v) == node.level(),
{
    match node {
        Node::Text(s) => toml::Value::String(s),
        Node::Integer(n) => toml::Value::Integer(n),
        Node::List(items) => toml::Value::Array(items),
        Node::Table(entries) => toml::Value::Table(entries.into_iter().collect()),
        Node::Other(v) => v,
    }
}

/// `toml::from_slice` for a value tree; its error is handed on as the text
/// that its `Display` writes.
#[verifier::external_body]
pub(crate) fn parse(bytes: &[u8]) -> (r: Result<toml::Value, String>)
    ensures
        match r {
            Ok(v) => parsed(bytes@) == Ok::<Doc, Seq<char>>(shape(v)),
            Err(e) => parsed(bytes@) == Err::<Doc, Seq<char>>(e@),
        },
{
    toml::from_slice::<toml::Value>(bytes).map_err(|e| e.to_string())
}

/// `toml::to_string_pretty` on a value tree; its error is handed on as the
/// text that its `Display` writes.
#[verifier::external_body]
pub(crate) fn print(v: &toml::Value) -> (r: Result<String, String>)
    ensures
        match r {
            Ok(s) => printed(shape(*v)) == Ok::<Seq<char>, Seq<char>>(s@),
            Err(e) => printed(shape(*v)) == Err::<Seq<char>, Seq<char>>(e@),
        },
{
    toml::to_string_pretty(v).map_err(|e| e.to_string())
}

/// The value under the first entry of `entries` whose key is `key`.
pub open spec fn lookup(entries: Seq<(Seq<char>, Doc)>, key: Seq<char>) -> Option<Doc>
    decreases entries.len(),
{
    if entries.len() == 0 {
        None
    } else if entries[0].0 == key {
        Some(entries[0].1)
    } else {
        lookup(entries.drop_first(), key)
    }
}

/// The text under `key`, where there is one.
pub open spec fn text_at(entries: Seq<(Seq<char>, Doc)>, key: Seq<char>) -> Option<Seq<char>> {
    match lookup(entries, key) {
        Some(Doc::Text(s)) => Some(s),
        _ => None,
    }
}

/// The integer under `key`, where there is one.
pub open spec fn integer_at(entries: Seq<(Seq<char>, Doc)>, key: Seq<char>) -> Option<int> {
    match lookup(entries, key) {
        Some(Doc::Integer(n)) => Some(n),
        _ => None,
    }
}

/// The list under `key`, where there is one.
pub open spec fn list_at(entries: Seq<(Seq<char>, Doc)>, key: Seq<char>) -> Option<Seq<Doc>> {
    match lookup(entries, key) {
        Some(Doc::List(items)) => Some(items),
        _ => None,
    }
}

/// The table under `key`, where there is one.
pub open spec fn table_at(entries: Seq<(Seq<char>, Doc)>, key: Seq<char>) -> Option<
    Seq<(Seq<char>, Doc)>,
> {
    match lookup(entries, key) {
        Some(Doc::Table(inner)) => Some(inner),
        _ => None,
    }
}

/// The texts of a list whose items are all texts.
pub open spec fn all_texts(items: Seq<Doc>) -> Option<Seq<Seq<char>>> {
    if forall|i: int| 0 <= i < items.len() ==> (#[trigger] items[i]) is Text {
        Some(items.map_values(|d: Doc| d->Text_0))
    } else {
        None
    }
}

/// The value under the first entry whose key is `key`.
pub fn find<'a>(entries: &'a Vec<(String, toml::Value)>, key: &str) -> (found: Option<
    &'a toml::Value,
>)
    ensures
        match found {
            Some(v) => lookup(entry_shapes(entries@), key@) == Some(shape(*v)),
            None => lookup(entry_shapes(entries@), key@) is None,
        },
{
    let wanted = String::from_str(key);
    let ghost all = entry_shapes(entries@);
    let mut i: usize = 0;
    assert(all.skip(0) =~= all);
    while i < entries.len()
        invariant
            i <= entries.len(),
            all == entry_shapes(entries@),
            wanted@ == key@,
            lookup(all, key@) == lookup(all.skip(i as int), key@),
        decreases entries.len() - i,
    {
        assert(all.skip(i as int)[0] == all[i as int]);
        assert(all.skip(i as int).drop_first() =~= all.skip(i + 1));
        if entries[i].0 == wanted {
            return Some(&entries[i].1);
        }
        i += 1;
    }
    None
}

/// The text that `v` is, if it is one.
pub fn as_text(v: &toml::Value) -> (text: Option<String>)
    ensures
        match text {
            Some(s) => shape(*v) == Doc::Text(s@),
            None => !(shape(*v) is Text),
        },
{
    match unpack(v) {
        Node::Text(s) => Some(s),
        _ => None,
    }
}

/// The integer that `v` is, if it is one.
pub fn as_integer(v: &toml::Value) -> (number: Option<i64>)
    ensures
        match number {
            Some(n) => shape(*v) == Doc::Integer(n as int),
            None => !(shape(*v) is Integer),
        },
{
    match unpack(v) {
        Node::Integer(n) => Some(n),
        _ => None,
    }
}

/// The items of the list that `v` is, if it is one.
pub fn as_list(v: &toml::Value) -> (items: Option<Vec<toml::Value>>)
    ensures
        match items {
            Some(l) => shape(*v) == Doc::List(shapes(l@)),
            None => !(shape(*v) is List),
        },
{
    match unpack(v) {
        Node::List(items) => Some(items),
        _ => None,
    }
}

/// The entries of the table that `v` is, if it is one.
pub fn as_table(v: &toml::Value) -> (entries: Option<Vec<(String, toml::Value)>>)
    ensures
        match entries {
            Some(e) => shape(*v) == Doc::Table(entry_shapes(e@)),
            None => !(shape(*v) is Table),
        },
{
    match unpack(v) {
        Node::Table(entries) => Some(entries),
        _ => None,
    }
}

/// The text under `key`, where there is one.
pub fn get_text(entries: &Vec<(String, toml::Value)>, key: &str) -> (text: Option<String>)
    ensures
        match text {
            Some(s) => text_at(entry_shapes(entries@), key@) == Some(s@),
            None => text_at(entry_shapes(entries@), key@) is None,
        },
{
    match find(entries, key) {
        Some(v) => as_text(v),
        None => None,
    }
}

/// The integer under `key`, where there is one.
pub fn get_integer(entries: &Vec<(String, toml::Value)>, key: &str) -> (number: Option<i64>)
    ensures
        match number {
            Some(n) => integer_at(entry_shapes(entries@), key@) == Some(n as int),
            None => integer_at(entry_shapes(entries@), key@) is None,
        },
{
    match find(entries, key) {
        Some(v) => as_integer(v),
        None => None,
    }
}

/// The items of the list under `key`, where there is one.
pub fn get_list(entries: &Vec<(String, toml::Value)>, key: &str) -> (items: Option<
    Vec<toml::Value>,
>)
    ensures
        match items {
            Some(l) => list_at(entry_shapes(entries@), key@) == Some(shapes(l@)),
            None => list_at(entry_shapes(entries@), key@) is None,
        },
{
    match find(entries, key) {
        Some(v) => as_list(v),
        None => None,
    }
}

/// The entries of the table under `key`, where there is one.
pub fn get_table(entries: &Vec<(String, toml::Value)>, key: &str) -> (inner: Option<
    Vec<(String, toml::Value)>,
>)
    ensures
        match inner {
            Some(e) => table_at(entry_shapes(entries@), key@) == Some(entry_shapes(e@)),
            None => table_at(entry_shapes(entries@), key@) is None,
        },
{
    match find(entries, key) {
        Some(v) => as_table(v),
        None => None,
    }
}

/// The texts of `items`, if every item is a text.
pub fn texts_of(items: &Vec<toml::Value>) -> (out: Option<Vec<String>>)
    ensures
        match out {
            Some(l) => all_texts(shapes(items@)) == Some(crate::text::texts(l@)),
            None => all_texts(shapes(items@)) is None,
        },
{
    let mut out: Vec<String> = Vec::new();
    let mut i: usize = 0;
    let ghost all = shapes(items@);
    while i < items.len()
        invariant
            i <= items.len(),
            all == shapes(items@),
            out.len() == i,
            forall|j: int| 0 <= j < i ==> all[j] == Doc::Text(#[trigger] out@[j]@),
        decreases items.len() - i,
    {
        match as_text(&items[i]) {
            Some(s) => {
                out.push(s);
            },
            None => {
                assert(!(all[i as int] is Text));
                return None;
            },
        }
        i += 1;
    }
    assert forall|j: int| 0 <= j < all.len() implies (#[trigger] all[j]) is Text by {
        assert(all[j] == Doc::Text(out@[j]@));
    }
    assert(crate::text::texts(out@) =~= all.map_values(|d: Doc| d->Text_0));
    Some(out)
}

/// A text as a TOML value.
pub fn text_value(s: String) -> (v: toml::Value)
    ensures
        shape(v) == Doc::Text(s@),
{
    pack(Node::Text(s))
}

/// An integer as a TOML value.
pub fn integer_value(n: i64) -> (v: toml::Value)
    ensures
        shape(v) == Doc::Integer(n as int),
{
    pack(Node::Integer(n))
}

/// A list of values as a TOML value.
pub fn list_value(items: Vec<toml::Value>) -> (v: toml::Value)
    ensures
        shape(v) == Doc::List(shapes(items@)),
{
    pack(Node::List(items))
}

/// The keys of entries.
pub open spec fn keys_of(entries: Seq<(String, toml::Value)>) -> Seq<Seq<char>> {
    entries.map_values(|e: (String, toml::Value)| e.0@)
}

/// A table of entries as a TOML value. A table has no key twice.
pub fn table_value(entries: Vec<(String, toml::Value)>) -> (v: toml::Value)
    requires
        keys_of(entries@).no_duplicates(),
    ensures
        shape(v) == Doc::Table(entry_shapes(entries@)),
{
    proof {
        let made = entry_shapes(entries@);
        assert forall|i: int, j: int| 0 <= i < j < made.len() implies made[i].0 != made[j].0 by {
            assert(keys_of(entries@)[i] == made[i].0);
            assert(keys_of(entries@)[j] == made[j].0);
        }
    }
    pack(Node::Table(entries))
}

/// A list of texts as a TOML value.
pub fn text_list(list: &Vec<String>) -> (v: toml::Value)
    ensures
        shape(v) == Doc::List(crate::text::texts(list@).map_values(|s: Seq<char>| Doc::Text(s))),
{
    let mut items: Vec<toml::Value> = Vec::new();
    let mut i: usize = 0;
    while i < list.len()
        invariant
            i <= list.len(),
            items.len() == i,
            forall|j: int| 0 <= j < i ==> shape(#[trigger] items@[j]) == Doc::Text(list@[j]@),
        decreases list.len() - i,
    {
        items.push(text_value(list[i].clone()));
        i += 1;
    }
    assert(shapes(items@) =~= crate::text::texts(list@).map_values(|s: Seq<char>| Doc::Text(s)));
    list_value(items)
}

} // verus!
