//! Values of YAML documents, as a parser hands them over.
use vstd::prelude::*;
use crate::ieee::{real64, Real64};
use crate::text::same_text;

verus! {

/// A value of a YAML document.
#[derive(Debug)]
pub enum Node {
    Null,
    Flag(bool),
    /// A number; beside it the same number where it is whole and not negative.
    Number(Real64, Option<u64>),
    Text(String),
    List(Vec<Node>),
    Table(Vec<Entry>),
    /// A value with a tag.
    Tagged(String, Box<Node>),
}

/// A value of a table.
#[derive(Debug)]
pub struct Entry {
    pub key: Node,
    pub value: Node,
}

/// The first value under a name.
pub open spec fn value_under(entries: Seq<Entry>, name: Seq<char>) -> Option<Node>
    decreases entries.len(),
{
    if entries.len() == 0 {
        None
    } else if entries[0].key matches Node::Text(n) && n@ == name {
        Some(entries[0].value)
    } else {
        value_under(entries.skip(1), name)
    }
}

/// The first value under a number.
pub open spec fn value_at(entries: Seq<Entry>, place: int) -> Option<Node>
    decreases entries.len(),
{
    if entries.len() == 0 {
        None
    } else if entries[0].key matches Node::Number(_, Some(p)) && p == place {
        Some(entries[0].value)
    } else {
        value_at(entries.skip(1), place)
    }
}

/// The numbers among some values, in their order.
pub open spec fn numbers_among(items: Seq<Node>) -> Seq<Real64>
    decreases items.len(),
{
    if items.len() == 0 {
        Seq::empty()
    } else {
        let rest = numbers_among(items.drop_last());
        match items.last().number() {
            Some(x) => rest.push(x),
            None => rest,
        }
    }
}

impl Node {
    /// The value behind its tags.
    pub open spec fn untagged(self) -> Node
        decreases self,
    {
        match self {
            Node::Tagged(_, value) => value.untagged(),
            _ => self,
        }
    }

    /// The value under a key, where this is a table that has it.
    pub open spec fn field(self, key: Seq<char>) -> Option<Node> {
        match self.untagged() {
            Node::Table(entries) => value_under(entries@, key),
            _ => None,
        }
    }

    /// The value at a place, where this is a list that is long enough, or a table that has
    /// the number as a key.
    pub open spec fn item(self, i: int) -> Option<Node> {
        match self.untagged() {
            Node::List(items) => if 0 <= i < items@.len() {
                Some(items@[i])
            } else {
                None
            },
            Node::Table(entries) => value_at(entries@, i),
            _ => None,
        }
    }

    pub open spec fn number(self) -> Option<Real64> {
        match self.untagged() {
            Node::Number(x, _) => Some(x),
            _ => None,
        }
    }

    pub open spec fn whole(self) -> Option<u64> {
        match self.untagged() {
            Node::Number(_, n) => n,
            _ => None,
        }
    }

    pub open spec fn text(self) -> Option<Seq<char>> {
        match self.untagged() {
            Node::Text(t) => Some(t@),
            _ => None,
        }
    }

    /// The value behind its tags.
    pub fn untag(&self) -> (r: &Node)
        ensures
            *r == self.untagged(),
        decreases self,
    {
        match self {
            Node::Tagged(_, value) => value.untag(),
            _ => self,
        }
    }

    /// The value under a key.
    pub fn get(&self, key: &str) -> (r: Option<&Node>)
        ensures
            r is Some <==> self.field(key@) is Some,
            r matches Some(n) ==> self.field(key@) == Some(*n),
    {
        match self.untag() {
            Node::Table(entries) => {
                let n: usize = entries.len();
                let mut i: usize = 0;
                assert(entries@.skip(0) =~= entries@);
                while i < n
                    invariant
                        i <= n,
                        n == entries@.len(),
                        self.field(key@) == value_under(entries@, key@),
                        value_under(entries@, key@) == value_under(entries@.skip(i as int), key@),
                    decreases n - i,
                {
                    assert(entries@.skip(i as int).skip(1) =~= entries@.skip(i + 1));
                    let found: bool = match &entries[i].key {
                        Node::Text(name) => same_text(name.as_str(), key),
                        _ => false,
                    };
                    if found {
                        return Some(&entries[i].value);
                    }
                    i = i + 1;
                }
                None
            },
            _ => None,
        }
    }

    /// The value at a place of a list, or under a number of a table.
    pub fn at(&self, i: usize) -> (r: Option<&Node>)
        ensures
            r is Some <==> self.item(i as int) is Some,
            r matches Some(n) ==> self.item(i as int) == Some(*n),
    {
        match self.untag() {
            Node::List(items) => if i < items.len() {
                Some(&items[i])
            } else {
                None
            },
            Node::Table(entries) => {
                let n: usize = entries.len();
                let mut k: usize = 0;
                assert(entries@.skip(0) =~= entries@);
                while k < n
                    invariant
                        k <= n,
                        n == entries@.len(),
                        self.item(i as int) == value_at(entries@, i as int),
                        value_at(entries@, i as int) == value_at(entries@.skip(k as int), i as int),
                    decreases n - k,
                {
                    assert(entries@.skip(k as int).skip(1) =~= entries@.skip(k + 1));
                    let found: bool = match &entries[k].key {
                        Node::Number(_, Some(p)) => *p == i as u64,
                        _ => false,
                    };
                    if found {
                        return Some(&entries[k].value);
                    }
                    k = k + 1;
                }
                None
            },
            _ => None,
        }
    }

    /// The number that this is.
    pub fn as_number(&self) -> (r: Option<Real64>)
        ensures
            r == self.number(),
    {
        match self.untag() {
            Node::Number(x, _) => Some(*x),
            _ => None,
        }
    }

    /// The whole number that this is.
    pub fn as_whole(&self) -> (r: Option<u64>)
        ensures
            r == self.whole(),
    {
        match self.untag() {
            Node::Number(_, n) => *n,
            _ => None,
        }
    }

    /// The text that this is.
    pub fn as_text(&self) -> (r: Option<String>)
        ensures
            r is Some <==> self.text() is Some,
            r matches Some(t) ==> self.text() == Some(t@),
    {
        match self.untag() {
            Node::Text(t) => Some(t.as_str().to_owned()),
            _ => None,
        }
    }

    /// The numbers of a list.
    pub fn as_numbers(&self) -> (r: Option<Vec<Real64>>)
        ensures
            r is Some <==> self.untagged() is List,
            r matches Some(v) ==> v@ == numbers_among(self.untagged()->List_0@),
    {
        match self.untag() {
            Node::List(items) => {
                let n: usize = items.len();
                let mut out: Vec<Real64> = Vec::new();
                let mut i: usize = 0;
                assert(items@.take(0) =~= Seq::empty());
                while i < n
                    invariant
                        i <= n,
                        n == items@.len(),
                        out@ == numbers_among(items@.take(i as int)),
                    decreases n - i,
                {
                    assert(items@.take(i + 1).drop_last() =~= items@.take(i as int));
                    assert(items@.take(i + 1).last() == items@[i as int]);
                    if let Some(x) = items[i].as_number() {
                        out.push(x);
                    }
                    i = i + 1;
                }
                assert(items@.take(n as int) =~= items@);
                Some(out)
            },
            _ => None,
        }
    }
}

/// A document as `serde_yaml` holds it.
#[verifier::external_type_specification]
#[verifier::external_body]
pub struct ExValue(serde_yaml::Value);

/// Why `serde_yaml` could not read a document.
#[verifier::external_type_specification]
#[verifier::external_body]
pub struct ExError(serde_yaml::Error);

/// What a document of `serde_yaml` holds.
pub uninterp spec fn held_value(value: serde_yaml::Value) -> Node;

/// What bytes hold as a YAML document; nothing where they are none.
pub uninterp spec fn yaml_value(bytes: Seq<u8>) -> Option<Node>;

/// Calls `serde_yaml::from_slice`. What comes back, an error or a document by the value it
/// holds, is taken to depend on the bytes alone.
#[verifier::external_body]
fn document_from_slice(bytes: &[u8]) -> (r: Result<serde_yaml::Value, serde_yaml::Error>)
    ensures
        yaml_value(bytes@) == (match r {
            Ok(value) => Some(held_value(value)),
            Err(_) => None,
        }),
{
    serde_yaml::from_slice(bytes)
}

/// Takes a `serde_yaml::Value` apart, one variant for one: a number by the bits of
/// `Number::as_f64` and by `Number::as_u64`, a sequence and a mapping item by item in their
/// order.
#[verifier::external_body]
fn node_of(value: serde_yaml::Value) -> (r: Node)
    ensures
        r == held_value(value),
{
    match value {
        serde_yaml::Value::Null => Node::Null,
        serde_yaml::Value::Bool(flag) => Node::Flag(flag),
        serde_yaml::Value::Number(n) => Node::Number(real64(n.as_f64().unwrap_or_default().to_bits()), n.as_u64()),
        serde_yaml::Value::String(text) => Node::Text(text),
        serde_yaml::Value::Sequence(items) => Node::List(items.into_iter().map(node_of).collect()),
        serde_yaml::Value::Mapping(entries) => Node::Table(
            entries.into_iter().map(|(key, value)| Entry { key: node_of(key), value: node_of(value) }).collect(),
        ),
        serde_yaml::Value::Tagged(t) => Node::Tagged(t.tag.to_string(), Box::new(node_of(t.value))),
    }
}

/// Reads bytes as a YAML document; nothing where they are none.
pub fn parse_yaml(bytes: &[u8]) -> (r: Option<Node>)
    ensures
        r == yaml_value(bytes@),
{
    match document_from_slice(bytes) {
        Ok(value) => Some(node_of(value)),
        Err(_) => None,
    }
}

/// Whether the key of an entry is this text.
pub open spec fn is_keyed(entry: Entry, name: Seq<char>) -> bool {
    entry.key matches Node::Text(n) && n@ == name
}

/// A value under a name is that of the first entry whose key is that text; there is none where
/// no key is.
pub proof fn law_first_entry_of_a_name_counts(entries: Seq<Entry>, name: Seq<char>)
    ensures
        value_under(entries, name) is None ==> forall|k: int|
            0 <= k < entries.len() ==> !is_keyed(#[trigger] entries[k], name),
        value_under(entries, name) matches Some(value) ==> exists|k: int|
            {
                &&& 0 <= k < entries.len()
                &&& is_keyed(#[trigger] entries[k], name)
                &&& entries[k].value == value
                &&& forall|j: int|
                    0 <= j < k ==> !is_keyed(#[trigger] entries[j], name)
            },
    decreases entries.len(),
{
    if entries.len() > 0 && !is_keyed(entries[0], name) {
        let rest = entries.skip(1);
        law_first_entry_of_a_name_counts(rest, name);
        assert(forall|k: int| 1 <= k < entries.len() ==> #[trigger] entries[k] == rest[k - 1]);
        if let Some(value) = value_under(entries, name) {
            let k = choose|k: int|
                {
                    &&& 0 <= k < rest.len()
                    &&& is_keyed(#[trigger] rest[k], name)
                    &&& rest[k].value == value
                    &&& forall|j: int|
                        0 <= j < k ==> !is_keyed(#[trigger] rest[j], name)
                };
            assert(entries[k + 1] == rest[k]);
            assert forall|j: int| 0 <= j < k + 1 implies !is_keyed(#[trigger] entries[j], name) by {
                if j > 0 {
                    assert(entries[j] == rest[j - 1]);
                }
            }
        } else {
            assert forall|k: int| 0 <= k < entries.len() implies !is_keyed(#[trigger] entries[k], name) by {
                if k > 0 {
                    assert(entries[k] == rest[k - 1]);
                }
            }
        }
    }
}

/// Tags are looked through: a tagged value is read as the value it holds, and what is read is
/// never tagged.
pub proof fn law_tags_are_looked_through(tag: String, value: Node, key: Seq<char>, i: int)
    ensures
        ({
            let tagged = Node::Tagged(tag, Box::new(value));
            &&& tagged.untagged() == value.untagged()
            &&& tagged.field(key) == value.field(key)
            &&& tagged.item(i) == value.item(i)
            &&& tagged.number() == value.number()
            &&& tagged.whole() == value.whole()
            &&& tagged.text() == value.text()
        }),
        !(value.untagged() is Tagged),
        !(value is Tagged) ==> value.untagged() == value,
    decreases value,
{
    if let Node::Tagged(t, inner) = value {
        law_tags_are_looked_through(t, *inner, key, i);
    }
}

/// An item of a list is the one at its place; a list has no item beyond its end.
pub proof fn law_items_are_counted_from_zero(items: Vec<Node>, i: int)
    ensures
        0 <= i < items@.len() ==> Node::List(items).item(i) == Some(items@[i]),
        i < 0 || i >= items@.len() ==> Node::List(items).item(i) is None,
        Node::List(items).number() is None,
        Node::List(items).text() is None,
{
}

/// The numbers of a list are those of its items that are numbers, in their order.
pub proof fn law_numbers_of_a_list(items: Seq<Node>)
    ensures
        numbers_among(items) == items.filter(|n: Node| n.number() is Some).map_values(|n: Node| n.number()->0),
    decreases items.len(),
{
    let keep = |n: Node| n.number() is Some;
    let number = |n: Node| n.number()->0;
    reveal(Seq::filter);
    if items.len() > 0 {
        law_numbers_of_a_list(items.drop_last());
        let before = items.drop_last().filter(keep);
        assert(before.push(items.last()).map_values(number) =~= before.map_values(number).push(number(items.last())));
    }
    assert(numbers_among(items) =~= items.filter(keep).map_values(number));
}

/// Whether the key of an entry is this whole number.
pub open spec fn is_placed(entry: Entry, place: int) -> bool {
    entry.key matches Node::Number(_, Some(p)) && p == place
}

/// A value at a place of a table is that of the first entry whose key is that whole number; there
/// is none where no key is.
pub proof fn law_first_entry_of_a_place_counts(entries: Seq<Entry>, place: int)
    ensures
        value_at(entries, place) is None ==> forall|k: int|
            0 <= k < entries.len() ==> !is_placed(#[trigger] entries[k], place),
        value_at(entries, place) matches Some(value) ==> exists|k: int|
            {
                &&& 0 <= k < entries.len()
                &&& is_placed(#[trigger] entries[k], place)
                &&& entries[k].value == value
                &&& forall|j: int| 0 <= j < k ==> !is_placed(#[trigger] entries[j], place)
            },
    decreases entries.len(),
{
    if entries.len() > 0 && !is_placed(entries[0], place) {
        let rest = entries.skip(1);
        law_first_entry_of_a_place_counts(rest, place);
        if let Some(value) = value_at(entries, place) {
            let k = choose|k: int|
                {
                    &&& 0 <= k < rest.len()
                    &&& is_placed(#[trigger] rest[k], place)
                    &&& rest[k].value == value
                    &&& forall|j: int| 0 <= j < k ==> !is_placed(#[trigger] rest[j], place)
                };
            assert(entries[k + 1] == rest[k]);
            assert forall|j: int| 0 <= j < k + 1 implies !is_placed(#[trigger] entries[j], place) by {
                if j > 0 {
                    assert(entries[j] == rest[j - 1]);
                }
            }
        } else {
            assert forall|k: int| 0 <= k < entries.len() implies !is_placed(#[trigger] entries[k], place) by {
                if k > 0 {
                    assert(entries[k] == rest[k - 1]);
                }
            }
        }
    }
}

} // verus!
