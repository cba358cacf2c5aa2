//! JSON values: what the rest of the library reads of them and how it writes them.
//!
//! `serde_json` parses and prints. `Json` holds a value in plain parts, and its
//! view is a `JsonTree`.

use vstd::prelude::*;
use crate::json_text::OtherNumber;
use crate::text::{lemma_views_push, same, views};

verus! {

/// A number of `serde_json`, kept as it is.
#[verifier::external_type_specification]
#[verifier::external_body]
pub struct ExNumber(serde_json::Number);

/// A value of `serde_json`. What it holds is named `value_tree`.
#[verifier::external_type_specification]
#[verifier::external_body]
pub struct ExValue(serde_json::Value);

/// A JSON value.
pub enum Json {
    Null,
    Bool(bool),
    /// A whole number of 64 bits with sign.
    Int(i64),
    /// Any other number.
    Other(OtherNumber),
    Text(String),
    List(Vec<Json>),
    Object(Vec<(String, Json)>),
}

/// The content of a JSON value.
pub enum JsonTree {
    Null,
    Bool(bool),
    Int(int),
    Other(OtherNumber),
    Text(Seq<char>),
    List(Seq<JsonTree>),
    Object(Seq<(Seq<char>, JsonTree)>),
}

impl Json {
    pub open spec fn tree(self) -> JsonTree
        decreases self,
    {
        match self {
            Json::Null => JsonTree::Null,
            Json::Bool(b) => JsonTree::Bool(b),
            Json::Int(n) => JsonTree::Int(n as int),
            Json::Other(n) => JsonTree::Other(n),
            Json::Text(s) => JsonTree::Text(s@),
            Json::List(items) => JsonTree::List(
                Seq::new(
                    items@.len(),
                    |i: int|
                        if 0 <= i < items@.len() {
                            items@[i].tree()
                        } else {
                            JsonTree::Null
                        },
                ),
            ),
            Json::Object(fields) => JsonTree::Object(
                Seq::new(
                    fields@.len(),
                    |i: int|
                        if 0 <= i < fields@.len() {
                            (fields@[i].0@, fields@[i].1.tree())
                        } else {
                            (seq![], JsonTree::Null)
                        },
                ),
            ),
        }
    }
}

impl View for Json {
    type V = JsonTree;

    open spec fn view(&self) -> JsonTree {
        self.tree()
    }
}

/// The views of the fields of an object.
pub open spec fn field_trees(fields: Seq<(String, Json)>) -> Seq<(Seq<char>, JsonTree)> {
    Seq::new(fields.len(), |i: int| (fields[i].0@, fields[i].1@))
}

/// The views of the items of a list.
pub open spec fn item_trees(items: Seq<Json>) -> Seq<JsonTree> {
    Seq::new(items.len(), |i: int| items[i]@)
}

pub broadcast proof fn lemma_tree(json: Json)
    ensures
        #[trigger] json.tree() == match json {
            Json::List(items) => JsonTree::List(item_trees(items@)),
            Json::Object(fields) => JsonTree::Object(field_trees(fields@)),
            _ => json.tree(),
        },
{
    match json {
        Json::List(items) => {
            assert(json.tree()->List_0 =~= item_trees(items@));
        },
        Json::Object(fields) => {
            assert(json.tree()->Object_0 =~= field_trees(fields@));
        },
        _ => {},
    }
}

pub broadcast proof fn lemma_field_trees_push(fields: Seq<(String, Json)>, field: (String, Json))
    ensures
        #[trigger] field_trees(fields.push(field)) == field_trees(fields).push(
            (field.0@, field.1@),
        ),
{
    assert(field_trees(fields.push(field)) =~= field_trees(fields).push((field.0@, field.1@)));
}

pub broadcast proof fn lemma_item_trees_push(items: Seq<Json>, item: Json)
    ensures
        #[trigger] item_trees(items.push(item)) == item_trees(items).push(item@),
{
    assert(item_trees(items.push(item)) =~= item_trees(items).push(item@));
}

/// The value under a key in a list of fields.
pub open spec fn lookup(fields: Seq<(Seq<char>, JsonTree)>, key: Seq<char>) -> Option<JsonTree>
    decreases fields.len(),
{
    if fields.len() == 0 {
        None
    } else if fields[0].0 == key {
        Some(fields[0].1)
    } else {
        lookup(fields.drop_first(), key)
    }
}

impl JsonTree {
    /// The field of an object; a value of another kind has none.
    pub open spec fn field(self, key: Seq<char>) -> Option<JsonTree> {
        match self {
            JsonTree::Object(fields) => lookup(fields, key),
            _ => None,
        }
    }

    /// The text in a field.
    pub open spec fn text_at(self, key: Seq<char>) -> Option<Seq<char>> {
        match self.field(key) {
            Some(JsonTree::Text(s)) => Some(s),
            _ => None,
        }
    }

    /// The truth value in a field.
    pub open spec fn bool_at(self, key: Seq<char>) -> Option<bool> {
        match self.field(key) {
            Some(JsonTree::Bool(b)) => Some(b),
            _ => None,
        }
    }

    /// The whole number in a field.
    pub open spec fn int_at(self, key: Seq<char>) -> Option<int> {
        match self.field(key) {
            Some(JsonTree::Int(n)) => Some(n),
            _ => None,
        }
    }

    /// The items of the list in a field.
    pub open spec fn list_at(self, key: Seq<char>) -> Option<Seq<JsonTree>> {
        match self.field(key) {
            Some(JsonTree::List(items)) => Some(items),
            _ => None,
        }
    }

    /// The fields of the object in a field.
    pub open spec fn object_at(self, key: Seq<char>) -> Option<Seq<(Seq<char>, JsonTree)>> {
        match self.field(key) {
            Some(JsonTree::Object(fields)) => Some(fields),
            _ => None,
        }
    }
}

impl Json {
    /// The field of an object, as `serde_json::Value::get` gives it.
    pub fn get(&self, key: &str) -> (r: Option<&Json>)
        ensures
            match r {
                Some(v) => self@.field(key@) == Some(v@),
                None => self@.field(key@) is None,
            },
    {
        broadcast use lemma_tree;

        match self {
            Json::Object(fields) => {
                let ghost all = field_trees(fields@);
                let mut i: usize = 0;
                assert(all.skip(0) =~= all);
                while i < fields.len()
                    invariant
                        i <= fields.len(),
                        all == field_trees(fields@),
                        lookup(all, key@) == lookup(all.skip(i as int), key@),
                        self@ == JsonTree::Object(all),
                    decreases fields.len() - i,
                {
                    let ghost rest = all.skip(i as int);
                    assert(rest[0] == all[i as int]);
                    assert(rest.drop_first() =~= all.skip(i + 1));
                    if same(fields[i].0.as_str(), key) {
                        return Some(&fields[i].1);
                    }
                    i = i + 1;
                }
                None
            },
            _ => None,
        }
    }

    pub fn get_text(&self, key: &str) -> (r: Option<&String>)
        ensures
            match r {
                Some(s) => self@.text_at(key@) == Some(s@),
                None => self@.text_at(key@) is None,
            },
    {
        match self.get(key) {
            Some(Json::Text(s)) => Some(s),
            _ => None,
        }
    }

    pub fn get_bool(&self, key: &str) -> (r: Option<bool>)
        ensures
            r == self@.bool_at(key@),
    {
        match self.get(key) {
            Some(Json::Bool(b)) => Some(*b),
            _ => None,
        }
    }

    pub fn get_int(&self, key: &str) -> (r: Option<i64>)
        ensures
            match r {
                Some(n) => self@.int_at(key@) == Some(n as int),
                None => self@.int_at(key@) is None,
            },
    {
        match self.get(key) {
            Some(Json::Int(n)) => Some(*n),
            _ => None,
        }
    }

    pub fn get_list(&self, key: &str) -> (r: Option<&Vec<Json>>)
        ensures
            match r {
                Some(items) => self@.list_at(key@) == Some(item_trees(items@)),
                None => self@.list_at(key@) is None,
            },
    {
        broadcast use lemma_tree;

        match self.get(key) {
            Some(Json::List(items)) => Some(items),
            _ => None,
        }
    }

    pub fn get_object(&self, key: &str) -> (r: Option<&Vec<(String, Json)>>)
        ensures
            match r {
                Some(fields) => self@.object_at(key@) == Some(field_trees(fields@)),
                None => self@.object_at(key@) is None,
            },
    {
        broadcast use lemma_tree;

        match self.get(key) {
            Some(Json::Object(fields)) => Some(fields),
            _ => None,
        }
    }
}

/// The texts among the items of a list.
pub open spec fn text_items(items: Seq<JsonTree>) -> Seq<Seq<char>>
    decreases items.len(),
{
    if items.len() == 0 {
        seq![]
    } else {
        match items.last() {
            JsonTree::Text(s) => text_items(items.drop_last()).push(s),
            _ => text_items(items.drop_last()),
        }
    }
}

/// Copies the texts among the items of a list.
pub fn texts_of(items: &Vec<Json>) -> (r: Vec<String>)
    ensures
        views(r@) == text_items(item_trees(items@)),
{
    broadcast use lemma_views_push;

    let ghost all = item_trees(items@);
    let mut out: Vec<String> = Vec::new();
    let mut i: usize = 0;
    assert(views(out@) =~= text_items(all.take(0)));
    while i < items.len()
        invariant
            i <= items.len(),
            all == item_trees(items@),
            views(out@) == text_items(all.take(i as int)),
        decreases items.len() - i,
    {
        assert(all.take(i + 1).drop_last() =~= all.take(i as int));
        assert(all.take(i + 1).last() == items@[i as int]@);
        match &items[i] {
            Json::Text(s) => out.push(s.clone()),
            _ => {},
        }
        i = i + 1;
    }
    assert(all.take(i as int) =~= all);
    out
}

/// A text as a JSON value.
pub fn text_json(s: &str) -> (r: Json)
    ensures
        r@ == JsonTree::Text(s@),
{
    Json::Text(s.to_string())
}

/// A list of texts as a JSON value.
pub fn texts_json(list: &Vec<String>) -> (r: Json)
    ensures
        r@ == JsonTree::List(text_trees(views(list@))),
{
    broadcast use lemma_tree, lemma_item_trees_push;

    let mut items: Vec<Json> = Vec::new();
    let mut i: usize = 0;
    while i < list.len()
        invariant
            i <= list.len(),
            item_trees(items@) == text_trees(views(list@).take(i as int)),
        decreases list.len() - i,
    {
        items.push(text_json(list[i].as_str()));
        assert(text_trees(views(list@).take(i + 1)) =~= text_trees(
            views(list@).take(i as int),
        ).push(JsonTree::Text(list@[i as int]@)));
        i = i + 1;
    }
    assert(views(list@).take(i as int) =~= views(list@));
    Json::List(items)
}

/// Texts as the contents of JSON values.
pub open spec fn text_trees(list: Seq<Seq<char>>) -> Seq<JsonTree> {
    Seq::new(list.len(), |i: int| JsonTree::Text(list[i]))
}

/// A key stands for the value of the first field of that name, and for nothing where there
/// is none.
pub proof fn law_the_first_field_is_found(fields: Seq<(Seq<char>, JsonTree)>, key: Seq<char>, k: int)
    ensures
        0 <= k < fields.len() && fields[k].0 == key && (forall|i: int|
            0 <= i < k ==> (#[trigger] fields[i]).0 != key) ==> JsonTree::Object(fields).field(key)
            == Some(fields[k].1),
        (forall|i: int| 0 <= i < fields.len() ==> (#[trigger] fields[i]).0 != key)
            ==> JsonTree::Object(fields).field(key) is None,
    decreases fields.len(),
{
    if fields.len() > 0 {
        let rest = fields.drop_first();
        law_the_first_field_is_found(rest, key, k - 1);
        if fields[0].0 != key {
            assert(forall|i: int| 0 <= i < rest.len() ==> #[trigger] rest[i] == fields[i + 1]);
        }
    }
}

/// A value is read as what it is, and as nothing else.
pub proof fn law_values_are_read_by_their_kind(tree: JsonTree, key: Seq<char>)
    ensures
        match tree.field(key) {
            Some(JsonTree::Text(s)) => tree.text_at(key) == Some(s),
            _ => tree.text_at(key) is None,
        },
        match tree.field(key) {
            Some(JsonTree::Bool(b)) => tree.bool_at(key) == Some(b),
            _ => tree.bool_at(key) is None,
        },
        match tree.field(key) {
            Some(JsonTree::Int(n)) => tree.int_at(key) == Some(n),
            _ => tree.int_at(key) is None,
        },
        match tree.field(key) {
            Some(JsonTree::List(items)) => tree.list_at(key) == Some(items),
            _ => tree.list_at(key) is None,
        },
        match tree.field(key) {
            Some(JsonTree::Object(fields)) => tree.object_at(key) == Some(fields),
            _ => tree.object_at(key) is None,
        },
        !(tree is Object) ==> tree.field(key) is None,
{
}

/// The texts of a list are taken in their order, and what is no text is left out.
pub proof fn law_texts_are_taken_in_order(a: Seq<JsonTree>, b: Seq<JsonTree>, s: Seq<char>)
    ensures
        text_items(a + b) == text_items(a) + text_items(b),
        text_items(seq![JsonTree::Text(s)]) == seq![s],
        forall|item: JsonTree| !(item is Text) ==> #[trigger] text_items(seq![item]).len() == 0,
        forall|list: Seq<Seq<char>>| #[trigger] text_items(text_trees(list)) == list,
    decreases b.len(),
{
    let one = seq![JsonTree::Text(s)];
    assert(one.drop_last() =~= seq![]);
    assert(text_items(one.drop_last()) =~= seq![]);
    assert(text_items(one) =~= seq![s]);
    assert forall|item: JsonTree| !(item is Text) implies #[trigger] text_items(seq![item]).len()
        == 0 by {
        assert(seq![item].drop_last() =~= seq![]);
        assert(text_items(seq![item].drop_last()) =~= seq![]);
    }
    assert forall|list: Seq<Seq<char>>| #[trigger] text_items(text_trees(list)) == list by {
        lemma_text_trees(list);
    }
    if b.len() == 0 {
        assert(a + b =~= a);
        assert(text_items(b) =~= seq![]);
    } else {
        law_texts_are_taken_in_order(a, b.drop_last(), s);
        assert((a + b).drop_last() =~= a + b.drop_last());
        assert(text_items(a + b) =~= text_items(a) + text_items(b));
    }
}

proof fn lemma_text_trees(list: Seq<Seq<char>>)
    ensures
        text_items(text_trees(list)) == list,
    decreases list.len(),
{
    let trees = text_trees(list);
    if list.len() == 0 {
        assert(text_items(trees) =~= list);
    } else {
        lemma_text_trees(list.drop_last());
        assert(trees.drop_last() =~= text_trees(list.drop_last()));
        assert(text_items(trees) =~= list);
    }
}

} // verus!
