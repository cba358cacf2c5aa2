//! JSON as text.

use vstd::prelude::*;
use crate::json::{lookup, Json, JsonTree};

verus! {

/// A number that is no whole number of 64 bits with sign. Only `from_value` makes one.
pub struct OtherNumber {
    raw: serde_json::Number,
}

/// What a `serde_json::Value` holds.
pub uninterp spec fn value_tree(v: serde_json::Value) -> JsonTree;

/// What `serde_json::from_str` makes of a text: the value, or the message of the
/// error.
pub uninterp spec fn parsed_json(text: Seq<char>) -> Result<JsonTree, Seq<char>>;

/// The text is JSON for the given value.
pub open spec fn reads_as(text: Seq<char>, tree: JsonTree) -> bool {
    parsed_json(text) matches Ok(t) && t == tree
}

/// What `serde_json::to_string_pretty` prints.
pub uninterp spec fn pretty_text(tree: JsonTree) -> Seq<char>;

/// What `serde_json::to_string` prints.
pub uninterp spec fn compact_text(tree: JsonTree) -> Seq<char>;

/// The order of the keys of an object: by the first characters that differ.
pub open spec fn text_less(a: Seq<char>, b: Seq<char>) -> bool
    decreases a.len(),
{
    if a.len() == 0 || b.len() == 0 {
        a.len() < b.len()
    } else if a[0] == b[0] {
        text_less(a.drop_first(), b.drop_first())
    } else {
        a[0] < b[0]
    }
}

/// The fields of an object, in the order of their keys, after a value has been put
/// under a key.
pub open spec fn put_field(
    fields: Seq<(Seq<char>, JsonTree)>,
    key: Seq<char>,
    value: JsonTree,
) -> Seq<(Seq<char>, JsonTree)>
    decreases fields.len(),
{
    if fields.len() == 0 {
        seq![(key, value)]
    } else if fields[0].0 == key {
        seq![(key, value)] + fields.drop_first()
    } else if text_less(key, fields[0].0) {
        seq![(key, value)] + fields
    } else {
        seq![fields[0]] + put_field(fields.drop_first(), key, value)
    }
}

/// A JSON value with the fields of its objects in the order of their keys, each
/// key once, with the value that came last.
pub open spec fn ordered(tree: JsonTree) -> JsonTree
    decreases tree,
{
    match tree {
        JsonTree::List(items) => JsonTree::List(
            Seq::new(
                items.len(),
                |i: int|
                    if 0 <= i < items.len() {
                        ordered(items[i])
                    } else {
                        JsonTree::Null
                    },
            ),
        ),
        JsonTree::Object(fields) => JsonTree::Object(ordered_fields(fields)),
        _ => tree,
    }
}

/// The fields of an object in the order of their keys.
pub open spec fn ordered_fields(fields: Seq<(Seq<char>, JsonTree)>) -> Seq<(Seq<char>, JsonTree)>
    decreases fields,
{
    if fields.len() == 0 {
        seq![]
    } else {
        put_field(
            ordered_fields(fields.drop_last()),
            fields.last().0,
            ordered(fields.last().1),
        )
    }
}

/// How deep lists and objects lie inside one another, up to `limit`, and no
/// number other than a whole number of 64 bits.
pub open spec fn plain_within(tree: JsonTree, limit: nat) -> bool
    decreases limit,
{
    match tree {
        JsonTree::List(items) => limit > 0 && forall|i: int|
            0 <= i < items.len() ==> plain_within(#[trigger] items[i], (limit - 1) as nat),
        JsonTree::Object(fields) => limit > 0 && forall|i: int|
            0 <= i < fields.len() ==> plain_within((#[trigger] fields[i]).1, (limit - 1) as nat),
        JsonTree::Other(_) => false,
        _ => true,
    }
}

/// The fields hold values of a depth.
pub open spec fn fields_within(fields: Seq<(Seq<char>, JsonTree)>, limit: nat) -> bool {
    forall|i: int| 0 <= i < fields.len() ==> plain_within((#[trigger] fields[i]).1, limit)
}

proof fn lemma_put_within(
    fields: Seq<(Seq<char>, JsonTree)>,
    key: Seq<char>,
    value: JsonTree,
    limit: nat,
)
    requires
        fields_within(fields, limit),
        plain_within(value, limit),
    ensures
        fields_within(put_field(fields, key, value), limit),
    decreases fields.len(),
{
    let out = put_field(fields, key, value);
    if fields.len() > 0 {
        let rest = fields.drop_first();
        assert forall|i: int| 0 <= i < rest.len() implies plain_within(
            (#[trigger] rest[i]).1,
            limit,
        ) by {
            assert(rest[i] == fields[i + 1]);
        }
        lemma_put_within(rest, key, value, limit);
        let more = put_field(rest, key, value);
        assert forall|i: int| 0 <= i < out.len() implies plain_within((#[trigger] out[i]).1, limit) by {
            if i > 0 {
                if fields[0].0 == key {
                    assert(out[i] == rest[i - 1]);
                } else if text_less(key, fields[0].0) {
                    assert(out[i] == fields[i - 1]);
                } else {
                    assert(out[i] == more[i - 1]);
                }
            } else {
                assert(out[0] == (key, value) || out[0] == fields[0]);
            }
        }
    }
}

proof fn lemma_fields_ordered_within(fields: Seq<(Seq<char>, JsonTree)>, limit: nat)
    requires
        fields_within(fields, limit),
    ensures
        fields_within(ordered_fields(fields), limit),
    decreases limit, 1int, fields.len(),
{
    if fields.len() > 0 {
        let front = fields.drop_last();
        assert forall|i: int| 0 <= i < front.len() implies plain_within(
            (#[trigger] front[i]).1,
            limit,
        ) by {
            assert(front[i] == fields[i]);
        }
        lemma_fields_ordered_within(front, limit);
        assert(plain_within(fields[fields.len() - 1].1, limit));
        lemma_ordered_within(fields.last().1, limit);
        lemma_put_within(
            ordered_fields(front),
            fields.last().0,
            ordered(fields.last().1),
            limit,
        );
    } else {
        assert(ordered_fields(fields) =~= seq![]);
    }
}

/// Bringing fields into order makes nothing deeper.
pub proof fn lemma_ordered_within(tree: JsonTree, limit: nat)
    requires
        plain_within(tree, limit),
    ensures
        plain_within(ordered(tree), limit),
    decreases limit, 0int, 0int,
{
    match tree {
        JsonTree::List(items) => {
            let out = ordered(tree)->List_0;
            assert forall|i: int| 0 <= i < out.len() implies plain_within(
                #[trigger] out[i],
                (limit - 1) as nat,
            ) by {
                assert(plain_within(items[i], (limit - 1) as nat));
                lemma_ordered_within(items[i], (limit - 1) as nat);
            }
        },
        JsonTree::Object(fields) => {
            lemma_fields_ordered_within(fields, (limit - 1) as nat);
        },
        _ => {},
    }
}

/// The value that came last under a key.
pub open spec fn last_value(fields: Seq<(Seq<char>, JsonTree)>, key: Seq<char>) -> Option<JsonTree>
    decreases fields.len(),
{
    if fields.len() == 0 {
        None
    } else if fields.last().0 == key {
        Some(fields.last().1)
    } else {
        last_value(fields.drop_last(), key)
    }
}

/// The value that came last is fixed by its place.
pub proof fn lemma_last_value_is(fields: Seq<(Seq<char>, JsonTree)>, key: Seq<char>, k: int)
    requires
        0 <= k < fields.len(),
        fields[k].0 == key,
        forall|j: int| k < j < fields.len() ==> (#[trigger] fields[j]).0 != key,
    ensures
        last_value(fields, key) == Some(fields[k].1),
    decreases fields.len(),
{
    if k < fields.len() - 1 {
        assert(fields[fields.len() - 1].0 != key);
        let front = fields.drop_last();
        assert(front[k] == fields[k]);
        assert forall|j: int| k < j < front.len() implies (#[trigger] front[j]).0 != key by {
            assert(front[j] == fields[j]);
        }
        lemma_last_value_is(front, key, k);
    }
}

proof fn lemma_lookup_put(
    fields: Seq<(Seq<char>, JsonTree)>,
    key: Seq<char>,
    value: JsonTree,
    k: Seq<char>,
)
    ensures
        lookup(put_field(fields, key, value), k) == if k == key {
            Some(value)
        } else {
            lookup(fields, k)
        },
    decreases fields.len(),
{
    let out = put_field(fields, key, value);
    if fields.len() == 0 {
        assert(out[0] == (key, value));
        assert(out.drop_first() =~= seq![]);
        assert(lookup(out.drop_first(), k) is None);
    } else {
        let rest = fields.drop_first();
        if fields[0].0 == key {
            assert(out[0] == (key, value));
            assert(out.drop_first() =~= rest);
        } else if text_less(key, fields[0].0) {
            assert(out[0] == (key, value));
            assert(out.drop_first() =~= fields);
        } else {
            lemma_lookup_put(rest, key, value, k);
            assert(out[0] == fields[0]);
            assert(out.drop_first() =~= put_field(rest, key, value));
        }
    }
}

/// A field of an object whose fields have been brought into order.
pub proof fn lemma_lookup_ordered(fields: Seq<(Seq<char>, JsonTree)>, key: Seq<char>)
    ensures
        lookup(ordered_fields(fields), key) == match last_value(fields, key) {
            Some(v) => Some(ordered(v)),
            None => None,
        },
    decreases fields.len(),
{
    if fields.len() == 0 {
        assert(ordered_fields(fields) =~= seq![]);
        assert(lookup(ordered_fields(fields), key) is None);
    } else {
        lemma_lookup_ordered(fields.drop_last(), key);
        lemma_lookup_put(
            ordered_fields(fields.drop_last()),
            fields.last().0,
            ordered(fields.last().1),
            key,
        );
    }
}

/// The field is one of a list, with its value in order.
pub open spec fn stems_from(
    field: (Seq<char>, JsonTree),
    fields: Seq<(Seq<char>, JsonTree)>,
) -> bool {
    exists|j: int| 0 <= j < fields.len() && field == ((#[trigger] fields[j]).0, ordered(fields[j].1))
}

/// The key is one of a list of fields.
pub open spec fn has_key(fields: Seq<(Seq<char>, JsonTree)>, key: Seq<char>) -> bool {
    exists|i: int| 0 <= i < fields.len() && (#[trigger] fields[i]).0 == key
}

/// A field after one was put is the new one or an old one.
proof fn lemma_put_from(
    fields: Seq<(Seq<char>, JsonTree)>,
    key: Seq<char>,
    value: JsonTree,
    i: int,
) -> (m: int)
    requires
        0 <= i < put_field(fields, key, value).len(),
    ensures
        put_field(fields, key, value)[i] == (key, value) || (0 <= m < fields.len() && fields[m]
            == put_field(fields, key, value)[i]),
    decreases fields.len(),
{
    if fields.len() == 0 || i == 0 {
        0
    } else if fields[0].0 == key {
        i
    } else if text_less(key, fields[0].0) {
        i - 1
    } else {
        lemma_put_from(fields.drop_first(), key, value, i - 1) + 1
    }
}

proof fn lemma_lookup_has(fields: Seq<(Seq<char>, JsonTree)>, key: Seq<char>)
    ensures
        lookup(fields, key) is Some == has_key(fields, key),
    decreases fields.len(),
{
    if fields.len() > 0 {
        let rest = fields.drop_first();
        lemma_lookup_has(rest, key);
        if fields[0].0 != key {
            if has_key(rest, key) {
                let i = choose|i: int| 0 <= i < rest.len() && (#[trigger] rest[i]).0 == key;
                assert(fields[i + 1].0 == key);
            }
            if has_key(fields, key) {
                let i = choose|i: int| 0 <= i < fields.len() && (#[trigger] fields[i]).0 == key;
                assert(rest[i - 1].0 == key);
            }
        }
    }
}

/// Every field that has been brought into order is one of the list.
pub proof fn lemma_ordered_from(fields: Seq<(Seq<char>, JsonTree)>, i: int)
    requires
        0 <= i < ordered_fields(fields).len(),
    ensures
        stems_from(ordered_fields(fields)[i], fields),
    decreases fields.len(),
{
    if fields.len() == 0 {
        assert(ordered_fields(fields) =~= seq![]);
    } else {
        let front = fields.drop_last();
        let before = ordered_fields(front);
        let key = fields.last().0;
        let value = ordered(fields.last().1);
        let field = ordered_fields(fields)[i];
        let m = lemma_put_from(before, key, value, i);
        if field == (key, value) {
            assert(field == (fields[fields.len() - 1].0, ordered(fields[fields.len() - 1].1)));
        } else {
            lemma_ordered_from(front, m);
            let j = choose|j: int|
                0 <= j < front.len() && field == ((#[trigger] front[j]).0, ordered(front[j].1));
            assert(fields[j] == front[j]);
        }
    }
}

/// Bringing fields into order keeps their keys.
pub proof fn lemma_ordered_keys(fields: Seq<(Seq<char>, JsonTree)>, key: Seq<char>)
    ensures
        has_key(ordered_fields(fields), key) == has_key(fields, key),
    decreases fields.len(),
{
    if fields.len() == 0 {
        assert(ordered_fields(fields) =~= seq![]);
    } else {
        let front = fields.drop_last();
        lemma_ordered_keys(front, key);
        lemma_lookup_put(ordered_fields(front), fields.last().0, ordered(fields.last().1), key);
        lemma_lookup_has(ordered_fields(front), key);
        lemma_lookup_has(ordered_fields(fields), key);
        if has_key(front, key) {
            let i = choose|i: int| 0 <= i < front.len() && (#[trigger] front[i]).0 == key;
            assert(fields[i].0 == key);
        }
        if fields.last().0 == key {
            assert(fields[fields.len() - 1].0 == key);
        }
        if has_key(fields, key) && fields.last().0 != key {
            let i = choose|i: int| 0 <= i < fields.len() && (#[trigger] fields[i]).0 == key;
            assert(front[i].0 == key);
        }
    }
}

proof fn lemma_text_less_total(a: Seq<char>, b: Seq<char>)
    ensures
        a == b || text_less(a, b) || text_less(b, a),
        !(text_less(a, b) && text_less(b, a)),
        !text_less(a, a),
    decreases a.len(),
{
    if a.len() > 0 && b.len() > 0 {
        lemma_text_less_total(a.drop_first(), b.drop_first());
        if a[0] == b[0] && a.drop_first() == b.drop_first() {
            assert(a =~= seq![a[0]] + a.drop_first());
            assert(b =~= seq![b[0]] + b.drop_first());
        }
    } else if a.len() == b.len() {
        assert(a =~= b);
    }
    if a.len() > 0 && b.len() == 0 {
        lemma_text_less_total(a.drop_first(), a.drop_first());
    }
}

proof fn lemma_text_less_trans(a: Seq<char>, b: Seq<char>, c: Seq<char>)
    requires
        text_less(a, b),
        text_less(b, c),
    ensures
        text_less(a, c),
    decreases a.len(),
{
    if a.len() > 0 && b.len() > 0 && c.len() > 0 && a[0] == b[0] && b[0] == c[0] {
        lemma_text_less_trans(a.drop_first(), b.drop_first(), c.drop_first());
    }
}

/// The fields stand in the order of their keys, each key once.
spec fn in_order(fields: Seq<(Seq<char>, JsonTree)>) -> bool {
    forall|i: int, j: int|
        0 <= i < j < fields.len() ==> text_less(
            (#[trigger] fields[i]).0,
            (#[trigger] fields[j]).0,
        )
}

proof fn lemma_put_in_order(fields: Seq<(Seq<char>, JsonTree)>, key: Seq<char>, value: JsonTree)
    requires
        in_order(fields),
    ensures
        in_order(put_field(fields, key, value)),
    decreases fields.len(),
{
    let out = put_field(fields, key, value);
    if fields.len() > 0 {
        let rest = fields.drop_first();
        assert forall|i: int, j: int| 0 <= i < j < rest.len() implies text_less(
            (#[trigger] rest[i]).0,
            (#[trigger] rest[j]).0,
        ) by {
            assert(text_less(fields[i + 1].0, fields[j + 1].0));
        }
        lemma_text_less_total(key, fields[0].0);
        if fields[0].0 == key {
            assert forall|i: int, j: int| 0 <= i < j < out.len() implies text_less(
                (#[trigger] out[i]).0,
                (#[trigger] out[j]).0,
            ) by {
                assert(text_less(fields[i].0, fields[j].0));
            }
        } else if text_less(key, fields[0].0) {
            assert forall|i: int, j: int| 0 <= i < j < out.len() implies text_less(
                (#[trigger] out[i]).0,
                (#[trigger] out[j]).0,
            ) by {
                if i > 0 {
                    assert(text_less(fields[i - 1].0, fields[j - 1].0));
                } else if j > 1 {
                    assert(text_less(fields[0].0, fields[j - 1].0));
                    lemma_text_less_trans(key, fields[0].0, fields[j - 1].0);
                }
            }
        } else {
            let more = put_field(rest, key, value);
            lemma_put_in_order(rest, key, value);
            assert forall|i: int, j: int| 0 <= i < j < out.len() implies text_less(
                (#[trigger] out[i]).0,
                (#[trigger] out[j]).0,
            ) by {
                assert(out[j] == more[j - 1]);
                if i > 0 {
                    assert(out[i] == more[i - 1]);
                    assert(text_less(more[i - 1].0, more[j - 1].0));
                } else {
                    let m = lemma_put_from(rest, key, value, j - 1);
                    if more[j - 1] != (key, value) {
                        assert(text_less(fields[0].0, fields[m + 1].0));
                    }
                }
            }
        }
    }
}

proof fn lemma_ordered_in_order(fields: Seq<(Seq<char>, JsonTree)>)
    ensures
        in_order(ordered_fields(fields)),
    decreases fields.len(),
{
    if fields.len() == 0 {
        assert(ordered_fields(fields) =~= seq![]);
    } else {
        lemma_ordered_in_order(fields.drop_last());
        lemma_put_in_order(
            ordered_fields(fields.drop_last()),
            fields.last().0,
            ordered(fields.last().1),
        );
    }
}

/// A field whose key comes after all others is put at the end.
proof fn lemma_put_last(fields: Seq<(Seq<char>, JsonTree)>, key: Seq<char>, value: JsonTree)
    requires
        forall|i: int| 0 <= i < fields.len() ==> text_less((#[trigger] fields[i]).0, key),
    ensures
        put_field(fields, key, value) == fields.push((key, value)),
    decreases fields.len(),
{
    if fields.len() == 0 {
        assert(put_field(fields, key, value) =~= fields.push((key, value)));
    } else {
        let rest = fields.drop_first();
        assert forall|i: int| 0 <= i < rest.len() implies text_less((#[trigger] rest[i]).0, key) by {
            assert(rest[i] == fields[i + 1]);
        }
        lemma_put_last(rest, key, value);
        lemma_text_less_total(fields[0].0, key);
        assert(text_less(fields[0].0, key));
        assert(put_field(fields, key, value) =~= fields.push((key, value)));
    }
}

/// Fields that stand in order, with values that do, are left as they are.
proof fn lemma_order_kept(fields: Seq<(Seq<char>, JsonTree)>)
    requires
        in_order(fields),
        forall|i: int| 0 <= i < fields.len() ==> ordered((#[trigger] fields[i]).1) == fields[i].1,
    ensures
        ordered_fields(fields) == fields,
    decreases fields.len(),
{
    if fields.len() == 0 {
        assert(ordered_fields(fields) =~= fields);
    } else {
        let front = fields.drop_last();
        let last = fields.len() - 1;
        assert forall|i: int| 0 <= i < front.len() implies ordered((#[trigger] front[i]).1)
            == front[i].1 by {
            assert(front[i] == fields[i]);
        }
        assert forall|i: int, j: int| 0 <= i < j < front.len() implies text_less(
            (#[trigger] front[i]).0,
            (#[trigger] front[j]).0,
        ) by {
            assert(text_less(fields[i].0, fields[j].0));
        }
        lemma_order_kept(front);
        assert forall|i: int| 0 <= i < front.len() implies text_less(
            (#[trigger] front[i]).0,
            fields.last().0,
        ) by {
            assert(text_less(fields[i].0, fields[last].0));
        }
        assert(ordered(fields[last].1) == fields[last].1);
        lemma_put_last(front, fields.last().0, fields.last().1);
        assert(front.push(fields.last()) =~= fields);
    }
}

/// Bringing the fields of a value into order twice does no more than doing so once.
pub proof fn lemma_ordered_twice(tree: JsonTree)
    ensures
        ordered(ordered(tree)) == ordered(tree),
    decreases tree,
{
    match tree {
        JsonTree::List(items) => {
            let once = ordered(tree)->List_0;
            let twice = ordered(ordered(tree))->List_0;
            assert forall|i: int| 0 <= i < items.len() implies twice[i] == once[i] by {
                lemma_ordered_twice(items[i]);
            }
            assert(twice =~= once);
        },
        JsonTree::Object(fields) => {
            let once = ordered_fields(fields);
            lemma_ordered_in_order(fields);
            assert forall|i: int| 0 <= i < once.len() implies ordered((#[trigger] once[i]).1)
                == once[i].1 by {
                lemma_ordered_from(fields, i);
                let j = choose|j: int|
                    0 <= j < fields.len() && once[i] == ((#[trigger] fields[j]).0, ordered(
                        fields[j].1,
                    ));
                lemma_ordered_twice(fields[j].1);
            }
            lemma_order_kept(once);
        },
        _ => {},
    }
}

/// A character inside a JSON text literal.
pub open spec fn json_escaped(c: char) -> Seq<char> {
    if c == '"' {
        seq!['\\', '"']
    } else if c == '\\' {
        seq!['\\', '\\']
    } else if c == '\n' {
        seq!['\\', 'n']
    } else if c == '\r' {
        seq!['\\', 'r']
    } else if c == '\t' {
        seq!['\\', 't']
    } else if c as u32 == 8 {
        seq!['\\', 'b']
    } else if c as u32 == 12 {
        seq!['\\', 'f']
    } else if (c as u32) < 32 {
        seq!['\\', 'u', '0', '0', hex_digit(c as u32 / 16), hex_digit(c as u32 % 16)]
    } else {
        seq![c]
    }
}

/// A hexadecimal digit, in small letters.
pub open spec fn hex_digit(n: u32) -> char {
    if n < 10 {
        ((n + 48) as u32) as char
    } else {
        ((n + 87) as u32) as char
    }
}

/// A text with each character as it stands inside a JSON text literal.
pub open spec fn all_escaped(s: Seq<char>) -> Seq<char>
    decreases s.len(),
{
    if s.len() == 0 {
        seq![]
    } else {
        all_escaped(s.drop_last()) + json_escaped(s.last())
    }
}

/// The JSON literal of a text.
pub open spec fn json_literal(s: Seq<char>) -> Seq<char> {
    seq!['"'] + all_escaped(s) + seq!['"']
}

/// `serde_json::from_str` for a `Value`, with the message of its error. Both
/// depend on the text alone and have the name `parsed_json`.
#[verifier::external_body]
fn parse_value(text: &str) -> (r: Result<serde_json::Value, String>)
    ensures
        match (r, parsed_json(text@)) {
            (Ok(v), Ok(tree)) => value_tree(v) == tree,
            (Err(e), Err(message)) => e@ == message,
            _ => false,
        },
{
    serde_json::from_str::<serde_json::Value>(text).map_err(|e| e.to_string())
}

/// Takes a `serde_json::Value` apart, kind by kind; `Number::as_i64` tells the
/// whole numbers of 64 bits from the other numbers.
#[verifier::external_body]
fn from_value(value: serde_json::Value) -> (r: Json)
    ensures
        r@ == value_tree(value),
{
    match value {
        serde_json::Value::Null => Json::Null,
        serde_json::Value::Bool(b) => Json::Bool(b),
        serde_json::Value::Number(n) => match n.as_i64() {
            Some(i) => Json::Int(i),
            None => Json::Other(OtherNumber { raw: n }),
        },
        serde_json::Value::String(s) => Json::Text(s),
        serde_json::Value::Array(items) => Json::List(items.into_iter().map(from_value).collect()),
        serde_json::Value::Object(fields) => Json::Object(
            fields.into_iter().map(|(k, v)| (k, from_value(v))).collect(),
        ),
    }
}

/// Puts a `serde_json::Value` together, kind by kind. Its map of fields keeps them
/// in the order of their keys, and of equal keys the last.
#[verifier::external_body]
fn to_value(json: &Json) -> (r: serde_json::Value)
    ensures
        value_tree(r) == ordered(json@),
{
    match json {
        Json::Null => serde_json::Value::Null,
        Json::Bool(b) => serde_json::Value::Bool(*b),
        Json::Int(n) => serde_json::Value::Number((*n).into()),
        Json::Other(n) => serde_json::Value::Number(n.raw.clone()),
        Json::Text(s) => serde_json::Value::String(s.clone()),
        Json::List(items) => serde_json::Value::Array(items.iter().map(to_value).collect()),
        Json::Object(fields) => serde_json::Value::Object(
            fields.iter().map(|(k, v)| (k.clone(), to_value(v))).collect(),
        ),
    }
}

/// `serde_json::to_string_pretty`. A `Value` always prints, and the text, named
/// `pretty_text`, depends on what the value holds alone. `serde_json::from_str`
/// reads the text back, up to the depth that it follows and but for numbers with
/// a fraction or an exponent.
#[verifier::external_body]
fn print_pretty(value: &serde_json::Value) -> (r: Result<String, String>)
    ensures
        r is Ok,
        r->Ok_0@ == pretty_text(value_tree(*value)),
        plain_within(value_tree(*value), 100) ==> reads_as(r->Ok_0@, value_tree(*value)),
{
    serde_json::to_string_pretty(value).map_err(|e| e.to_string())
}

/// `serde_json::to_string`. A `Value` always prints, and the text, named
/// `compact_text`, depends on what the value holds alone; of a text it is the
/// quoted literal.
#[verifier::external_body]
fn print_compact(value: &serde_json::Value) -> (r: Result<String, String>)
    ensures
        r is Ok,
        r->Ok_0@ == compact_text(value_tree(*value)),
        value_tree(*value) matches JsonTree::Text(s) ==> r->Ok_0@ == json_literal(s),
{
    serde_json::to_string(value).map_err(|e| e.to_string())
}

/// Reads a JSON text.
pub fn parse_json(text: &str) -> (r: Result<Json, String>)
    ensures
        match (r, parsed_json(text@)) {
            (Ok(json), Ok(tree)) => json@ == tree,
            (Err(e), Err(message)) => e@ == message,
            _ => false,
        },
{
    match parse_value(text) {
        Ok(value) => Ok(from_value(value)),
        Err(e) => Err(e),
    }
}

/// Prints a JSON value over several lines.
pub fn pretty_json(json: &Json) -> (r: Result<String, String>)
    ensures
        r is Ok,
        r->Ok_0@ == pretty_text(ordered(json@)),
        plain_within(ordered(json@), 100) ==> reads_as(r->Ok_0@, ordered(json@)),
{
    print_pretty(&to_value(json))
}

/// Prints a JSON value on one line.
pub fn compact_json(json: &Json) -> (r: Result<String, String>)
    ensures
        r is Ok,
        r->Ok_0@ == compact_text(ordered(json@)),
        json@ matches JsonTree::Text(s) ==> r->Ok_0@ == json_literal(s),
{
    print_compact(&to_value(json))
}

/// The JSON literal of a text.
pub fn quote_json(s: &str) -> (r: String)
    ensures
        r@ == json_literal(s@),
{
    let json = Json::Text(s.to_string());
    match compact_json(&json) {
        Ok(text) => text,
        Err(text) => text,
    }
}

proof fn lemma_escaped_printable(s: Seq<char>)
    ensures
        forall|i: int| 0 <= i < all_escaped(s).len() ==> (#[trigger] all_escaped(s)[i]) as u32 >= 0x20,
    decreases s.len(),
{
    let out = all_escaped(s);
    if s.len() == 0 {
        assert(out =~= seq![]);
    } else {
        let front = all_escaped(s.drop_last());
        let last = json_escaped(s.last());
        lemma_escaped_printable(s.drop_last());
        assert forall|i: int| 0 <= i < last.len() implies (#[trigger] last[i]) as u32 >= 0x20 by {}
        assert forall|i: int| 0 <= i < out.len() implies (#[trigger] out[i]) as u32 >= 0x20 by {
            if i < front.len() {
                assert(out[i] == front[i]);
            } else {
                assert(out[i] == last[i - front.len()]);
            }
        }
    }
}

/// The JSON literal of a text is one line without control characters, between double
/// quotes.
pub proof fn law_literals_stay_on_one_line(s: Seq<char>)
    ensures
        json_literal(s).len() >= 2,
        json_literal(s)[0] == '"',
        json_literal(s).last() == '"',
        forall|i: int|
            0 <= i < json_literal(s).len() ==> (#[trigger] json_literal(s)[i]) as u32 >= 0x20,
{
    lemma_escaped_printable(s);
    let out = json_literal(s);
    assert forall|i: int| 0 <= i < out.len() implies (#[trigger] out[i]) as u32 >= 0x20 by {
        if 0 < i < out.len() - 1 {
            assert(out[i] == all_escaped(s)[i - 1]);
        }
    }
}

/// In a literal a plain character stands for itself, and a quote, a backslash or a line end
/// is written with a backslash; what is quoted in two parts is quoted in order.
pub proof fn law_plain_texts_are_quoted_as_they_are(a: Seq<char>, b: Seq<char>)
    ensures
        (forall|i: int|
            0 <= i < a.len() ==> (#[trigger] a[i]) as u32 >= 0x20 && a[i] != '"' && a[i] != '\\')
            ==> json_literal(a) == seq!['"'] + a + seq!['"'],
        json_literal(a + b) == json_literal(a).drop_last() + json_literal(b).drop_first(),
        json_literal(seq!['"']) == seq!['"', '\\', '"', '"'],
        json_literal(seq!['\\']) == seq!['"', '\\', '\\', '"'],
        json_literal(seq!['\n']) == seq!['"', '\\', 'n', '"'],
        json_literal(seq!['\r']) == seq!['"', '\\', 'r', '"'],
        json_literal(seq!['\t']) == seq!['"', '\\', 't', '"'],
{
    lemma_escaped_parts(a, b);
    if forall|i: int|
        0 <= i < a.len() ==> (#[trigger] a[i]) as u32 >= 0x20 && a[i] != '"' && a[i] != '\\' {
        lemma_plain_escaped(a);
    }
    assert(json_literal(a + b) =~= json_literal(a).drop_last() + json_literal(b).drop_first());
    lemma_one_escaped('"');
    lemma_one_escaped('\\');
    lemma_one_escaped('\n');
    lemma_one_escaped('\r');
    lemma_one_escaped('\t');
    assert(json_literal(seq!['"']) =~= seq!['"', '\\', '"', '"']);
    assert(json_literal(seq!['\\']) =~= seq!['"', '\\', '\\', '"']);
    assert(json_literal(seq!['\n']) =~= seq!['"', '\\', 'n', '"']);
    assert(json_literal(seq!['\r']) =~= seq!['"', '\\', 'r', '"']);
    assert(json_literal(seq!['\t']) =~= seq!['"', '\\', 't', '"']);
}

proof fn lemma_one_escaped(c: char)
    ensures
        all_escaped(seq![c]) == json_escaped(c),
{
    assert(seq![c].drop_last() =~= seq![]);
    assert(all_escaped(seq![c].drop_last()) =~= seq![]);
    assert(all_escaped(seq![c]) =~= json_escaped(c));
}

proof fn lemma_plain_escaped(s: Seq<char>)
    requires
        forall|i: int|
            0 <= i < s.len() ==> (#[trigger] s[i]) as u32 >= 0x20 && s[i] != '"' && s[i] != '\\',
    ensures
        all_escaped(s) == s,
    decreases s.len(),
{
    if s.len() > 0 {
        lemma_plain_escaped(s.drop_last());
        assert(all_escaped(s) =~= s);
    } else {
        assert(all_escaped(s) =~= s);
    }
}

proof fn lemma_escaped_parts(a: Seq<char>, b: Seq<char>)
    ensures
        all_escaped(a + b) == all_escaped(a) + all_escaped(b),
    decreases b.len(),
{
    if b.len() == 0 {
        assert(a + b =~= a);
        assert(all_escaped(a + b) =~= all_escaped(a) + all_escaped(b));
    } else {
        lemma_escaped_parts(a, b.drop_last());
        assert((a + b).drop_last() =~= a + b.drop_last());
        assert(all_escaped(a + b) =~= all_escaped(a) + all_escaped(b));
    }
}

} // verus!
