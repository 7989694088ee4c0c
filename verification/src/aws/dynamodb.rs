//! DynamoDB tables and items as the browser shows them.
use vstd::prelude::*;
use crate::aws::errors::{access_denied_text, failed_text, is_access_denied, is_credentials_problem};
use crate::aws::errors::{access_denied, credentials_problem};
use crate::text::{
    chars_of, compare_chars, copy_string, joined, join_strings, lemma_order_antisym, lemma_order_trans,
    digits, owned, push_digits, push_str, seq_order, str_eq, texts,
};
use crate::units::{human_size, size_text};

verus! {

/// A row of the table list.
#[derive(Debug, Clone)]
pub struct TableInfo {
    pub name: String,
    pub status: String,
    pub item_count: i64,
    pub size_bytes: i64,
}

/// A global secondary index of a table.
#[derive(Debug, Clone)]
pub struct IndexInfo {
    pub name: String,
    pub partition_key: String,
    pub partition_key_type: String,
    pub sort_key: Option<String>,
    pub sort_key_type: Option<String>,
    pub item_count: i64,
}

/// The description of one table.
#[derive(Debug, Clone)]
pub struct TableDetail {
    pub name: String,
    pub status: String,
    pub partition_key: String,
    pub partition_key_type: String,
    pub sort_key: Option<String>,
    pub sort_key_type: Option<String>,
    pub item_count: i64,
    pub size_bytes: i64,
    pub billing_mode: String,
    pub indexes: Vec<IndexInfo>,
}

/// An attribute value of an item, as DynamoDB types it.
#[derive(Debug)]
pub enum AttrValue {
    /// A string.
    S(String),
    /// A number, in its decimal text.
    N(String),
    /// A boolean.
    Bool(bool),
    /// Null.
    Null,
    /// A set of strings.
    Ss(Vec<String>),
    /// A set of numbers, in their decimal texts.
    Ns(Vec<String>),
    /// A list of values.
    L(Vec<AttrValue>),
    /// A map from names to values.
    M(Vec<(String, AttrValue)>),
    /// Binary data.
    B(Vec<u8>),
    /// A set of binary values.
    Bs(Vec<Vec<u8>>),
    /// A type this browser does not know.
    Unknown,
}

/// An item: its attributes as shown (name and text) and as stored (name
/// and value), each in the order the service gave them; a name stands
/// once in an item.
#[derive(Debug)]
pub struct DynamoItem {
    pub attributes: Vec<(String, String)>,
    pub raw: Vec<(String, AttrValue)>,
}

/// A page of a scan or a query: its items, the names of all their
/// attributes (sorted, each once), where the next page starts (absent on
/// the last page) and how many items were read.
#[derive(Debug)]
pub struct ScanResult {
    pub items: Vec<DynamoItem>,
    pub columns: Vec<String>,
    pub last_key: Option<Vec<(String, AttrValue)>>,
    pub scanned_count: i64,
}

/// The message shown when the DynamoDB operation `op` failed with `msg`.
pub open spec fn dynamo_error_text(op: Seq<char>, msg: Seq<char>) -> Seq<char> {
    if credentials_problem(msg) {
        "AWS credentials expired or missing. Run: aws sso login --profile <your-profile> (r to retry)"@
    } else if access_denied(msg) {
        "Access denied for "@ + op + ". Check your IAM permissions."@
    } else {
        "Failed to "@ + op + ": "@ + msg
    }
}

/// The message shown when a DynamoDB call fails.
pub fn format_aws_error(op: &str, msg: &str) -> (r: String)
    ensures
        r@ == dynamo_error_text(op@, msg@),
{
    if is_credentials_problem(msg) {
        owned("AWS credentials expired or missing. Run: aws sso login --profile <your-profile> (r to retry)")
    } else if is_access_denied(msg) {
        access_denied_text(op)
    } else {
        failed_text(op, msg)
    }
}

/// A table size for people.
pub fn format_size(bytes: i64) -> (r: String)
    ensures
        r@ == size_text(bytes as int),
{
    human_size(bytes)
}

/// How an attribute value is shown in a cell: strings and numbers as they
/// are, booleans as `true`/`false`, `null`, sets as `[a, b]`, a list by its
/// length (`[3 items]`, `[]` when empty), a map by its number of keys
/// (`{2 keys}`, `{}` when empty), binary data as `<binary>` or
/// `<binary set>`.
pub open spec fn attr_text(v: AttrValue) -> Seq<char> {
    match v {
        AttrValue::S(s) => s@,
        AttrValue::N(n) => n@,
        AttrValue::Bool(b) => if b {
            "true"@
        } else {
            "false"@
        },
        AttrValue::Null => "null"@,
        AttrValue::Ss(list) => "["@ + joined(texts(list@), ", "@) + "]"@,
        AttrValue::Ns(list) => "["@ + joined(texts(list@), ", "@) + "]"@,
        AttrValue::L(list) => if list@.len() == 0 {
            "[]"@
        } else {
            "["@ + crate::text::digits(list@.len()) + " items]"@
        },
        AttrValue::M(map) => if map@.len() == 0 {
            "{}"@
        } else {
            "{"@ + crate::text::digits(map@.len()) + " keys}"@
        },
        AttrValue::B(_) => "<binary>"@,
        AttrValue::Bs(_) => "<binary set>"@,
        AttrValue::Unknown => "<unknown>"@,
    }
}

fn bracketed(parts: &Vec<String>) -> (r: String)
    ensures
        r@ == "["@ + joined(texts(parts@), ", "@) + "]"@,
{
    let mut r = owned("[");
    let inner = join_strings(parts, ", ");
    push_str(&mut r, inner.as_str());
    push_str(&mut r, "]");
    r
}

fn counted(open: &str, n: usize, close: &str) -> (r: String)
    ensures
        r@ == open@ + crate::text::digits(n as nat) + close@,
{
    let mut r = owned(open);
    push_digits(&mut r, n as u64);
    push_str(&mut r, close);
    r
}

/// Formats an attribute value for a cell (see `attr_text`).
pub fn format_attribute_value(val: &AttrValue) -> (r: String)
    ensures
        r@ == attr_text(*val),
{
    match val {
        AttrValue::S(s) => copy_string(s),
        AttrValue::N(n) => copy_string(n),
        AttrValue::Bool(b) => if *b {
            owned("true")
        } else {
            owned("false")
        },
        AttrValue::Null => owned("null"),
        AttrValue::Ss(list) => bracketed(list),
        AttrValue::Ns(list) => bracketed(list),
        AttrValue::L(list) => if list.len() == 0 {
            owned("[]")
        } else {
            counted("[", list.len(), " items]")
        },
        AttrValue::M(map) => if map.len() == 0 {
            owned("{}")
        } else {
            counted("{", map.len(), " keys}")
        },
        AttrValue::B(_) => owned("<binary>"),
        AttrValue::Bs(_) => owned("<binary set>"),
        AttrValue::Unknown => owned("<unknown>"),
    }
}

/// An item made of the attributes the service gave, each shown by
/// `attr_text`.
pub fn make_item(raw: Vec<(String, AttrValue)>) -> (item: DynamoItem)
    ensures
        item.raw@ == raw@,
        item.attributes@.len() == raw@.len(),
        forall|i: int|
            0 <= i < raw@.len() ==> (#[trigger] item.attributes@[i]).0@ == raw@[i].0@
                && item.attributes@[i].1@ == attr_text(raw@[i].1),
{
    let n = raw.len();
    let mut attributes: Vec<(String, String)> = Vec::new();
    let mut i: usize = 0;
    while i < n
        invariant
            n == raw@.len(),
            0 <= i <= n,
            attributes@.len() == i,
            forall|t: int|
                0 <= t < i ==> (#[trigger] attributes@[t]).0@ == raw@[t].0@ && attributes@[t].1@ == attr_text(
                    raw@[t].1,
                ),
        decreases n - i,
    {
        let name = copy_string(&raw[i].0);
        let text = format_attribute_value(&raw[i].1);
        attributes.push((name, text));
        i = i + 1;
    }
    DynamoItem { attributes, raw }
}

/// The text shown for attribute `name` of an item: the last pair with that
/// name, if any.
pub open spec fn attribute_text(attrs: Seq<(String, String)>, name: Seq<char>) -> Option<Seq<char>>
    decreases attrs.len(),
{
    if attrs.len() == 0 {
        None
    } else if attrs.last().0@ == name {
        Some(attrs.last().1@)
    } else {
        attribute_text(attrs.drop_last(), name)
    }
}

impl DynamoItem {
    /// The text shown for attribute `name` (see `attribute_text`).
    pub fn attribute(&self, name: &str) -> (r: Option<&String>)
        ensures
            match r {
                Some(s) => attribute_text(self.attributes@, name@) == Some(s@),
                None => attribute_text(self.attributes@, name@) is None,
            },
    {
        let mut i = self.attributes.len();
        proof {
            assert(self.attributes@.take(i as int) =~= self.attributes@);
        }
        while i > 0
            invariant
                i <= self.attributes@.len(),
                attribute_text(self.attributes@, name@) == attribute_text(self.attributes@.take(i as int), name@),
            decreases i,
        {
            proof {
                assert(self.attributes@.take(i as int).drop_last() =~= self.attributes@.take(i - 1));
            }
            if str_eq(self.attributes[i - 1].0.as_str(), name) {
                return Some(&self.attributes[i - 1].1);
            }
            i = i - 1;
        }
        None
    }
}

/// The names are strictly increasing (sorted, each once).
pub open spec fn strictly_sorted(names: Seq<Seq<char>>) -> bool {
    forall|i: int, j: int| 0 <= i < j < names.len() ==> seq_order(names[i], names[j]) < 0
}

/// Some item has an attribute named `name`.
pub open spec fn some_item_has(items: Seq<DynamoItem>, name: Seq<char>) -> bool {
    exists|i: int, j: int|
        0 <= i < items.len() && 0 <= j < items[i].raw@.len() && #[trigger] items[i].raw@[j].0@ == name
}

/// Inserts `name` into sorted names, unless it is there.
pub fn insert_name(names: &mut Vec<String>, name: &String)
    requires
        strictly_sorted(texts(old(names)@)),
    ensures
        strictly_sorted(texts(final(names)@)),
        forall|c: Seq<char>| texts(final(names)@).contains(c) <==> (texts(old(names)@).contains(c) || c == name@),
{
    let key = chars_of(name.as_str());
    let n = names.len();
    let mut p: usize = 0;
    while p < n
        invariant
            n == names@.len(),
            key@ == name@,
            0 <= p <= n,
            forall|t: int| 0 <= t < p ==> seq_order(#[trigger] texts(names@)[t], name@) < 0,
        ensures
            p < n ==> seq_order(texts(names@)[p as int], name@) >= 0,
        decreases n - p,
    {
        let c = compare_chars(&chars_of(names[p].as_str()), &key);
        if c >= 0 {
            break;
        }
        p = p + 1;
    }
    let ghost before = texts(names@);
    if p < n {
        let c = compare_chars(&chars_of(names[p].as_str()), &key);
        if c == 0 {
            proof {
                lemma_order_antisym(before[p as int], name@);
                assert forall|x: Seq<char>| before.contains(x) || x == name@ implies before.contains(x) by {
                    if x == name@ {
                        assert(before[p as int] == x);
                    }
                }
            }
            return;
        }
    }
    proof {
        if p < n {
            lemma_order_antisym(before[p as int], name@);
        }
    }
    names.insert(p, copy_string(name));
    proof {
        let after = texts(names@);
        assert(after =~= before.take(p as int).push(name@) + before.skip(p as int));
        assert(strictly_sorted(before));
        assert forall|i: int, j: int| 0 <= i < j < after.len() implies seq_order(after[i], after[j]) < 0 by {
            if j < p {
                assert(after[i] == before[i] && after[j] == before[j]);
            } else if j == p {
                assert(after[i] == before[i]);
                assert(seq_order(before[i], name@) < 0);
            } else if i == p {
                assert(after[j] == before[j - 1]);
                assert(seq_order(name@, before[p as int]) < 0);
                if j - 1 > p {
                    assert(seq_order(before[p as int], before[j - 1]) < 0);
                    lemma_order_trans(name@, before[p as int], before[j - 1]);
                }
            } else if i < p {
                assert(after[i] == before[i] && after[j] == before[j - 1]);
                assert(seq_order(before[i], before[j - 1]) < 0);
            } else {
                assert(after[i] == before[i - 1] && after[j] == before[j - 1]);
                assert(seq_order(before[i - 1], before[j - 1]) < 0);
            }
        }
        assert forall|c: Seq<char>| after.contains(c) <==> (before.contains(c) || c == name@) by {
            if after.contains(c) {
                let i = choose|i: int| 0 <= i < after.len() && after[i] == c;
                if i < p {
                    assert(before[i] == c);
                } else if i > p {
                    assert(before[i - 1] == c);
                }
            }
            if before.contains(c) {
                let i = choose|i: int| 0 <= i < before.len() && before[i] == c;
                if i < p {
                    assert(after[i] == c);
                } else {
                    assert(after[i + 1] == c);
                }
            }
            if c == name@ {
                assert(after[p as int] == c);
            }
        }
    }
}

/// The names of all the attributes of the items, sorted, each once.
pub fn collect_columns(items: &Vec<DynamoItem>) -> (r: Vec<String>)
    ensures
        strictly_sorted(texts(r@)),
        forall|c: Seq<char>| texts(r@).contains(c) <==> some_item_has(items@, c),
{
    let mut names: Vec<String> = Vec::new();
    let n = items.len();
    let mut i: usize = 0;
    while i < n
        invariant
            n == items@.len(),
            0 <= i <= n,
            strictly_sorted(texts(names@)),
            forall|c: Seq<char>| texts(names@).contains(c) <==> some_item_has(items@.take(i as int), c),
        decreases n - i,
    {
        let m = items[i].raw.len();
        let mut j: usize = 0;
        while j < m
            invariant
                n == items@.len(),
                0 <= i < n,
                m == items@[i as int].raw@.len(),
                0 <= j <= m,
                strictly_sorted(texts(names@)),
                forall|c: Seq<char>|
                    texts(names@).contains(c) <==> (some_item_has(items@.take(i as int), c) || exists|t: int|
                        0 <= t < j && #[trigger] items@[i as int].raw@[t].0@ == c),
            decreases m - j,
        {
            insert_name(&mut names, &items[i].raw[j].0);
            proof {
                assert forall|c: Seq<char>|
                    texts(names@).contains(c) <==> (some_item_has(items@.take(i as int), c) || exists|t: int|
                        0 <= t < j + 1 && #[trigger] items@[i as int].raw@[t].0@ == c) by {
                    if c == items@[i as int].raw@[j as int].0@ {
                        assert(items@[i as int].raw@[j as int].0@ == c);
                    }
                }
            }
            j = j + 1;
        }
        proof {
            let pre = items@.take(i as int);
            let post = items@.take(i + 1);
            assert forall|c: Seq<char>|
                some_item_has(post, c) <==> (some_item_has(pre, c) || exists|t: int|
                    0 <= t < m && #[trigger] items@[i as int].raw@[t].0@ == c) by {
                if some_item_has(post, c) {
                    let (a, b) = choose|a: int, b: int|
                        0 <= a < post.len() && 0 <= b < post[a].raw@.len() && #[trigger] post[a].raw@[b].0@ == c;
                    if a < i {
                        assert(pre[a].raw@[b].0@ == c);
                    } else {
                        assert(items@[i as int].raw@[b].0@ == c);
                    }
                }
                if some_item_has(pre, c) {
                    let (a, b) = choose|a: int, b: int|
                        0 <= a < pre.len() && 0 <= b < pre[a].raw@.len() && #[trigger] pre[a].raw@[b].0@ == c;
                    assert(post[a].raw@[b].0@ == c);
                }
                if exists|t: int| 0 <= t < m && #[trigger] items@[i as int].raw@[t].0@ == c {
                    let t = choose|t: int| 0 <= t < m && #[trigger] items@[i as int].raw@[t].0@ == c;
                    assert(post[i as int].raw@[t].0@ == c);
                }
            }
        }
        i = i + 1;
    }
    proof {
        assert(items@.take(n as int) =~= items@);
    }
    names
}

/// A page of a scan or a query made of the items the service gave (each as
/// its attribute pairs), where the next page starts and how many items were
/// read.
pub fn build_scan_result(
    raw_items: Vec<Vec<(String, AttrValue)>>,
    last_key: Option<Vec<(String, AttrValue)>>,
    scanned_count: i64,
) -> (r: ScanResult)
    ensures
        r.items@.len() == raw_items@.len(),
        forall|i: int| 0 <= i < raw_items@.len() ==> (#[trigger] r.items@[i]).raw@ == raw_items@[i]@,
        forall|i: int, j: int|
            0 <= i < raw_items@.len() && 0 <= j < raw_items@[i]@.len() ==> (#[trigger] r.items@[i].attributes@[j]).0@
                == raw_items@[i]@[j].0@ && r.items@[i].attributes@[j].1@ == attr_text(raw_items@[i]@[j].1),
        forall|i: int| 0 <= i < raw_items@.len() ==> (#[trigger] r.items@[i]).attributes@.len() == raw_items@[i]@.len(),
        strictly_sorted(texts(r.columns@)),
        forall|c: Seq<char>| texts(r.columns@).contains(c) <==> some_item_has(r.items@, c),
        r.last_key == last_key,
        r.scanned_count == scanned_count,
{
    let mut raw_items = raw_items;
    let ghost original = raw_items@;
    let mut rev: Vec<DynamoItem> = Vec::new();
    while raw_items.len() > 0
        invariant
            raw_items@.len() + rev@.len() == original.len(),
            raw_items@ == original.take(raw_items@.len() as int),
            forall|t: int|
                0 <= t < rev@.len() ==> (#[trigger] rev@[t]).raw@ == original[original.len() - 1 - t]@
                    && rev@[t].attributes@.len() == original[original.len() - 1 - t]@.len()
                    && forall|j: int|
                    0 <= j < original[original.len() - 1 - t]@.len() ==> (#[trigger] rev@[t].attributes@[j]).0@
                        == original[original.len() - 1 - t]@[j].0@ && rev@[t].attributes@[j].1@ == attr_text(
                        original[original.len() - 1 - t]@[j].1,
                    ),
        decreases raw_items@.len(),
    {
        let ghost before = raw_items@;
        let pairs = raw_items.pop().unwrap();
        proof {
            assert(pairs == original[original.len() - 1 - rev@.len()]);
            assert(raw_items@ =~= original.take(raw_items@.len() as int));
        }
        rev.push(make_item(pairs));
    }
    let mut items: Vec<DynamoItem> = Vec::new();
    while rev.len() > 0
        invariant
            items@.len() + rev@.len() == original.len(),
            forall|t: int|
                0 <= t < rev@.len() ==> (#[trigger] rev@[t]).raw@ == original[original.len() - 1 - t]@
                    && rev@[t].attributes@.len() == original[original.len() - 1 - t]@.len()
                    && forall|j: int|
                    0 <= j < original[original.len() - 1 - t]@.len() ==> (#[trigger] rev@[t].attributes@[j]).0@
                        == original[original.len() - 1 - t]@[j].0@ && rev@[t].attributes@[j].1@ == attr_text(
                        original[original.len() - 1 - t]@[j].1,
                    ),
            forall|i: int|
                0 <= i < items@.len() ==> (#[trigger] items@[i]).raw@ == original[i]@ && items@[i].attributes@.len()
                    == original[i]@.len() && forall|j: int|
                    0 <= j < original[i]@.len() ==> (#[trigger] items@[i].attributes@[j]).0@ == original[i]@[j].0@
                        && items@[i].attributes@[j].1@ == attr_text(original[i]@[j].1),
        decreases rev@.len(),
    {
        let item = rev.pop().unwrap();
        items.push(item);
    }
    let columns = collect_columns(&items);
    ScanResult { items, columns, last_key, scanned_count }
}

/// The key names and types of a key schema: the `HASH` entry gives the
/// partition key, the `RANGE` entry the sort key (a later entry of a kind
/// wins); each type is that of the first attribute definition of the same
/// name (empty when there is none).
pub struct KeyAttributes {
    pub partition_key: String,
    pub partition_key_type: String,
    pub sort_key: Option<String>,
    pub sort_key_type: Option<String>,
}

/// The type of attribute `name` in the definitions (name, type): that of
/// the first definition with that name, empty when there is none.
pub open spec fn attr_type_of(defs: Seq<(String, String)>, name: Seq<char>) -> Seq<char>
    decreases defs.len(),
{
    if defs.len() == 0 {
        Seq::empty()
    } else if defs[0].0@ == name {
        defs[0].1@
    } else {
        attr_type_of(defs.drop_first(), name)
    }
}

/// The partition key (name, type) from the schema entries (name, key type).
pub open spec fn schema_pk(schema: Seq<(String, String)>, defs: Seq<(String, String)>) -> (Seq<char>, Seq<char>)
    decreases schema.len(),
{
    if schema.len() == 0 {
        (Seq::empty(), Seq::empty())
    } else if schema.last().1@ == "HASH"@ {
        (schema.last().0@, attr_type_of(defs, schema.last().0@))
    } else {
        schema_pk(schema.drop_last(), defs)
    }
}

/// The sort key (name, type) from the schema entries, if there is one.
pub open spec fn schema_sk(schema: Seq<(String, String)>, defs: Seq<(String, String)>) -> Option<(Seq<char>, Seq<char>)>
    decreases schema.len(),
{
    if schema.len() == 0 {
        None
    } else if schema.last().1@ == "RANGE"@ {
        Some((schema.last().0@, attr_type_of(defs, schema.last().0@)))
    } else {
        schema_sk(schema.drop_last(), defs)
    }
}

fn type_of(defs: &Vec<(String, String)>, name: &str) -> (r: String)
    ensures
        r@ == attr_type_of(defs@, name@),
{
    let n = defs.len();
    let mut i: usize = 0;
    proof {
        assert(defs@.skip(0) =~= defs@);
    }
    while i < n
        invariant
            n == defs@.len(),
            0 <= i <= n,
            attr_type_of(defs@, name@) == attr_type_of(defs@.skip(i as int), name@),
        decreases n - i,
    {
        proof {
            assert(defs@.skip(i as int).drop_first() =~= defs@.skip(i + 1));
        }
        if str_eq(defs[i].0.as_str(), name) {
            return copy_string(&defs[i].1);
        }
        i = i + 1;
    }
    String::new()
}

/// Reads the key names and types of a key schema (see `KeyAttributes`).
pub fn key_attributes(schema: &Vec<(String, String)>, defs: &Vec<(String, String)>) -> (r: KeyAttributes)
    ensures
        (r.partition_key@, r.partition_key_type@) == schema_pk(schema@, defs@),
        match schema_sk(schema@, defs@) {
            Some((n, t)) => r.sort_key is Some && r.sort_key_type is Some && r.sort_key->0@ == n
                && r.sort_key_type->0@ == t,
            None => r.sort_key is None && r.sort_key_type is None,
        },
{
    let mut pk = String::new();
    let mut pk_type = String::new();
    let mut sk: Option<String> = None;
    let mut sk_type: Option<String> = None;
    let n = schema.len();
    let mut i: usize = 0;
    while i < n
        invariant
            n == schema@.len(),
            0 <= i <= n,
            (pk@, pk_type@) == schema_pk(schema@.take(i as int), defs@),
            match schema_sk(schema@.take(i as int), defs@) {
                Some((nm, t)) => sk is Some && sk_type is Some && sk->0@ == nm && sk_type->0@ == t,
                None => sk is None && sk_type is None,
            },
        decreases n - i,
    {
        proof {
            reveal_strlit("HASH");
            reveal_strlit("RANGE");
            assert(schema@.take(i + 1).drop_last() =~= schema@.take(i as int));
            assert(schema@.take(i + 1).last() == schema@[i as int]);
            assert("HASH"@ != "RANGE"@) by {
                assert("HASH"@[0] != "RANGE"@[0]);
            }
        }
        let name = schema[i].0.as_str();
        let kind = schema[i].1.as_str();
        if str_eq(kind, "HASH") {
            pk = owned(name);
            pk_type = type_of(defs, name);
        } else if str_eq(kind, "RANGE") {
            sk = Some(owned(name));
            sk_type = Some(type_of(defs, name));
        }
        i = i + 1;
    }
    proof {
        assert(schema@.take(n as int) =~= schema@);
    }
    KeyAttributes { partition_key: pk, partition_key_type: pk_type, sort_key: sk, sort_key_type: sk_type }
}

/// The billing mode shown for a table: the one reported, else
/// `PROVISIONED`.
pub fn billing_mode_text(reported: Option<String>) -> (r: String)
    ensures
        match reported {
            Some(m) => r@ == m@,
            None => r@ == "PROVISIONED"@,
        },
{
    match reported {
        Some(m) => m,
        None => owned("PROVISIONED"),
    }
}

/// The key condition of a query on the partition key and, given a sort key
/// condition, on the sort key too (`=`, `begins_with`, `>`, `>=`, `<`,
/// `<=`; any other condition is taken as `=`).
pub open spec fn key_condition_text(sk_condition: Option<Seq<char>>) -> Seq<char> {
    match sk_condition {
        None => "#pk = :pkval"@,
        Some(c) => if c == "begins_with"@ {
            "#pk = :pkval AND begins_with(#sk, :skval)"@
        } else if c == ">"@ {
            "#pk = :pkval AND #sk > :skval"@
        } else if c == ">="@ {
            "#pk = :pkval AND #sk >= :skval"@
        } else if c == "<"@ {
            "#pk = :pkval AND #sk < :skval"@
        } else if c == "<="@ {
            "#pk = :pkval AND #sk <= :skval"@
        } else {
            "#pk = :pkval AND #sk = :skval"@
        },
    }
}

/// The key condition expression of a query (see `key_condition_text`).
pub fn key_condition_expression(sk_condition: Option<&str>) -> (r: &'static str)
    ensures
        r@ == key_condition_text(
            match sk_condition {
                Some(c) => Some(c@),
                None => None,
            },
        ),
{
    match sk_condition {
        None => "#pk = :pkval",
        Some(c) => if str_eq(c, "begins_with") {
            "#pk = :pkval AND begins_with(#sk, :skval)"
        } else if str_eq(c, ">") {
            "#pk = :pkval AND #sk > :skval"
        } else if str_eq(c, ">=") {
            "#pk = :pkval AND #sk >= :skval"
        } else if str_eq(c, "<") {
            "#pk = :pkval AND #sk < :skval"
        } else if str_eq(c, "<=") {
            "#pk = :pkval AND #sk <= :skval"
        } else {
            "#pk = :pkval AND #sk = :skval"
        },
    }
}

/// The name placeholder of the `i`-th filter of a query or scan: `#f{i}`.
pub open spec fn filter_name_text(i: nat) -> Seq<char> {
    "#f"@ + digits(i)
}

/// The value placeholder of the `i`-th filter: `:f{i}`.
pub open spec fn filter_value_text(i: nat) -> Seq<char> {
    ":f"@ + digits(i)
}

/// The condition of the `i`-th filter: `begins_with(#f{i}, :f{i})` and
/// `contains(#f{i}, :f{i})` for those two conditions, else
/// `#f{i} {condition} :f{i}` (`=`, `<>`, `>`, `<`, `>=`, `<=`).
pub open spec fn filter_clause(i: nat, condition: Seq<char>) -> Seq<char> {
    if condition == "begins_with"@ || condition == "contains"@ {
        condition + "("@ + filter_name_text(i) + ", "@ + filter_value_text(i) + ")"@
    } else {
        filter_name_text(i) + " "@ + condition + " "@ + filter_value_text(i)
    }
}

/// The filter expression of filters with these conditions: their clauses,
/// in order, joined by ` AND `.
pub open spec fn filter_expression_text(conditions: Seq<Seq<char>>) -> Seq<char>
    decreases conditions.len(),
{
    if conditions.len() == 0 {
        Seq::empty()
    } else if conditions.len() == 1 {
        filter_clause(0, conditions[0])
    } else {
        filter_expression_text(conditions.drop_last()) + " AND "@ + filter_clause(
            (conditions.len() - 1) as nat,
            conditions.last(),
        )
    }
}

/// The name placeholder of the `i`-th filter (see `filter_name_text`).
pub fn filter_name(i: usize) -> (r: String)
    ensures
        r@ == filter_name_text(i as nat),
{
    let mut r = owned("#f");
    push_digits(&mut r, i as u64);
    r
}

/// The value placeholder of the `i`-th filter (see `filter_value_text`).
pub fn filter_value_name(i: usize) -> (r: String)
    ensures
        r@ == filter_value_text(i as nat),
{
    let mut r = owned(":f");
    push_digits(&mut r, i as u64);
    r
}

fn push_filter_clause(s: &mut String, i: usize, condition: &str)
    ensures
        final(s)@ == old(s)@ + filter_clause(i as nat, condition@),
{
    let name = filter_name(i);
    let value = filter_value_name(i);
    if str_eq(condition, "begins_with") || str_eq(condition, "contains") {
        push_str(s, condition);
        push_str(s, "(");
        push_str(s, name.as_str());
        push_str(s, ", ");
        push_str(s, value.as_str());
        push_str(s, ")");
        proof {
            assert(final(s)@ =~= old(s)@ + filter_clause(i as nat, condition@));
        }
    } else {
        push_str(s, name.as_str());
        push_str(s, " ");
        push_str(s, condition);
        push_str(s, " ");
        push_str(s, value.as_str());
        proof {
            assert(final(s)@ =~= old(s)@ + filter_clause(i as nat, condition@));
        }
    }
}

/// The filter expression of filters (attribute, condition, value) of the
/// query builder (see `filter_expression_text`); the attributes and values
/// go to the placeholders of `filter_name` and `filter_value_name`.
pub fn filter_expression(filters: &Vec<(String, String, String)>) -> (r: String)
    ensures
        r@ == filter_expression_text(filters@.map_values(|f: (String, String, String)| f.1@)),
{
    let ghost conds = filters@.map_values(|f: (String, String, String)| f.1@);
    let n = filters.len();
    let mut r = String::new();
    let mut i: usize = 0;
    while i < n
        invariant
            n == filters@.len(),
            conds == filters@.map_values(|f: (String, String, String)| f.1@),
            0 <= i <= n,
            r@ == filter_expression_text(conds.take(i as int)),
        decreases n - i,
    {
        proof {
            assert(conds.take(i + 1).drop_last() =~= conds.take(i as int));
            assert(conds.take(i + 1).last() == filters@[i as int].1@);
        }
        if i > 0 {
            push_str(&mut r, " AND ");
        }
        push_filter_clause(&mut r, i, filters[i].1.as_str());
        proof {
            if i == 0 {
                assert(r@ =~= filter_expression_text(conds.take(1)));
            } else {
                assert(r@ =~= filter_expression_text(conds.take(i + 1)));
            }
        }
        i = i + 1;
    }
    proof {
        assert(conds.take(n as int) =~= conds);
    }
    r
}

} // verus!
