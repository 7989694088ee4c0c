//! Lambda functions as the browser shows them.
use vstd::prelude::*;
use crate::order::{entry_vals, sort_order, stable_order, EntryVal, KeyVal, SortEntry, SortKey};
use crate::text::{chars_of, copy_string};
use crate::units::{human_size, size_text};

verus! {

/// A row of the function list.
#[derive(Debug, Clone)]
pub struct FunctionInfo {
    pub name: String,
    pub runtime: String,
    pub last_modified: String,
    pub memory: i32,
    pub timeout: i32,
    pub description: String,
}

/// The configuration of one function.
#[derive(Debug, Clone)]
pub struct FunctionDetail {
    pub name: String,
    pub arn: String,
    pub runtime: String,
    pub handler: String,
    pub description: String,
    pub role: String,
    pub memory: i32,
    pub timeout: i32,
    pub last_modified: String,
    pub code_size: i64,
    pub code_sha256: String,
    pub architectures: Vec<String>,
    pub ephemeral_storage: Option<i32>,
    pub package_type: String,
    pub state: Option<String>,
    pub state_reason: Option<String>,
    pub env_vars: Vec<(String, String)>,
    pub layers: Vec<String>,
    pub tags: Vec<(String, String)>,
    pub dead_letter_arn: Option<String>,
    pub tracing_mode: Option<String>,
    pub vpc_id: Option<String>,
    pub subnet_ids: Vec<String>,
    pub security_group_ids: Vec<String>,
}

/// The message shown when a Lambda call fails.
pub fn format_aws_error(op: &str, msg: &str) -> (r: String)
    ensures
        r@ == crate::aws::errors::aws_error_text(op@, msg@),
{
    crate::aws::errors::format_aws_error(op, msg)
}

/// A code size for people.
pub fn format_size(bytes: i64) -> (r: String)
    ensures
        r@ == size_text(bytes as int),
{
    human_size(bytes)
}

/// The texts of a list of name/value pairs.
pub open spec fn pair_texts(v: Seq<(String, String)>) -> Seq<(Seq<char>, Seq<char>)> {
    v.map_values(|p: (String, String)| (p.0@, p.1@))
}

/// The rows that sorting pairs by name compares.
pub open spec fn pair_entries(v: Seq<(Seq<char>, Seq<char>)>) -> Seq<EntryVal> {
    v.map_values(|p: (Seq<char>, Seq<char>)| EntryVal { group: 0, key: KeyVal::Text(p.0) })
}

/// The pairs sorted by name (code point order), pairs with equal names in
/// their first order.
pub open spec fn sorted_by_name(v: Seq<(Seq<char>, Seq<char>)>) -> Seq<(Seq<char>, Seq<char>)> {
    stable_order(pair_entries(v), false).map_values(|i: usize| v[i as int])
}

/// Sorts name/value pairs (environment variables, tags) by name, keeping
/// pairs with equal names in their first order.
pub fn sort_by_name(v: &Vec<(String, String)>) -> (r: Vec<(String, String)>)
    ensures
        pair_texts(r@) == sorted_by_name(pair_texts(v@)),
{
    let n = v.len();
    let mut entries: Vec<SortEntry> = Vec::new();
    let mut i: usize = 0;
    while i < n
        invariant
            n == v@.len(),
            0 <= i <= n,
            entries@.len() == i,
            forall|t: int| 0 <= t < i ==> #[trigger] entries@[t]@ == (EntryVal { group: 0, key: KeyVal::Text(v@[t].0@) }),
        decreases n - i,
    {
        let key = chars_of(v[i].0.as_str());
        entries.push(SortEntry { group: 0, key: SortKey::Text(key) });
        i = i + 1;
    }
    proof {
        assert(entry_vals(entries@) =~= pair_entries(pair_texts(v@)));
    }
    let order = sort_order(&entries, false);
    let mut r: Vec<(String, String)> = Vec::new();
    let mut j: usize = 0;
    while j < n
        invariant
            n == v@.len(),
            order@.len() == n,
            forall|p: int| 0 <= p < n ==> #[trigger] order@[p] < n,
            0 <= j <= n,
            r@.len() == j,
            forall|t: int| 0 <= t < j ==> #[trigger] r@[t].0@ == v@[order@[t] as int].0@ && r@[t].1@ == v@[order@[t] as int].1@,
        decreases n - j,
    {
        let k = order[j];
        let pair = (copy_string(&v[k].0), copy_string(&v[k].1));
        r.push(pair);
        j = j + 1;
    }
    proof {
        assert(pair_texts(r@) =~= sorted_by_name(pair_texts(v@)));
    }
    r
}

} // verus!
