//! The keyword trie of the tokenizer, kept in a `trie_rs` map.
//!
//! Nothing in this file is proved: each function states what the `trie_rs`
//! source shows of the method that it calls.

use crate::latex::LatexExpr;
use trie_rs::map::{Trie, TrieBuilder};
use vstd::prelude::*;

verus! {

#[verifier::external_type_specification]
#[verifier::external_body]
#[verifier::reject_recursive_types(Label)]
#[verifier::reject_recursive_types(Value)]
pub struct ExTrie<Label, Value>(Trie<Label, Value>);

#[verifier::external_type_specification]
#[verifier::external_body]
#[verifier::reject_recursive_types(Label)]
#[verifier::reject_recursive_types(Value)]
pub struct ExTrieBuilder<Label, Value>(TrieBuilder<Label, Value>);

/// The entries of a built trie: each key with the value stored under it.
pub uninterp spec fn trie_entries(trie: Trie<char, LatexExpr>) -> Map<Seq<char>, LatexExpr>;

/// The entries that a builder has been given so far.
pub uninterp spec fn builder_entries(builder: TrieBuilder<char, LatexExpr>) -> Map<
    Seq<char>,
    LatexExpr,
>;

/// The values stored under those of the first `n` non-empty prefixes of `query`
/// that are keys of `entries`, the shortest prefix first.
pub open spec fn prefix_hits(entries: Map<Seq<char>, LatexExpr>, query: Seq<char>, n: nat) -> Seq<
    LatexExpr,
>
    decreases n,
{
    if n == 0 {
        Seq::empty()
    } else {
        let shorter = prefix_hits(entries, query, (n - 1) as nat);
        let prefix = query.take(n as int);
        if entries.contains_key(prefix) {
            shorter.push(entries[prefix])
        } else {
            shorter
        }
    }
}

/// `TrieBuilder::new`: the builder starts without entries.
#[verifier::external_body]
pub(crate) fn builder_new() -> (builder: TrieBuilder<char, LatexExpr>)
    ensures
        builder_entries(builder) == (Map::<Seq<char>, LatexExpr>::empty()),
{
    TrieBuilder::new()
}

/// `TrieBuilder::insert`: stores `value` under the characters of `key`, in place
/// of a value stored there before. The method panics on an empty key, which the
/// precondition leaves out.
#[verifier::external_body]
pub(crate) fn builder_insert(
    builder: &mut TrieBuilder<char, LatexExpr>,
    key: &str,
    value: LatexExpr,
)
    requires
        key@.len() > 0,
    ensures
        builder_entries(*final(builder)) == builder_entries(*old(builder)).insert(key@, value),
{
    builder.insert(key.chars(), value)
}

/// `TrieBuilder::build`: the trie holds the entries of the builder.
#[verifier::external_body]
pub(crate) fn builder_build(builder: TrieBuilder<char, LatexExpr>) -> (trie: Trie<
    char,
    LatexExpr,
>)
    ensures
        trie_entries(trie) == builder_entries(builder),
{
    builder.build()
}

/// `Trie::common_prefix_search`: walks `query` from its start and yields every
/// key that is a prefix of it, shorter keys first. The keys are dropped here and
/// a copy of each value is handed out in that order.
#[verifier::external_body]
pub(crate) fn common_prefix_values(trie: &Trie<char, LatexExpr>, query: &[char]) -> (values: Vec<
    LatexExpr,
>)
    ensures
        values@ == prefix_hits(trie_entries(*trie), query@, query@.len()),
{
    trie.common_prefix_search::<Vec<char>, _>(query).map(|hit: (Vec<char>, &LatexExpr)| hit.1.clone()).collect()
}

} // verus!
