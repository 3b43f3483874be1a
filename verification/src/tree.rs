//! The two-level collection tree: an insertion-ordered map from page name
//! to the page's item names, kept in `indexmap::IndexMap`. The map is
//! opaque to verification; `tree_entries` names what it holds, in
//! insertion order, and the two accessors below are trusted to read it as
//! the crate's source shows.

use vstd::prelude::*;

verus! {

#[verifier::external_type_specification]
#[verifier::external_body]
#[verifier::reject_recursive_types(K)]
#[verifier::reject_recursive_types(V)]
#[verifier::reject_recursive_types(S)]
pub struct ExIndexMap<K, V, S>(indexmap::IndexMap<K, V, S>);

/// The ordered mapping from page name to item names that the tree holds.
pub type PageTree = indexmap::IndexMap<
    String,
    Vec<String>,
    std::collections::hash_map::RandomState,
>;

/// What a tree holds: its (page name, item names) pairs, in insertion
/// order.
pub uninterp spec fn tree_entries(tree: PageTree) -> Seq<(Seq<char>, Seq<Seq<char>>)>;

/// Number of pages in the tree. Relies on `IndexMap::len`: the number of
/// entries the map holds.
#[verifier::external_body]
pub(crate) fn tree_len(tree: &PageTree) -> (n: usize)
    ensures
        n == tree_entries(*tree).len(),
{
    tree.len()
}

/// Page name and item names at position `index` in insertion order.
/// Relies on `IndexMap::get_index`: it returns the pair at `index`, which
/// exists for every `index` below `len`.
#[verifier::external_body]
pub(crate) fn tree_get(tree: &PageTree, index: usize) -> (entry: (String, Vec<String>))
    requires
        index < tree_entries(*tree).len(),
    ensures
        entry.0@ == tree_entries(*tree)[index as int].0,
        entry.1.deep_view() == tree_entries(*tree)[index as int].1,
{
    let (name, items) = tree.get_index(index).unwrap();
    (name.clone(), items.clone())
}

/// All item names of the tree, page by page in insertion order.
pub open spec fn spec_flat_items(pages: Seq<(Seq<char>, Seq<Seq<char>>)>) -> Seq<Seq<char>> {
    pages.map_values(|p: (Seq<char>, Seq<Seq<char>>)| p.1).flatten()
}

/// Flattened list of every page's items, in tree order: what the flat
/// table screen scrolls over.
pub fn flat_items(tree: &PageTree) -> (items: Vec<String>)
    ensures
        items.deep_view() == spec_flat_items(tree_entries(*tree)),
{
    let ghost pages = tree_entries(*tree);
    let mut items: Vec<String> = Vec::new();
    let n = tree_len(tree);
    assert(pages.map_values(|p: (Seq<char>, Seq<Seq<char>>)| p.1).take(0) =~= Seq::empty());
    assert(Seq::<Seq<Seq<char>>>::empty().flatten() =~= Seq::<Seq<char>>::empty());
    assert(items.deep_view() =~= Seq::<Seq<char>>::empty());
    let mut i: usize = 0;
    while i < n
        invariant
            n == pages.len(),
            i <= n,
            pages == tree_entries(*tree),
            items.deep_view() == pages.map_values(|p: (Seq<char>, Seq<Seq<char>>)| p.1).take(
                i as int,
            ).flatten(),
        decreases n - i,
    {
        let (_, page_items) = tree_get(tree, i);
        let ghost seqs = pages.map_values(|p: (Seq<char>, Seq<Seq<char>>)| p.1);
        let ghost before = items.deep_view();
        let m = page_items.len();
        let mut j: usize = 0;
        while j < m
            invariant
                m == page_items.len(),
                j <= m,
                page_items.deep_view() == pages[i as int].1,
                i < pages.len(),
                items.deep_view() == before + pages[i as int].1.take(j as int),
            decreases m - j,
        {
            let ghost prior = items.deep_view();
            let name = page_items[j].clone();
            assert(name@ == page_items.deep_view()[j as int]);
            items.push(name);
            assert(items.deep_view() =~= prior.push(pages[i as int].1[j as int]));
            assert(prior.push(pages[i as int].1[j as int]) =~= before + pages[i as int].1.take(
                j + 1,
            ));
            j += 1;
        }
        proof {
            assert(pages[i as int].1.take(m as int) =~= pages[i as int].1);
            assert(seqs.take(i + 1) =~= seqs.take(i as int).push(seqs[i as int]));
            seqs.take(i as int).lemma_flatten_push(seqs[i as int]);
            assert(items.deep_view() =~= seqs.take(i + 1).flatten());
        }
        i += 1;
    }
    assert(pages.map_values(|p: (Seq<char>, Seq<Seq<char>>)| p.1).take(n as int) =~= pages
        .map_values(|p: (Seq<char>, Seq<Seq<char>>)| p.1));
    items
}

} // verus!
