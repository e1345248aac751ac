//! The annotated entry tree: recursive construction up to a depth bound,
//! with each level sorted into listing order and each node carrying its
//! renderer-ready display record.

use vstd::prelude::*;
use vstd::seq_lib::group_to_multiset_ensures;

use crate::display::display_of_raw;
use crate::display::lemma_display_matches_raw;
use crate::display::make_display;
use crate::display::DisplayRecord;
use crate::entry::raw_to_file_entry;
use crate::entry::sort_entries;
use crate::entry::sorted_entries;
use crate::entry::RawEntry;
use crate::git::GitStatusCache;
use crate::text::lex_le;

verus! {

/// One node of the built tree: its display record and its ordered children.
pub struct TreeNode {
    pub info: DisplayRecord,
    pub children: Vec<TreeNode>,
}

/// The listing order between two built nodes: directories before files,
/// then lexicographic by name.
pub open spec fn node_le(a: TreeNode, b: TreeNode) -> bool {
    if a.info.is_directory && !b.info.is_directory {
        true
    } else if !a.info.is_directory && b.info.is_directory {
        false
    } else {
        lex_le(a.info.name@, b.info.name@)
    }
}

/// Every level of the tree is in listing order.
pub open spec fn tree_sorted(nodes: Seq<TreeNode>) -> bool
    decreases nodes,
{
    &&& (forall|i: int, j: int| 0 <= i < j < nodes.len() ==> node_le(nodes[i], nodes[j]))
    &&& (forall|i: int|
        0 <= i < nodes.len() ==> tree_sorted(#[trigger] nodes[i].children@))
}

/// No node deeper than `h` levels exists: with `h` zero or below the forest
/// is empty, and otherwise every subtree fits within `h - 1`.
pub open spec fn tree_height_le(nodes: Seq<TreeNode>, h: int) -> bool
    decreases nodes,
{
    if h <= 0 {
        nodes.len() == 0
    } else {
        forall|i: int|
            0 <= i < nodes.len() ==> tree_height_le(#[trigger] nodes[i].children@, h - 1)
    }
}

/// One built node stands for one raw entry: its display record resolves the
/// entry, and below a directory (while the depth bound allows) its children
/// are built from the entry's children; at or past the bound, and under
/// plain files, there are no children.
pub open spec fn node_matches(
    n: TreeNode,
    r: RawEntry,
    depth: int,
    max_depth: int,
    calc_sizes: bool,
    cache: Option<GitStatusCache>,
) -> bool
    decreases n,
{
    &&& display_of_raw(n.info, r, calc_sizes, cache)
    &&& if r.is_dir && depth + 1 < max_depth {
        children_built(r.children@, n.children@, depth + 1, max_depth, calc_sizes, cache)
    } else {
        n.children@.len() == 0
    }
}

/// A built level stands for a raw child list: some reordering of the
/// children into listing order matches the nodes one for one.
pub open spec fn children_built(
    raws: Seq<RawEntry>,
    nodes: Seq<TreeNode>,
    depth: int,
    max_depth: int,
    calc_sizes: bool,
    cache: Option<GitStatusCache>,
) -> bool
    decreases nodes,
{
    exists|sorted: Seq<RawEntry>|
        {
            &&& sorted.to_multiset() == raws.to_multiset()
            &&& sorted_entries(sorted)
            &&& nodes.len() == sorted.len()
            &&& (forall|i: int|
                0 <= i < nodes.len() ==> node_matches(
                    #[trigger] nodes[i],
                    sorted[i],
                    depth,
                    max_depth,
                    calc_sizes,
                    cache,
                ))
        }
}

/// Builds the annotated tree for one directory level: the terminal case at
/// the depth bound yields an empty forest; otherwise the raw children are
/// sorted into listing order, each is resolved to a display record, and
/// directories recurse one level deeper.
#[verifier::loop_isolation(false)]
pub fn build_tree_nodes(
    raws: Vec<RawEntry>,
    depth: usize,
    max_depth: usize,
    calc_sizes: bool,
    cache: &Option<GitStatusCache>,
) -> (nodes: Vec<TreeNode>)
    ensures
        depth < max_depth ==> children_built(
            raws@,
            nodes@,
            depth as int,
            max_depth as int,
            calc_sizes,
            *cache,
        ),
        depth >= max_depth ==> nodes@.len() == 0,
        tree_sorted(nodes@),
        tree_height_le(nodes@, max_depth - depth),
    decreases raws,
{
    broadcast use group_to_multiset_ensures;

    if depth >= max_depth {
        let nodes: Vec<TreeNode> = Vec::new();
        return nodes;
    }
    let ghost rvec = raws;
    let ghost raws0 = raws@;
    let sorted_vec = sort_entries(raws);
    let ghost gsorted = sorted_vec@;
    let mut rest = sorted_vec;
    let mut nodes: Vec<TreeNode> = Vec::new();
    proof {
        assert(rest@ =~= gsorted.skip(0));
    }
    while rest.len() > 0
        invariant
            rest@ == gsorted.skip(nodes@.len() as int),
            nodes@.len() <= gsorted.len(),
            forall|k: int|
                0 <= k < nodes@.len() ==> node_matches(
                    #[trigger] nodes@[k],
                    gsorted[k],
                    depth as int,
                    max_depth as int,
                    calc_sizes,
                    *cache,
                ),
            forall|k: int|
                0 <= k < nodes@.len() ==> tree_sorted(#[trigger] nodes@[k].children@),
            forall|k: int|
                0 <= k < nodes@.len() ==> tree_height_le(
                    #[trigger] nodes@[k].children@,
                    max_depth - depth - 1,
                ),
        decreases rest@.len(),
    {
        let ghost idx = nodes@.len() as int;
        let e = rest.remove(0);
        proof {
            assert(e == gsorted[idx]);
            assert(rest@ =~= gsorted.skip(idx + 1));
            assert(gsorted.contains(e)) by {
                assert(gsorted[idx] == e);
            }
            assert(raws0.to_multiset().count(e) > 0);
            assert(raws0.contains(e));
        }
        let (f, children) = raw_to_file_entry(e, calc_sizes);
        let child_nodes: Vec<TreeNode> = if f.is_dir {
            proof {
                let j = choose|j: int| 0 <= j < raws0.len() && raws0[j] == e;
                assert(decreases_to!(rvec => rvec@));
                assert(decreases_to!(rvec@ => rvec@[j]));
                assert(decreases_to!(rvec@[j] => rvec@[j].children));
            }
            build_tree_nodes(children, depth + 1, max_depth, calc_sizes, cache)
        } else {
            Vec::new()
        };
        let d = make_display(&f, cache);
        nodes.push(TreeNode { info: d, children: child_nodes });
        proof {
            let node = nodes@.last();
            assert(node.info == d && node.children == child_nodes);
            lemma_display_matches_raw(d, f, e, calc_sizes, *cache);
            assert(node_matches(
                node,
                e,
                depth as int,
                max_depth as int,
                calc_sizes,
                *cache,
            )) by {
                if e.is_dir && depth + 1 < max_depth {
                    assert(children_built(
                        e.children@,
                        node.children@,
                        depth as int + 1,
                        max_depth as int,
                        calc_sizes,
                        *cache,
                    ));
                } else {
                    assert(node.children@.len() == 0);
                }
            }
        }
    }
    proof {
        assert(nodes@.len() == gsorted.len()) by {
            assert(gsorted.skip(nodes@.len() as int).len() == 0);
        }
        assert(children_built(
            raws0,
            nodes@,
            depth as int,
            max_depth as int,
            calc_sizes,
            *cache,
        )) by {
            assert({
                &&& gsorted.to_multiset() == raws0.to_multiset()
                &&& sorted_entries(gsorted)
                &&& nodes@.len() == gsorted.len()
                &&& (forall|i: int|
                    0 <= i < nodes@.len() ==> node_matches(
                        #[trigger] nodes@[i],
                        gsorted[i],
                        depth as int,
                        max_depth as int,
                        calc_sizes,
                        *cache,
                    ))
            });
        }
        assert(tree_sorted(nodes@)) by {
            assert forall|i: int, j: int| 0 <= i < j < nodes@.len() implies node_le(
                nodes@[i],
                nodes@[j],
            ) by {
                assert(crate::entry::entry_le(gsorted[i], gsorted[j]));
                assert(nodes@[i].info.name@ == gsorted[i].name@);
                assert(nodes@[j].info.name@ == gsorted[j].name@);
            }
        }
        assert(tree_height_le(nodes@, max_depth - depth));
    }
    nodes
}

} // verus!
