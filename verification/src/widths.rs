//! Shared column widths: the maxima of the owner and size field lengths
//! across a whole listing — a flat list or a whole tree, all depths
//! combined — computed once before any line is rendered.

use vstd::prelude::*;

use crate::display::DisplayRecord;
use crate::tree::TreeNode;

verus! {

/// The widths of the variable columns in long format.
#[derive(Clone, Copy, Debug, PartialEq, Eq, Structural)]
pub struct ColumnWidths {
    pub owner: usize,
    pub size: usize,
}

impl Default for ColumnWidths {
    /// Zero widths, the starting point of every accumulation.
    fn default() -> (r: ColumnWidths)
        ensures
            r == (ColumnWidths { owner: 0, size: 0 }),
    {
        ColumnWidths { owner: 0, size: 0 }
    }
}

/// The larger of two widths.
pub open spec fn width_max(a: nat, b: nat) -> nat {
    if a >= b {
        a
    } else {
        b
    }
}

/// The widest owner field in a flat record list.
pub open spec fn list_owner_width(ds: Seq<DisplayRecord>) -> nat
    decreases ds.len(),
{
    if ds.len() == 0 {
        0
    } else {
        width_max(list_owner_width(ds.drop_last()), ds.last().owner@.len())
    }
}

/// The widest size field in a flat record list.
pub open spec fn list_size_width(ds: Seq<DisplayRecord>) -> nat
    decreases ds.len(),
{
    if ds.len() == 0 {
        0
    } else {
        width_max(list_size_width(ds.drop_last()), ds.last().size@.len())
    }
}

/// The widest owner field anywhere in a forest, at any depth.
pub open spec fn tree_owner_width(nodes: Seq<TreeNode>) -> nat
    decreases nodes,
{
    if nodes.len() == 0 {
        0
    } else {
        width_max(
            tree_owner_width(nodes.drop_last()),
            width_max(nodes.last().info.owner@.len(), tree_owner_width(nodes.last().children@)),
        )
    }
}

/// The widest size field anywhere in a forest, at any depth.
pub open spec fn tree_size_width(nodes: Seq<TreeNode>) -> nat
    decreases nodes,
{
    if nodes.len() == 0 {
        0
    } else {
        width_max(
            tree_size_width(nodes.drop_last()),
            width_max(nodes.last().info.size@.len(), tree_size_width(nodes.last().children@)),
        )
    }
}

/// Computes the column widths of a flat record list: the exact maxima of
/// the owner and size field lengths across all entries.
pub fn column_widths(ds: &Vec<DisplayRecord>) -> (w: ColumnWidths)
    ensures
        w.owner as nat == list_owner_width(ds@),
        w.size as nat == list_size_width(ds@),
{
    let mut w = ColumnWidths { owner: 0, size: 0 };
    let mut i: usize = 0;
    proof {
        assert(ds@.take(0) =~= Seq::<DisplayRecord>::empty());
    }
    while i < ds.len()
        invariant
            i <= ds@.len(),
            w.owner as nat == list_owner_width(ds@.take(i as int)),
            w.size as nat == list_size_width(ds@.take(i as int)),
        decreases ds@.len() - i,
    {
        proof {
            assert(ds@.take(i as int + 1).drop_last() =~= ds@.take(i as int));
            assert(ds@.take(i as int + 1).last() == ds@[i as int]);
        }
        let ol = ds[i].owner.as_str().unicode_len();
        if ol > w.owner {
            w.owner = ol;
        }
        let sl = ds[i].size.as_str().unicode_len();
        if sl > w.size {
            w.size = sl;
        }
        i = i + 1;
    }
    proof {
        assert(ds@.take(ds@.len() as int) =~= ds@);
    }
    w
}

/// Folds the owner and size field lengths of every node of the forest, at
/// every depth, into the running maxima — widths are never scoped per
/// subtree.
#[verifier::loop_isolation(false)]
pub fn calculate_data_widths(nodes: &Vec<TreeNode>, widths: &mut ColumnWidths)
    ensures
        final(widths).owner as nat == width_max(old(widths).owner as nat, tree_owner_width(nodes@)),
        final(widths).size as nat == width_max(old(widths).size as nat, tree_size_width(nodes@)),
    decreases nodes,
{
    let mut i: usize = 0;
    proof {
        assert(nodes@.take(0) =~= Seq::<TreeNode>::empty());
    }
    while i < nodes.len()
        invariant
            i <= nodes@.len(),
            widths.owner as nat == width_max(
                old(widths).owner as nat,
                tree_owner_width(nodes@.take(i as int)),
            ),
            widths.size as nat == width_max(
                old(widths).size as nat,
                tree_size_width(nodes@.take(i as int)),
            ),
        decreases nodes@.len() - i,
    {
        proof {
            assert(nodes@.take(i as int + 1).drop_last() =~= nodes@.take(i as int));
            assert(nodes@.take(i as int + 1).last() == nodes@[i as int]);
        }
        let ol = nodes[i].info.owner.as_str().unicode_len();
        if ol > widths.owner {
            widths.owner = ol;
        }
        let sl = nodes[i].info.size.as_str().unicode_len();
        if sl > widths.size {
            widths.size = sl;
        }
        proof {
            assert(decreases_to!(nodes => nodes@));
            assert(decreases_to!(nodes@ => nodes@[i as int]));
            assert(decreases_to!(nodes@[i as int] => nodes@[i as int].children));
        }
        calculate_data_widths(&nodes[i].children, widths);
        i = i + 1;
    }
    proof {
        assert(nodes@.take(nodes@.len() as int) =~= nodes@);
    }
}

} // verus!
