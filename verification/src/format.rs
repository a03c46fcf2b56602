//! The metadata formatter: a pure, recursive rendering of a hierarchy node
//! as a display string. The node actually offered as a menu entry is
//! rendered verbosely (with a header and a full metadata block for arrays);
//! every descendant shown inside a group's summary is rendered compactly,
//! nested behind an indentation marker that grows with the depth.
use crate::text::{dec_seq, u64_to_dec};
use crate::zarr_utils::{HierNode, MetaView, NodeMeta, NodeView};
use vstd::prelude::*;

verus! {

/// The header put before a verbosely rendered array node.
pub open spec fn array_header() -> Seq<char> {
    "Zarr Array: "@
}

/// The header put before a rendered group node.
pub open spec fn group_header() -> Seq<char> {
    "Zarr Group: "@
}

/// One step of indentation for each level of nesting.
pub open spec fn indent_step() -> Seq<char> {
    "  "@
}

/// The marker put on its own line before each child of a group, behind the
/// indentation of the child's depth.
pub open spec fn child_prefix(ind: Seq<char>) -> Seq<char> {
    "\n"@ + ind + "-> "@
}

/// The rendered dimension sizes of an array, bracketed and separated by
/// commas.
pub open spec fn fmt_shape(s: Seq<u64>) -> Seq<char> {
    "["@ + fmt_shape_items(s) + "]"@
}

pub open spec fn fmt_shape_items(s: Seq<u64>) -> Seq<char>
    decreases s.len(),
{
    if s.len() == 0 {
        Seq::empty()
    } else if s.len() == 1 {
        dec_seq(s[0] as nat)
    } else {
        fmt_shape_items(s.drop_last()) + ", "@ + dec_seq(s.last() as nat)
    }
}

/// The rendering of an array node: its path, shape and element type, and,
/// verbosely, the header and the node's full metadata as its store
/// serializes it.
pub open spec fn fmt_array(n: NodeView, verbose: bool) -> Seq<char>
    recommends
        n.meta is Array,
{
    match n.meta {
        MetaView::Array { shape, dtype, details } => {
            let base = n.path + fmt_shape(shape) + " - "@ + dtype;
            if verbose {
                array_header() + base + "\n"@ + details
            } else {
                base
            }
        },
        MetaView::Group => Seq::empty(),
    }
}

/// The rendering of a group node: its path and child count, then each child
/// on its own marked line, arrays compactly and groups recursively one
/// indentation step deeper.
pub open spec fn fmt_group(n: NodeView, ind: Seq<char>) -> Seq<char>
    recommends
        n.meta is Group,
    decreases n, 0int,
{
    group_header() + n.path + " - contains "@ + dec_seq(n.children.len()) + " elements"@
        + fmt_children(n.children, ind)
}

pub open spec fn fmt_children(cs: Seq<NodeView>, ind: Seq<char>) -> Seq<char>
    decreases cs, 0int,
{
    if cs.len() == 0 {
        Seq::empty()
    } else {
        fmt_children(cs.drop_last(), ind) + child_prefix(ind) + fmt_child(cs.last(), ind)
    }
}

pub open spec fn fmt_child(c: NodeView, ind: Seq<char>) -> Seq<char>
    decreases c, 1int,
{
    match c.meta {
        MetaView::Array { .. } => fmt_array(c, false),
        MetaView::Group => fmt_group(c, ind + indent_step()),
    }
}

/// The display name of a node offered as a menu entry: arrays verbosely,
/// groups with their recursive summary.
pub open spec fn fmt_option_name(n: NodeView) -> Seq<char> {
    match n.meta {
        MetaView::Array { .. } => fmt_array(n, true),
        MetaView::Group => fmt_group(n, indent_step()),
    }
}

proof fn lemma_fmt_children_snoc(cs: Seq<NodeView>, ind: Seq<char>, i: int)
    requires
        0 <= i < cs.len(),
    ensures
        fmt_children(cs.subrange(0, i + 1), ind) == fmt_children(cs.subrange(0, i), ind)
            + child_prefix(ind) + fmt_child(cs[i], ind),
{
    let pre = cs.subrange(0, i + 1);
    assert(pre.drop_last() =~= cs.subrange(0, i));
    assert(pre.last() == cs[i]);
}

pub fn format_shape(shape: &Vec<u64>) -> (r: String)
    ensures
        r@ == fmt_shape(shape@),
{
    let mut r = "[".to_owned();
    let mut i: usize = 0;
    while i < shape.len()
        invariant
            i <= shape@.len(),
            r@ == "["@ + fmt_shape_items(shape@.subrange(0, i as int)),
        decreases shape@.len() - i,
    {
        if i > 0 {
            r.append(", ");
        }
        let d = u64_to_dec(shape[i]);
        r.append(d.as_str());
        proof {
            let pre = shape@.subrange(0, i + 1);
            assert(pre.drop_last() =~= shape@.subrange(0, i as int));
            assert(pre.last() == shape@[i as int]);
            if i == 0 {
                assert(r@ =~= "["@ + fmt_shape_items(pre));
            } else {
                assert(r@ =~= "["@ + fmt_shape_items(pre));
            }
        }
        i = i + 1;
    }
    r.append("]");
    proof {
        assert(shape@.subrange(0, shape@.len() as int) =~= shape@);
        assert(r@ =~= fmt_shape(shape@));
    }
    r
}

/// Renders an array node. Asking this of a group is a caller bug and is
/// ruled out by the precondition.
pub fn format_array_infos(node: &HierNode, verbose: bool) -> (r: String)
    requires
        node@.meta is Array,
    ensures
        r@ == fmt_array(node@, verbose),
{
    let (shape, dtype, details) = match &node.meta {
        NodeMeta::Array { shape, dtype, details } => (shape, dtype, details),
        NodeMeta::Group => unreached(),
    };
    let mut r = if verbose {
        "Zarr Array: ".to_owned()
    } else {
        String::new()
    };
    r.append(node.path.as_str());
    let sh = format_shape(shape);
    r.append(sh.as_str());
    r.append(" - ");
    r.append(dtype.as_str());
    if verbose {
        r.append("\n");
        r.append(details.as_str());
        proof {
            assert(r@ =~= fmt_array(node@, verbose));
        }
    } else {
        proof {
            assert(r@ =~= fmt_array(node@, verbose));
        }
    }
    r
}

fn group_infos_rec(node: &HierNode, ind: &String) -> (r: String)
    requires
        node@.meta is Group,
    ensures
        r@ == fmt_group(node@, ind@),
    decreases *node,
{
    let mut r = "Zarr Group: ".to_owned();
    r.append(node.path.as_str());
    r.append(" - contains ");
    let cnt = u64_to_dec(node.children.len() as u64);
    r.append(cnt.as_str());
    r.append(" elements");
    let ghost prefix = r@;
    proof {
        crate::zarr_utils::lemma_nodes_view_len(node.children@);
        assert(prefix =~= group_header() + node@.path + " - contains "@ + dec_seq(
            node@.children.len(),
        ) + " elements"@);
    }
    let mut i: usize = 0;
    while i < node.children.len()
        invariant
            i <= node.children@.len(),
            node@.children == crate::zarr_utils::nodes_view(node.children@),
            node@.children.len() == node.children@.len(),
            r@ == prefix + fmt_children(node@.children.subrange(0, i as int), ind@),
        decreases node.children@.len() - i,
    {
        r.append("\n");
        r.append(ind.as_str());
        r.append("-> ");
        proof {
            crate::zarr_utils::lemma_nodes_view_index(node.children@, i as int);
            broadcast use vstd::std_specs::vec::axiom_vec_index_decreases;

            assert(decreases_to!(*node => node.children));
            assert(decreases_to!(node.children => node.children[i as int]));
        }
        let child = &node.children[i];
        match &child.meta {
            NodeMeta::Array { .. } => {
                let s = format_array_infos(child, false);
                r.append(s.as_str());
            },
            NodeMeta::Group => {
                let mut ni = ind.clone();
                ni.append("  ");
                let s = group_infos_rec(child, &ni);
                r.append(s.as_str());
            },
        }
        proof {
            lemma_fmt_children_snoc(node@.children, ind@, i as int);
            assert(r@ =~= prefix + fmt_children(node@.children.subrange(0, i + 1), ind@));
        }
        i = i + 1;
    }
    proof {
        assert(node@.children.subrange(0, node@.children.len() as int) =~= node@.children);
    }
    r
}

/// Renders a group node and its summary of descendants. Asking this of an
/// array is a caller bug and is ruled out by the precondition.
pub fn format_group_infos(node: &HierNode) -> (r: String)
    requires
        node@.meta is Group,
    ensures
        r@ == fmt_group(node@, indent_step()),
{
    let ind = "  ".to_owned();
    group_infos_rec(node, &ind)
}

/// The display name under which a node is offered as a menu entry.
pub fn format_zarr_option_name(node: &HierNode) -> (r: String)
    ensures
        r@ == fmt_option_name(node@),
{
    match &node.meta {
        NodeMeta::Array { .. } => format_array_infos(node, true),
        NodeMeta::Group => format_group_infos(node),
    }
}

} // verus!
