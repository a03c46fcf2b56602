//! The in-memory model of a stored hierarchy: nodes, their metadata,
//! and the handles the navigator moves between.
use vstd::prelude::*;
use zarrs::array::ArrayMetadata;
use zarrs::metadata::v2::DataTypeMetadataV2;
use zarrs::node::NodeMetadata;

verus! {


#[derive(Debug, PartialEq)]
pub enum NodeMeta {
    Array { shape: Vec<u64>, dtype: String, details: String },
    Group,
}

#[derive(Debug, PartialEq)]
pub struct HierNode {
    pub path: String,
    pub meta: NodeMeta,
    pub children: Vec<HierNode>,
}

#[verifier::ext_equal]
pub enum MetaView {
    Array { shape: Seq<u64>, dtype: Seq<char>, details: Seq<char> },
    Group,
}

#[verifier::ext_equal]
pub struct NodeView {
    pub path: Seq<char>,
    pub meta: MetaView,
    pub children: Seq<NodeView>,
}

pub open spec fn meta_view(m: NodeMeta) -> MetaView {
    match m {
        NodeMeta::Array { shape, dtype, details } => MetaView::Array {
            shape: shape@,
            dtype: dtype@,
            details: details@,
        },
        NodeMeta::Group => MetaView::Group,
    }
}

pub open spec fn node_view(n: HierNode) -> NodeView
    decreases n,
{
    NodeView { path: n.path@, meta: meta_view(n.meta), children: nodes_view(n.children@) }
}

pub open spec fn nodes_view(s: Seq<HierNode>) -> Seq<NodeView>
    decreases s,
{
    if s.len() == 0 {
        Seq::empty()
    } else {
        nodes_view(s.drop_last()).push(node_view(s.last()))
    }
}

pub broadcast proof fn lemma_nodes_view_len(s: Seq<HierNode>)
    ensures
        #[trigger] nodes_view(s).len() == s.len(),
    decreases s,
{
    if s.len() > 0 {
        lemma_nodes_view_len(s.drop_last());
    }
}

pub broadcast proof fn lemma_nodes_view_index(s: Seq<HierNode>, i: int)
    requires
        0 <= i < s.len(),
    ensures
        #[trigger] nodes_view(s)[i] == node_view(s[i]),
    decreases s,
{
    lemma_nodes_view_len(s);
    if s.len() > 0 && i < s.len() - 1 {
        lemma_nodes_view_index(s.drop_last(), i);
    }
}

impl View for HierNode {
    type V = NodeView;

    open spec fn view(&self) -> NodeView {
        node_view(*self)
    }
}

impl Clone for NodeMeta {
    fn clone(&self) -> (r: Self)
        ensures
            meta_view(r) == meta_view(*self),
    {
        match self {
            NodeMeta::Array { shape, dtype, details } => NodeMeta::Array {
                shape: shape.clone(),
                dtype: dtype.clone(),
                details: details.clone(),
            },
            NodeMeta::Group => NodeMeta::Group,
        }
    }
}

impl Clone for HierNode {
    fn clone(&self) -> (r: Self)
        ensures
            r@ == self@,
        decreases *self,
    {
        let mut kids: Vec<HierNode> = Vec::new();
        let mut i: usize = 0;
        while i < self.children.len()
            invariant
                i <= self.children@.len(),
                kids@.len() == i as nat,
                forall|j: int| 0 <= j < i ==> kids@[j]@ == self.children@[j]@,
            decreases self.children@.len() - i,
        {
            proof {
                broadcast use vstd::std_specs::vec::axiom_vec_index_decreases;

                assert(decreases_to!(*self => self.children));
                assert(decreases_to!(self.children => self.children[i as int]));
            }
            let kid = self.children[i].clone();
            kids.push(kid);
            i = i + 1;
        }
        let r = HierNode { path: self.path.clone(), meta: self.meta.clone(), children: kids };
        proof {
            lemma_nodes_view_len(kids@);
            lemma_nodes_view_len(self.children@);
            assert forall|j: int| 0 <= j < kids@.len() implies nodes_view(kids@)[j] == nodes_view(
                self.children@,
            )[j] by {
                lemma_nodes_view_index(kids@, j);
                lemma_nodes_view_index(self.children@, j);
            }
            assert(nodes_view(kids@) =~= nodes_view(self.children@));
            assert(r@ =~= self@);
        }
        r
    }
}


/// Where a hierarchy can be found: on disk, at a remote address (a
/// placeholder hook, not supported), or as an already-resolved node.
pub enum ZarrIdentifier {
    ZarrPath(String),
    ZarrURL(String),
    ZarrNode(HierNode),
}

#[verifier::external_type_specification]
#[verifier::external_body]
pub struct ExFilesystemStore(zarrs::filesystem::FilesystemStore);

#[verifier::external_type_specification]
#[verifier::external_body]
pub struct ExNode(zarrs::node::Node);

/// Relies on zarrs_filesystem::FilesystemStore::new: it builds a store
/// handle for the given base path, or reports why it cannot.
#[verifier::external_body]
fn store_open(path: &String) -> (r: Result<
    std::sync::Arc<zarrs::filesystem::FilesystemStore>,
    String,
>) {
    match zarrs::filesystem::FilesystemStore::new(path.as_str()) {
        Ok(s) => Ok(std::sync::Arc::new(s)),
        Err(e) => Err(e.to_string()),
    }
}

/// Relies on zarrs::node::Node::open: it reads the metadata and children of
/// the node at the store's root; the result depends on what is on disk.
#[verifier::external_body]
fn node_open_root(store: &std::sync::Arc<zarrs::filesystem::FilesystemStore>) -> (r: Result<
    zarrs::node::Node,
    String,
>) {
    match zarrs::node::Node::open(store, "/") {
        Ok(n) => Ok(n),
        Err(e) => Err(e.to_string()),
    }
}

#[verifier::external_type_specification]
#[verifier::external_body]
pub struct ExDataTypeMetadataV2(DataTypeMetadataV2);

#[verifier::external_type_specification]
#[verifier::external_body]
pub struct ExArrayMetadata(ArrayMetadata);

/// Relies on zarrs_metadata's DataTypeMetadataV2 rendering: a simple V2
/// data type renders as its name, a structured one as its serialized form.
#[verifier::external_body]
fn v2_dtype_name(d: &DataTypeMetadataV2) -> (r: String) {
    d.to_string()
}

/// Relies on zarrs_metadata's ArrayMetadata: the shape and the data-type
/// name of either metadata version, and to_string_pretty for the full
/// serialized metadata, which the verbose rendering appends.
#[verifier::external_body]
fn array_meta_to_model(am: &ArrayMetadata) -> (r: NodeMeta) {
    let (shape, dtype) = match am {
        ArrayMetadata::V3(m) => (m.shape.clone(), m.data_type.name().to_owned()),
        ArrayMetadata::V2(m) => (m.shape.clone(), v2_dtype_name(&m.dtype)),
    };
    NodeMeta::Array { shape, dtype, details: am.to_string_pretty() }
}

/// Relies on zarrs::node::Node's accessors path, metadata and children to
/// rebuild the node tree as plain values.
#[verifier::external_body]
fn node_to_model(n: &zarrs::node::Node) -> (r: HierNode) {
    let meta = match n.metadata() {
        NodeMetadata::Array(am) => array_meta_to_model(am),
        NodeMetadata::Group(_) => NodeMeta::Group,
    };
    HierNode { path: n.path().as_str().to_owned(), meta, children: n.children().iter().map(node_to_model).collect() }
}

/// Opens the hierarchy stored at `path` and resolves its root node; any
/// failure becomes a message. The result depends on what is on disk, so no
/// more is promised than that a node or a message comes back.
fn open_zarr_root(path: &String) -> Result<HierNode, String> {
    let store = match store_open(path) {
        Ok(s) => s,
        Err(e) => return Err(e),
    };
    match node_open_root(&store) {
        Ok(n) => Ok(node_to_model(&n)),
        Err(e) => Err(e),
    }
}

/// Resolves an identifier to a hierarchy node: a path is opened on disk
/// and an already-resolved node is handed back as it is. A remote address
/// is a placeholder hook only, on which the session aborts, so the
/// precondition rules it out.
pub fn zarrfile_to_node(zarr_identifier: &ZarrIdentifier) -> (r: Result<HierNode, String>)
    requires
        !(zarr_identifier is ZarrURL),
    ensures
        zarr_identifier matches ZarrIdentifier::ZarrNode(n) ==> r matches Ok(m) && m@ == n@,
{
    match zarr_identifier {
        ZarrIdentifier::ZarrPath(path) => open_zarr_root(path),
        ZarrIdentifier::ZarrURL(_url) => unreached(),
        ZarrIdentifier::ZarrNode(node) => Ok(node.clone()),
    }
}

/// A resolved hierarchy node together with the directory the hierarchy was
/// entered from, which `Back` must land on after the intra-hierarchy history
/// is exhausted.
#[derive(Debug, PartialEq)]
pub struct ZarrNode {
    node: HierNode,
    parent_directory: Option<String>,
}

#[verifier::ext_equal]
pub struct ZarrNodeView {
    pub node: NodeView,
    pub origin: Option<Seq<char>>,
}

/// The view of an optionally-present path.
pub open spec fn opt_view(o: Option<String>) -> Option<Seq<char>> {
    match o {
        Some(p) => Some(p@),
        None => None,
    }
}

impl View for ZarrNode {
    type V = ZarrNodeView;

    closed spec fn view(&self) -> ZarrNodeView {
        ZarrNodeView { node: self.node@, origin: opt_view(self.parent_directory) }
    }
}

fn clone_opt_string(o: &Option<String>) -> (r: Option<String>)
    ensures
        opt_view(r) == opt_view(*o),
{
    match o {
        Some(p) => Some(p.clone()),
        None => None,
    }
}

impl Clone for ZarrNode {
    fn clone(&self) -> (r: Self)
        ensures
            r@ == self@,
    {
        ZarrNode {
            node: self.node.clone(),
            parent_directory: match &self.parent_directory {
                Some(p) => Some(p.clone()),
                None => None,
            },
        }
    }
}

impl ZarrNode {
    /// Resolves the identifier and remembers, for a hierarchy opened from a
    /// filesystem path, the directory that contains it. A remote address is
    /// ruled out as in `zarrfile_to_node`.
    pub fn new(zarr_identifier: &ZarrIdentifier) -> (r: Result<Self, String>)
        requires
            !(zarr_identifier is ZarrURL),
        ensures
            zarr_identifier matches ZarrIdentifier::ZarrPath(p) ==> (r matches Ok(z) ==> z@.origin
                == crate::text::parent_seq(p@)),
            zarr_identifier matches ZarrIdentifier::ZarrNode(n) ==> r matches Ok(z) && z@.node
                == n@ && z@.origin is None,
    {
        let node = match zarrfile_to_node(zarr_identifier) {
            Ok(n) => n,
            Err(e) => return Err(e),
        };
        let parent_directory = match zarr_identifier {
            ZarrIdentifier::ZarrPath(path) => crate::text::parent_of(path),
            _ => None,
        };
        Ok(ZarrNode { node, parent_directory })
    }

    /// The directory this hierarchy was entered from, when it was entered
    /// from a filesystem path.
    pub fn parent_directory(&self) -> (r: Option<&String>)
        ensures
            match r {
                Some(d) => self@.origin == Some(d@),
                None => self@.origin is None,
            },
    {
        self.parent_directory.as_ref()
    }

    /// Wraps an already-resolved node, keeping the given origin directory.
    pub fn new_from_node(node: &HierNode, parent_directory: Option<String>) -> (r: Self)
        ensures
            r@.node == node@,
            r@.origin == opt_view(parent_directory),
    {
        ZarrNode { node: node.clone(), parent_directory }
    }
}


/// The display mapping of a hierarchy node's children: each child under its
/// rendered metadata string, inserted in listing order.
pub open spec fn zarr_options_entries(cs: Seq<NodeView>, origin: Option<Seq<char>>) -> Seq<
    (Seq<char>, crate::common::SelView),
>
    decreases cs.len(),
{
    if cs.len() == 0 {
        Seq::empty()
    } else {
        crate::menu::insert_entry(
            zarr_options_entries(cs.drop_last(), origin),
            crate::format::fmt_option_name(cs.last()),
            crate::common::SelView::Zarr(ZarrNodeView { node: cs.last(), origin }),
        )
    }
}

/// The child mapping of a hierarchy node never carries a label twice.
pub proof fn lemma_zarr_options_unique(cs: Seq<NodeView>, origin: Option<Seq<char>>)
    ensures
        crate::menu::unique_keys(zarr_options_entries(cs, origin)),
    decreases cs.len(),
{
    if cs.len() > 0 {
        lemma_zarr_options_unique(cs.drop_last(), origin);
        crate::menu::lemma_insert_unique(
            zarr_options_entries(cs.drop_last(), origin),
            crate::format::fmt_option_name(cs.last()),
            crate::common::SelView::Zarr(ZarrNodeView { node: cs.last(), origin }),
        );
    }
}

impl ZarrNode {
    /// Lists the direct children of this node, each displayed under its
    /// fully rendered metadata string and each carrying this node's origin
    /// directory onward.
    pub fn get_options(&self) -> (r: indexmap::IndexMap<String, crate::common::ActionSelect>)
        ensures
            crate::menu::map_entries(r) == zarr_options_entries(self@.node.children, self@.origin),
    {
        let mut options = crate::menu::map_new();
        let ghost cs = self@.node.children;
        proof {
            lemma_nodes_view_len(self.node.children@);
        }
        let mut i: usize = 0;
        while i < self.node.children.len()
            invariant
                i <= self.node.children@.len(),
                cs == nodes_view(self.node.children@),
                cs.len() == self.node.children@.len(),
                crate::menu::map_entries(options) == zarr_options_entries(
                    cs.subrange(0, i as int),
                    self@.origin,
                ),
            decreases self.node.children@.len() - i,
        {
            proof {
                lemma_nodes_view_index(self.node.children@, i as int);
            }
            let child = &self.node.children[i];
            let child_name = crate::format::format_zarr_option_name(child);
            let zarr_node = ZarrNode::new_from_node(child, clone_opt_string(&self.parent_directory));
            let selection = crate::common::ActionSelect::Zarr(zarr_node);
            proof {
                let pre = cs.subrange(0, i + 1);
                assert(pre.drop_last() =~= cs.subrange(0, i as int));
                assert(pre.last() == cs[i as int]);
                assert(selection@ matches crate::common::SelView::Zarr(z) && z =~= ZarrNodeView {
                    node: cs[i as int],
                    origin: self@.origin,
                });
            }
            crate::menu::map_insert(&mut options, child_name, selection);
            i = i + 1;
        }
        proof {
            assert(cs.subrange(0, cs.len() as int) =~= cs);
        }
        options
    }
}

impl crate::common::GenerateOptions<HierNode> for ZarrNode {
    type Item = indexmap::IndexMap<String, crate::common::ActionSelect>;

    fn get_options(&self) -> Self::Item {
        ZarrNode::get_options(self)
    }
}

} // verus!
