//! The directory side of the navigator: a plain record of one filesystem
//! listing entry, the handle for a directory location, and the
//! classification of an entry as a sub-directory or a hierarchy root.
use crate::common::ActionSelect;
use crate::text;
use crate::zarr_utils::{ZarrIdentifier, ZarrNode};
use vstd::prelude::*;

verus! {

/// One entry of a directory listing, as the caller read it from the
/// filesystem: the entry's name and whether it is a directory.
pub struct FsEntry {
    pub name: String,
    pub is_dir: bool,
}

/// The mathematical value of an `FsEntry`.
#[verifier::ext_equal]
pub struct FsEntryView {
    pub name: Seq<char>,
    pub is_dir: bool,
}

impl View for FsEntry {
    type V = FsEntryView;

    open spec fn view(&self) -> FsEntryView {
        FsEntryView { name: self.name@, is_dir: self.is_dir }
    }
}

impl Clone for FsEntry {
    fn clone(&self) -> (r: Self)
        ensures
            r@ == self@,
    {
        FsEntry { name: self.name.clone(), is_dir: self.is_dir }
    }
}

/// A filesystem directory the navigator can rest on, held as its path.
#[derive(Debug, PartialEq)]
pub struct DirNode {
    path: String,
}

impl View for DirNode {
    type V = Seq<char>;

    closed spec fn view(&self) -> Seq<char> {
        self.path@
    }
}

impl Clone for DirNode {
    fn clone(&self) -> (r: Self)
        ensures
            r@ == self@,
    {
        DirNode { path: self.path.clone() }
    }
}

impl DirNode {
    pub fn new(path: &String) -> (r: Self)
        ensures
            r@ == path@,
    {
        DirNode { path: path.clone() }
    }

    pub fn path(&self) -> (r: String)
        ensures
            r@ == self@,
    {
        self.path.clone()
    }

    /// The directory above this one, when the path has one.
    pub fn parent(&self) -> (r: Option<String>)
        ensures
            match r {
                Some(p) => text::parent_seq(self@) is Some && p@ == text::parent_seq(self@)->0,
                None => text::parent_seq(self@) is None,
            },
    {
        text::parent_of(&self.path)
    }
}

/// What classifying one navigable path must produce: a path with the
/// reserved suffix resolves to a hierarchy node rooted there (or to the
/// error the store reported), any other directory stays a directory, and
/// anything else is a classification error.
pub open spec fn selection_for_path(path: Seq<char>, is_dir: bool, r: crate::common::SelView) -> bool {
    if text::has_suffix(path, text::zarr_suffix()) {
        (r matches crate::common::SelView::Zarr(z) && z.origin == text::parent_seq(path))
            || r is Error
    } else if is_dir {
        r == crate::common::SelView::Dir(path)
    } else {
        r is Error
    }
}

/// Classifies one path from a directory listing. A name carrying the
/// reserved extension is resolved eagerly: the store is opened and its root
/// parsed, and a failure to do so becomes an `Error` selection for that
/// entry alone.
pub fn path_to_selection(path: &String, is_dir: bool) -> (r: ActionSelect)
    ensures
        selection_for_path(path@, is_dir, r@),
{
    if text::has_zarr_suffix(path) {
        match ZarrNode::new(&ZarrIdentifier::ZarrPath(path.clone())) {
            Ok(z) => ActionSelect::Zarr(z),
            Err(e) => ActionSelect::Error(e),
        }
    } else if is_dir {
        ActionSelect::Dir(DirNode::new(path))
    } else {
        ActionSelect::Error("not a directory and not a stored hierarchy".to_owned())
    }
}


/// The views of the entries of a listing.
pub open spec fn lviews(l: Seq<FsEntry>) -> Seq<FsEntryView> {
    l.map_values(|en: FsEntry| en@)
}

/// True when no two entries of the listing share a name.
pub open spec fn distinct_names(l: Seq<FsEntryView>) -> bool {
    forall|i: int, j: int| 0 <= i < j < l.len() ==> l[i].name != l[j].name
}

/// True when the entry is offered in a directory menu: it is not hidden,
/// and it is a directory or carries the reserved extension.
pub open spec fn navigable(en: FsEntryView) -> bool {
    !text::is_hidden_name(en.name) && (en.is_dir || text::has_suffix(en.name, text::zarr_suffix()))
}

/// The navigable entries of a listing, in listing order.
pub open spec fn visible_entries(l: Seq<FsEntryView>) -> Seq<FsEntryView>
    decreases l.len(),
{
    if l.len() == 0 {
        Seq::empty()
    } else {
        let p = visible_entries(l.drop_last());
        if navigable(l.last()) {
            p.push(l.last())
        } else {
            p
        }
    }
}

/// The names of the entries, in order.
pub open spec fn entry_names(l: Seq<FsEntryView>) -> Seq<Seq<char>> {
    Seq::new(l.len(), |i: int| l[i].name)
}

/// What the selection stored for one navigable directory entry must be: a
/// name with the reserved extension leads to the hierarchy rooted at the
/// joined path (or to the error its store reported), and any other entry
/// leads to the joined path as a directory.
pub open spec fn selection_for_entry(dir: Seq<char>, en: FsEntryView, v: crate::common::SelView) -> bool {
    if text::has_suffix(en.name, text::zarr_suffix()) {
        (v matches crate::common::SelView::Zarr(z) && z.origin == text::parent_seq(
            text::join_seq(dir, en.name),
        )) || v is Error
    } else {
        v == crate::common::SelView::Dir(text::join_seq(dir, en.name))
    }
}

/// What the display mapping of a directory must hold: one entry per
/// navigable listing entry, under its name, in listing order, each leading
/// where `selection_for_entry` says.
pub open spec fn dir_options_post(
    dir: Seq<char>,
    l: Seq<FsEntryView>,
    e: Seq<(Seq<char>, crate::common::SelView)>,
) -> bool {
    let vis = visible_entries(l);
    &&& crate::menu::unique_keys(e)
    &&& e.len() == vis.len()
    &&& crate::menu::entry_keys(e) == entry_names(vis)
    &&& forall|i: int| 0 <= i < vis.len() ==> selection_for_entry(dir, vis[i], e[i].1)
}

proof fn lemma_visible_snoc(l: Seq<FsEntryView>, i: int)
    requires
        0 <= i < l.len(),
    ensures
        visible_entries(l.subrange(0, i + 1)) == if navigable(l[i]) {
            visible_entries(l.subrange(0, i)).push(l[i])
        } else {
            visible_entries(l.subrange(0, i))
        },
{
    let pre = l.subrange(0, i + 1);
    assert(pre.drop_last() =~= l.subrange(0, i));
    assert(pre.last() == l[i]);
}

/// Every name of a visible entry stands in the listing.
proof fn lemma_visible_names_from_listing(l: Seq<FsEntryView>)
    ensures
        forall|k: int|
            #![trigger visible_entries(l)[k]]
            0 <= k < visible_entries(l).len() ==> exists|j: int|
                0 <= j < l.len() && #[trigger] l[j] == visible_entries(l)[k],
    decreases l.len(),
{
    if l.len() > 0 {
        lemma_visible_names_from_listing(l.drop_last());
        let vis = visible_entries(l);
        let pv = visible_entries(l.drop_last());
        assert forall|k: int| #![trigger vis[k]] 0 <= k < vis.len() implies exists|j: int|
            0 <= j < l.len() && #[trigger] l[j] == vis[k] by {
            if k < pv.len() {
                let j = choose|j: int| 0 <= j < l.drop_last().len() && l.drop_last()[j] == pv[k];
                assert(l[j] == vis[k]);
            } else {
                assert(l[l.len() - 1] == vis[k]);
            }
        }
    }
}

impl DirNode {
    /// Builds the display mapping of this directory from a fresh listing of
    /// its entries: hidden names are excluded, a name with the reserved
    /// extension is opened eagerly as a hierarchy root, any other directory
    /// entry stays a directory, and everything else is dropped.
    pub fn get_options(&self, listing: &Vec<FsEntry>) -> (r: indexmap::IndexMap<
        String,
        ActionSelect,
    >)
        requires
            distinct_names(lviews(listing@)),
        ensures
            dir_options_post(self@, lviews(listing@), crate::menu::map_entries(r)),
    {
        let ghost lv = lviews(listing@);
        let mut matching_name = crate::menu::map_new();
        proof {
            let e0 = crate::menu::map_entries(matching_name);
            assert(lv.subrange(0, 0) =~= Seq::<FsEntryView>::empty());
            assert(crate::menu::entry_keys(e0) =~= entry_names(visible_entries(lv.subrange(0, 0))));
        }
        let mut i: usize = 0;
        while i < listing.len()
            invariant
                i <= listing@.len(),
                lv == lviews(listing@),
                lv.len() == listing@.len(),
                distinct_names(lv),
                forall|j: int| 0 <= j < listing@.len() ==> lv[j] == listing@[j]@,
                dir_options_post(
                    self@,
                    lv.subrange(0, i as int),
                    crate::menu::map_entries(matching_name),
                ),
            decreases listing@.len() - i,
        {
            let ghost e = crate::menu::map_entries(matching_name);
            let ghost vis = visible_entries(lv.subrange(0, i as int));
            let entry = &listing[i];
            if !text::starts_with_period(&entry.name) && (entry.is_dir || text::has_zarr_suffix(
                &entry.name,
            )) {
                let full = crate::text::join_path(&self.path, &entry.name);
                let sel = path_to_selection(&full, entry.is_dir);
                proof {
                    let pre = lv.subrange(0, i as int);
                    assert(lv[i as int].name == entry.name@);
                    lemma_visible_names_from_listing(pre);
                    assert forall|k: int| 0 <= k < e.len() implies e[k].0 != entry.name@ by {
                        assert(crate::menu::entry_keys(e)[k] == e[k].0);
                        assert(entry_names(vis)[k] == vis[k].name);
                        let j = choose|j: int|
                            0 <= j < pre.len() && #[trigger] pre[j] == vis[k];
                        assert(lv[j] == pre[j]);
                        assert(lv[j].name != lv[i as int].name);
                    }
                    crate::menu::lemma_key_index(e, entry.name@);
                    crate::menu::lemma_insert_unique(e, entry.name@, sel@);
                    text::lemma_join_zarr_suffix(self@, entry.name@);
                    lemma_visible_snoc(lv, i as int);
                }
                crate::menu::map_insert(&mut matching_name, entry.name.clone(), sel);
                proof {
                    let e2 = crate::menu::map_entries(matching_name);
                    let vis2 = vis.push(lv[i as int]);
                    assert(e2 == e.push((entry.name@, sel@)));
                    assert forall|k: int|
                        0 <= k < e2.len() implies crate::menu::entry_keys(e2)[k] == entry_names(
                        vis2,
                    )[k] by {
                        if k < e.len() {
                            assert(crate::menu::entry_keys(e)[k] == entry_names(vis)[k]);
                        }
                    }
                    assert(crate::menu::entry_keys(e2) =~= entry_names(vis2));
                    assert(visible_entries(lv.subrange(0, i + 1)) == vis2);
                    assert(full@ == text::join_seq(self@, entry.name@));
                    assert forall|k: int| 0 <= k < vis2.len() implies selection_for_entry(
                        self@,
                        vis2[k],
                        e2[k].1,
                    ) by {
                        if k < vis.len() {
                            assert(selection_for_entry(self@, vis[k], e[k].1));
                        } else {
                            assert(vis2[k] == lv[i as int]);
                            assert(e2[k].1 == sel@);
                            assert(selection_for_path(full@, entry.is_dir, sel@));
                        }
                    }
                }
            } else {
                proof {
                    lemma_visible_snoc(lv, i as int);
                }
            }
            i = i + 1;
        }
        proof {
            assert(lv.subrange(0, lv.len() as int) =~= lv);
        }
        matching_name
    }
}


/// Every entry of a directory's display mapping is navigable.
proof fn lemma_visible_navigable(l: Seq<FsEntryView>)
    ensures
        forall|k: int| 0 <= k < visible_entries(l).len() ==> navigable(
            #[trigger] visible_entries(l)[k],
        ),
    decreases l.len(),
{
    if l.len() > 0 {
        lemma_visible_navigable(l.drop_last());
        let vis = visible_entries(l);
        let pv = visible_entries(l.drop_last());
        assert forall|k: int| 0 <= k < vis.len() implies navigable(vis[k]) by {
            if k < pv.len() {
                assert(vis[k] == pv[k]);
            }
        }
    }
}

/// Law: a directory entry whose name begins with a period never appears in
/// the directory's display mapping, whatever the listing held.
pub proof fn lemma_hidden_excluded(
    dir: Seq<char>,
    l: Seq<FsEntryView>,
    e: Seq<(Seq<char>, crate::common::SelView)>,
    name: Seq<char>,
)
    requires
        dir_options_post(dir, l, e),
        text::is_hidden_name(name),
    ensures
        !crate::menu::has_key(e, name),
{
    lemma_visible_navigable(l);
    if crate::menu::has_key(e, name) {
        let i = choose|i: int| 0 <= i < e.len() && e[i].0 == name;
        let vis = visible_entries(l);
        assert(crate::menu::entry_keys(e)[i] == e[i].0);
        assert(entry_names(vis)[i] == vis[i].name);
        assert(navigable(vis[i]));
        assert(false);
    }
}


/// Law: a hierarchy root offered in a directory's menu carries that
/// directory as its origin, so stepping back out of the hierarchy later
/// lands on the directory it was entered from. It asks what a real listing
/// gives: a non-empty entry name without separators, and a directory path
/// that does not end in a separator unless it is the root itself.
pub proof fn lemma_menu_zarr_origin(
    dir: Seq<char>,
    l: Seq<FsEntryView>,
    e: Seq<(Seq<char>, crate::common::SelView)>,
    k: int,
)
    requires
        dir_options_post(dir, l, e),
        dir.len() > 0,
        dir.last() != '/' || dir.len() == 1,
        0 <= k < e.len(),
        visible_entries(l)[k].name.len() > 0,
        text::no_slash(visible_entries(l)[k].name),
    ensures
        e[k].1 matches crate::common::SelView::Zarr(z) ==> z.origin == Some(dir),
{
    let vis = visible_entries(l);
    let en = vis[k];
    assert(selection_for_entry(dir, en, e[k].1));
    if text::has_suffix(en.name, text::zarr_suffix()) {
        text::lemma_parent_of_join(dir, en.name);
    }
}

} // verus!
