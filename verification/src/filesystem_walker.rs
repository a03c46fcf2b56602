//! A lightweight cursor over filesystem directories, independent of the
//! full navigator: it rests on one directory, lists that directory's menu,
//! and can step to a chosen path or back to the parent.
use crate::common::{back_label_str, exit_label_str, ActionSelect, SelView};
use crate::filesystem_utils::{dir_options_post, distinct_names, lviews, DirNode, FsEntry};
use crate::menu::map_entries;
use crate::text;
use crate::walkers::walker_options_post;
use indexmap::IndexMap;
use vstd::prelude::*;

verus! {

pub struct FileWalker {
    current_path: String,
}

impl View for FileWalker {
    type V = Seq<char>;

    closed spec fn view(&self) -> Seq<char> {
        self.current_path@
    }
}

impl FileWalker {
    pub fn new(path: &String) -> (r: Self)
        ensures
            r@ == path@,
    {
        FileWalker { current_path: path.clone() }
    }

    /// Moves the cursor to a chosen path.
    pub fn set_next(&mut self, path: String)
        ensures
            final(self)@ == path@,
    {
        self.current_path = path;
    }

    /// The directory above the current one, when the path has one.
    pub fn parent(&self) -> (r: Option<String>)
        ensures
            match r {
                Some(p) => text::parent_seq(self@) is Some && p@ == text::parent_seq(self@)->0,
                None => text::parent_seq(self@) is None,
            },
    {
        text::parent_of(&self.current_path)
    }

    /// Steps the cursor back to the parent directory and reports it; at a
    /// path without a parent the cursor stays where it is.
    pub fn previous(&mut self) -> (r: Option<String>)
        ensures
            match r {
                Some(p) => text::parent_seq(old(self)@) is Some && p@ == text::parent_seq(
                    old(self)@,
                )->0 && final(self)@ == p@,
                None => text::parent_seq(old(self)@) is None && final(self)@ == old(self)@,
            },
    {
        match text::parent_of(&self.current_path) {
            Some(p) => {
                self.current_path = p.clone();
                Some(p)
            },
            None => None,
        }
    }

    /// The display mapping of the current directory, built from a fresh
    /// listing of its entries, with the constant control entries appended.
    pub fn get_options(&self, listing: &Vec<FsEntry>) -> (r: IndexMap<String, ActionSelect>)
        requires
            distinct_names(lviews(listing@)),
        ensures
            walker_options_post(SelView::Dir(self@), lviews(listing@), map_entries(r)),
    {
        let dir_node = DirNode::new(&self.current_path);
        let mut matching_name = dir_node.get_options(listing);
        let ghost e0 = map_entries(matching_name);
        crate::menu::map_insert(&mut matching_name, back_label_str().to_owned(), ActionSelect::Back);
        crate::menu::map_insert(&mut matching_name, exit_label_str().to_owned(), ActionSelect::Exit);
        proof {
            crate::walkers::lemma_dir_walker_post(
                self@,
                lviews(listing@),
                e0,
                map_entries(matching_name),
            );
        }
        matching_name
    }
}

} // verus!
