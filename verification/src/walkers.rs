//! The navigator: the back-stack of visited selections whose top is the
//! current location, the stepping rules of the browsing state machine, and
//! the laws they obey.
use crate::common::{
    back_label, back_label_str, exit_label, exit_label_str, is_resting, ActionSelect, LoopStep,
    SelView,
};
use crate::filesystem_utils::{dir_options_post, distinct_names, lviews, DirNode, FsEntry,
    FsEntryView};
use crate::menu::{
    entry_keys, has_key, insert_entry, key_index, lemma_insert_has_key, lemma_insert_unique,
    lemma_insert_value, lemma_key_index, map_entries, unique_keys, value_at,
};
use crate::zarr_utils::zarr_options_entries;
use indexmap::IndexMap;
use vstd::prelude::*;

verus! {

/// The navigator's state: the stack of visited resting selections, oldest
/// first; the top of the stack is the current selection.
pub struct Walker {
    visited_nodes: Vec<ActionSelect>,
}

impl View for Walker {
    type V = Seq<SelView>;

    closed spec fn view(&self) -> Seq<SelView> {
        self.visited_nodes@.map_values(|s: ActionSelect| s@)
    }
}

impl Walker {
    /// The stack is never empty and holds only resting selections.
    pub open spec fn wf(&self) -> bool {
        self@.len() >= 1 && forall|i: int| 0 <= i < self@.len() ==> is_resting(self@[i])
    }
}

/// Where one Back step leads: the latest history entry when there is one;
/// out of a hierarchy into its origin directory when the history is
/// exhausted; nowhere when the session is already at its root.
pub open spec fn back_step(stack: Seq<SelView>) -> Seq<SelView>
    recommends
        stack.len() >= 1,
{
    if stack.len() > 1 {
        stack.drop_last()
    } else if stack.len() == 1 {
        match stack[0] {
            SelView::Zarr(z) => match z.origin {
                Some(d) => seq![SelView::Dir(d)],
                None => stack,
            },
            _ => stack,
        }
    } else {
        stack
    }
}

/// Where one advance step leads: into a resting selection by pushing it,
/// backwards on Back, and nowhere on Exit or Error.
pub open spec fn advance_step(stack: Seq<SelView>, sel: SelView) -> Seq<SelView> {
    match sel {
        SelView::Dir(_) => stack.push(sel),
        SelView::Zarr(_) => stack.push(sel),
        SelView::Back => back_step(stack),
        SelView::Error(_) => stack,
        SelView::Exit => stack,
    }
}

/// The two constant control entries appended to every display mapping.
pub open spec fn with_controls(e: Seq<(Seq<char>, SelView)>) -> Seq<(Seq<char>, SelView)> {
    insert_entry(insert_entry(e, back_label(), SelView::Back), exit_label(), SelView::Exit)
}

/// What the display mapping of a directory must hold once the control
/// entries are appended.
pub open spec fn dir_walker_post(
    d: Seq<char>,
    l: Seq<FsEntryView>,
    e: Seq<(Seq<char>, SelView)>,
) -> bool {
    exists|e0: Seq<(Seq<char>, SelView)>|
        #[trigger] dir_options_post(d, l, e0) && e == with_controls(e0)
}

/// What the display mapping produced for a resting selection must hold: the
/// natural children of the matching enumerator, then the control entries.
pub open spec fn walker_options_post(
    cur: SelView,
    l: Seq<FsEntryView>,
    e: Seq<(Seq<char>, SelView)>,
) -> bool {
    match cur {
        SelView::Dir(d) => dir_walker_post(d, l, e),
        SelView::Zarr(z) => e == with_controls(zarr_options_entries(z.node.children, z.origin)),
        _ => false,
    }
}

/// A directory mapping extended with the control entries meets the
/// navigator's mapping contract.
pub proof fn lemma_dir_walker_post(
    d: Seq<char>,
    l: Seq<FsEntryView>,
    e0: Seq<(Seq<char>, SelView)>,
    e: Seq<(Seq<char>, SelView)>,
)
    requires
        dir_options_post(d, l, e0),
        e == with_controls(e0),
    ensures
        walker_options_post(SelView::Dir(d), l, e),
{
    assert(dir_walker_post(d, l, e));
}

/// The two control labels differ.
proof fn lemma_labels_differ()
    ensures
        back_label() != exit_label(),
{
    assert(back_label().len() == 2);
    assert(exit_label().len() == 5);
}

/// Appending the control entries keeps labels unique and puts exactly the
/// Back and Exit selections under their labels.
pub proof fn lemma_with_controls(e0: Seq<(Seq<char>, SelView)>)
    requires
        unique_keys(e0),
    ensures
        unique_keys(with_controls(e0)),
        has_key(with_controls(e0), back_label()),
        value_at(with_controls(e0), back_label()) == SelView::Back,
        has_key(with_controls(e0), exit_label()),
        value_at(with_controls(e0), exit_label()) == SelView::Exit,
{
    lemma_labels_differ();
    let e1 = insert_entry(e0, back_label(), SelView::Back);
    lemma_insert_unique(e0, back_label(), SelView::Back);
    lemma_insert_has_key(e0, back_label(), SelView::Back, back_label());
    lemma_insert_value(e0, back_label(), SelView::Back, back_label());
    lemma_insert_unique(e1, exit_label(), SelView::Exit);
    lemma_insert_has_key(e1, exit_label(), SelView::Exit, back_label());
    lemma_insert_has_key(e1, exit_label(), SelView::Exit, exit_label());
    lemma_insert_value(e1, exit_label(), SelView::Exit, back_label());
}

impl Walker {
    /// Starts a session resting on the given selection.
    pub fn new(root: &ActionSelect) -> (r: Self)
        requires
            is_resting(root@),
        ensures
            r@ == seq![root@],
            r.wf(),
    {
        let mut visited_nodes: Vec<ActionSelect> = Vec::new();
        visited_nodes.push(root.clone());
        let w = Walker { visited_nodes };
        proof {
            assert(w@ =~= seq![root@]);
        }
        w
    }

    /// The selection the navigator is resting on.
    pub fn current_selection(&self) -> (r: &ActionSelect)
        requires
            self.wf(),
        ensures
            r@ == self@.last(),
    {
        &self.visited_nodes[self.visited_nodes.len() - 1]
    }

    /// Pushes a selection the user moved into.
    pub fn walk_forward(&mut self, next: ActionSelect)
        requires
            old(self).wf(),
            is_resting(next@),
        ensures
            final(self)@ == old(self)@.push(next@),
            final(self).wf(),
    {
        let ghost oldv = self@;
        self.visited_nodes.push(next);
        proof {
            assert(self@ =~= oldv.push(next@));
        }
    }

    /// One Back step, as `back_step` says: pop the history when there is
    /// any; step out of a hierarchy into its origin directory when there is
    /// none; stay put at the session root.
    pub fn walk_back(&mut self)
        requires
            old(self).wf(),
        ensures
            final(self)@ == back_step(old(self)@),
            final(self).wf(),
    {
        let ghost oldv = self@;
        if self.visited_nodes.len() > 1 {
            let _ = self.visited_nodes.pop();
            proof {
                assert(self@ =~= oldv.drop_last());
            }
        } else {
            let replacement: Option<ActionSelect> = match &self.visited_nodes[0] {
                ActionSelect::Zarr(z) => match z.parent_directory() {
                    Some(d) => Some(ActionSelect::Dir(DirNode::new(d))),
                    None => None,
                },
                _ => None,
            };
            match replacement {
                Some(next) => {
                    let _ = self.visited_nodes.pop();
                    self.visited_nodes.push(next);
                    proof {
                        assert(self@ =~= back_step(oldv));
                    }
                },
                None => {
                    proof {
                        assert(self@ =~= back_step(oldv));
                    }
                },
            }
        }
    }

    /// One step of the state machine: move into a chosen resting selection,
    /// pop the history on Back, and report Exit or Error to the driver
    /// without moving.
    pub fn advance(&mut self, selected: ActionSelect) -> (r: LoopStep)
        requires
            old(self).wf(),
        ensures
            final(self).wf(),
            final(self)@ == advance_step(old(self)@, selected@),
            r is Continue <==> !(selected@ is Exit || selected@ is Error),
            selected@ matches SelView::Error(m) ==> (r matches LoopStep::Error(m2) && m2@ == m),
            selected@ is Exit ==> r is Exit,
    {
        match selected {
            ActionSelect::Dir(d) => {
                self.walk_forward(ActionSelect::Dir(d));
                LoopStep::Continue
            },
            ActionSelect::Zarr(z) => {
                self.walk_forward(ActionSelect::Zarr(z));
                LoopStep::Continue
            },
            ActionSelect::Back => {
                self.walk_back();
                LoopStep::Continue
            },
            ActionSelect::Error(message) => LoopStep::Error(message),
            ActionSelect::Exit => LoopStep::Exit,
        }
    }

    /// The display mapping of the current selection: the natural children
    /// from the matching enumerator, then the constant Back and Exit
    /// entries. The listing argument is a fresh listing of the current
    /// directory; it is ignored when the navigator rests on a hierarchy
    /// node. A navigator in a well-formed state always has options, so the
    /// error arm of the result is never taken.
    pub fn get_options(&self, listing: &Vec<FsEntry>) -> (r: Result<
        IndexMap<String, ActionSelect>,
        String,
    >)
        requires
            self.wf(),
            distinct_names(lviews(listing@)),
        ensures
            r matches Ok(m) && ({
                let e = map_entries(m);
                &&& walker_options_post(self@.last(), lviews(listing@), e)
                &&& unique_keys(e)
                &&& has_key(e, back_label()) && value_at(e, back_label()) == SelView::Back
                &&& has_key(e, exit_label()) && value_at(e, exit_label()) == SelView::Exit
            }),
    {
        let current = self.current_selection();
        let mut index_options: IndexMap<String, ActionSelect> = match current {
            ActionSelect::Dir(dir_node) => dir_node.get_options(listing),
            ActionSelect::Zarr(zarr_node) => zarr_node.get_options(),
            _ => unreached(),
        };
        let ghost e0 = map_entries(index_options);
        proof {
            match self@.last() {
                SelView::Zarr(z) => {
                    crate::zarr_utils::lemma_zarr_options_unique(z.node.children, z.origin);
                },
                _ => {},
            }
            lemma_with_controls(e0);
        }
        crate::menu::map_insert(&mut index_options, back_label_str().to_owned(), ActionSelect::Back);
        crate::menu::map_insert(&mut index_options, exit_label_str().to_owned(), ActionSelect::Exit);
        proof {
            assert(map_entries(index_options) == with_controls(e0));
            match self@.last() {
                SelView::Dir(d) => {
                    assert(dir_options_post(d, lviews(listing@), e0) && map_entries(index_options)
                        == with_controls(e0));
                },
                _ => {},
            }
        }
        Ok(index_options)
    }
}

/// Law: stepping Back undoes an advance into a directory or hierarchy
/// node — the stack, and with it the current selection, is restored.
pub proof fn lemma_back_undoes_forward(stack: Seq<SelView>, next: SelView)
    requires
        stack.len() >= 1,
        is_resting(next),
    ensures
        advance_step(advance_step(stack, next), SelView::Back) == stack,
{
    assert(stack.push(next).drop_last() =~= stack);
}

/// The stack after `n` Back steps.
pub open spec fn back_n(stack: Seq<SelView>, n: nat) -> Seq<SelView>
    decreases n,
{
    if n == 0 {
        stack
    } else {
        back_n(back_step(stack), (n - 1) as nat)
    }
}

/// Law: as many Back steps as selections were pushed restore the earlier
/// stack, whatever was pushed.
pub proof fn lemma_back_n_pops(stack: Seq<SelView>, pushed: Seq<SelView>)
    requires
        stack.len() >= 1,
    ensures
        back_n(stack + pushed, pushed.len()) == stack,
    decreases pushed.len(),
{
    if pushed.len() == 0 {
        assert(stack + pushed =~= stack);
    } else {
        assert((stack + pushed).drop_last() =~= stack + pushed.drop_last());
        lemma_back_n_pops(stack, pushed.drop_last());
    }
}

/// Law: from a stack rooted in a hierarchy node whose origin directory is
/// known, one Back step per stack entry exhausts the intra-hierarchy
/// history and lands on that directory — never on an error and never in a
/// stuck state.
pub proof fn lemma_back_exits_hierarchy(stack: Seq<SelView>, d: Seq<char>)
    requires
        stack.len() >= 1,
        stack[0] matches SelView::Zarr(z) && z.origin == Some(d),
    ensures
        back_n(stack, stack.len()) == seq![SelView::Dir(d)],
    decreases stack.len(),
{
    if stack.len() == 1 {
        assert(back_n(stack, 1) == back_n(back_step(stack), 0));
        assert(back_step(stack) == seq![SelView::Dir(d)]);
    } else {
        assert(stack.drop_last()[0] == stack[0]);
        lemma_back_exits_hierarchy(stack.drop_last(), d);
        assert(back_n(stack, stack.len() as nat) == back_n(
            stack.drop_last(),
            stack.drop_last().len() as nat,
        ));
    }
}

/// Inserting under a label changes the label sequence in a way that
/// depends only on the labels already present.
proof fn lemma_insert_keys(e: Seq<(Seq<char>, SelView)>, k: Seq<char>, v: SelView)
    ensures
        has_key(e, k) ==> entry_keys(insert_entry(e, k, v)) == entry_keys(e),
        !has_key(e, k) ==> entry_keys(insert_entry(e, k, v)) == entry_keys(e).push(k),
{
    lemma_key_index(e, k);
    let e2 = insert_entry(e, k, v);
    if has_key(e, k) {
        assert(e[key_index(e, k)].0 == k);
        assert(entry_keys(e2) =~= entry_keys(e));
    } else {
        assert(entry_keys(e2) =~= entry_keys(e).push(k));
    }
}

/// A label is present exactly when it stands in the label sequence.
proof fn lemma_has_key_from_keys(e1: Seq<(Seq<char>, SelView)>, e2: Seq<(Seq<char>, SelView)>, k: Seq<char>)
    requires
        entry_keys(e1) == entry_keys(e2),
        has_key(e1, k),
    ensures
        has_key(e2, k),
{
    let i = choose|i: int| 0 <= i < e1.len() && e1[i].0 == k;
    assert(entry_keys(e1).len() == e1.len());
    assert(entry_keys(e2).len() == e2.len());
    assert(entry_keys(e1)[i] == k);
    assert(entry_keys(e2)[i] == e2[i].0);
    assert(e2[i].0 == k);
}

/// Law: the labels a display mapping offers are determined by the current
/// selection and the listing alone — two mappings produced for the same
/// resting selection and the same listing carry the same labels, so
/// listing twice without an advance shows the same names.
pub proof fn lemma_options_idempotent(
    cur: SelView,
    l: Seq<FsEntryView>,
    e1: Seq<(Seq<char>, SelView)>,
    e2: Seq<(Seq<char>, SelView)>,
)
    requires
        is_resting(cur),
        walker_options_post(cur, l, e1),
        walker_options_post(cur, l, e2),
    ensures
        entry_keys(e1) == entry_keys(e2),
{
    match cur {
        SelView::Dir(d) => {
            let ea = choose|ea: Seq<(Seq<char>, SelView)>|
                #[trigger] dir_options_post(d, l, ea) && e1 == with_controls(ea);
            let eb = choose|eb: Seq<(Seq<char>, SelView)>|
                #[trigger] dir_options_post(d, l, eb) && e2 == with_controls(eb);
            assert(entry_keys(ea) == entry_keys(eb));
            let ea1 = insert_entry(ea, back_label(), SelView::Back);
            let eb1 = insert_entry(eb, back_label(), SelView::Back);
            lemma_insert_keys(ea, back_label(), SelView::Back);
            lemma_insert_keys(eb, back_label(), SelView::Back);
            if has_key(ea, back_label()) {
                lemma_has_key_from_keys(ea, eb, back_label());
            }
            if has_key(eb, back_label()) {
                lemma_has_key_from_keys(eb, ea, back_label());
            }
            assert(entry_keys(ea1) == entry_keys(eb1));
            lemma_insert_keys(ea1, exit_label(), SelView::Exit);
            lemma_insert_keys(eb1, exit_label(), SelView::Exit);
            if has_key(ea1, exit_label()) {
                lemma_has_key_from_keys(ea1, eb1, exit_label());
            }
            if has_key(eb1, exit_label()) {
                lemma_has_key_from_keys(eb1, ea1, exit_label());
            }
        },
        SelView::Zarr(_) => {},
        _ => {},
    }
}

} // verus!
