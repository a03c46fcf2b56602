//! The tagged value a browsing step rests on or returns, the step outcome
//! reported to the menu driver, and the constant control-entry labels.
use crate::filesystem_utils::DirNode;
use crate::zarr_utils::{ZarrNode, ZarrNodeView};
use vstd::prelude::*;

verus! {

/// Where the user currently is or might go: a directory, a hierarchy node,
/// a request to pop the history, a terminal failure, or a request to leave.
#[derive(Debug, PartialEq)]
pub enum ActionSelect {
    Zarr(ZarrNode),
    Dir(DirNode),
    Back,
    Error(String),
    Exit,
}

/// The mathematical value of an `ActionSelect`.
#[verifier::ext_equal]
pub enum SelView {
    Zarr(ZarrNodeView),
    Dir(Seq<char>),
    Back,
    Error(Seq<char>),
    Exit,
}

impl View for ActionSelect {
    type V = SelView;

    open spec fn view(&self) -> SelView {
        match self {
            ActionSelect::Zarr(z) => SelView::Zarr(z@),
            ActionSelect::Dir(d) => SelView::Dir(d@),
            ActionSelect::Back => SelView::Back,
            ActionSelect::Error(m) => SelView::Error(m@),
            ActionSelect::Exit => SelView::Exit,
        }
    }
}

impl Clone for ActionSelect {
    fn clone(&self) -> (r: Self)
        ensures
            r@ == self@,
    {
        match self {
            ActionSelect::Zarr(z) => ActionSelect::Zarr(z.clone()),
            ActionSelect::Dir(d) => ActionSelect::Dir(d.clone()),
            ActionSelect::Back => ActionSelect::Back,
            ActionSelect::Error(m) => ActionSelect::Error(m.clone()),
            ActionSelect::Exit => ActionSelect::Exit,
        }
    }
}

/// A selection the navigator may rest on between steps: a directory or a
/// hierarchy node, never a control action or an error.
pub open spec fn is_resting(s: SelView) -> bool {
    s is Dir || s is Zarr
}

/// What one step of the menu loop decided: keep going, stop with a message,
/// or stop because the user asked to.
#[derive(Debug, PartialEq)]
pub enum LoopStep {
    Continue,
    Error(String),
    Exit,
}

/// A location whose children can be listed as a display mapping.
pub trait GenerateOptions<T> {
    type Item;

    fn get_options(&self) -> Self::Item;
}

/// The label of the constant control entry that pops the history.
pub open spec fn back_label() -> Seq<char> {
    seq!['.', '.']
}

/// The label of the constant control entry that ends the session.
pub open spec fn exit_label() -> Seq<char> {
    seq!['E', 'x', 'i', 't', '!']
}

pub fn back_label_str() -> (r: &'static str)
    ensures
        r@ == back_label(),
{
    proof {
        reveal_strlit("..");
        assert(".."@ =~= back_label());
    }
    ".."
}

pub fn exit_label_str() -> (r: &'static str)
    ensures
        r@ == exit_label(),
{
    proof {
        reveal_strlit("Exit!");
        assert("Exit!"@ =~= exit_label());
    }
    "Exit!"
}

} // verus!
