//! Index bookkeeping of the sparse list: a scrollable list of items whose indexes
//! are ordered but possibly sparse, of which only the items around the view are
//! materialized. What is decided here depends on indexes only; the placement of the
//! materialized items in pixels is done by the widget that uses these decisions.

use vstd::prelude::*;
use std::collections::VecDeque;

verus! {

/// Some kind of change which occurred in a list.
#[derive(Debug, Clone, Copy, PartialEq, Eq, Structural)]
pub enum Change {
    /// changed the item at `idx`
    Changed { idx: usize },
    /// removed the item at `idx`
    Removed { idx: usize },
    /// added an item at `idx`
    Added { idx: usize },
}

/// The interface to the underlying content which you must implement for the sparse list
/// to be able to display your items.
pub trait IContent<V> {
    /// how many items there are: what `len` returns (a specification function; an
    /// implementation outside verified code gives the same count as `len`)
    spec fn item_count(&self) -> usize;

    /// how many items there are
    fn len(&self) -> (r: usize)
        ensures
            r == self.item_count(),
    ;

    /// true if `self.len() == 0`
    fn is_empty(&self) -> (r: bool)
        ensures
            r == (self.item_count() == 0),
    {
        self.len() == 0
    }

    /// return the first valid index, or `None` if there are no valid indices
    fn first(&self) -> Option<usize>;

    /// return the last valid index, or `None` if there are no valid indices
    fn last(&self) -> Option<usize>;

    /// get the item with the given index, if it exists
    fn get(&self, idx: usize) -> Option<V>;

    /// the index of the item right before (and not including) the item at `idx`, if any;
    /// calling it again on what it returns walks the items backwards
    fn index_before(&self, idx: usize) -> Option<usize>;

    /// the index of the item right after (and not including) the item at `idx`, if any;
    /// calling it again on what it returns walks the items forwards
    fn index_after(&self, idx: usize) -> Option<usize>;

    /// take the queue of changes which have occurred.
    fn changes(&self) -> VecDeque<Change>;
}

/// Strictly increasing: the keys of the materialized items, in order.
pub open spec fn strictly_increasing(s: Seq<usize>) -> bool {
    forall|i: int, j: int| 0 <= i < j < s.len() ==> s[i] < s[j]
}

/// Where a refresh puts the list.
#[derive(Debug, Clone, Copy, PartialEq, Eq, Structural)]
pub enum JumpTarget {
    Top,
    Bottom,
    Item { idx: usize },
}

/// The index of the item a refresh starts from: the first item for the top, the
/// last one for the bottom, or the item jumped to.
pub fn initial_index(target: JumpTarget, first: Option<usize>, last: Option<usize>) -> (r: usize)
    requires
        target is Top ==> first is Some,
        target is Bottom ==> last is Some,
    ensures
        r == match target {
            JumpTarget::Top => first->0,
            JumpTarget::Bottom => last->0,
            JumpTarget::Item { idx } => idx,
        },
{
    match target {
        JumpTarget::Top => first.unwrap(),
        JumpTarget::Bottom => last.unwrap(),
        JumpTarget::Item { idx } => idx,
    }
}

/// Whether the materialized elements must be recreated from the laid-out items
/// kept in the state: when the list was rebuilt (no elements) while items are
/// laid out. Elements and layouts are otherwise kept in step.
pub fn elements_need_to_be_recreated(n_elements: usize, n_layouts: usize) -> (r: bool)
    requires
        n_elements == n_layouts || (n_elements == 0 && n_layouts != 0),
    ensures
        r == (n_elements == 0 && n_layouts != 0),
{
    n_elements == 0 && n_layouts != 0
}

/// True when `idx` lies strictly between the first and the last materialized index.
pub fn is_between_visible(idx: usize, first_visible: usize, last_visible: usize) -> (r: bool)
    ensures
        r == (first_visible < idx < last_visible),
{
    idx > first_visible && idx < last_visible
}

/// True when `idx` is the item that comes right after the last materialized one.
pub fn is_right_after_visible(idx: usize, after_last: Option<usize>) -> (r: bool)
    ensures
        r == (after_last == Some(idx)),
{
    match after_last {
        Some(a) => a == idx,
        None => false,
    }
}

/// Whether `idx` is materialized.
pub fn is_visible(visible: &[usize], idx: usize) -> (r: bool)
    ensures
        r == visible@.contains(idx),
{
    let mut i: usize = 0;
    while i < visible.len()
        invariant
            i <= visible@.len(),
            forall|j: int| 0 <= j < i ==> visible@[j] != idx,
        decreases visible.len() - i,
    {
        if visible[i] == idx {
            return true;
        }
        i = i + 1;
    }
    false
}

/// The first materialized index at or after `new_idx`: a new item is placed where
/// that one is now.
pub fn first_visible_at_or_after(visible: &[usize], new_idx: usize) -> (r: usize)
    requires
        strictly_increasing(visible@),
        exists|j: int| 0 <= j < visible@.len() && visible@[j] >= new_idx,
    ensures
        visible@.contains(r),
        r >= new_idx,
        forall|j: int| 0 <= j < visible@.len() && visible@[j] >= new_idx ==> r <= visible@[j],
{
    let mut i: usize = 0;
    while i < visible.len()
        invariant
            i <= visible@.len(),
            strictly_increasing(visible@),
            forall|j: int| 0 <= j < i ==> visible@[j] < new_idx,
            exists|j: int| 0 <= j < visible@.len() && visible@[j] >= new_idx,
        decreases visible.len() - i,
    {
        if visible[i] >= new_idx {
            assert(visible@.contains(visible@[i as int]));
            return visible[i];
        }
        i = i + 1;
    }
    assert(false);
    0
}

/// What to do about an item that was added to the content.
#[derive(Debug, Clone, Copy, PartialEq, Eq, Structural)]
pub enum AddedAction {
    /// Nothing is materialized: materialize it, as the only item.
    AddOnly,
    /// It lies between materialized items: materialize it where the item `next` is now,
    /// and move the items after it down.
    InsertBefore { next: usize },
    /// It comes right after the last materialized item: let the next update fill the view.
    Refresh,
    /// It is out of view: nothing to do.
    Nothing,
}

/// The action for an item added at `idx`, given the materialized indexes (in order)
/// and the index of the content's item right after the last materialized one.
pub fn item_added_action(visible: &[usize], idx: usize, after_last: Option<usize>) -> (r: AddedAction)
    requires
        strictly_increasing(visible@),
    ensures
        visible@.len() == 0 ==> r == AddedAction::AddOnly,
        visible@.len() > 0 && visible@[0] < idx < visible@.last() ==> r is InsertBefore,
        visible@.len() > 0 && visible@[0] < idx < visible@.last() ==> visible@.contains(r->next)
            && r->next >= idx && forall|j: int|
            0 <= j < visible@.len() && visible@[j] >= idx ==> r->next <= visible@[j],
        visible@.len() > 0 && !(visible@[0] < idx < visible@.last()) && after_last == Some(idx)
            ==> r == AddedAction::Refresh,
        visible@.len() > 0 && !(visible@[0] < idx < visible@.last()) && after_last != Some(idx)
            ==> r == AddedAction::Nothing,
{
    let n = visible.len();
    if n == 0 {
        AddedAction::AddOnly
    } else if is_between_visible(idx, visible[0], visible[n - 1]) {
        assert(visible@[n - 1] >= idx);
        let next = first_visible_at_or_after(visible, idx);
        AddedAction::InsertBefore { next }
    } else if is_right_after_visible(idx, after_last) {
        AddedAction::Refresh
    } else {
        AddedAction::Nothing
    }
}


/// The item index carried by a scroll request (the 32 bits of its vertical field).
pub fn item_index(item: u32) -> (r: usize)
    ensures
        r == item,
{
    item as usize
}

} // verus!
