//! Requests to the layout, which holds the keys of the tabs on screen.
use crate::app::tabs::TabKey;
use vstd::prelude::*;

verus! {

/// What the application asks the layout to do. The layout holds the keys of
/// the tabs that are on screen; the application never changes it by itself.
#[derive(Clone, Copy, Debug, PartialEq, Eq, Structural)]
pub enum LayoutChange {
    /// Bring the tab with this key to the front.
    Activate(TabKey),
    /// Show the tab with this key, which is new, where the focus is.
    Push(TabKey),
    /// Take the tab with this key off the screen.
    Remove(TabKey),
    /// Take every tab off the screen.
    Clear,
}

/// The keys that the layout holds after it has carried out `change`, if it
/// held `layout` before. Where the layout puts a new tab is its own affair;
/// here the new key stands last.
pub open spec fn layout_after(layout: Seq<TabKey>, change: LayoutChange) -> Seq<TabKey> {
    match change {
        LayoutChange::Activate(_) => layout,
        LayoutChange::Push(key) => layout.push(key),
        LayoutChange::Remove(key) => layout.remove_value(key),
        LayoutChange::Clear => Seq::empty(),
    }
}

/// Carries out `change` on `layout`, the list of the keys that the layout
/// holds.
pub fn apply_change(layout: &mut Vec<TabKey>, change: LayoutChange)
    ensures
        final(layout)@ == layout_after(old(layout)@, change),
{
    match change {
        LayoutChange::Activate(_) => {},
        LayoutChange::Push(key) => {
            layout.push(key);
        },
        LayoutChange::Remove(key) => {
            let mut i: usize = 0;
            while i < layout.len()
                invariant
                    i <= layout.len(),
                    layout@ == old(layout)@,
                    change == LayoutChange::Remove(key),
                    forall|j: int| 0 <= j < i ==> layout@[j] != key,
                decreases layout.len() - i,
            {
                if layout[i] == key {
                    proof {
                        old(layout)@.index_of_first_ensures(key);
                        assert(old(layout)@[i as int] == key);
                        assert(old(layout)@.index_of_first(key) == Some(i as int));
                    }
                    layout.remove(i);
                    return ;
                }
                i = i + 1;
            }
            proof {
                old(layout)@.index_of_first_ensures(key);
            }
        },
        LayoutChange::Clear => {
            layout.clear();
        },
    }
}

/// The keys that the layout holds after `change`, if there is one, has been
/// carried out, if it held `layout` before.
pub open spec fn layout_after_maybe(layout: Seq<TabKey>, change: Option<LayoutChange>) -> Seq<TabKey> {
    match change {
        Some(change) => layout_after(layout, change),
        None => layout,
    }
}

} // verus!
