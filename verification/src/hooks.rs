//! Hooks that decide where a newly managed window goes.

use vstd::prelude::*;
use crate::client_set::ClientSet;
use crate::model::ClientSetView;
use crate::stack::Position;

verus! {

impl ClientSetView {
    /// The client set after `c` was sent to the bottom of the stack of the
    /// active screen and given the focus. A window that is on no tag stays
    /// out, and only stops floating.
    pub open spec fn placed_at_tail(self, c: u32) -> ClientSetView {
        if self.contains(c) {
            self.remove_client(c).insert_at(Position::Tail, c).focus_client(c)
        } else {
            self.remove_client(c)
        }
    }

    /// What `placed_at_tail` comes to for a window that is on some tag: the
    /// window is the last and the focused one on the current tag, it is gone
    /// from the place it had, and nothing else has moved.
    pub proof fn lemma_placed_at_tail(self, c: u32)
        requires
            self.wf(),
            self.contains(c),
        ensures
            self.placed_at_tail(c).wf(),
            self.placed_at_tail(c).current_client() == Some(c),
            self.placed_at_tail(c).clients_on(self.current_tag) == self.clients_on(
                self.current_tag,
            ).remove_value(c).push(c),
            forall|tag: Seq<char>|
                tag != self.current_tag && self.tags().contains(tag) ==> (#[trigger]
                self.placed_at_tail(c).clients_on(tag)) == self.clients_on(tag).remove_value(c),
            self.placed_at_tail(c).screens_above == self.screens_above,
            self.placed_at_tail(c).current_tag == self.current_tag,
            self.placed_at_tail(c).screens_below == self.screens_below,
            self.placed_at_tail(c).hidden == self.hidden,
            self.placed_at_tail(c).previous_tag == self.previous_tag,
            self.placed_at_tail(c).floating == self.floating.remove(c),
    {
        let here = self.current_tag;
        let gone = self.remove_client(c);
        let back = gone.insert_at(Position::Tail, c);
        let after = back.focus_client(c);
        self.lemma_current_is_tag();
        self.lemma_remove_client_wf(c);
        self.lemma_removed_stacks(c);
        gone.lemma_insert_at_wf(Position::Tail, c);
        gone.lemma_current_is_tag();
        let stack = match gone.current().stack {
            Some(s) => s.insert_at(Position::Tail, c),
            None => crate::stack::StackView::single(c),
        };
        assert(stack.items() =~= gone.clients_on(here).push(c)) by {
            match gone.current().stack {
                Some(s) => {
                    s.lemma_insert_bag(Position::Tail, c);
                },
                None => {},
            }
        }
        gone.lemma_with_stack_wf(here, gone.current().stack);
        assert(back.clients_on(here) == stack.items());
        assert(back.clients_on(here)[gone.clients_on(here).len() as int] == c);
        assert(back.holds(here, c));
        back.lemma_holder(c);
        back.lemma_focus_client_wf(c);
        back.lemma_focus_tag_wf(here);
        assert forall|tag: Seq<char>|
            tag != here && self.tags().contains(tag) implies (#[trigger] after.clients_on(tag))
            == self.clients_on(tag).remove_value(c) by {
            assert(after.clients_on(tag) == back.clients_on(tag));
            assert(back.clients_on(tag) == gone.clients_on(tag));
        }
    }

    /// What `remove_client` leaves on each tag: the windows that were there,
    /// in their order, without `c`.
    pub proof fn lemma_removed_stacks(self, c: u32)
        requires
            self.wf(),
        ensures
            forall|tag: Seq<char>|
                self.tags().contains(tag) ==> #[trigger] self.remove_client(c).clients_on(tag)
                    == self.clients_on(tag).remove_value(c),
    {
        let after = self.remove_client(c);
        assert forall|tag: Seq<char>| self.tags().contains(tag) implies #[trigger] after.clients_on(
            tag,
        ) == self.clients_on(tag).remove_value(c) by {
            let items = self.clients_on(tag);
            items.index_of_first_ensures(c);
            if self.contains(c) {
                self.lemma_holder(c);
                let home = self.holder(c);
                if tag == home {
                    let s = self.workspaces[home].stack->0;
                    s.lemma_remove(c);
                    let k = items.index_of(c);
                    let first = items.index_of_first(c)->0;
                    assert(items[first] == c && items[k] == c);
                    assert(first == k);
                    assert(after.clients_on(tag) =~= items.remove(k));
                } else {
                    assert(!items.contains(c)) by {
                        if items.contains(c) {
                            assert(self.holds(tag, c));
                        }
                    }
                }
            } else {
                assert(!items.contains(c)) by {
                    if items.contains(c) {
                        assert(self.holds(tag, c));
                    }
                }
            }
        }
    }
}

/// Sends a newly managed window to the bottom of the stack of the active
/// screen and gives it the focus, whichever tag and place it was given
/// before. A window that is in no stack stays out.
pub fn manage_place_at_tail(id: u32, cs: &mut ClientSet)
    requires
        old(cs).wf(),
    ensures
        final(cs).wf(),
        final(cs)@ == old(cs)@.placed_at_tail(id),
        old(cs)@.contains(id) ==> final(cs)@.current_client() == Some(id),
        old(cs)@.contains(id) ==> final(cs)@.clients_on(final(cs)@.current_tag) == old(
            cs,
        )@.clients_on(old(cs)@.current_tag).remove_value(id).push(id),
        final(cs)@.visible() == old(cs)@.visible(),
        final(cs)@.hidden == old(cs)@.hidden,
{
    proof {
        if cs@.contains(id) {
            cs@.lemma_placed_at_tail(id);
        }
    }
    if let Some(c) = cs.remove_client(id) {
        cs.insert_at(Position::Tail, c);
        cs.focus_client(c);
    }
}

} // verus!
