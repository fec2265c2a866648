//! What holds of the client set whatever it contains.

use vstd::prelude::*;
use crate::model::{ClientSetView, WorkspaceView};
use crate::stack::{bag, Position, StackView};

verus! {

impl WorkspaceView {
    /// The workspace after `n` steps to the next layout.
    pub open spec fn next_layouts(self, n: nat) -> WorkspaceView
        decreases n,
    {
        if n == 0 {
            self
        } else {
            self.next_layout().next_layouts((n - 1) as nat)
        }
    }

    /// As long as layouts are left after the active one, each step moves
    /// one of them before it.
    proof fn lemma_next_layouts_within(self, n: nat)
        requires
            n <= self.layouts_after,
        ensures
            self.next_layouts(n) == (WorkspaceView {
                layouts_before: self.layouts_before + n,
                layouts_after: (self.layouts_after - n) as nat,
                ..self
            }),
        decreases n,
    {
        if n > 0 {
            self.next_layout().lemma_next_layouts_within((n - 1) as nat);
        }
    }

    /// Steps add up.
    proof fn lemma_next_layouts_sum(self, a: nat, b: nat)
        ensures
            self.next_layouts(a + b) == self.next_layouts(a).next_layouts(b),
        decreases a,
    {
        if a > 0 {
            self.next_layout().lemma_next_layouts_sum((a - 1) as nat, b);
            assert((a + b - 1) as nat == (a - 1) as nat + b);
        }
    }

    /// Going to the next layout as many times as there are layouts leads
    /// back to the layout one started from.
    pub proof fn law_layouts_cycle(self)
        ensures
            self.next_layouts(self.layout_count()) == self,
    {
        let at_last = self.next_layouts(self.layouts_after);
        self.lemma_next_layouts_within(self.layouts_after);
        let at_first = at_last.next_layout();
        at_first.lemma_next_layouts_within(self.layouts_before);
        self.lemma_next_layouts_sum(self.layouts_after, 1);
        assert(at_last.next_layouts(1) == at_first) by {
            assert(at_last.next_layout().next_layouts(0) == at_first);
        }
        self.lemma_next_layouts_sum(self.layouts_after + 1, self.layouts_before);
        assert(self.layout_count() == self.layouts_after + 1 + self.layouts_before);
    }

    /// `next_layout` and `previous_layout` undo each other.
    pub proof fn law_layout_steps_undo(self)
        ensures
            self.next_layout().previous_layout() == self,
            self.previous_layout().next_layout() == self,
    {
    }
}

impl StackView {
    /// `swap_up` and `swap_down` undo each other, and so do `focus_up` and
    /// `focus_down`, wrapping included.
    pub proof fn law_moves_undo(self)
        ensures
            self.swap_down().swap_up() == self,
            self.swap_up().swap_down() == self,
            self.focus_down().focus_up() == self,
            self.focus_up().focus_down() == self,
    {
        let a = self.above;
        let b = self.below;
        let f = self.focus;
        if b.len() > 0 {
            assert(a.push(b.first()).drop_last() =~= a);
            assert(a.push(f).drop_last() =~= a);
            assert(seq![b.first()] + b.drop_first() =~= b);
            assert((seq![f] + b.drop_last()).drop_first().push(b.last()) =~= b);
        }
        if a.len() > 0 {
            assert(a.drop_last().push(a.last()) =~= a);
            assert((seq![a.last()] + b).drop_first() =~= b);
            assert((seq![f] + b).drop_first() =~= b);
            assert(seq![a.first()] + a.drop_first().push(f).drop_last() =~= a);
        }
        assert(self.swap_down().swap_up().above =~= a);
        assert(self.swap_down().swap_up().below =~= b);
        assert(self.swap_up().swap_down().above =~= a);
        assert(self.swap_up().swap_down().below =~= b);
        assert(self.focus_down().focus_up().above =~= a);
        assert(self.focus_down().focus_up().below =~= b);
        assert(self.focus_up().focus_down().above =~= a);
        assert(self.focus_up().focus_down().below =~= b);
    }

    /// On a stack of two windows, swapping down twice leads back to where
    /// one started.
    pub proof fn law_swap_down_pair(self)
        requires
            self.items().len() == 2,
        ensures
            self.swap_down().swap_down() == self,
            self.swap_down().focus == self.focus,
            self.swap_down().items() == self.items().reverse(),
    {
        let once = self.swap_down();
        assert(once.swap_down().above =~= self.above);
        assert(once.swap_down().below =~= self.below);
        assert(once.items() =~= self.items().reverse());
    }
}

impl ClientSetView {
    /// The client set after `n` steps to the next layout.
    pub open spec fn next_layouts(self, n: nat) -> ClientSetView
        decreases n,
    {
        if n == 0 {
            self
        } else {
            self.next_layout().next_layouts((n - 1) as nat)
        }
    }

    /// Layout steps touch the layouts of the current tag and nothing else.
    proof fn lemma_next_layouts(self, n: nat)
        requires
            n > 0,
        ensures
            self.next_layouts(n) == (ClientSetView {
                workspaces: self.workspaces.insert(
                    self.current_tag,
                    self.current().next_layouts(n),
                ),
                ..self
            }),
        decreases n,
    {
        let step = self.next_layout();
        assert(step.current() == self.current().next_layout());
        if n > 1 {
            step.lemma_next_layouts((n - 1) as nat);
            assert(step.workspaces.insert(
                self.current_tag,
                self.current().next_layout().next_layouts((n - 1) as nat),
            ) =~= self.workspaces.insert(self.current_tag, self.current().next_layouts(n)));
        } else {
            assert(step.next_layouts(0) == step);
            assert(self.current().next_layouts(1) == self.current().next_layout()) by {
                assert(self.current().next_layout().next_layouts(0)
                    == self.current().next_layout());
            }
        }
    }

    /// Taking a window out twice is the same as taking it out once: the
    /// second time finds nothing and changes nothing.
    pub proof fn law_remove_client_twice(self, c: u32)
        requires
            self.wf(),
        ensures
            !self.remove_client(c).contains(c),
            self.remove_client(c).remove_client(c) == self.remove_client(c),
    {
        self.lemma_remove_client_wf(c);
        let once = self.remove_client(c);
        assert(once.floating.remove(c) =~= once.floating);
    }

    /// A window that was inserted is the focused window of the active
    /// screen once it has been focused.
    pub proof fn law_insert_then_focus(self, pos: Position, c: u32)
        requires
            self.wf(),
        ensures
            self.insert_at(pos, c).focus_client(c).current_client() == Some(c),
    {
        self.lemma_insert_at_wf(pos, c);
        self.insert_at(pos, c).lemma_focus_client_wf(c);
    }

    /// Moving the focused window to the tag it is on changes nothing.
    pub proof fn law_move_to_own_tag(self)
        ensures
            self.move_focused_to_tag(self.current_tag) == self,
    {
    }

    /// Going to the next layout as many times as the active workspace has
    /// layouts leads back to the client set one started from.
    pub proof fn law_layouts_cycle(self)
        requires
            self.wf(),
        ensures
            self.next_layouts(self.current().layout_count()) == self,
    {
        let n = self.current().layout_count();
        self.lemma_next_layouts(n);
        self.current().law_layouts_cycle();
        self.lemma_current_is_tag();
        assert(self.workspaces.insert(self.current_tag, self.current()) =~= self.workspaces);
    }

    /// The moves within a stack rearrange its windows and neither add nor
    /// drop one; every other tag keeps its stack.
    pub proof fn law_moves_keep_windows(self, tag: Seq<char>)
        requires
            self.wf(),
        ensures
            bag(self.focus_up().clients_on(tag)) == bag(self.clients_on(tag)),
            bag(self.focus_down().clients_on(tag)) == bag(self.clients_on(tag)),
            bag(self.swap_up().clients_on(tag)) == bag(self.clients_on(tag)),
            bag(self.swap_down().clients_on(tag)) == bag(self.clients_on(tag)),
            bag(self.rotate_focus_to_head().clients_on(tag)) == bag(self.clients_on(tag)),
            bag(self.focus_head().clients_on(tag)) == bag(self.clients_on(tag)),
    {
        match self.current().stack {
            Some(s) => {
                s.lemma_moves_keep_bag();
            },
            None => {},
        }
    }

    /// `swap_up` and `swap_down` undo each other on the client set, and so
    /// do `focus_up` and `focus_down`.
    pub proof fn law_moves_undo(self)
        requires
            self.wf(),
        ensures
            self.swap_down().swap_up() == self,
            self.swap_up().swap_down() == self,
            self.focus_down().focus_up() == self,
            self.focus_up().focus_down() == self,
    {
        self.lemma_current_is_tag();
        match self.current().stack {
            Some(s) => {
                s.law_moves_undo();
                assert(self.swap_down().swap_up().workspaces =~= self.workspaces);
                assert(self.swap_up().swap_down().workspaces =~= self.workspaces);
                assert(self.focus_down().focus_up().workspaces =~= self.workspaces);
                assert(self.focus_up().focus_down().workspaces =~= self.workspaces);
            },
            None => {},
        }
    }
}

} // verus!
