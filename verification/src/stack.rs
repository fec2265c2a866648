//! The mathematical model of one workspace's stack of windows: a sequence
//! with a hole at the focused window.

use vstd::multiset::Multiset;
use vstd::prelude::*;

verus! {

/// Where a window enters a stack.
#[derive(Clone, Copy, Debug, PartialEq, Eq, Structural)]
pub enum Position {
    /// In place of the focused window, which moves one place down.
    Focus,
    /// Directly above the focused window.
    Before,
    /// Directly below the focused window.
    After,
    /// At the top of the stack.
    Head,
    /// At the bottom of the stack.
    Tail,
}

/// A non-empty stack of windows. `above` and `below` are both listed from
/// the top of the stack downwards, so the stack reads `above`, `focus`,
/// `below`.
pub struct StackView {
    pub above: Seq<u32>,
    pub focus: u32,
    pub below: Seq<u32>,
}

impl StackView {
    /// The stack that holds `c` alone.
    pub open spec fn single(c: u32) -> StackView {
        StackView { above: Seq::empty(), focus: c, below: Seq::empty() }
    }

    /// Every window of the stack, from the top downwards.
    pub open spec fn items(self) -> Seq<u32> {
        self.above.push(self.focus) + self.below
    }

    /// How many windows lie above the focused one.
    pub open spec fn position(self) -> int {
        self.above.len() as int
    }

    /// `c` is one of the windows of the stack.
    pub open spec fn contains(self, c: u32) -> bool {
        self.above.contains(c) || self.focus == c || self.below.contains(c)
    }

    /// The same windows in the same order, with the window at `k` focused.
    pub open spec fn refocused(self, k: int) -> StackView
        recommends
            0 <= k < self.items().len(),
    {
        StackView {
            above: self.items().take(k),
            focus: self.items()[k],
            below: self.items().skip(k + 1),
        }
    }

    /// Focus moves one window up; from the top it wraps to the bottom.
    pub open spec fn focus_up(self) -> StackView {
        if self.above.len() > 0 {
            StackView {
                above: self.above.drop_last(),
                focus: self.above.last(),
                below: seq![self.focus] + self.below,
            }
        } else if self.below.len() > 0 {
            StackView {
                above: seq![self.focus] + self.below.drop_last(),
                focus: self.below.last(),
                below: Seq::empty(),
            }
        } else {
            self
        }
    }

    /// Focus moves one window down; from the bottom it wraps to the top.
    pub open spec fn focus_down(self) -> StackView {
        if self.below.len() > 0 {
            StackView {
                above: self.above.push(self.focus),
                focus: self.below.first(),
                below: self.below.drop_first(),
            }
        } else if self.above.len() > 0 {
            StackView {
                above: Seq::empty(),
                focus: self.above.first(),
                below: self.above.drop_first().push(self.focus),
            }
        } else {
            self
        }
    }

    /// The focused window changes places with the one above it; from the
    /// top it goes to the bottom and the others keep their order.
    pub open spec fn swap_up(self) -> StackView {
        if self.above.len() > 0 {
            StackView {
                above: self.above.drop_last(),
                focus: self.focus,
                below: seq![self.above.last()] + self.below,
            }
        } else {
            StackView { above: self.below, focus: self.focus, below: Seq::empty() }
        }
    }

    /// The focused window changes places with the one below it; from the
    /// bottom it goes to the top and the others keep their order.
    pub open spec fn swap_down(self) -> StackView {
        if self.below.len() > 0 {
            StackView {
                above: self.above.push(self.below.first()),
                focus: self.focus,
                below: self.below.drop_first(),
            }
        } else {
            StackView { above: Seq::empty(), focus: self.focus, below: self.above }
        }
    }

    /// The stack is rotated until the focused window is at the top.
    pub open spec fn rotate_focus_to_head(self) -> StackView {
        StackView { above: Seq::empty(), focus: self.focus, below: self.below + self.above }
    }

    /// The top window takes the focus. The windows that lay between it and
    /// the old focus come out in reverse order.
    pub open spec fn focus_head(self) -> StackView {
        if self.above.len() == 0 {
            self
        } else {
            StackView {
                above: Seq::empty(),
                focus: self.above.first(),
                below: self.above.drop_first().reverse().push(self.focus) + self.below,
            }
        }
    }

    /// `c` enters the stack at `pos`. Only `Position::Focus` moves the focus,
    /// to `c`.
    pub open spec fn insert_at(self, pos: Position, c: u32) -> StackView {
        match pos {
            Position::Focus => StackView {
                above: self.above,
                focus: c,
                below: seq![self.focus] + self.below,
            },
            Position::Before => StackView { above: self.above.push(c), ..self },
            Position::After => StackView { below: seq![c] + self.below, ..self },
            Position::Head => StackView { above: seq![c] + self.above, ..self },
            Position::Tail => StackView { below: self.below.push(c), ..self },
        }
    }

    /// The focused window leaves. Focus passes to the window below it, or
    /// else to the one above it; `None` if it was alone.
    pub open spec fn remove_focused(self) -> Option<StackView> {
        if self.below.len() > 0 {
            Some(
                StackView {
                    above: self.above,
                    focus: self.below.first(),
                    below: self.below.drop_first(),
                },
            )
        } else if self.above.len() > 0 {
            Some(
                StackView {
                    above: self.above.drop_last(),
                    focus: self.above.last(),
                    below: Seq::empty(),
                },
            )
        } else {
            None
        }
    }

    /// `c` leaves the stack, if it is there. Focus stays where it is unless
    /// `c` held it.
    pub open spec fn remove(self, c: u32) -> Option<StackView> {
        if self.above.contains(c) {
            Some(StackView { above: self.above.remove_value(c), ..self })
        } else if self.below.contains(c) {
            Some(StackView { below: self.below.remove_value(c), ..self })
        } else if self.focus == c {
            self.remove_focused()
        } else {
            Some(self)
        }
    }
}

/// The windows of a sequence without their order.
pub open spec fn bag(s: Seq<u32>) -> Multiset<u32> {
    s.to_multiset()
}

/// A sequence with the same windows as one without duplicates has no
/// duplicates either, and holds exactly the same windows.
pub proof fn lemma_same_bag(a: Seq<u32>, b: Seq<u32>)
    requires
        bag(a) == bag(b),
    ensures
        a.no_duplicates() ==> b.no_duplicates(),
        a.len() == b.len(),
        forall|c: u32| a.contains(c) <==> b.contains(c),
{
    broadcast use vstd::seq_lib::group_to_multiset_ensures;

    assert forall|c: u32| a.contains(c) <==> b.contains(c) by {
        assert(a.contains(c) <==> bag(a).count(c) > 0);
        assert(b.contains(c) <==> bag(b).count(c) > 0);
    }
    assert(a.len() == bag(a).len() && b.len() == bag(b).len());
    if a.no_duplicates() {
        a.lemma_multiset_has_no_duplicates();
        b.lemma_multiset_has_no_duplicates_conv();
    }
}

impl StackView {
    /// The windows of a stack are those above the focus, the focus, and
    /// those below it.
    pub proof fn lemma_bag(self)
        ensures
            bag(self.items()) =~= bag(self.above).add(bag(self.below)).insert(self.focus),
    {
        broadcast use vstd::seq_lib::group_to_multiset_ensures;

        vstd::seq_lib::lemma_multiset_commutative(self.above.push(self.focus), self.below);
    }

    /// Moving the focus, swapping and rotating keep the windows of a stack.
    pub proof fn lemma_moves_keep_bag(self)
        ensures
            bag(self.focus_up().items()) == bag(self.items()),
            bag(self.focus_down().items()) == bag(self.items()),
            bag(self.swap_up().items()) == bag(self.items()),
            bag(self.swap_down().items()) == bag(self.items()),
            bag(self.rotate_focus_to_head().items()) == bag(self.items()),
            bag(self.focus_head().items()) == bag(self.items()),
    {
        broadcast use vstd::seq_lib::group_to_multiset_ensures;

        let a = self.above;
        let b = self.below;
        let f = self.focus;
        self.lemma_bag();
        self.focus_up().lemma_bag();
        self.focus_down().lemma_bag();
        self.swap_up().lemma_bag();
        self.swap_down().lemma_bag();
        self.rotate_focus_to_head().lemma_bag();
        self.focus_head().lemma_bag();
        lemma_bag_ends(a);
        lemma_bag_ends(b);
        vstd::seq_lib::lemma_multiset_commutative(seq![f], b);
        vstd::seq_lib::lemma_multiset_commutative(seq![f], b.drop_last());
        vstd::seq_lib::lemma_multiset_commutative(b, a);
        assert(bag(seq![f]) =~= Multiset::empty().insert(f)) by {
            assert(seq![f] =~= Seq::<u32>::empty().push(f));
        }
        if a.len() > 0 {
            let x = a.last();
            vstd::seq_lib::lemma_multiset_commutative(seq![x], b);
            assert(bag(seq![x]) =~= Multiset::empty().insert(x)) by {
                assert(seq![x] =~= Seq::<u32>::empty().push(x));
            }
            a.drop_first().lemma_reverse_to_multiset();
            vstd::seq_lib::lemma_multiset_commutative(a.drop_first().reverse().push(f), b);
        }
        assert(bag(self.focus_up().items()) =~= bag(self.items()));
        assert(bag(self.focus_down().items()) =~= bag(self.items()));
        assert(bag(self.swap_up().items()) =~= bag(self.items()));
        assert(bag(self.swap_down().items()) =~= bag(self.items()));
        assert(bag(self.rotate_focus_to_head().items()) =~= bag(self.items()));
        assert(bag(self.focus_head().items()) =~= bag(self.items()));
    }
}

impl StackView {
    /// A stack holds a window exactly if the window is among its items.
    pub proof fn lemma_contains(self, c: u32)
        ensures
            self.contains(c) <==> self.items().contains(c),
    {
        broadcast use vstd::seq_lib::group_seq_properties;

        assert(self.above.push(self.focus).contains(c) <==> self.above.contains(c) || self.focus
            == c);
    }

    /// Focusing another window of a stack keeps the stack's order.
    pub proof fn lemma_refocused(self, k: int)
        requires
            0 <= k < self.items().len(),
        ensures
            self.refocused(k).items() =~= self.items(),
            self.refocused(k).focus == self.items()[k],
    {
    }

    /// A window that enters a stack is added to its windows.
    pub proof fn lemma_insert_bag(self, pos: Position, c: u32)
        ensures
            bag(self.insert_at(pos, c).items()) == bag(self.items()).insert(c),
            pos == Position::Tail ==> self.insert_at(pos, c).items() =~= self.items().push(c),
            pos == Position::Head ==> self.insert_at(pos, c).items() =~= seq![c] + self.items(),
    {
        broadcast use vstd::seq_lib::group_to_multiset_ensures;

        self.lemma_bag();
        self.insert_at(pos, c).lemma_bag();
        vstd::seq_lib::lemma_multiset_commutative(seq![c], self.below);
        vstd::seq_lib::lemma_multiset_commutative(seq![c], self.above);
        vstd::seq_lib::lemma_multiset_commutative(seq![self.focus], self.below);
        assert(bag(seq![c]) =~= Multiset::empty().insert(c)) by {
            assert(seq![c] =~= Seq::<u32>::empty().push(c));
        }
        assert(bag(seq![self.focus]) =~= Multiset::empty().insert(self.focus)) by {
            assert(seq![self.focus] =~= Seq::<u32>::empty().push(self.focus));
        }
        assert(bag(self.insert_at(pos, c).items()) =~= bag(self.items()).insert(c));
    }

    /// When the focused window leaves, the others stay in their order.
    pub proof fn lemma_remove_focused(self)
        ensures
            match self.remove_focused() {
                Some(r) => r.items() =~= self.items().remove(self.position()),
                None => self.items() =~= seq![self.focus],
            },
    {
    }

    /// When a window of a stack without duplicates leaves, the others stay
    /// in their order; a window that is not there changes nothing.
    pub proof fn lemma_remove(self, c: u32)
        requires
            self.items().no_duplicates(),
        ensures
            !self.items().contains(c) ==> self.remove(c) == Some(self),
            self.items().contains(c) ==> match self.remove(c) {
                Some(r) => r.items() =~= self.items().remove(self.items().index_of(c)),
                None => self.items() =~= seq![c],
            },
    {
        broadcast use vstd::seq_lib::group_seq_properties;

        self.lemma_contains(c);
        self.lemma_remove_focused();
        let items = self.items();
        if items.contains(c) {
            let k = items.index_of(c);
            if self.above.contains(c) {
                self.above.index_of_first_ensures(c);
                let i = self.above.index_of_first(c)->0;
                assert(items[i] == c);
                assert(i == k);
                assert(self.remove(c)->0.items() =~= items.remove(k));
            } else if self.below.contains(c) {
                self.below.index_of_first_ensures(c);
                let i = self.below.index_of_first(c)->0;
                assert(items[self.above.len() + 1 + i] == c);
                assert(self.above.len() + 1 + i == k);
                assert(self.remove(c)->0.items() =~= items.remove(k));
            } else {
                assert(items[self.position()] == c);
                assert(k == self.position());
            }
        }
    }
}

/// A non-empty sequence holds its first window and the rest, and likewise
/// its last window and the rest.
pub proof fn lemma_bag_ends(s: Seq<u32>)
    ensures
        s.len() > 0 ==> bag(s) =~= bag(s.drop_last()).insert(s.last()),
        s.len() > 0 ==> bag(s) =~= bag(s.drop_first()).insert(s.first()),
        s.len() == 0 ==> bag(s) =~= Multiset::empty(),
{
    broadcast use vstd::seq_lib::group_to_multiset_ensures;

    if s.len() > 0 {
        assert(s =~= s.drop_last().push(s.last()));
        assert(s =~= seq![s.first()] + s.drop_first());
        vstd::seq_lib::lemma_multiset_commutative(seq![s.first()], s.drop_first());
        assert(seq![s.first()] =~= Seq::<u32>::empty().push(s.first()));
        assert(bag(Seq::<u32>::empty()) =~= Multiset::empty()) by {
            assert(Seq::<u32>::empty().len() == 0);
        }
    } else {
        assert(bag(s).len() == 0);
    }
}

} // verus!
