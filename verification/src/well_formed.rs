//! Every operation on the client set keeps it well formed: no tag and no
//! window comes to occur twice.

use vstd::prelude::*;
use crate::distinct::{all_apart, apart};
use crate::model::ClientSetView;
use crate::stack::{bag, lemma_same_bag, Position, StackView};

verus! {

/// The windows of a stack that may be absent.
pub open spec fn items_of(stack: Option<StackView>) -> Seq<u32> {
    match stack {
        Some(s) => s.items(),
        None => Seq::empty(),
    }
}

/// Taking one item out of a sequence without duplicates leaves no
/// duplicates, and exactly the other items.
pub proof fn lemma_remove_item<A>(s: Seq<A>, k: int)
    requires
        s.no_duplicates(),
        0 <= k < s.len(),
    ensures
        s.remove(k).no_duplicates(),
        forall|x: A| s.remove(k).contains(x) <==> s.contains(x) && x != s[k],
{
    let r = s.remove(k);
    assert forall|x: A| r.contains(x) <==> s.contains(x) && x != s[k] by {
        if r.contains(x) {
            let i = choose|i: int| 0 <= i < r.len() && r[i] == x;
            if i < k {
                assert(s[i] == x);
            } else {
                assert(s[i + 1] == x);
            }
        }
        if s.contains(x) && x != s[k] {
            let i = choose|i: int| 0 <= i < s.len() && s[i] == x;
            if i < k {
                assert(r[i] == x);
            } else {
                assert(r[i - 1] == x);
            }
        }
    }
}

/// Adding a new item to the windows of a sequence without duplicates, at
/// any place, leaves no duplicates.
pub proof fn lemma_added_item(a: Seq<u32>, b: Seq<u32>, c: u32)
    requires
        a.no_duplicates(),
        !a.contains(c),
        bag(b) == bag(a).insert(c),
    ensures
        b.no_duplicates(),
        forall|x: u32| b.contains(x) <==> x == c || a.contains(x),
{
    broadcast use vstd::seq_lib::group_to_multiset_ensures;

    a.lemma_multiset_has_no_duplicates();
    assert forall|x: u32| b.contains(x) <==> x == c || a.contains(x) by {
        assert(b.contains(x) <==> bag(b).count(x) > 0);
        assert(a.contains(x) <==> bag(a).count(x) > 0);
    }
    assert forall|x: u32| bag(b).contains(x) implies bag(b).count(x) == 1 by {
        assert(a.contains(x) <==> bag(a).count(x) > 0);
    }
    b.lemma_multiset_has_no_duplicates_conv();
}

/// When a hidden tag, the `j`th of them, takes the active screen, the `p`th
/// of `n`, the tag at place `i` of the `len` tags stood at this place before.
spec fn place_before(i: int, p: int, n: int, j: int, len: int) -> int {
    if i == p {
        n + j
    } else if i < n {
        i
    } else if i == len - 1 {
        p
    } else if i - n < j {
        i
    } else {
        i + 1
    }
}

impl ClientSetView {
    /// The stacks of all tags, in the order of the tags.
    pub open spec fn stacks(self) -> Seq<Seq<u32>> {
        Seq::new(self.tags().len(), |k: int| self.clients_on(self.tags()[k]))
    }

    /// A client set is well formed exactly if its tags are distinct and are
    /// those that have a workspace, no stack holds a window twice, and no two
    /// stacks share a window.
    pub proof fn lemma_wf_by_stacks(self)
        ensures
            self.wf() <==> {
                &&& self.tags().no_duplicates()
                &&& forall|tag: Seq<char>|
                    self.workspaces.dom().contains(tag) <==> self.tags().contains(tag)
                &&& all_apart(self.stacks())
            },
    {
        let tags = self.tags();
        let s = self.stacks();
        if self.wf() {
            assert forall|a: int| 0 <= a < s.len() implies (#[trigger] s[a]).no_duplicates() by {
                assert(tags.contains(tags[a]));
            }
            assert forall|a: int, b: int| 0 <= a < b < s.len() implies apart(s[a], s[b]) by {
                assert forall|x: int, y: int|
                    0 <= x < s[a].len() && 0 <= y < s[b].len() implies s[a][x] != s[b][y] by {
                    if s[a][x] == s[b][y] {
                        assert(self.holds(tags[a], s[a][x]));
                        assert(self.holds(tags[b], s[a][x]));
                    }
                }
            }
        }
        if tags.no_duplicates() && all_apart(s) {
            assert forall|tag: Seq<char>| #[trigger] tags.contains(tag) implies self.clients_on(
                tag,
            ).no_duplicates() by {
                let k = choose|k: int| 0 <= k < tags.len() && tags[k] == tag;
                assert(s[k].no_duplicates());
            }
            assert forall|t1: Seq<char>, t2: Seq<char>, c: u32| #[trigger]
                self.holds(t1, c) && #[trigger] self.holds(t2, c) implies t1 == t2 by {
                let a = choose|k: int| 0 <= k < tags.len() && tags[k] == t1;
                let b = choose|k: int| 0 <= k < tags.len() && tags[k] == t2;
                let x = choose|x: int| 0 <= x < s[a].len() && s[a][x] == c;
                let y = choose|y: int| 0 <= y < s[b].len() && s[b][y] == c;
                if a < b {
                    assert(apart(s[a], s[b]));
                } else if b < a {
                    assert(apart(s[b], s[a]));
                }
            }
        }
    }

    /// The current tag is one of the tags.
    pub proof fn lemma_current_is_tag(self)
        ensures
            self.visible().contains(self.current_tag),
            self.tags().contains(self.current_tag),
    {
        let k = self.screens_above.len() as int;
        assert(self.visible()[k] == self.current_tag);
        assert(self.tags()[k] == self.current_tag);
    }

    /// A tag's stack may be replaced by one without duplicates whose windows
    /// were on that tag already or are on no tag.
    pub proof fn lemma_with_stack_wf(self, tag: Seq<char>, stack: Option<StackView>)
        requires
            self.wf(),
            self.tags().contains(tag),
            items_of(stack).no_duplicates(),
            forall|c: u32| #[trigger]
                items_of(stack).contains(c) ==> self.clients_on(tag).contains(c) || !self.contains(
                    c,
                ),
        ensures
            self.with_stack(tag, stack).wf(),
            self.with_stack(tag, stack).clients_on(tag) == items_of(stack),
            forall|t: Seq<char>|
                t != tag ==> #[trigger] self.with_stack(tag, stack).clients_on(t)
                    == self.clients_on(t),
    {
        let after = self.with_stack(tag, stack);
        assert(after.tags() == self.tags());
        assert(after.clients_on(tag) == items_of(stack));
        assert forall|t: Seq<char>| t != tag implies #[trigger] after.clients_on(t)
            == self.clients_on(t) by {}
        assert forall|t: Seq<char>| #[trigger] after.tags().contains(t) implies after.clients_on(
            t,
        ).no_duplicates() by {
            if t != tag {
                assert(after.clients_on(t) == self.clients_on(t));
            }
        }
        assert forall|t1: Seq<char>, t2: Seq<char>, c: u32| #[trigger]
            after.holds(t1, c) && #[trigger] after.holds(t2, c) implies t1 == t2 by {
            if t1 != t2 {
                if t1 != tag && t2 != tag {
                    assert(self.holds(t1, c) && self.holds(t2, c));
                } else if t1 == tag {
                    assert(self.holds(t2, c));
                    assert(self.contains(c));
                    assert(self.holds(tag, c));
                } else {
                    assert(self.holds(t1, c));
                    assert(self.contains(c));
                    assert(self.holds(tag, c));
                }
            }
        }
    }

    /// The tags may be rearranged among screens and hidden ones, as long as
    /// none is lost, added or doubled.
    pub proof fn lemma_rearranged_wf(self, after: ClientSetView)
        requires
            self.wf(),
            after.workspaces == self.workspaces,
            after.tags().no_duplicates(),
            forall|t: Seq<char>| after.tags().contains(t) <==> self.tags().contains(t),
        ensures
            after.wf(),
    {
        assert forall|t: Seq<char>| #[trigger] after.tags().contains(t) implies after.clients_on(
            t,
        ).no_duplicates() by {
            assert(self.tags().contains(t));
        }
        assert forall|t1: Seq<char>, t2: Seq<char>, c: u32| #[trigger]
            after.holds(t1, c) && #[trigger] after.holds(t2, c) implies t1 == t2 by {
            assert(self.holds(t1, c) && self.holds(t2, c));
        }
    }
}

impl ClientSetView {
    /// A window that some tag holds is in a stack, and the tag is the one
    /// that `holder` names.
    pub proof fn lemma_holder(self, c: u32)
        requires
            self.wf(),
            self.contains(c),
        ensures
            self.holds(self.holder(c), c),
            self.workspaces[self.holder(c)].stack is Some,
            forall|t: Seq<char>| self.holds(t, c) ==> t == self.holder(c),
    {
        let tag = self.holder(c);
        assert(self.holds(tag, c));
        assert(self.workspaces[tag].clients().len() > 0);
    }

    /// The moves within the stack of the active screen keep the client set
    /// well formed.
    pub proof fn lemma_stack_moves_wf(self)
        requires
            self.wf(),
        ensures
            self.focus_up().wf(),
            self.focus_down().wf(),
            self.swap_up().wf(),
            self.swap_down().wf(),
            self.rotate_focus_to_head().wf(),
            self.focus_head().wf(),
    {
        self.lemma_current_is_tag();
        match self.current().stack {
            Some(s) => {
                s.lemma_moves_keep_bag();
                lemma_same_bag(s.items(), s.focus_up().items());
                lemma_same_bag(s.items(), s.focus_down().items());
                lemma_same_bag(s.items(), s.swap_up().items());
                lemma_same_bag(s.items(), s.swap_down().items());
                lemma_same_bag(s.items(), s.rotate_focus_to_head().items());
                lemma_same_bag(s.items(), s.focus_head().items());
                self.lemma_with_stack_wf(self.current_tag, Some(s.focus_up()));
                self.lemma_with_stack_wf(self.current_tag, Some(s.focus_down()));
                self.lemma_with_stack_wf(self.current_tag, Some(s.swap_up()));
                self.lemma_with_stack_wf(self.current_tag, Some(s.swap_down()));
                self.lemma_with_stack_wf(self.current_tag, Some(s.rotate_focus_to_head()));
                self.lemma_with_stack_wf(self.current_tag, Some(s.focus_head()));
            },
            None => {},
        }
    }

    /// Cycling the layouts keeps the client set well formed.
    pub proof fn lemma_layouts_wf(self)
        requires
            self.wf(),
        ensures
            self.next_layout().wf(),
            self.previous_layout().wf(),
    {
        self.lemma_current_is_tag();
        self.lemma_with_stack_wf(self.current_tag, self.current().stack);
        let a = self.next_layout();
        let b = self.previous_layout();
        assert forall|t: Seq<char>| #[trigger]
            a.clients_on(t) == self.clients_on(t) && b.clients_on(t) == self.clients_on(t) by {}
        assert(a.tags() == self.tags() && b.tags() == self.tags());
        assert forall|t1: Seq<char>, t2: Seq<char>, c: u32| #[trigger]
            a.holds(t1, c) && #[trigger] a.holds(t2, c) implies t1 == t2 by {
            assert(self.holds(t1, c) && self.holds(t2, c));
        }
        assert forall|t1: Seq<char>, t2: Seq<char>, c: u32| #[trigger]
            b.holds(t1, c) && #[trigger] b.holds(t2, c) implies t1 == t2 by {
            assert(self.holds(t1, c) && self.holds(t2, c));
        }
    }

    /// Moving between screens keeps the client set well formed, and keeps
    /// every tag on its screen.
    pub proof fn lemma_screens_wf(self)
        requires
            self.wf(),
        ensures
            self.next_screen().wf(),
            self.previous_screen().wf(),
            self.next_screen().visible() == self.visible(),
            self.previous_screen().visible() == self.visible(),
    {
        assert(self.next_screen().visible() =~= self.visible());
        assert(self.previous_screen().visible() =~= self.visible());
        self.lemma_rearranged_wf(self.next_screen());
        self.lemma_rearranged_wf(self.previous_screen());
    }

    /// Bringing a tag to the front keeps the client set well formed; a tag
    /// that is known is the current one afterwards.
    pub proof fn lemma_focus_tag_wf(self, tag: Seq<char>)
        requires
            self.wf(),
        ensures
            self.focus_tag(tag).wf(),
            self.focus_tag(tag).workspaces == self.workspaces,
            self.tags().contains(tag) ==> self.focus_tag(tag).current_tag == tag,
            !self.tags().contains(tag) ==> self.focus_tag(tag) == self,
            forall|t: Seq<char>|
                self.focus_tag(tag).tags().contains(t) <==> self.tags().contains(t),
    {
        broadcast use vstd::seq_lib::group_seq_properties;

        let after = self.focus_tag(tag);
        self.lemma_current_is_tag();
        if tag == self.current_tag {
        } else if self.screens_above.contains(tag) || self.screens_below.contains(tag) {
            assert(self.visible().contains(tag));
            assert(after.visible() =~= self.visible());
            self.lemma_rearranged_wf(after);
        } else if self.hidden.contains(tag) {
            self.hidden.index_of_first_ensures(tag);
            let j = self.hidden.index_of_first(tag)->0;
            let n = self.visible().len() as int;
            let hidden = self.hidden;
            assert(hidden.no_duplicates()) by {
                assert forall|i: int, k: int|
                    0 <= i < hidden.len() && 0 <= k < hidden.len() && i != k implies hidden[i]
                    != hidden[k] by {
                    assert(self.tags()[n + i] == hidden[i]);
                    assert(self.tags()[n + k] == hidden[k]);
                }
            }
            lemma_remove_item(self.hidden, j);
            let rest = self.hidden.remove(j);
            assert(after.hidden == rest.push(self.current_tag));
            assert forall|t: Seq<char>| after.tags().contains(t) <==> self.tags().contains(t) by {
                let beside = self.screens_above.contains(t) || self.screens_below.contains(t);
                assert(after.visible().contains(t) <==> beside || t == tag);
                assert(self.visible().contains(t) <==> beside || t == self.current_tag);
                assert(after.hidden.contains(t) <==> rest.contains(t) || t == self.current_tag);
            }
            assert(after.tags().no_duplicates()) by {
                let a = after.tags();
                let b = self.tags();
                let p = self.screens_above.len() as int;
                assert forall|i: int, k: int|
                    0 <= i < a.len() && 0 <= k < a.len() && i != k implies a[i] != a[k] by {
                    let from_i = place_before(i, p, n, j, a.len() as int);
                    let from_k = place_before(k, p, n, j, a.len() as int);
                    assert(a[i] == b[from_i]);
                    assert(a[k] == b[from_k]);
                    assert(from_i != from_k);
                }
            }
            self.lemma_rearranged_wf(after);
        } else {
            assert(!self.tags().contains(tag));
        }
    }

    /// A new window in the stack of the active screen keeps the client set
    /// well formed.
    pub proof fn lemma_insert_at_wf(self, pos: Position, c: u32)
        requires
            self.wf(),
        ensures
            self.insert_at(pos, c).wf(),
            self.insert_at(pos, c).contains(c),
    {
        self.lemma_current_is_tag();
        let tag = self.current_tag;
        if self.contains(c) {
        } else {
            let stack = match self.current().stack {
                Some(s) => s.insert_at(pos, c),
                None => StackView::single(c),
            };
            assert(!self.clients_on(tag).contains(c)) by {
                if self.clients_on(tag).contains(c) {
                    assert(self.holds(tag, c));
                }
            }
            match self.current().stack {
                Some(s) => {
                    s.lemma_insert_bag(pos, c);
                    lemma_added_item(s.items(), stack.items(), c);
                },
                None => {
                    assert(stack.items() =~= seq![c]);
                    assert forall|x: u32| stack.items().contains(x) implies x == c by {
                        let items = stack.items();
                        let i = choose|i: int| 0 <= i < items.len() && items[i] == x;
                    }
                },
            }
            assert(stack.items().contains(c)) by {
                match self.current().stack {
                    Some(s) => {},
                    None => { assert(stack.items()[0] == c); },
                }
            }
            self.lemma_with_stack_wf(tag, Some(stack));
            assert(self.insert_at(pos, c).holds(tag, c));
        }
    }

    /// Taking a window out keeps the client set well formed, and the window
    /// is on no tag afterwards.
    pub proof fn lemma_remove_client_wf(self, c: u32)
        requires
            self.wf(),
        ensures
            self.remove_client(c).wf(),
            !self.remove_client(c).contains(c),
            self.remove_client(c).tags() == self.tags(),
            self.remove_client(c).current_tag == self.current_tag,
            forall|x: u32| x != c ==> (self.remove_client(c).contains(x) <==> self.contains(x)),
    {
        let sunk = ClientSetView { floating: self.floating.remove(c), ..self };
        let after = self.remove_client(c);
        assert(sunk.wf()) by {
            assert(sunk.tags() == self.tags());
            assert forall|t1: Seq<char>, t2: Seq<char>, x: u32| #[trigger]
                sunk.holds(t1, x) && #[trigger] sunk.holds(t2, x) implies t1 == t2 by {
                assert(self.holds(t1, x) && self.holds(t2, x));
            }
        }
        assert forall|t: Seq<char>, x: u32| sunk.holds(t, x) <==> self.holds(t, x) by {}
        if self.contains(c) {
            self.lemma_holder(c);
            let tag = self.holder(c);
            let s = self.workspaces[tag].stack->0;
            s.lemma_remove(c);
            let k = s.items().index_of(c);
            assert(0 <= k < s.items().len() && s.items()[k] == c);
            lemma_remove_item(s.items(), k);
            let left = s.remove(c);
            assert(items_of(left) =~= s.items().remove(k));
            assert(sunk.clients_on(tag) == s.items());
            sunk.lemma_with_stack_wf(tag, left);
            assert forall|t: Seq<char>| !after.holds(t, c) by {
                if after.holds(t, c) {
                    if t != tag {
                        assert(after.clients_on(t) == sunk.clients_on(t));
                        assert(self.holds(t, c));
                    }
                }
            }
            assert forall|x: u32| x != c implies (after.contains(x) <==> self.contains(x)) by {
                if after.contains(x) {
                    let t = choose|t: Seq<char>| after.holds(t, x);
                    if t != tag {
                        assert(after.clients_on(t) == sunk.clients_on(t));
                    }
                    assert(self.holds(t, x));
                }
                if self.contains(x) {
                    let t = choose|t: Seq<char>| self.holds(t, x);
                    if t != tag {
                        assert(after.clients_on(t) == sunk.clients_on(t));
                    }
                    assert(after.holds(t, x));
                }
            }
        } else {
            assert forall|t: Seq<char>| !after.holds(t, c) by {
                if after.holds(t, c) {
                    assert(self.holds(t, c));
                }
            }
            assert forall|x: u32| x != c implies (after.contains(x) <==> self.contains(x)) by {
                if after.contains(x) {
                    let t = choose|t: Seq<char>| after.holds(t, x);
                    assert(self.holds(t, x));
                }
                if self.contains(x) {
                    let t = choose|t: Seq<char>| self.holds(t, x);
                    assert(after.holds(t, x));
                }
            }
        }
    }

    /// Closing the focused window keeps the client set well formed.
    pub proof fn lemma_kill_focused_wf(self)
        requires
            self.wf(),
        ensures
            self.kill_focused().wf(),
    {
        match self.current_client() {
            Some(c) => {
                self.lemma_remove_client_wf(c);
                let gone = self.remove_client(c);
                let after = self.kill_focused();
                assert(after.tags() == gone.tags());
                assert forall|t1: Seq<char>, t2: Seq<char>, x: u32| #[trigger]
                    after.holds(t1, x) && #[trigger] after.holds(t2, x) implies t1 == t2 by {
                    assert(gone.holds(t1, x) && gone.holds(t2, x));
                }
            },
            None => {},
        }
    }

    /// Focusing a window keeps the client set well formed; a window that is
    /// on some tag is the focused window of the active screen afterwards.
    pub proof fn lemma_focus_client_wf(self, c: u32)
        requires
            self.wf(),
        ensures
            self.focus_client(c).wf(),
            self.contains(c) ==> self.focus_client(c).current_client() == Some(c),
            self.contains(c) ==> self.focus_client(c).current_tag == self.holder(c),
            !self.contains(c) ==> self.focus_client(c) == self,
            forall|t: Seq<char>| #[trigger]
                self.focus_client(c).clients_on(t) == self.clients_on(t),
    {
        self.lemma_current_is_tag();
        if self.current_client() == Some(c) {
            assert(self.clients_on(self.current_tag).contains(c)) by {
                let s = self.current().stack->0;
                assert(s.items()[s.position()] == c);
            }
            assert(self.holds(self.current_tag, c));
            self.lemma_holder(c);
        } else if !self.contains(c) {
        } else {
            self.lemma_holder(c);
            let tag = self.holder(c);
            let s = self.workspaces[tag].stack->0;
            let k = s.items().index_of(c);
            assert(0 <= k < s.items().len() && s.items()[k] == c);
            s.lemma_refocused(k);
            let turned = self.focus_tag(tag);
            self.lemma_focus_tag_wf(tag);
            assert(turned.clients_on(tag) == s.items());
            turned.lemma_with_stack_wf(tag, Some(s.refocused(k)));
            let after = self.focus_client(c);
            assert forall|t: Seq<char>| #[trigger] after.clients_on(t) == self.clients_on(t) by {
                if t != tag {
                    assert(after.clients_on(t) == turned.clients_on(t));
                }
            }
        }
    }

    /// Sending the focused window to another tag keeps the client set well
    /// formed.
    pub proof fn lemma_move_focused_to_tag_wf(self, tag: Seq<char>)
        requires
            self.wf(),
        ensures
            self.move_focused_to_tag(tag).wf(),
    {
        self.lemma_current_is_tag();
        if tag == self.current_tag || !self.tags().contains(tag) {
        } else {
            match self.current().stack {
                Some(s) => {
                    let here = self.current_tag;
                    let c = s.focus;
                    s.lemma_remove_focused();
                    assert(s.items()[s.position()] == c);
                    assert(self.holds(here, c));
                    lemma_remove_item(s.items(), s.position());
                    let left = s.remove_focused();
                    assert(items_of(left) =~= s.items().remove(s.position()));
                    self.lemma_with_stack_wf(here, left);
                    let lifted = self.with_stack(here, left);
                    assert(!lifted.contains(c)) by {
                        if lifted.contains(c) {
                            let t = choose|t: Seq<char>| lifted.holds(t, c);
                            if t != here {
                                assert(lifted.clients_on(t) == self.clients_on(t));
                                assert(self.holds(t, c));
                            }
                        }
                    }
                    assert(lifted.workspaces[tag] == self.workspaces[tag]);
                    let landed = match self.workspaces[tag].stack {
                        Some(d) => d.insert_at(Position::Focus, c),
                        None => StackView::single(c),
                    };
                    assert(!lifted.clients_on(tag).contains(c)) by {
                        if lifted.clients_on(tag).contains(c) {
                            assert(lifted.holds(tag, c));
                        }
                    }
                    match self.workspaces[tag].stack {
                        Some(d) => {
                            d.lemma_insert_bag(Position::Focus, c);
                            lemma_added_item(d.items(), landed.items(), c);
                        },
                        None => {
                            assert(landed.items() =~= seq![c]);
                            assert forall|x: u32| landed.items().contains(x) implies x == c by {
                                let items = landed.items();
                                let i = choose|i: int| 0 <= i < items.len() && items[i] == x;
                            }
                        },
                    }
                    lifted.lemma_with_stack_wf(tag, Some(landed));
                },
                None => {},
            }
        }
    }
}

} // verus!
