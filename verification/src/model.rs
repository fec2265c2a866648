//! The mathematical model of the whole client set: which tag is shown on
//! which screen, which tags are hidden, and the stack of every tag.

use vstd::prelude::*;
use crate::stack::{Position, StackView};

verus! {

/// One tag's workspace: its windows, and the place of its active layout
/// among the layouts it can cycle through.
pub struct WorkspaceView {
    /// `None` while the workspace holds no window.
    pub stack: Option<StackView>,
    /// How many layouts come before the active one.
    pub layouts_before: nat,
    /// How many layouts come after the active one.
    pub layouts_after: nat,
}

impl WorkspaceView {
    /// The windows of the workspace, from the top of its stack downwards.
    pub open spec fn clients(self) -> Seq<u32> {
        match self.stack {
            Some(s) => s.items(),
            None => Seq::empty(),
        }
    }

    /// The focused window, if the workspace has any.
    pub open spec fn focused(self) -> Option<u32> {
        match self.stack {
            Some(s) => Some(s.focus),
            None => None,
        }
    }

    /// How many layouts the workspace cycles through.
    pub open spec fn layout_count(self) -> nat {
        self.layouts_before + self.layouts_after + 1
    }

    /// The next layout becomes active; after the last comes the first.
    pub open spec fn next_layout(self) -> WorkspaceView {
        if self.layouts_after > 0 {
            WorkspaceView {
                layouts_before: self.layouts_before + 1,
                layouts_after: (self.layouts_after - 1) as nat,
                ..self
            }
        } else {
            WorkspaceView { layouts_before: 0, layouts_after: self.layouts_before, ..self }
        }
    }

    /// The layout before the active one becomes active; before the first
    /// comes the last.
    pub open spec fn previous_layout(self) -> WorkspaceView {
        if self.layouts_before > 0 {
            WorkspaceView {
                layouts_before: (self.layouts_before - 1) as nat,
                layouts_after: self.layouts_after + 1,
                ..self
            }
        } else {
            WorkspaceView { layouts_before: self.layouts_after, layouts_after: 0, ..self }
        }
    }
}

/// Everything the window manager knows about its windows.
///
/// The screens are listed in a fixed order; `screens_above` and
/// `screens_below` give the tags on the screens before and after the active
/// one.
pub struct ClientSetView {
    pub screens_above: Seq<Seq<char>>,
    /// The tag on the active screen.
    pub current_tag: Seq<char>,
    pub screens_below: Seq<Seq<char>>,
    /// The tags that are on no screen, oldest first.
    pub hidden: Seq<Seq<char>>,
    pub workspaces: Map<Seq<char>, WorkspaceView>,
    /// The windows that float above the tiled ones.
    pub floating: Set<u32>,
    /// The tag that `toggle_tag` goes back to.
    pub previous_tag: Seq<char>,
    /// Tags that are never remembered as the previous tag.
    pub invisible: Set<Seq<char>>,
    /// Windows taken out by `kill_focused`, waiting to be closed.
    pub killed: Seq<u32>,
}

impl ClientSetView {
    /// The tags on the screens, in screen order.
    pub open spec fn visible(self) -> Seq<Seq<char>> {
        self.screens_above.push(self.current_tag) + self.screens_below
    }

    /// Every tag: those on screens first, the hidden ones after them.
    pub open spec fn tags(self) -> Seq<Seq<char>> {
        self.visible() + self.hidden
    }

    /// The workspace of the active screen.
    pub open spec fn current(self) -> WorkspaceView {
        self.workspaces[self.current_tag]
    }

    /// The focused window of the active screen, if its workspace has any.
    pub open spec fn current_client(self) -> Option<u32> {
        self.current().focused()
    }

    /// The windows on `tag`, from the top of its stack downwards.
    pub open spec fn clients_on(self, tag: Seq<char>) -> Seq<u32> {
        self.workspaces[tag].clients()
    }

    /// `tag` is one of the tags and `c` is one of its windows.
    pub open spec fn holds(self, tag: Seq<char>, c: u32) -> bool {
        self.tags().contains(tag) && self.clients_on(tag).contains(c)
    }

    /// `c` is on some tag.
    pub open spec fn contains(self, c: u32) -> bool {
        exists|tag: Seq<char>| self.holds(tag, c)
    }

    /// The tag that `c` is on, where it is on one.
    pub open spec fn holder(self, c: u32) -> Seq<char> {
        choose|tag: Seq<char>| self.holds(tag, c)
    }

    /// No tag occurs twice, every tag has its workspace, and no window
    /// occurs twice, neither within a stack nor in two stacks.
    pub open spec fn wf(self) -> bool {
        &&& self.tags().no_duplicates()
        &&& forall|tag: Seq<char>|
            self.workspaces.dom().contains(tag) <==> self.tags().contains(tag)
        &&& forall|tag: Seq<char>| #[trigger]
            self.tags().contains(tag) ==> self.clients_on(tag).no_duplicates()
        &&& forall|t1: Seq<char>, t2: Seq<char>, c: u32|
            #[trigger] self.holds(t1, c) && #[trigger] self.holds(t2, c) ==> t1 == t2
    }

    /// The client set with the stack of `tag` replaced.
    pub open spec fn with_stack(self, tag: Seq<char>, stack: Option<StackView>) -> ClientSetView {
        ClientSetView {
            workspaces: self.workspaces.insert(
                tag,
                WorkspaceView { stack, ..self.workspaces[tag] },
            ),
            ..self
        }
    }

    /// What `previous_tag` becomes when focus leaves `tag`.
    pub open spec fn remembered(self, tag: Seq<char>) -> Seq<char> {
        if self.invisible.contains(tag) {
            self.previous_tag
        } else {
            tag
        }
    }

    /// `tag` comes to the front. If it is on another screen, that screen
    /// becomes the active one. If it is hidden, it takes the place of the tag
    /// on the active screen, which joins the hidden ones as the newest.
    /// An unknown tag changes nothing.
    pub open spec fn focus_tag(self, tag: Seq<char>) -> ClientSetView {
        if tag == self.current_tag {
            self
        } else if self.screens_above.contains(tag) || self.screens_below.contains(tag) {
            let k = self.visible().index_of(tag);
            ClientSetView {
                screens_above: self.visible().take(k),
                current_tag: tag,
                screens_below: self.visible().skip(k + 1),
                previous_tag: self.remembered(self.current_tag),
                ..self
            }
        } else if self.hidden.contains(tag) {
            ClientSetView {
                current_tag: tag,
                hidden: self.hidden.remove_value(tag).push(self.current_tag),
                previous_tag: self.remembered(self.current_tag),
                ..self
            }
        } else {
            self
        }
    }

    /// The previous tag comes to the front.
    pub open spec fn toggle_tag(self) -> ClientSetView {
        self.focus_tag(self.previous_tag)
    }

    /// The screen after the active one becomes active; after the last comes
    /// the first. With one screen nothing changes.
    pub open spec fn next_screen(self) -> ClientSetView {
        if self.screens_below.len() > 0 {
            ClientSetView {
                screens_above: self.screens_above.push(self.current_tag),
                current_tag: self.screens_below.first(),
                screens_below: self.screens_below.drop_first(),
                previous_tag: self.remembered(self.current_tag),
                ..self
            }
        } else if self.screens_above.len() > 0 {
            ClientSetView {
                screens_above: Seq::empty(),
                current_tag: self.screens_above.first(),
                screens_below: self.screens_above.drop_first().push(self.current_tag),
                previous_tag: self.remembered(self.current_tag),
                ..self
            }
        } else {
            self
        }
    }

    /// The screen before the active one becomes active; before the first
    /// comes the last. With one screen nothing changes.
    pub open spec fn previous_screen(self) -> ClientSetView {
        if self.screens_above.len() > 0 {
            ClientSetView {
                screens_above: self.screens_above.drop_last(),
                current_tag: self.screens_above.last(),
                screens_below: seq![self.current_tag] + self.screens_below,
                previous_tag: self.remembered(self.current_tag),
                ..self
            }
        } else if self.screens_below.len() > 0 {
            ClientSetView {
                screens_above: seq![self.current_tag] + self.screens_below.drop_last(),
                current_tag: self.screens_below.last(),
                screens_below: Seq::empty(),
                previous_tag: self.remembered(self.current_tag),
                ..self
            }
        } else {
            self
        }
    }

    /// `c` enters the stack of the active screen at `pos`. A window that is
    /// already on some tag stays where it is.
    pub open spec fn insert_at(self, pos: Position, c: u32) -> ClientSetView {
        if self.contains(c) {
            self
        } else {
            self.with_stack(
                self.current_tag,
                Some(
                    match self.current().stack {
                        Some(s) => s.insert_at(pos, c),
                        None => StackView::single(c),
                    },
                ),
            )
        }
    }

    /// `c` stops floating and leaves the stack it is in, if it is in one.
    pub open spec fn remove_client(self, c: u32) -> ClientSetView {
        let sunk = ClientSetView { floating: self.floating.remove(c), ..self };
        if self.contains(c) {
            let tag = self.holder(c);
            sunk.with_stack(tag, self.workspaces[tag].stack->0.remove(c))
        } else {
            sunk
        }
    }

    /// The focused window of the active screen is removed and queued to be
    /// closed.
    pub open spec fn kill_focused(self) -> ClientSetView {
        match self.current_client() {
            Some(c) => {
                let gone = self.remove_client(c);
                ClientSetView { killed: gone.killed.push(c), ..gone }
            },
            None => self,
        }
    }

    /// The tag of `c` comes to the front as in `focus_tag`, and `c` takes
    /// the focus of its stack, whose order stays. An unknown window changes
    /// nothing.
    pub open spec fn focus_client(self, c: u32) -> ClientSetView {
        if self.current_client() == Some(c) || !self.contains(c) {
            self
        } else {
            let tag = self.holder(c);
            let stack = self.workspaces[tag].stack->0;
            self.focus_tag(tag).with_stack(
                tag,
                Some(stack.refocused(stack.items().index_of(c))),
            )
        }
    }

    /// The focused window of the active screen moves to `tag` and takes the
    /// focus there. Nothing changes if `tag` is the current tag or unknown,
    /// or if there is no focused window.
    pub open spec fn move_focused_to_tag(self, tag: Seq<char>) -> ClientSetView {
        if tag == self.current_tag || !self.tags().contains(tag) {
            self
        } else {
            match self.current().stack {
                Some(s) => self.with_stack(self.current_tag, s.remove_focused()).with_stack(
                    tag,
                    Some(
                        match self.workspaces[tag].stack {
                            Some(d) => d.insert_at(Position::Focus, s.focus),
                            None => StackView::single(s.focus),
                        },
                    ),
                ),
                None => self,
            }
        }
    }

    /// The stack of the active screen is replaced by `stack`.
    pub open spec fn with_current_stack(self, stack: StackView) -> ClientSetView {
        self.with_stack(self.current_tag, Some(stack))
    }

    /// `StackView::focus_up` on the stack of the active screen.
    pub open spec fn focus_up(self) -> ClientSetView {
        match self.current().stack {
            Some(s) => self.with_current_stack(s.focus_up()),
            None => self,
        }
    }

    /// `StackView::focus_down` on the stack of the active screen.
    pub open spec fn focus_down(self) -> ClientSetView {
        match self.current().stack {
            Some(s) => self.with_current_stack(s.focus_down()),
            None => self,
        }
    }

    /// `StackView::swap_up` on the stack of the active screen.
    pub open spec fn swap_up(self) -> ClientSetView {
        match self.current().stack {
            Some(s) => self.with_current_stack(s.swap_up()),
            None => self,
        }
    }

    /// `StackView::swap_down` on the stack of the active screen.
    pub open spec fn swap_down(self) -> ClientSetView {
        match self.current().stack {
            Some(s) => self.with_current_stack(s.swap_down()),
            None => self,
        }
    }

    /// `StackView::rotate_focus_to_head` on the stack of the active screen.
    pub open spec fn rotate_focus_to_head(self) -> ClientSetView {
        match self.current().stack {
            Some(s) => self.with_current_stack(s.rotate_focus_to_head()),
            None => self,
        }
    }

    /// `StackView::focus_head` on the stack of the active screen.
    pub open spec fn focus_head(self) -> ClientSetView {
        match self.current().stack {
            Some(s) => self.with_current_stack(s.focus_head()),
            None => self,
        }
    }

    /// The workspace of the active screen goes to its next layout.
    pub open spec fn next_layout(self) -> ClientSetView {
        ClientSetView {
            workspaces: self.workspaces.insert(self.current_tag, self.current().next_layout()),
            ..self
        }
    }

    /// The workspace of the active screen goes to its previous layout.
    pub open spec fn previous_layout(self) -> ClientSetView {
        ClientSetView {
            workspaces: self.workspaces.insert(self.current_tag, self.current().previous_layout()),
            ..self
        }
    }
}

} // verus!
