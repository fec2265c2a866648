//! The client set of the window manager: `penrose`'s `StackSet` of window
//! ids, with what each of its operations does stated over [`ClientSetView`].
//!
//! The operations themselves are `penrose`'s. What is stated of them here is
//! taken on trust from its source; everything built on top is proved from it.

use vstd::prelude::*;
use penrose::pure::StackSet;
use penrose::Xid;
use std::hash::Hash;
use crate::distinct::{distinct_strings, lists, lists_apart, texts};
use crate::model::{ClientSetView, WorkspaceView};
use crate::stack::Position;

verus! {

/// `penrose::Xid`, the id of a window: a `u32` in a wrapper of its own.
#[verifier::external_type_specification]
#[verifier::external_body]
pub struct ExXid(Xid);

/// `penrose::pure::StackSet`. What one holds is named by the functions that
/// follow.
#[verifier::external_type_specification]
#[verifier::external_body]
#[verifier::reject_recursive_types(C)]
pub struct ExStackSet<C: Clone + PartialEq + Eq + Hash>(StackSet<C>);

/// The tags on the screens before the active one, in screen order.
pub uninterp spec fn screens_above(cs: StackSet<Xid>) -> Seq<Seq<char>>;

/// The tag on the active screen.
pub uninterp spec fn current_tag(cs: StackSet<Xid>) -> Seq<char>;

/// The tags on the screens after the active one, in screen order.
pub uninterp spec fn screens_below(cs: StackSet<Xid>) -> Seq<Seq<char>>;

/// The tags that are on no screen, in the order in which they are kept.
pub uninterp spec fn hidden_tags(cs: StackSet<Xid>) -> Seq<Seq<char>>;

/// For each tag, the workspace that carries it (the first, should two carry
/// the same tag): its stack of windows, read from the top downwards, and
/// how many of its layouts stand before and after the active one.
pub uninterp spec fn workspaces(cs: StackSet<Xid>) -> Map<Seq<char>, WorkspaceView>;

/// The windows recorded as floating.
pub uninterp spec fn floating(cs: StackSet<Xid>) -> Set<u32>;

/// The tag that was current before the present one, as far as it was
/// remembered.
pub uninterp spec fn previous_tag(cs: StackSet<Xid>) -> Seq<char>;

/// The tags marked as invisible.
pub uninterp spec fn invisible_tags(cs: StackSet<Xid>) -> Set<Seq<char>>;

/// The windows that `kill_focused` took out and that are still to be
/// closed, oldest first.
pub uninterp spec fn killed(cs: StackSet<Xid>) -> Seq<u32>;

/// The whole of what a `StackSet` holds.
pub open spec fn model_of(cs: StackSet<Xid>) -> ClientSetView {
    ClientSetView {
        screens_above: screens_above(cs),
        current_tag: current_tag(cs),
        screens_below: screens_below(cs),
        hidden: hidden_tags(cs),
        workspaces: workspaces(cs),
        floating: floating(cs),
        previous_tag: previous_tag(cs),
        invisible: invisible_tags(cs),
        killed: killed(cs),
    }
}

/// `StackSet::workspaces`, each workspace by its tag: the tags on the
/// screens in screen order, and the hidden ones after them. These are the
/// tags that `workspaces` has a workspace for.
#[verifier::external_body]
fn all_tags(cs: &StackSet<Xid>) -> (r: Vec<String>)
    ensures
        texts(r@) == screens_above(*cs).push(current_tag(*cs)) + screens_below(*cs) + hidden_tags(
            *cs,
        ),
        forall|tag: Seq<char>| workspaces(*cs).dom().contains(tag) <==> texts(r@).contains(tag),
{
    cs.workspaces().map(|w| w.tag().to_string()).collect()
}

/// `StackSet::screens`, each screen by the tag it shows, in screen order.
#[verifier::external_body]
fn visible_tags(cs: &StackSet<Xid>) -> (r: Vec<String>)
    ensures
        texts(r@) == screens_above(*cs).push(current_tag(*cs)) + screens_below(*cs),
{
    cs.screens().map(|s| s.workspace.tag().to_string()).collect()
}

/// `StackSet::current_tag`.
#[verifier::external_body]
fn active_tag(cs: &StackSet<Xid>) -> (r: String)
    ensures
        r@ == current_tag(*cs),
{
    cs.current_tag().to_string()
}

/// `StackSet::workspace` and `Workspace::clients`: the windows of the
/// workspace tagged `tag`, from the top of its stack downwards; none for an
/// unknown tag.
#[verifier::external_body]
fn clients_on(cs: &StackSet<Xid>, tag: &str) -> (r: Vec<u32>)
    ensures
        model_of(*cs).tags().contains(tag@) ==> r@ == workspaces(*cs)[tag@].clients(),
        !model_of(*cs).tags().contains(tag@) ==> r@.len() == 0,
{
    cs.workspace(tag).map(|w| w.clients().map(|c| **c).collect()).unwrap_or_default()
}

/// `StackSet::workspace` and `Workspace::focus`: the focused window of the
/// workspace tagged `tag`; none for an unknown tag.
#[verifier::external_body]
fn focus_on(cs: &StackSet<Xid>, tag: &str) -> (r: Option<u32>)
    ensures
        model_of(*cs).tags().contains(tag@) ==> r == workspaces(*cs)[tag@].focused(),
        !model_of(*cs).tags().contains(tag@) ==> r is None,
{
    cs.workspace(tag).and_then(|w| w.focus().map(|c| **c))
}

/// `StackSet::is_floating`.
#[verifier::external_body]
fn floats(cs: &StackSet<Xid>, id: u32) -> (r: bool)
    ensures
        r == floating(*cs).contains(id),
{
    cs.is_floating(&Xid::from(id))
}

/// `StackSet::remove_client`: the window stops floating and leaves the
/// first stack that holds it, as by `Stack::remove`; it is handed back if it
/// was in one. Where it held the focus, the focus passes to the window below
/// it, or else to the one above it.
#[verifier::external_body]
fn remove_client(cs: &mut StackSet<Xid>, id: u32) -> (r: Option<u32>)
    requires
        model_of(*old(cs)).wf(),
    ensures
        model_of(*final(cs)) == model_of(*old(cs)).remove_client(id),
        r == if model_of(*old(cs)).contains(id) { Some(id) } else { None },
{
    cs.remove_client(&Xid::from(id)).map(u32::from)
}

/// `StackSet::insert_at`: a window that is in no stack enters the stack of
/// the active screen at `pos`, as by `Stack::insert_at`; a window that is in
/// a stack changes nothing.
#[verifier::external_body]
fn insert_at(cs: &mut StackSet<Xid>, pos: Position, id: u32)
    requires
        model_of(*old(cs)).wf(),
    ensures
        model_of(*final(cs)) == model_of(*old(cs)).insert_at(pos, id),
{
    let at = match pos {
        Position::Focus => penrose::pure::Position::Focus,
        Position::Before => penrose::pure::Position::Before,
        Position::After => penrose::pure::Position::After,
        Position::Head => penrose::pure::Position::Head,
        Position::Tail => penrose::pure::Position::Tail,
    };
    cs.insert_at(at, Xid::from(id))
}

/// `StackSet::focus_client`: the tag of the window comes to the front and
/// the window takes the focus of its stack. With a tag carried by two
/// workspaces the call may not return, which `wf` rules out.
#[verifier::external_body]
fn focus_client(cs: &mut StackSet<Xid>, id: u32)
    requires
        model_of(*old(cs)).wf(),
    ensures
        model_of(*final(cs)) == model_of(*old(cs)).focus_client(id),
{
    cs.focus_client(&Xid::from(id))
}

/// `StackSet::focus_tag`: a tag on another screen makes that screen the
/// active one; a hidden tag changes places with the tag on the active
/// screen, which becomes the newest of the hidden ones; any other tag changes
/// nothing. The tag that was current is remembered as the previous one,
/// unless it is marked invisible. The marks themselves stay.
#[verifier::external_body]
fn focus_tag(cs: &mut StackSet<Xid>, tag: &str)
    requires
        model_of(*old(cs)).wf(),
    ensures
        model_of(*final(cs)) == model_of(*old(cs)).focus_tag(tag@),
        invisible_tags(*final(cs)) == invisible_tags(*old(cs)),
{
    cs.focus_tag(tag)
}

/// `StackSet::toggle_tag`: `focus_tag` with the previous tag.
#[verifier::external_body]
fn toggle_tag(cs: &mut StackSet<Xid>)
    requires
        model_of(*old(cs)).wf(),
    ensures
        model_of(*final(cs)) == model_of(*old(cs)).focus_tag(previous_tag(*old(cs))),
{
    cs.toggle_tag()
}

/// `StackSet::move_focused_to_tag`: the focused window of the active screen
/// leaves its stack as by `Stack::remove_focused` and enters the stack of
/// `tag` at `Position::Focus`. Nothing happens for the current tag, an
/// unknown tag, or an empty stack.
#[verifier::external_body]
fn move_focused_to_tag(cs: &mut StackSet<Xid>, tag: &str)
    requires
        model_of(*old(cs)).wf(),
    ensures
        model_of(*final(cs)) == model_of(*old(cs)).move_focused_to_tag(tag@),
{
    cs.move_focused_to_tag(tag)
}

/// `StackSet::kill_focused`: the focused window is removed as by
/// `remove_client` and appended to the windows queued to be closed.
#[verifier::external_body]
fn kill_focused(cs: &mut StackSet<Xid>)
    requires
        model_of(*old(cs)).wf(),
    ensures
        model_of(*final(cs)) == model_of(*old(cs)).kill_focused(),
        killed(*final(cs)) == match model_of(*old(cs)).current_client() {
            Some(c) => killed(*old(cs)).push(c),
            None => killed(*old(cs)),
        },
{
    cs.kill_focused()
}

/// `StackSet::next_screen`: with more than one screen, the current tag is
/// remembered as the previous one and the focus of the screens moves one
/// down, wrapping.
#[verifier::external_body]
fn next_screen(cs: &mut StackSet<Xid>)
    requires
        model_of(*old(cs)).wf(),
    ensures
        model_of(*final(cs)) == model_of(*old(cs)).next_screen(),
{
    cs.next_screen()
}

/// `StackSet::previous_screen`: with more than one screen, the current tag
/// is remembered as the previous one and the focus of the screens moves one
/// up, wrapping.
#[verifier::external_body]
fn previous_screen(cs: &mut StackSet<Xid>)
    requires
        model_of(*old(cs)).wf(),
    ensures
        model_of(*final(cs)) == model_of(*old(cs)).previous_screen(),
{
    cs.previous_screen()
}

/// `StackSet::focus_up`, which is `Stack::focus_up` on the stack of the
/// active screen: the focus goes to the window above, from the top to the
/// bottom one, and the order of the windows stays. An empty stack stays
/// empty, here and in the wrappers that follow.
#[verifier::external_body]
fn focus_up(cs: &mut StackSet<Xid>)
    requires
        model_of(*old(cs)).wf(),
    ensures
        model_of(*final(cs)) == model_of(*old(cs)).focus_up(),
{
    cs.focus_up()
}

/// `StackSet::focus_down`, which is `Stack::focus_down` on the stack of the
/// active screen: the focus goes to the window below, from the bottom to the
/// top one, and the order of the windows stays.
#[verifier::external_body]
fn focus_down(cs: &mut StackSet<Xid>)
    requires
        model_of(*old(cs)).wf(),
    ensures
        model_of(*final(cs)) == model_of(*old(cs)).focus_down(),
{
    cs.focus_down()
}

/// `StackSet::swap_up`, which is `Stack::swap_up` on the stack of the active
/// screen: the focused window changes places with the one above it; from
/// the top it goes to the bottom. It keeps the focus.
#[verifier::external_body]
fn swap_up(cs: &mut StackSet<Xid>)
    requires
        model_of(*old(cs)).wf(),
    ensures
        model_of(*final(cs)) == model_of(*old(cs)).swap_up(),
{
    cs.swap_up()
}

/// `StackSet::swap_down`, which is `Stack::swap_down` on the stack of the
/// active screen: the focused window changes places with the one below it;
/// from the bottom it goes to the top. It keeps the focus.
#[verifier::external_body]
fn swap_down(cs: &mut StackSet<Xid>)
    requires
        model_of(*old(cs)).wf(),
    ensures
        model_of(*final(cs)) == model_of(*old(cs)).swap_down(),
{
    cs.swap_down()
}

/// `StackSet::rotate_focus_to_head`, which is `Stack::rotate_focus_to_head`
/// on the stack of the active screen: the windows above the focus go to the
/// bottom, in their order, so that the focused window is the top one.
#[verifier::external_body]
fn rotate_focus_to_head(cs: &mut StackSet<Xid>)
    requires
        model_of(*old(cs)).wf(),
    ensures
        model_of(*final(cs)) == model_of(*old(cs)).rotate_focus_to_head(),
{
    cs.rotate_focus_to_head()
}

/// `StackSet::focus_head`, which is `Stack::focus_head` on the stack of the
/// active screen: the top window takes the focus. As `penrose` wrote it, the
/// windows that lay between the top and the old focus come out in reverse
/// order.
#[verifier::external_body]
fn focus_head(cs: &mut StackSet<Xid>)
    requires
        model_of(*old(cs)).wf(),
    ensures
        model_of(*final(cs)) == model_of(*old(cs)).focus_head(),
{
    cs.focus_head()
}

/// `StackSet::next_layout`: the focus of the active workspace's layouts
/// moves one down, wrapping.
#[verifier::external_body]
fn next_layout(cs: &mut StackSet<Xid>)
    requires
        model_of(*old(cs)).wf(),
    ensures
        model_of(*final(cs)) == model_of(*old(cs)).next_layout(),
{
    cs.next_layout()
}

/// `StackSet::previous_layout`: the focus of the active workspace's layouts
/// moves one up, wrapping.
#[verifier::external_body]
fn previous_layout(cs: &mut StackSet<Xid>)
    requires
        model_of(*old(cs)).wf(),
    ensures
        model_of(*final(cs)) == model_of(*old(cs)).previous_layout(),
{
    cs.previous_layout()
}

/// The client set of the window manager: the tags, the screens that show
/// them, and the stack of windows on each tag.
pub struct ClientSet {
    inner: StackSet<Xid>,
}

impl View for ClientSet {
    type V = ClientSetView;

    closed spec fn view(&self) -> ClientSetView {
        model_of(self.inner)
    }
}

impl ClientSet {
    /// No tag and no window occurs twice. Every operation needs this and
    /// keeps it.
    pub open spec fn wf(&self) -> bool {
        self@.wf()
    }

    /// Takes over a `StackSet`, provided that no tag and no window occurs
    /// twice in it; if one does, the `StackSet` is handed back untouched.
    pub fn adopt(inner: StackSet<Xid>) -> (r: Result<ClientSet, StackSet<Xid>>)
        ensures
            match r {
                Ok(cs) => cs.wf() && cs@ == model_of(inner),
                Err(back) => back == inner && !model_of(inner).wf(),
            },
    {
        let ghost m = model_of(inner);
        proof {
            m.lemma_wf_by_stacks();
        }
        let tags = all_tags(&inner);
        if !distinct_strings(&tags) {
            return Err(inner);
        }
        let mut stacks: Vec<Vec<u32>> = Vec::new();
        let mut i: usize = 0;
        while i < tags.len()
            invariant
                i <= tags.len(),
                m == model_of(inner),
                texts(tags@) == m.tags(),
                stacks.len() == i,
                forall|k: int| 0 <= k < i ==> (#[trigger] stacks@[k])@ == m.stacks()[k],
            decreases tags.len() - i,
        {
            assert(m.tags()[i as int] == tags@[i as int]@);
            let stack = clients_on(&inner, tags[i].as_str());
            stacks.push(stack);
            i += 1;
        }
        assert(lists(stacks@) =~= m.stacks());
        if !lists_apart(&stacks) {
            return Err(inner);
        }
        Ok(ClientSet { inner })
    }

    /// Gives the `StackSet` back.
    pub fn release(self) -> (r: StackSet<Xid>)
        ensures
            model_of(r) == self@,
    {
        self.inner
    }

    /// Every tag: those on the screens in screen order, the hidden ones
    /// after them.
    pub fn tags(&self) -> (r: Vec<String>)
        ensures
            texts(r@) == self@.tags(),
    {
        all_tags(&self.inner)
    }

    /// The tags on the screens, in screen order.
    pub fn visible_tags(&self) -> (r: Vec<String>)
        ensures
            texts(r@) == self@.visible(),
    {
        visible_tags(&self.inner)
    }

    /// The tag on the active screen.
    pub fn current_tag(&self) -> (r: String)
        ensures
            r@ == self@.current_tag,
    {
        active_tag(&self.inner)
    }

    /// The windows on `tag`, from the top of its stack downwards; none for
    /// a tag that is not known.
    pub fn clients(&self, tag: &str) -> (r: Vec<u32>)
        ensures
            self@.tags().contains(tag@) ==> r@ == self@.clients_on(tag@),
            !self@.tags().contains(tag@) ==> r@.len() == 0,
    {
        clients_on(&self.inner, tag)
    }

    /// The focused window on `tag`; none for an empty or unknown tag.
    pub fn focused(&self, tag: &str) -> (r: Option<u32>)
        ensures
            self@.tags().contains(tag@) ==> r == self@.workspaces[tag@].focused(),
            !self@.tags().contains(tag@) ==> r is None,
    {
        focus_on(&self.inner, tag)
    }

    /// The focused window of the active screen.
    pub fn current_client(&self) -> (r: Option<u32>)
        ensures
            r == self@.current_client(),
    {
        let tag = active_tag(&self.inner);
        proof {
            self@.lemma_current_is_tag();
        }
        focus_on(&self.inner, tag.as_str())
    }

    /// Whether the window floats.
    pub fn is_floating(&self, id: u32) -> (r: bool)
        ensures
            r == self@.floating.contains(id),
    {
        floats(&self.inner, id)
    }

    /// Takes the window out of its stack and makes it stop floating. The
    /// window is handed back if it was in a stack.
    pub fn remove_client(&mut self, id: u32) -> (r: Option<u32>)
        requires
            old(self).wf(),
        ensures
            final(self).wf(),
            final(self)@ == old(self)@.remove_client(id),
            r == if old(self)@.contains(id) { Some(id) } else { None },
            !final(self)@.contains(id),
    {
        proof {
            self@.lemma_remove_client_wf(id);
        }
        remove_client(&mut self.inner, id)
    }

    /// Puts a window that is in no stack into the stack of the active
    /// screen, at `pos`. A window that is in a stack already stays there.
    pub fn insert_at(&mut self, pos: Position, id: u32)
        requires
            old(self).wf(),
        ensures
            final(self).wf(),
            final(self)@ == old(self)@.insert_at(pos, id),
            final(self)@.contains(id),
    {
        proof {
            self@.lemma_insert_at_wf(pos, id);
        }
        insert_at(&mut self.inner, pos, id)
    }

    /// Brings the window's tag to the front and gives the window the focus
    /// of its stack. A window that is in no stack changes nothing.
    pub fn focus_client(&mut self, id: u32)
        requires
            old(self).wf(),
        ensures
            final(self).wf(),
            final(self)@ == old(self)@.focus_client(id),
            old(self)@.contains(id) ==> final(self)@.current_client() == Some(id),
    {
        proof {
            self@.lemma_focus_client_wf(id);
        }
        focus_client(&mut self.inner, id)
    }

    /// Brings `tag` to the front: to its own screen if it is on one, else
    /// onto the active screen. An unknown tag changes nothing.
    pub fn focus_tag(&mut self, tag: &str)
        requires
            old(self).wf(),
        ensures
            final(self).wf(),
            final(self)@ == old(self)@.focus_tag(tag@),
            old(self)@.tags().contains(tag@) ==> final(self)@.current_tag == tag@,
    {
        proof {
            self@.lemma_focus_tag_wf(tag@);
        }
        focus_tag(&mut self.inner, tag)
    }

    /// Brings the previous tag to the front.
    pub fn toggle_tag(&mut self)
        requires
            old(self).wf(),
        ensures
            final(self).wf(),
            final(self)@ == old(self)@.toggle_tag(),
    {
        proof {
            self@.lemma_focus_tag_wf(self@.previous_tag);
        }
        toggle_tag(&mut self.inner)
    }

    /// Moves the focused window of the active screen to `tag`, where it
    /// takes the focus. Nothing changes if `tag` is the current tag or
    /// unknown.
    pub fn move_focused_to_tag(&mut self, tag: &str)
        requires
            old(self).wf(),
        ensures
            final(self).wf(),
            final(self)@ == old(self)@.move_focused_to_tag(tag@),
            tag@ == old(self)@.current_tag ==> final(self)@ == old(self)@,
    {
        proof {
            self@.lemma_move_focused_to_tag_wf(tag@);
        }
        move_focused_to_tag(&mut self.inner, tag)
    }

    /// Removes the focused window of the active screen and queues it to be
    /// closed.
    pub fn kill_focused(&mut self)
        requires
            old(self).wf(),
        ensures
            final(self).wf(),
            final(self)@ == old(self)@.kill_focused(),
    {
        proof {
            self@.lemma_kill_focused_wf();
        }
        kill_focused(&mut self.inner)
    }

    /// Makes the next screen the active one, wrapping.
    pub fn next_screen(&mut self)
        requires
            old(self).wf(),
        ensures
            final(self).wf(),
            final(self)@ == old(self)@.next_screen(),
    {
        proof {
            self@.lemma_screens_wf();
        }
        next_screen(&mut self.inner)
    }

    /// Makes the previous screen the active one, wrapping.
    pub fn previous_screen(&mut self)
        requires
            old(self).wf(),
        ensures
            final(self).wf(),
            final(self)@ == old(self)@.previous_screen(),
    {
        proof {
            self@.lemma_screens_wf();
        }
        previous_screen(&mut self.inner)
    }

    /// Moves the focus one window up the stack of the active screen,
    /// wrapping.
    pub fn focus_up(&mut self)
        requires
            old(self).wf(),
        ensures
            final(self).wf(),
            final(self)@ == old(self)@.focus_up(),
    {
        proof {
            self@.lemma_stack_moves_wf();
        }
        focus_up(&mut self.inner)
    }

    /// Moves the focus one window down the stack of the active screen,
    /// wrapping.
    pub fn focus_down(&mut self)
        requires
            old(self).wf(),
        ensures
            final(self).wf(),
            final(self)@ == old(self)@.focus_down(),
    {
        proof {
            self@.lemma_stack_moves_wf();
        }
        focus_down(&mut self.inner)
    }

    /// Swaps the focused window with the one above it, wrapping.
    pub fn swap_up(&mut self)
        requires
            old(self).wf(),
        ensures
            final(self).wf(),
            final(self)@ == old(self)@.swap_up(),
    {
        proof {
            self@.lemma_stack_moves_wf();
        }
        swap_up(&mut self.inner)
    }

    /// Swaps the focused window with the one below it, wrapping.
    pub fn swap_down(&mut self)
        requires
            old(self).wf(),
        ensures
            final(self).wf(),
            final(self)@ == old(self)@.swap_down(),
    {
        proof {
            self@.lemma_stack_moves_wf();
        }
        swap_down(&mut self.inner)
    }

    /// Rotates the stack of the active screen until the focused window is
    /// at its top.
    pub fn rotate_focus_to_head(&mut self)
        requires
            old(self).wf(),
        ensures
            final(self).wf(),
            final(self)@ == old(self)@.rotate_focus_to_head(),
    {
        proof {
            self@.lemma_stack_moves_wf();
        }
        rotate_focus_to_head(&mut self.inner)
    }

    /// Gives the focus to the top window of the stack of the active screen.
    pub fn focus_head(&mut self)
        requires
            old(self).wf(),
        ensures
            final(self).wf(),
            final(self)@ == old(self)@.focus_head(),
    {
        proof {
            self@.lemma_stack_moves_wf();
        }
        focus_head(&mut self.inner)
    }

    /// Makes the next layout of the active workspace the active one,
    /// wrapping.
    pub fn next_layout(&mut self)
        requires
            old(self).wf(),
        ensures
            final(self).wf(),
            final(self)@ == old(self)@.next_layout(),
    {
        proof {
            self@.lemma_layouts_wf();
        }
        next_layout(&mut self.inner)
    }

    /// Makes the previous layout of the active workspace the active one,
    /// wrapping.
    pub fn previous_layout(&mut self)
        requires
            old(self).wf(),
        ensures
            final(self).wf(),
            final(self)@ == old(self)@.previous_layout(),
    {
        proof {
            self@.lemma_layouts_wf();
        }
        previous_layout(&mut self.inner)
    }
}

} // verus!
