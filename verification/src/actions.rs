//! What a key binding can ask for, and what carrying it out does to the
//! client set.

use vstd::prelude::*;
use crate::client_set::ClientSet;
use crate::model::ClientSetView;

verus! {

/// A message for the active layout. What a layout makes of it is the
/// layout's own affair; one that does not know a message ignores it.
#[derive(Clone, Copy, Debug, PartialEq, Eq, Structural)]
pub enum LayoutMessage {
    /// Change the number of windows in the main area by this much.
    IncMain(i8),
    /// Give the main area more room.
    ExpandMain,
    /// Give the main area less room.
    ShrinkMain,
    /// Take off the outermost transformer.
    UnwrapTransformer,
    /// Mirror the layout.
    Mirror,
}

/// What a key binding asks for.
#[derive(Debug, PartialEq, Eq)]
pub enum Action {
    FocusDown,
    FocusUp,
    KillFocused,
    RotateFocusToHead,
    FocusHead,
    SwapDown,
    SwapUp,
    ToggleTag,
    NextScreen,
    PreviousScreen,
    NextLayout,
    PreviousLayout,
    FocusTag(String),
    MoveFocusedToTag(String),
    Layout(LayoutMessage),
    /// Start a program, by its command line.
    Spawn(String),
    /// Leave the window manager.
    Exit,
}

/// An [`Action`] with its strings as sequences of characters.
pub enum ActionView {
    FocusDown,
    FocusUp,
    KillFocused,
    RotateFocusToHead,
    FocusHead,
    SwapDown,
    SwapUp,
    ToggleTag,
    NextScreen,
    PreviousScreen,
    NextLayout,
    PreviousLayout,
    FocusTag(Seq<char>),
    MoveFocusedToTag(Seq<char>),
    Layout(LayoutMessage),
    Spawn(Seq<char>),
    Exit,
}

/// What is left to do once the client set has been changed.
#[derive(Debug, PartialEq, Eq)]
pub enum Effect {
    /// Lay the windows out again.
    Refresh,
    /// Hand the message to the active layout, and lay the windows out again.
    Message(LayoutMessage),
    /// Start the program; a failure to start it is reported and no more.
    Spawn(String),
    /// Stop the event loop once this action is done.
    Exit,
}

/// An [`Effect`] with its string as a sequence of characters.
pub enum EffectView {
    Refresh,
    Message(LayoutMessage),
    Spawn(Seq<char>),
    Exit,
}

impl View for Action {
    type V = ActionView;

    open spec fn view(&self) -> ActionView {
        match self {
            Action::FocusDown => ActionView::FocusDown,
            Action::FocusUp => ActionView::FocusUp,
            Action::KillFocused => ActionView::KillFocused,
            Action::RotateFocusToHead => ActionView::RotateFocusToHead,
            Action::FocusHead => ActionView::FocusHead,
            Action::SwapDown => ActionView::SwapDown,
            Action::SwapUp => ActionView::SwapUp,
            Action::ToggleTag => ActionView::ToggleTag,
            Action::NextScreen => ActionView::NextScreen,
            Action::PreviousScreen => ActionView::PreviousScreen,
            Action::NextLayout => ActionView::NextLayout,
            Action::PreviousLayout => ActionView::PreviousLayout,
            Action::FocusTag(tag) => ActionView::FocusTag(tag@),
            Action::MoveFocusedToTag(tag) => ActionView::MoveFocusedToTag(tag@),
            Action::Layout(m) => ActionView::Layout(*m),
            Action::Spawn(command) => ActionView::Spawn(command@),
            Action::Exit => ActionView::Exit,
        }
    }
}

impl View for Effect {
    type V = EffectView;

    open spec fn view(&self) -> EffectView {
        match self {
            Effect::Refresh => EffectView::Refresh,
            Effect::Message(m) => EffectView::Message(*m),
            Effect::Spawn(command) => EffectView::Spawn(command@),
            Effect::Exit => EffectView::Exit,
        }
    }
}

impl ActionView {
    /// The client set after the action. Messages, programs and leaving do
    /// not touch it.
    pub open spec fn applied(self, m: ClientSetView) -> ClientSetView {
        match self {
            ActionView::FocusDown => m.focus_down(),
            ActionView::FocusUp => m.focus_up(),
            ActionView::KillFocused => m.kill_focused(),
            ActionView::RotateFocusToHead => m.rotate_focus_to_head(),
            ActionView::FocusHead => m.focus_head(),
            ActionView::SwapDown => m.swap_down(),
            ActionView::SwapUp => m.swap_up(),
            ActionView::ToggleTag => m.toggle_tag(),
            ActionView::NextScreen => m.next_screen(),
            ActionView::PreviousScreen => m.previous_screen(),
            ActionView::NextLayout => m.next_layout(),
            ActionView::PreviousLayout => m.previous_layout(),
            ActionView::FocusTag(tag) => m.focus_tag(tag),
            ActionView::MoveFocusedToTag(tag) => m.move_focused_to_tag(tag),
            ActionView::Layout(_) => m,
            ActionView::Spawn(_) => m,
            ActionView::Exit => m,
        }
    }

    /// What is left to do after the action.
    pub open spec fn effect(self) -> EffectView {
        match self {
            ActionView::Layout(m) => EffectView::Message(m),
            ActionView::Spawn(command) => EffectView::Spawn(command),
            ActionView::Exit => EffectView::Exit,
            _ => EffectView::Refresh,
        }
    }
}

impl Clone for Action {
    fn clone(&self) -> (r: Action)
        ensures
            r@ == self@,
    {
        match self {
            Action::FocusDown => Action::FocusDown,
            Action::FocusUp => Action::FocusUp,
            Action::KillFocused => Action::KillFocused,
            Action::RotateFocusToHead => Action::RotateFocusToHead,
            Action::FocusHead => Action::FocusHead,
            Action::SwapDown => Action::SwapDown,
            Action::SwapUp => Action::SwapUp,
            Action::ToggleTag => Action::ToggleTag,
            Action::NextScreen => Action::NextScreen,
            Action::PreviousScreen => Action::PreviousScreen,
            Action::NextLayout => Action::NextLayout,
            Action::PreviousLayout => Action::PreviousLayout,
            Action::FocusTag(tag) => Action::FocusTag(tag.clone()),
            Action::MoveFocusedToTag(tag) => Action::MoveFocusedToTag(tag.clone()),
            Action::Layout(m) => Action::Layout(*m),
            Action::Spawn(command) => Action::Spawn(command.clone()),
            Action::Exit => Action::Exit,
        }
    }
}

impl Action {
    /// What is left to do after the action, whatever the client set holds.
    pub fn effect(&self) -> (r: Effect)
        ensures
            r@ == self@.effect(),
    {
        match self {
            Action::Layout(m) => Effect::Message(*m),
            Action::Spawn(command) => Effect::Spawn(command.clone()),
            Action::Exit => Effect::Exit,
            _ => Effect::Refresh,
        }
    }
}

/// Carries out `action` on the client set and says what is left to do.
/// No action fails: one that finds nothing to act on changes nothing.
pub fn perform(action: &Action, cs: &mut ClientSet) -> (effect: Effect)
    requires
        old(cs).wf(),
    ensures
        final(cs).wf(),
        final(cs)@ == action@.applied(old(cs)@),
        effect@ == action@.effect(),
{
    match action {
        Action::FocusDown => cs.focus_down(),
        Action::FocusUp => cs.focus_up(),
        Action::KillFocused => cs.kill_focused(),
        Action::RotateFocusToHead => cs.rotate_focus_to_head(),
        Action::FocusHead => cs.focus_head(),
        Action::SwapDown => cs.swap_down(),
        Action::SwapUp => cs.swap_up(),
        Action::ToggleTag => cs.toggle_tag(),
        Action::NextScreen => cs.next_screen(),
        Action::PreviousScreen => cs.previous_screen(),
        Action::NextLayout => cs.next_layout(),
        Action::PreviousLayout => cs.previous_layout(),
        Action::FocusTag(tag) => cs.focus_tag(tag.as_str()),
        Action::MoveFocusedToTag(tag) => cs.move_focused_to_tag(tag.as_str()),
        Action::Layout(_) | Action::Spawn(_) | Action::Exit => {},
    }
    action.effect()
}

} // verus!
