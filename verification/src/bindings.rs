//! The binding tables: which chord asks for which action, how a table of
//! chords becomes a table of key codes, and how a key press finds its
//! action in it.

use vstd::prelude::*;
use crate::actions::{Action, ActionView, LayoutMessage};
use crate::chords::{
    resolve_chord, resolved, BindingError, BindingErrorView, KeyCode, Keymap, KeymapView,
};
use crate::distinct::texts;

verus! {

/// A chord and the action bound to it.
#[derive(Debug, PartialEq, Eq)]
pub struct RawBinding {
    pub chord: String,
    pub action: Action,
}

/// A key code and the action bound to it.
#[derive(Debug, PartialEq, Eq)]
pub struct Binding {
    pub code: KeyCode,
    pub action: Action,
}

/// A table of chords with the strings as sequences of characters.
pub open spec fn raw_table(v: Seq<RawBinding>) -> Seq<(Seq<char>, ActionView)> {
    v.map_values(|b: RawBinding| (b.chord@, b.action@))
}

/// A table of key codes with the strings of its actions as sequences of
/// characters.
pub open spec fn table(v: Seq<Binding>) -> Seq<(KeyCode, ActionView)> {
    v.map_values(|b: Binding| (b.code, b.action@))
}

/// The table of key codes that a table of chords resolves to, entry by
/// entry and in the same order; or the error of the first chord that does
/// not resolve.
pub open spec fn resolved_table(raw: Seq<(Seq<char>, ActionView)>, keymap: KeymapView) -> Result<
    Seq<(KeyCode, ActionView)>,
    BindingErrorView,
>
    decreases raw.len(),
{
    if raw.len() == 0 {
        Ok(Seq::empty())
    } else {
        match resolved_table(raw.drop_last(), keymap) {
            Err(e) => Err(e),
            Ok(done) => match resolved(raw.last().0, keymap) {
                Err(e) => Err(e),
                Ok(code) => Ok(done.push((code, raw.last().1))),
            },
        }
    }
}

/// The action bound to `code`: that of the last entry with exactly this
/// key and this modifier mask.
pub open spec fn bound(entries: Seq<(KeyCode, ActionView)>, code: KeyCode) -> Option<ActionView>
    decreases entries.len(),
{
    if entries.len() == 0 {
        None
    } else if entries.last().0 == code {
        Some(entries.last().1)
    } else {
        bound(entries.drop_last(), code)
    }
}

/// The view of a resolved table or of the error in its place.
pub open spec fn table_outcome(r: Result<Vec<Binding>, BindingError>) -> Result<
    Seq<(KeyCode, ActionView)>,
    BindingErrorView,
> {
    match r {
        Ok(v) => Ok(table(v@)),
        Err(e) => Err(e@),
    }
}

/// Once a chord does not resolve, the chords after it do not matter.
proof fn lemma_resolved_table_fails(raw: Seq<(Seq<char>, ActionView)>, keymap: KeymapView, k: int)
    requires
        0 <= k <= raw.len(),
        resolved_table(raw.take(k), keymap) is Err,
    ensures
        resolved_table(raw, keymap) == resolved_table(raw.take(k), keymap),
    decreases raw.len() - k,
{
    if k < raw.len() {
        assert(raw.take(k + 1).drop_last() =~= raw.take(k));
        lemma_resolved_table_fails(raw, keymap, k + 1);
    } else {
        assert(raw.take(k) =~= raw);
    }
}

/// Resolves every chord of a table on the given keyboard. One chord that
/// does not resolve makes the whole table fail, with the error of the first
/// such chord: no binding is dropped in silence.
pub fn resolve_bindings(raw: &Vec<RawBinding>, keymap: &Keymap) -> (r: Result<
    Vec<Binding>,
    BindingError,
>)
    ensures
        table_outcome(r) == resolved_table(raw_table(raw@), keymap@),
{
    let ghost all = raw_table(raw@);
    let mut done: Vec<Binding> = Vec::new();
    let mut i: usize = 0;
    assert(all.take(0).len() == 0);
    assert(table(done@) =~= Seq::<(KeyCode, ActionView)>::empty());
    while i < raw.len()
        invariant
            i <= raw.len(),
            all == raw_table(raw@),
            resolved_table(all.take(i as int), keymap@) == Ok::<
                Seq<(KeyCode, ActionView)>,
                BindingErrorView,
            >(table(done@)),
        decreases raw.len() - i,
    {
        let ghost next = all.take(i + 1);
        assert(next.drop_last() =~= all.take(i as int));
        assert(next.last() == (raw@[i as int].chord@, raw@[i as int].action@));
        match resolve_chord(raw[i].chord.as_str(), keymap) {
            Err(e) => {
                proof {
                    assert(resolved_table(next, keymap@) == Err::<
                        Seq<(KeyCode, ActionView)>,
                        BindingErrorView,
                    >(e@));
                    lemma_resolved_table_fails(all, keymap@, i + 1);
                }
                return Err(e);
            },
            Ok(code) => {
                let entry = Binding { code, action: raw[i].action.clone() };
                assert(table(done@.push(entry)) =~= table(done@).push((code, entry.action@)));
                done.push(entry);
            },
        }
        i += 1;
    }
    assert(all.take(raw.len() as int) =~= all);
    Ok(done)
}

/// Finds the action for a key press. The key and the modifier mask must
/// both match exactly; a press that no entry matches finds nothing.
pub fn lookup(entries: &Vec<Binding>, code: KeyCode) -> (r: Option<&Action>)
    ensures
        match r {
            Some(action) => bound(table(entries@), code) == Some(action@),
            None => bound(table(entries@), code) is None,
        },
{
    let ghost all = table(entries@);
    let mut i: usize = entries.len();
    assert(all.take(i as int) =~= all);
    while i > 0
        invariant
            i <= entries.len(),
            all == table(entries@),
            bound(all, code) == bound(all.take(i as int), code),
        decreases i,
    {
        let ghost front = all.take(i as int);
        assert(front.last() == (entries@[i - 1].code, entries@[i - 1].action@));
        assert(front.drop_last() =~= all.take(i - 1));
        if entries[i - 1].code.mask == code.mask && entries[i - 1].code.code == code.code {
            return Some(&entries[i - 1].action);
        }
        i -= 1;
    }
    assert(all.take(0).len() == 0);
    None
}

/// The tags of the nine workspaces.
pub open spec fn tag_names() -> Seq<Seq<char>> {
    seq!["1"@, "2"@, "3"@, "4"@, "5"@, "6"@, "7"@, "8"@, "9"@]
}

/// The bindings that do not depend on a tag.
pub open spec fn fixed_bindings() -> Seq<(Seq<char>, ActionView)> {
    seq![
        ("M-j"@, ActionView::FocusDown),
        ("M-k"@, ActionView::FocusUp),
        ("M-w"@, ActionView::KillFocused),
        ("M-S-Return"@, ActionView::RotateFocusToHead),
        ("M-m"@, ActionView::FocusHead),
        ("M-S-j"@, ActionView::SwapDown),
        ("M-S-k"@, ActionView::SwapUp),
        ("M-Tab"@, ActionView::ToggleTag),
        ("M-bracketright"@, ActionView::NextScreen),
        ("M-bracketleft"@, ActionView::PreviousScreen),
        ("M-space"@, ActionView::NextLayout),
        ("M-S-space"@, ActionView::PreviousLayout),
        ("M-period"@, ActionView::Layout(LayoutMessage::IncMain(1i8))),
        ("M-comma"@, ActionView::Layout(LayoutMessage::IncMain(-1i8))),
        ("M-l"@, ActionView::Layout(LayoutMessage::ExpandMain)),
        ("M-h"@, ActionView::Layout(LayoutMessage::ShrinkMain)),
        ("M-n"@, ActionView::Layout(LayoutMessage::UnwrapTransformer)),
        ("M-slash"@, ActionView::Layout(LayoutMessage::Mirror)),
        ("M-p"@, ActionView::Spawn("dmenu_run"@)),
        ("M-Return"@, ActionView::Spawn("wezterm"@)),
        ("M-S-q"@, ActionView::Exit),
    ]
}

/// For each of the first `n` tags, in order: `M-` and the tag shows the
/// tag, `M-S-` and the tag sends the focused window there.
pub open spec fn tag_bindings(n: nat) -> Seq<(Seq<char>, ActionView)>
    decreases n,
{
    if n == 0 || n > tag_names().len() {
        Seq::empty()
    } else {
        let tag = tag_names()[n - 1];
        tag_bindings((n - 1) as nat).push(("M-"@ + tag, ActionView::FocusTag(tag))).push(
            ("M-S-"@ + tag, ActionView::MoveFocusedToTag(tag)),
        )
    }
}

/// The whole table of key bindings.
pub open spec fn key_bindings() -> Seq<(Seq<char>, ActionView)> {
    fixed_bindings() + tag_bindings(9)
}

/// The length of a chord and its last character, which tell the chords of
/// the table apart.
pub open spec fn mark(chord: Seq<char>) -> (nat, char) {
    (chord.len(), chord.last())
}

/// The marks of the bindings that do not depend on a tag.
proof fn lemma_fixed_marks()
    ensures
        fixed_bindings().len() == 21,
        fixed_bindings().map_values(|e: (Seq<char>, ActionView)| mark(e.0)) =~= seq![
            (3nat, 'j'),
            (3nat, 'k'),
            (3nat, 'w'),
            (10nat, 'n'),
            (3nat, 'm'),
            (5nat, 'j'),
            (5nat, 'k'),
            (5nat, 'b'),
            (14nat, 't'),
            (13nat, 't'),
            (7nat, 'e'),
            (9nat, 'e'),
            (8nat, 'd'),
            (7nat, 'a'),
            (3nat, 'l'),
            (3nat, 'h'),
            (3nat, 'n'),
            (7nat, 'h'),
            (3nat, 'p'),
            (8nat, 'n'),
            (5nat, 'q'),
        ],
{
    reveal_strlit("M-j");
    reveal_strlit("M-k");
    reveal_strlit("M-w");
    reveal_strlit("M-S-Return");
    reveal_strlit("M-m");
    reveal_strlit("M-S-j");
    reveal_strlit("M-S-k");
    reveal_strlit("M-Tab");
    reveal_strlit("M-bracketright");
    reveal_strlit("M-bracketleft");
    reveal_strlit("M-space");
    reveal_strlit("M-S-space");
    reveal_strlit("M-period");
    reveal_strlit("M-comma");
    reveal_strlit("M-l");
    reveal_strlit("M-h");
    reveal_strlit("M-n");
    reveal_strlit("M-slash");
    reveal_strlit("M-p");
    reveal_strlit("M-Return");
    reveal_strlit("M-S-q");
}

/// The digits of the tags.
pub open spec fn tag_digits() -> Seq<char> {
    seq!['1', '2', '3', '4', '5', '6', '7', '8', '9']
}

/// Each tag is a single digit, so its two chords have the lengths 3 and 5
/// and end in that digit.
proof fn lemma_tag_marks(n: nat)
    requires
        n <= 9,
    ensures
        tag_bindings(n).len() == 2 * n,
        forall|k: int|
            0 <= k < n ==> mark(#[trigger] tag_bindings(n)[2 * k].0) == (3nat, tag_digits()[k]),
        forall|k: int|
            0 <= k < n ==> mark(#[trigger] tag_bindings(n)[2 * k + 1].0) == (
                5nat,
                tag_digits()[k],
            ),
    decreases n,
{
    reveal_strlit("M-");
    reveal_strlit("M-S-");
    reveal_strlit("1");
    reveal_strlit("2");
    reveal_strlit("3");
    reveal_strlit("4");
    reveal_strlit("5");
    reveal_strlit("6");
    reveal_strlit("7");
    reveal_strlit("8");
    reveal_strlit("9");
    if n > 0 {
        lemma_tag_marks((n - 1) as nat);
        let tag = tag_names()[n - 1];
        assert(tag.len() == 1 && tag[0] == tag_digits()[n - 1]);
        assert(("M-"@ + tag).last() == tag[0]);
        assert(("M-S-"@ + tag).last() == tag[0]);
        let before = tag_bindings((n - 1) as nat);
        assert forall|k: int| 0 <= k < n implies mark(#[trigger] tag_bindings(n)[2 * k].0) == (
            3nat,
            tag_digits()[k],
        ) by {
            if k < n - 1 {
                assert(tag_bindings(n)[2 * k] == before[2 * k]);
            }
        }
        assert forall|k: int| 0 <= k < n implies mark(#[trigger] tag_bindings(n)[2 * k + 1].0)
            == (5nat, tag_digits()[k]) by {
            if k < n - 1 {
                assert(tag_bindings(n)[2 * k + 1] == before[2 * k + 1]);
            }
        }
    }
}

/// No chord is bound twice in the table of key bindings.
pub proof fn law_chords_distinct()
    ensures
        key_bindings().len() == 39,
        forall|i: int, j: int|
            0 <= i < j < key_bindings().len() ==> key_bindings()[i].0 != key_bindings()[j].0,
{
    lemma_fixed_marks();
    lemma_tag_marks(9);
    let fixed = fixed_bindings().map_values(|e: (Seq<char>, ActionView)| mark(e.0));
    let all = key_bindings();
    assert forall|i: int, j: int| 0 <= i < j < all.len() implies all[i].0 != all[j].0 by {
        if i < 21 {
            assert(mark(all[i].0) == fixed[i]);
        } else {
            let k = (i - 21) / 2;
            assert(all[i] == tag_bindings(9)[i - 21]);
            assert(i - 21 == 2 * k || i - 21 == 2 * k + 1);
        }
        if j < 21 {
            assert(mark(all[j].0) == fixed[j]);
        } else {
            let k = (j - 21) / 2;
            assert(all[j] == tag_bindings(9)[j - 21]);
            assert(j - 21 == 2 * k || j - 21 == 2 * k + 1);
        }
        assert(mark(all[i].0) != mark(all[j].0));
    }
}

/// The tags of the nine workspaces, `1` to `9`.
pub fn workspace_tags() -> (r: Vec<String>)
    ensures
        texts(r@) == tag_names(),
{
    let mut r: Vec<String> = Vec::new();
    r.push("1".to_owned());
    r.push("2".to_owned());
    r.push("3".to_owned());
    r.push("4".to_owned());
    r.push("5".to_owned());
    r.push("6".to_owned());
    r.push("7".to_owned());
    r.push("8".to_owned());
    r.push("9".to_owned());
    assert(texts(r@) =~= tag_names());
    r
}

/// Appends one binding to a table.
fn bind(v: &mut Vec<RawBinding>, chord: &str, action: Action)
    ensures
        raw_table(final(v)@) == raw_table(old(v)@).push((chord@, action@)),
{
    let entry = RawBinding { chord: chord.to_owned(), action };
    assert(raw_table(v@.push(entry)) =~= raw_table(v@).push((chord@, action@)));
    v.push(entry);
}

/// The key bindings of this window manager, as chords.
pub fn raw_key_bindings() -> (r: Vec<RawBinding>)
    ensures
        raw_table(r@) == key_bindings(),
        forall|i: int, j: int| 0 <= i < j < r.len() ==> r@[i].chord@ != r@[j].chord@,
{
    proof {
        law_chords_distinct();
    }
    let mut v: Vec<RawBinding> = Vec::new();
    assert(raw_table(v@) =~= Seq::<(Seq<char>, ActionView)>::empty());
    bind(&mut v, "M-j", Action::FocusDown);
    bind(&mut v, "M-k", Action::FocusUp);
    bind(&mut v, "M-w", Action::KillFocused);
    bind(&mut v, "M-S-Return", Action::RotateFocusToHead);
    bind(&mut v, "M-m", Action::FocusHead);
    bind(&mut v, "M-S-j", Action::SwapDown);
    bind(&mut v, "M-S-k", Action::SwapUp);
    bind(&mut v, "M-Tab", Action::ToggleTag);
    bind(&mut v, "M-bracketright", Action::NextScreen);
    bind(&mut v, "M-bracketleft", Action::PreviousScreen);
    bind(&mut v, "M-space", Action::NextLayout);
    bind(&mut v, "M-S-space", Action::PreviousLayout);
    bind(&mut v, "M-period", Action::Layout(LayoutMessage::IncMain(1)));
    bind(&mut v, "M-comma", Action::Layout(LayoutMessage::IncMain(-1)));
    bind(&mut v, "M-l", Action::Layout(LayoutMessage::ExpandMain));
    bind(&mut v, "M-h", Action::Layout(LayoutMessage::ShrinkMain));
    bind(&mut v, "M-n", Action::Layout(LayoutMessage::UnwrapTransformer));
    bind(&mut v, "M-slash", Action::Layout(LayoutMessage::Mirror));
    bind(&mut v, "M-p", Action::Spawn("dmenu_run".to_owned()));
    bind(&mut v, "M-Return", Action::Spawn("wezterm".to_owned()));
    bind(&mut v, "M-S-q", Action::Exit);
    assert(raw_table(v@) =~= fixed_bindings());
    let tags = workspace_tags();
    assert(tags@.len() == texts(tags@).len() == tag_names().len() == 9);
    let mut i: usize = 0;
    assert(fixed_bindings() + tag_bindings(0) =~= fixed_bindings());
    while i < tags.len()
        invariant
            i <= tags.len() == 9,
            texts(tags@) == tag_names(),
            raw_table(v@) == fixed_bindings() + tag_bindings(i as nat),
        decreases tags.len() - i,
    {
        assert(tags@[i as int]@ == tag_names()[i as int]);
        let ghost before = raw_table(v@);
        let mut show = "M-".to_owned();
        show.append(tags[i].as_str());
        bind(&mut v, show.as_str(), Action::FocusTag(tags[i].clone()));
        let mut send = "M-S-".to_owned();
        send.append(tags[i].as_str());
        bind(&mut v, send.as_str(), Action::MoveFocusedToTag(tags[i].clone()));
        assert(raw_table(v@) =~= fixed_bindings() + tag_bindings((i + 1) as nat));
        i += 1;
    }
    assert forall|i: int, j: int| 0 <= i < j < v.len() implies v@[i].chord@ != v@[j].chord@ by {
        assert(raw_table(v@)[i].0 == v@[i].chord@);
        assert(raw_table(v@)[j].0 == v@[j].chord@);
    }
    v
}

/// A mouse button.
#[derive(Clone, Copy, Debug, PartialEq, Eq, Structural)]
pub enum MouseButton {
    Left,
    Middle,
    Right,
    ScrollUp,
    ScrollDown,
}

/// A modifier key held during a click.
#[derive(Clone, Copy, Debug, PartialEq, Eq, Structural)]
pub enum ModifierKey {
    Ctrl,
    Alt,
    Shift,
    Meta,
}

/// What a mouse binding asks for.
#[derive(Clone, Copy, Debug, PartialEq, Eq, Structural)]
pub enum MouseAction {
    /// Drag the window under the pointer; it floats from then on.
    Drag,
    /// Resize the window under the pointer; it floats from then on.
    Resize,
    /// Make the focused window stop floating.
    SinkFocused,
}

/// A button with the modifiers held, and the action bound to it.
#[derive(Debug, PartialEq, Eq)]
pub struct MouseBinding {
    pub button: MouseButton,
    pub modifiers: Vec<ModifierKey>,
    pub action: MouseAction,
}

/// A table of mouse bindings with its lists as sequences.
pub open spec fn mouse_table(v: Seq<MouseBinding>) -> Seq<
    (MouseButton, Seq<ModifierKey>, MouseAction),
> {
    v.map_values(|b: MouseBinding| (b.button, b.modifiers@, b.action))
}

/// Shift and meta, the modifiers of every mouse binding.
fn shift_meta() -> (r: Vec<ModifierKey>)
    ensures
        r@ == seq![ModifierKey::Shift, ModifierKey::Meta],
{
    let mut r: Vec<ModifierKey> = Vec::new();
    r.push(ModifierKey::Shift);
    r.push(ModifierKey::Meta);
    assert(r@ =~= seq![ModifierKey::Shift, ModifierKey::Meta]);
    r
}

/// The mouse bindings of this window manager: with shift and meta held,
/// the left button drags, the right button resizes, and the middle button
/// makes the focused window sink.
pub fn mouse_bindings() -> (r: Vec<MouseBinding>)
    ensures
        mouse_table(r@) == seq![
            (
                MouseButton::Left,
                seq![ModifierKey::Shift, ModifierKey::Meta],
                MouseAction::Drag,
            ),
            (
                MouseButton::Right,
                seq![ModifierKey::Shift, ModifierKey::Meta],
                MouseAction::Resize,
            ),
            (
                MouseButton::Middle,
                seq![ModifierKey::Shift, ModifierKey::Meta],
                MouseAction::SinkFocused,
            ),
        ],
{
    let mut v: Vec<MouseBinding> = Vec::new();
    v.push(
        MouseBinding {
            button: MouseButton::Left,
            modifiers: shift_meta(),
            action: MouseAction::Drag,
        },
    );
    v.push(
        MouseBinding {
            button: MouseButton::Right,
            modifiers: shift_meta(),
            action: MouseAction::Resize,
        },
    );
    v.push(
        MouseBinding {
            button: MouseButton::Middle,
            modifiers: shift_meta(),
            action: MouseAction::SinkFocused,
        },
    );
    assert(mouse_table(v@) =~= seq![
        (MouseButton::Left, seq![ModifierKey::Shift, ModifierKey::Meta], MouseAction::Drag),
        (MouseButton::Right, seq![ModifierKey::Shift, ModifierKey::Meta], MouseAction::Resize),
        (
            MouseButton::Middle,
            seq![ModifierKey::Shift, ModifierKey::Meta],
            MouseAction::SinkFocused,
        ),
    ]);
    v
}

} // verus!
