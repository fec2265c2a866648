//! Key chords: strings such as `M-S-Return`, made of modifier names and a
//! final key name with `-` between them, and what they resolve to on a
//! given keyboard.

use vstd::prelude::*;
use crate::distinct::texts;

verus! {

/// A key together with the modifiers held, as the display server reports
/// them.
#[derive(Clone, Copy, Debug, PartialEq, Eq, Hash, Structural)]
pub struct KeyCode {
    pub mask: u16,
    pub code: u8,
}

/// What the names in a chord stand for on this keyboard. Where a name is
/// listed twice, the later entry counts.
pub struct Keymap {
    /// Each modifier name with its bit in the modifier mask.
    pub modifiers: Vec<(String, u16)>,
    /// Each key name with its key code.
    pub keys: Vec<(String, u8)>,
}

/// Why a chord does not resolve.
#[derive(Debug, PartialEq, Eq)]
pub enum BindingError {
    /// The keyboard has no key of this name.
    UnknownKey(String),
    /// The keyboard has no modifier of this name.
    UnknownModifier(String),
}

/// A [`BindingError`] with its string as a sequence of characters.
pub enum BindingErrorView {
    UnknownKey(Seq<char>),
    UnknownModifier(Seq<char>),
}

impl View for BindingError {
    type V = BindingErrorView;

    open spec fn view(&self) -> BindingErrorView {
        match self {
            BindingError::UnknownKey(name) => BindingErrorView::UnknownKey(name@),
            BindingError::UnknownModifier(name) => BindingErrorView::UnknownModifier(name@),
        }
    }
}

/// The names of a list with what each stands for.
pub open spec fn named<T>(entries: Seq<(String, T)>) -> Seq<(Seq<char>, T)> {
    entries.map_values(|e: (String, T)| (e.0@, e.1))
}

/// A [`Keymap`] with its names as sequences of characters.
pub struct KeymapView {
    pub modifiers: Seq<(Seq<char>, u16)>,
    pub keys: Seq<(Seq<char>, u8)>,
}

impl View for Keymap {
    type V = KeymapView;

    open spec fn view(&self) -> KeymapView {
        KeymapView { modifiers: named(self.modifiers@), keys: named(self.keys@) }
    }
}

/// What `name` stands for in `entries`: the value of the last entry of that
/// name.
pub open spec fn meaning<T>(entries: Seq<(Seq<char>, T)>, name: Seq<char>) -> Option<T>
    decreases entries.len(),
{
    if entries.len() == 0 {
        None
    } else if entries.last().0 == name {
        Some(entries.last().1)
    } else {
        meaning(entries.drop_last(), name)
    }
}

/// Where the last part of `s` begins: after its last `-`, or at 0 if it has
/// none.
pub open spec fn last_part_start(s: Seq<char>) -> int
    decreases s.len(),
{
    if s.len() == 0 {
        0
    } else if s.last() == '-' {
        s.len() as int
    } else {
        last_part_start(s.drop_last())
    }
}

/// The parts of `s` between its `-` signs, in order. There is always at
/// least one part, and parts may be empty.
pub open spec fn parts(s: Seq<char>) -> Seq<Seq<char>>
    decreases s.len(),
{
    let k = last_part_start(s);
    if 0 < k <= s.len() {
        parts(s.take(k - 1)).push(s.skip(k))
    } else {
        seq![s]
    }
}

/// The modifier mask of the given modifier names, or the first name that
/// the keyboard does not know.
pub open spec fn mask_of(modifiers: Seq<(Seq<char>, u16)>, names: Seq<Seq<char>>) -> Result<
    u16,
    Seq<char>,
>
    decreases names.len(),
{
    if names.len() == 0 {
        Ok(0)
    } else {
        match mask_of(modifiers, names.drop_last()) {
            Err(name) => Err(name),
            Ok(mask) => match meaning(modifiers, names.last()) {
                None => Err(names.last()),
                Some(bit) => Ok(mask | bit),
            },
        }
    }
}

/// What a chord resolves to. The last part names the key and is looked up
/// first; the parts before it name the modifiers.
pub open spec fn resolved(chord: Seq<char>, keymap: KeymapView) -> Result<
    KeyCode,
    BindingErrorView,
> {
    let names = parts(chord);
    match meaning(keymap.keys, names.last()) {
        None => Err(BindingErrorView::UnknownKey(names.last())),
        Some(code) => match mask_of(keymap.modifiers, names.drop_last()) {
            Err(name) => Err(BindingErrorView::UnknownModifier(name)),
            Ok(mask) => Ok(KeyCode { mask, code }),
        },
    }
}

/// The view of a resolution.
pub open spec fn outcome(r: Result<KeyCode, BindingError>) -> Result<KeyCode, BindingErrorView> {
    match r {
        Ok(code) => Ok(code),
        Err(e) => Err(e@),
    }
}

/// `last_part_start` lies within the string, and directly after a `-`
/// unless it is 0.
pub proof fn lemma_last_part_start(s: Seq<char>)
    ensures
        0 <= last_part_start(s) <= s.len(),
        last_part_start(s) > 0 ==> s[last_part_start(s) - 1] == '-',
        forall|i: int| last_part_start(s) <= i < s.len() ==> s[i] != '-',
    decreases s.len(),
{
    if s.len() > 0 && s.last() != '-' {
        let front = s.drop_last();
        lemma_last_part_start(front);
        assert forall|i: int| last_part_start(s) <= i < s.len() implies s[i] != '-' by {
            if i < front.len() {
                assert(front[i] == s[i]);
            }
        }
    }
}

/// How `last_part_start` and `parts` grow with one more character.
pub proof fn lemma_one_more(s: Seq<char>, n: int)
    requires
        0 <= n < s.len(),
    ensures
        last_part_start(s.take(n + 1)) == if s[n] == '-' {
            n + 1
        } else {
            last_part_start(s.take(n))
        },
        parts(s.take(n + 1)).drop_last() == if s[n] == '-' {
            parts(s.take(n))
        } else {
            parts(s.take(n)).drop_last()
        },
        parts(s.take(n)).last() == s.subrange(last_part_start(s.take(n)), n),
        parts(s.take(n)).len() > 0,
{
    let longer = s.take(n + 1);
    let shorter = s.take(n);
    assert(longer.drop_last() =~= shorter);
    assert(longer.last() == s[n]);
    lemma_last_part_start(shorter);
    lemma_last_part_start(longer);
    let k = last_part_start(shorter);
    lemma_parts_last(shorter);
    assert(shorter.skip(k) =~= s.subrange(k, n));
    if s[n] == '-' {
        assert(longer.take(n) =~= shorter);
        assert(parts(longer) == parts(shorter).push(longer.skip(n + 1)));
        assert(parts(longer).drop_last() =~= parts(shorter));
    } else {
        if k > 0 {
            assert(longer.take(k - 1) =~= shorter.take(k - 1));
            assert(parts(longer).drop_last() =~= parts(shorter.take(k - 1)));
            assert(parts(shorter).drop_last() =~= parts(shorter.take(k - 1)));
        } else {
            assert(parts(longer).drop_last() =~= Seq::<Seq<char>>::empty());
            assert(parts(shorter).drop_last() =~= Seq::<Seq<char>>::empty());
        }
    }
}

/// The last part of a string is what follows its last `-`.
pub proof fn lemma_parts_last(s: Seq<char>)
    ensures
        parts(s).len() > 0,
        parts(s).last() == s.skip(last_part_start(s)),
{
    lemma_last_part_start(s);
    let k = last_part_start(s);
    if k == 0 {
        assert(s.skip(0) =~= s);
    }
}

/// The parts put together again, with a `-` between each two.
pub open spec fn joined(names: Seq<Seq<char>>) -> Seq<char>
    decreases names.len(),
{
    if names.len() == 0 {
        Seq::empty()
    } else if names.len() == 1 {
        names[0]
    } else {
        joined(names.drop_last()) + seq!['-'] + names.last()
    }
}

/// No part holds a `-`.
pub open spec fn dash_free(names: Seq<Seq<char>>) -> bool {
    forall|i: int, j: int| 0 <= i < names.len() && 0 <= j < names[i].len() ==> names[i][j] != '-'
}

/// The parts of a string hold no `-`, and joined by `-` they give the
/// string back.
pub proof fn law_parts_join(s: Seq<char>)
    ensures
        parts(s).len() >= 1,
        dash_free(parts(s)),
        joined(parts(s)) == s,
    decreases s.len(),
{
    lemma_last_part_start(s);
    let k = last_part_start(s);
    if 0 < k {
        let front = s.take(k - 1);
        let last = s.skip(k);
        law_parts_join(front);
        let all = parts(front).push(last);
        assert(all.drop_last() =~= parts(front));
        assert(joined(all) =~= s);
        assert forall|i: int, j: int| 0 <= i < all.len() && 0 <= j < all[i].len() implies all[i][j]
            != '-' by {
            if i < parts(front).len() {
                assert(all[i] == parts(front)[i]);
            } else {
                assert(all[i][j] == s[k + j]);
            }
        }
    } else {
        assert(parts(s) =~= seq![s]);
    }
}

/// A part without `-` that follows a `-` is the last part.
proof fn lemma_last_part_after(front: Seq<char>, last: Seq<char>)
    requires
        forall|j: int| 0 <= j < last.len() ==> last[j] != '-',
    ensures
        last_part_start(front + seq!['-'] + last) == front.len() + 1,
    decreases last.len(),
{
    let s = front + seq!['-'] + last;
    if last.len() > 0 {
        lemma_last_part_after(front, last.drop_last());
        assert(s.drop_last() =~= front + seq!['-'] + last.drop_last());
        assert(s.last() == last.last());
    } else {
        assert(s.last() == '-');
    }
}

/// Parts without `-` are the parts of what they are joined to: cutting a
/// chord at its `-` signs is the only way to take it apart.
pub proof fn law_parts_of_joined(names: Seq<Seq<char>>)
    requires
        names.len() >= 1,
        dash_free(names),
    ensures
        parts(joined(names)) == names,
    decreases names.len(),
{
    let s = joined(names);
    if names.len() == 1 {
        assert forall|j: int| 0 <= j < s.len() implies s[j] != '-' by {
            assert(s[j] == names[0][j]);
        }
        lemma_no_dash(s);
        assert(parts(s) =~= names);
    } else {
        let front = names.drop_last();
        let last = names.last();
        assert(dash_free(front)) by {
            assert forall|i: int, j: int|
                0 <= i < front.len() && 0 <= j < front[i].len() implies front[i][j] != '-' by {
                assert(front[i] == names[i]);
            }
        }
        law_parts_of_joined(front);
        assert forall|j: int| 0 <= j < last.len() implies last[j] != '-' by {
            assert(names[names.len() - 1][j] != '-');
        }
        lemma_last_part_after(joined(front), last);
        let k: int = joined(front).len() as int + 1;
        assert(s.take(k - 1) =~= joined(front));
        assert(s.skip(k) =~= last);
        assert(parts(s) =~= names);
    }
}

/// A string without `-` has one part.
proof fn lemma_no_dash(s: Seq<char>)
    requires
        forall|j: int| 0 <= j < s.len() ==> s[j] != '-',
    ensures
        last_part_start(s) == 0,
    decreases s.len(),
{
    if s.len() > 0 {
        lemma_no_dash(s.drop_last());
    }
}

/// What `name` stands for in `entries`.
fn look_up<T: Copy>(entries: &Vec<(String, T)>, name: &String) -> (r: Option<T>)
    ensures
        r == meaning(named(entries@), name@),
{
    let ghost all = named(entries@);
    let mut i: usize = entries.len();
    assert(all.take(i as int) =~= all);
    while i > 0
        invariant
            i <= entries.len(),
            all == named(entries@),
            meaning(all, name@) == meaning(all.take(i as int), name@),
        decreases i,
    {
        let ghost front = all.take(i as int);
        assert(front.last() == all[i - 1]);
        assert(all[i - 1].0 == entries@[i - 1].0@);
        assert(front.drop_last() =~= all.take(i - 1));
        if entries[i - 1].0 == *name {
            return Some(entries[i - 1].1);
        }
        i -= 1;
    }
    assert(all.take(0).len() == 0);
    None
}

/// Resolves a chord on the given keyboard.
///
/// The chord is cut at each `-`. Its last part must be a key name of the
/// keyboard, else the result is `UnknownKey` with that part. Every part
/// before it must be one of the keyboard's modifier names, else the result
/// is `UnknownModifier` with the first part that is not.
pub fn resolve_chord(chord: &str, keymap: &Keymap) -> (r: Result<KeyCode, BindingError>)
    ensures
        outcome(r) == resolved(chord@, keymap@),
{
    let n = chord.unicode_len();
    let ghost s = chord@;
    let mut held: Vec<String> = Vec::new();
    let mut start: usize = 0;
    let mut i: usize = 0;
    assert(s.take(0) =~= Seq::<char>::empty());
    assert(parts(s.take(0)).drop_last() =~= Seq::<Seq<char>>::empty());
    while i < n
        invariant
            i <= n,
            n == s.len(),
            s == chord@,
            start <= i,
            start == last_part_start(s.take(i as int)),
            texts(held@) == parts(s.take(i as int)).drop_last(),
        decreases n - i,
    {
        proof {
            lemma_one_more(s, i as int);
        }
        if chord.get_char(i) == '-' {
            let part = chord.substring_char(start, i).to_owned();
            proof {
                let before = parts(s.take(i as int));
                assert(before.drop_last().push(before.last()) =~= before);
                assert(texts(held@.push(part)) =~= texts(held@).push(part@));
            }
            held.push(part);
            start = i + 1;
        }
        i += 1;
    }
    assert(s.take(n as int) =~= s);
    proof {
        lemma_parts_last(s);
    }
    let name = chord.substring_char(start, n).to_owned();
    assert(name@ == parts(s).last()) by {
        assert(s.subrange(start as int, n as int) =~= s.skip(start as int));
    }
    let code = match look_up(&keymap.keys, &name) {
        None => {
            return Err(BindingError::UnknownKey(name));
        },
        Some(code) => code,
    };
    let ghost names = texts(held@);
    let mut mask: u16 = 0;
    let mut j: usize = 0;
    assert(names.take(0).len() == 0);
    while j < held.len()
        invariant
            j <= held.len(),
            names == texts(held@),
            names == parts(chord@).drop_last(),
            meaning(keymap@.keys, parts(chord@).last()) == Some(code),
            mask_of(keymap@.modifiers, names.take(j as int)) == Ok::<u16, Seq<char>>(mask),
        decreases held.len() - j,
    {
        let ghost front = names.take(j + 1);
        assert(front.drop_last() =~= names.take(j as int));
        assert(front.last() == held@[j as int]@);
        match look_up(&keymap.modifiers, &held[j]) {
            None => {
                let unknown = held[j].clone();
                proof {
                    assert(mask_of(keymap@.modifiers, front) == Err::<u16, Seq<char>>(unknown@));
                    lemma_mask_of_fails(keymap@.modifiers, names, j + 1);
                }
                return Err(BindingError::UnknownModifier(unknown));
            },
            Some(bit) => {
                mask = mask | bit;
            },
        }
        j += 1;
    }
    assert(names.take(held.len() as int) =~= names);
    Ok(KeyCode { mask, code })
}

/// Once a modifier name is unknown, the names after it do not matter.
pub proof fn lemma_mask_of_fails(modifiers: Seq<(Seq<char>, u16)>, names: Seq<Seq<char>>, k: int)
    requires
        0 <= k <= names.len(),
        mask_of(modifiers, names.take(k)) is Err,
    ensures
        mask_of(modifiers, names) == mask_of(modifiers, names.take(k)),
    decreases names.len() - k,
{
    if k < names.len() {
        let next = names.take(k + 1);
        assert(next.drop_last() =~= names.take(k));
        lemma_mask_of_fails(modifiers, names, k + 1);
    } else {
        assert(names.take(k) =~= names);
    }
}

/// The modifier letters of the X keyboard, with their bits: `S` for shift,
/// `C` for control, `A` for alt and `M` for meta.
pub fn standard_modifiers() -> (r: Vec<(String, u16)>)
    ensures
        named(r@) == seq![("S"@, 1u16), ("C"@, 4u16), ("A"@, 8u16), ("M"@, 64u16)],
{
    let mut r: Vec<(String, u16)> = Vec::new();
    r.push(("S".to_owned(), 1));
    r.push(("C".to_owned(), 4));
    r.push(("A".to_owned(), 8));
    r.push(("M".to_owned(), 64));
    assert(named(r@) =~= seq![("S"@, 1u16), ("C"@, 4u16), ("A"@, 8u16), ("M"@, 64u16)]);
    r
}

impl BindingError {
    /// The name that was not found.
    pub fn name(&self) -> (r: &String)
        ensures
            self@ == BindingErrorView::UnknownKey(r@) || self@ == BindingErrorView::UnknownModifier(
                r@,
            ),
    {
        match self {
            BindingError::UnknownKey(name) => name,
            BindingError::UnknownModifier(name) => name,
        }
    }

    /// A sentence for the user that says which name was not found, and
    /// whether a key or a modifier was looked for.
    pub fn message(&self) -> (r: String)
        ensures
            r@ == match self@ {
                BindingErrorView::UnknownKey(name) => "'"@ + name + "' is not a known key name"@,
                BindingErrorView::UnknownModifier(name) => "'"@ + name
                    + "' is not a known modifier key"@,
            },
    {
        let mut r = "'".to_owned();
        match self {
            BindingError::UnknownKey(name) => {
                r.append(name.as_str());
                r.append("' is not a known key name");
            },
            BindingError::UnknownModifier(name) => {
                r.append(name.as_str());
                r.append("' is not a known modifier key");
            },
        }
        r
    }
}

} // verus!
