//! What a button does when pressed and released.

use vstd::prelude::*;

verus! {

/// The name of a keyboard symbol, as understood by the keymap.
#[derive(Debug)]
pub struct KeySym(pub String);

impl Clone for KeySym {
    fn clone(&self) -> (r: Self)
        ensures
            r@ == self@,
    {
        KeySym(self.0.clone())
    }
}

impl View for KeySym {
    type V = Seq<char>;

    open spec fn view(&self) -> Seq<char> {
        self.0@
    }
}

/// A modifier the keyboard can lock on behalf of the user.
#[derive(Clone, Copy, Debug, PartialEq, Eq, Structural)]
pub enum Modifier {
    Control,
    Alt,
}

/// Static description of what a key does when activated.
#[derive(Debug)]
pub enum Action {
    /// Enter text or keycodes into the focused field.
    Submit { text: Option<String>, keys: Vec<KeySym> },
    /// Delete backwards.
    Erase,
    /// Switch to another view of the same layout.
    SetView(String),
    /// Switch to the `lock` view, possibly latching, until pressed again.
    LockView { lock: String, unlock: String, latches: bool, looks_locked_from: Vec<String> },
    /// Lock or unlock a modifier.
    ApplyModifier(Modifier),
    /// Open the layout-switcher popover.
    ShowPreferences,
}

/// Mathematical image of `Action`.
pub ghost enum ActionV {
    Submit { text: Option<Seq<char>>, keys: Seq<Seq<char>> },
    Erase,
    SetView(Seq<char>),
    LockView {
        lock: Seq<char>,
        unlock: Seq<char>,
        latches: bool,
        looks_locked_from: Seq<Seq<char>>,
    },
    ApplyModifier(Modifier),
    ShowPreferences,
}

impl View for Action {
    type V = ActionV;

    open spec fn view(&self) -> ActionV {
        match self {
            Action::Submit { text, keys } => ActionV::Submit {
                text: match text {
                    Some(t) => Some(t@),
                    None => None,
                },
                keys: keys@.map_values(|k: KeySym| k@),
            },
            Action::Erase => ActionV::Erase,
            Action::SetView(name) => ActionV::SetView(name@),
            Action::LockView { lock, unlock, latches, looks_locked_from } => ActionV::LockView {
                lock: lock@,
                unlock: unlock@,
                latches: *latches,
                looks_locked_from: looks_locked_from@.map_values(|n: String| n@),
            },
            Action::ApplyModifier(m) => ActionV::ApplyModifier(*m),
            Action::ShowPreferences => ActionV::ShowPreferences,
        }
    }
}

/// A `LockView` action counts as locked from its `lock` view and from
/// every view it looks locked from.
pub open spec fn spec_is_locked(a: ActionV, view: Seq<char>) -> bool {
    match a {
        ActionV::LockView { lock, looks_locked_from, .. } => lock == view
            || looks_locked_from.contains(view),
        _ => false,
    }
}

impl Clone for Action {
    fn clone(&self) -> (r: Self)
        ensures
            r@ == self@,
    {
        match self {
            Action::Submit { text, keys } => {
                let text2 = match text {
                    Some(t) => Some(t.clone()),
                    None => None,
                };
                let mut keys2: Vec<KeySym> = Vec::new();
                let mut i: usize = 0;
                while i < keys.len()
                    invariant
                        i <= keys@.len(),
                        keys2@.len() == i,
                        forall|j: int| 0 <= j < i ==> (#[trigger] keys2@[j])@ == keys@[j]@,
                    decreases keys@.len() - i,
                {
                    keys2.push(keys[i].clone());
                    i = i + 1;
                }
                let r = Action::Submit { text: text2, keys: keys2 };
                proof {
                    assert(keys2@.map_values(|k: KeySym| k@) =~= keys@.map_values(
                        |k: KeySym| k@,
                    ));
                }
                r
            },
            Action::Erase => Action::Erase,
            Action::SetView(name) => Action::SetView(name.clone()),
            Action::LockView { lock, unlock, latches, looks_locked_from } => {
                let mut from2: Vec<String> = Vec::new();
                let mut i: usize = 0;
                while i < looks_locked_from.len()
                    invariant
                        i <= looks_locked_from@.len(),
                        from2@.len() == i,
                        forall|j: int|
                            0 <= j < i ==> (#[trigger] from2@[j])@ == looks_locked_from@[j]@,
                    decreases looks_locked_from@.len() - i,
                {
                    from2.push(looks_locked_from[i].clone());
                    i = i + 1;
                }
                let r = Action::LockView {
                    lock: lock.clone(),
                    unlock: unlock.clone(),
                    latches: *latches,
                    looks_locked_from: from2,
                };
                proof {
                    assert(from2@.map_values(|n: String| n@) =~= looks_locked_from@.map_values(
                        |n: String| n@,
                    ));
                }
                r
            },
            Action::ApplyModifier(m) => Action::ApplyModifier(*m),
            Action::ShowPreferences => Action::ShowPreferences,
        }
    }
}

impl Action {
    /// Whether the indicated view belongs to this action's locked state.
    pub fn is_locked(&self, view: &String) -> (r: bool)
        ensures
            r == spec_is_locked(self@, view@),
    {
        let ghost names = match self@ {
            ActionV::LockView { looks_locked_from, .. } => looks_locked_from,
            _ => Seq::empty(),
        };
        match self {
            Action::LockView { lock, looks_locked_from, .. } => {
                if *lock == *view {
                    return true;
                }
                let mut i: usize = 0;
                proof {
                    assert(names.len() == looks_locked_from@.len());
                }
                while i < looks_locked_from.len()
                    invariant
                        i <= looks_locked_from.len(),
                        names == match self@ {
                            ActionV::LockView { looks_locked_from: l, .. } => l,
                            _ => Seq::empty(),
                        },
                        self@ is LockView,
                        names.len() == looks_locked_from@.len(),
                        forall|j: int| 0 <= j < names.len() ==> #[trigger] names[j]
                            == looks_locked_from@[j]@,
                        forall|j: int| 0 <= j < i ==> #[trigger] names[j] != view@,
                        !(lock@ == view@),
                    decreases looks_locked_from.len() - i,
                {
                    if looks_locked_from[i] == *view {
                        proof {
                            assert(names[i as int] == view@);
                            assert(names.contains(view@));
                        }
                        return true;
                    }
                    i = i + 1;
                }
                proof {
                    if names.contains(view@) {
                        let w = choose|w: int| 0 <= w < names.len() && names[w] == view@;
                        assert(false);
                    }
                }
                false
            },
            _ => false,
        }
    }
}

} // verus!
