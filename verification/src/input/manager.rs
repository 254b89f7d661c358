use vstd::prelude::*;
use crate::input::action::{GameAction, ACTION_COUNT, action_index, action_at, lemma_action_index, lemma_action_at};
use crate::input::bindings::{KeyBindings, ButtonView, bound_of, key_fires, mouse_button};
use crate::input::keys::{Key, CanonicalKey, key_view, canonical_view, canonical_of};
use crate::input::state::{
    InputState, StateView, key_press_effect, mouse_press_effect, release_effect, frame_end_effect,
};

verus! {

/// The actions that a pressed key fires.
pub open spec fn fired_by_key(slots: Seq<Option<Seq<ButtonView>>>, key: (u8, Seq<char>)) -> Set<GameAction> {
    Set::new(|a: GameAction| key_fires(slots, a, key))
}

/// The actions bound to a mouse button.
pub open spec fn fired_by_mouse(slots: Seq<Option<Seq<ButtonView>>>, m: u16) -> Set<GameAction> {
    Set::new(|a: GameAction| bound_of(slots, a).contains(mouse_button(m)))
}

/// The actions that releasing a key lets go: those it fires and that no key
/// still held fires.
pub open spec fn released_by_key(
    slots: Seq<Option<Seq<ButtonView>>>,
    key: (u8, Seq<char>),
    held: Set<(u8, Seq<char>)>,
) -> Set<GameAction> {
    Set::new(|a: GameAction| key_fires(slots, a, key)
        && !(exists|k: (u8, Seq<char>)| #[trigger] held.contains(k) && key_fires(slots, a, k)))
}

/// Turns key and mouse events into held, pressed and released actions,
/// through the key bindings.
pub struct InputManager {
    bindings: KeyBindings,
    state: InputState,
    held_keys: Vec<CanonicalKey>,
    held_mouse_buttons: Vec<u16>,
}

impl InputManager {
    /// The bindings and the state are well formed.
    pub closed spec fn wf(&self) -> bool {
        self.bindings.wf() && self.state.wf()
    }

    /// The slots of the bindings.
    pub closed spec fn slots(&self) -> Seq<Option<Seq<ButtonView>>> {
        self.bindings.slots()
    }

    /// The state of the actions.
    pub closed spec fn state_view(&self) -> StateView {
        self.state@
    }

    /// The keys held down, in canonical form.
    pub closed spec fn held_keys_set(&self) -> Set<(u8, Seq<char>)> {
        Set::new(|k: (u8, Seq<char>)| exists|i: int| 0 <= i < self.held_keys.len()
            && canonical_view(#[trigger] self.held_keys@[i]) == k)
    }

    /// The mouse buttons held down.
    pub closed spec fn held_buttons_set(&self) -> Set<u16> {
        Set::new(|m: u16| self.held_mouse_buttons@.contains(m))
    }

    /// A manager with the given bindings, nothing held.
    pub fn with_bindings(bindings: KeyBindings) -> (m: InputManager)
        requires
            bindings.wf(),
        ensures
            m.wf(),
            m.slots() == bindings.slots(),
            m.state_view() == (Set::<GameAction>::empty(), Set::<GameAction>::empty(), Set::<GameAction>::empty(), false),
            m.held_keys_set() == Set::<(u8, Seq<char>)>::empty(),
            m.held_buttons_set() == Set::<u16>::empty(),
    {
        let m = InputManager {
            bindings,
            state: InputState::new(),
            held_keys: Vec::new(),
            held_mouse_buttons: Vec::new(),
        };
        proof {
            assert(m.held_keys_set() =~= Set::<(u8, Seq<char>)>::empty());
            assert(m.held_buttons_set() =~= Set::<u16>::empty());
        }
        m
    }

    /// The state of the actions.
    pub fn state(&self) -> (s: &InputState)
        requires
            self.wf(),
        ensures
            s.wf(),
            s@ == self.state_view(),
    {
        &self.state
    }

    /// The bindings.
    pub fn bindings(&self) -> (b: &KeyBindings)
        requires
            self.wf(),
        ensures
            b.wf(),
            b.slots() == self.slots(),
    {
        &self.bindings
    }

    fn add_held_key(&mut self, k: CanonicalKey)
        ensures
            final(self).held_keys_set() == old(self).held_keys_set().insert(canonical_view(k)),
            final(self).bindings == old(self).bindings,
            final(self).state == old(self).state,
            final(self).held_mouse_buttons == old(self).held_mouse_buttons,
    {
        let mut i: usize = 0;
        while i < self.held_keys.len()
            invariant
                i <= self.held_keys.len(),
                self.held_keys == old(self).held_keys,
                self.bindings == old(self).bindings,
                self.state == old(self).state,
                self.held_mouse_buttons == old(self).held_mouse_buttons,
                forall|j: int| 0 <= j < i ==> canonical_view(#[trigger] self.held_keys@[j]) != canonical_view(k),
            decreases self.held_keys.len() - i,
        {
            if self.held_keys[i].same(&k) {
                proof {
                    assert(self.held_keys_set() =~= old(self).held_keys_set().insert(canonical_view(k)));
                }
                return;
            }
            i = i + 1;
        }
        let ghost before = self.held_keys@;
        self.held_keys.push(k);
        proof {
            assert forall|x: (u8, Seq<char>)| self.held_keys_set().contains(x)
                == old(self).held_keys_set().insert(canonical_view(k)).contains(x) by {
                if x == canonical_view(k) {
                    assert(canonical_view(self.held_keys@[before.len() as int]) == x);
                } else if old(self).held_keys_set().contains(x) {
                    let j = choose|j: int| 0 <= j < before.len() && canonical_view(#[trigger] before[j]) == x;
                    assert(self.held_keys@[j] == before[j]);
                }
            }
            assert(self.held_keys_set() =~= old(self).held_keys_set().insert(canonical_view(k)));
        }
    }

    fn remove_held_key(&mut self, k: &CanonicalKey)
        ensures
            final(self).held_keys_set() == old(self).held_keys_set().remove(canonical_view(*k)),
            final(self).bindings == old(self).bindings,
            final(self).state == old(self).state,
            final(self).held_mouse_buttons == old(self).held_mouse_buttons,
    {
        let ghost src = self.held_keys@;
        let mut kept: Vec<CanonicalKey> = Vec::new();
        let mut i: usize = 0;
        while i < self.held_keys.len()
            invariant
                i <= self.held_keys.len(),
                self.held_keys@ == src,
                self.held_keys == old(self).held_keys,
                self.bindings == old(self).bindings,
                self.state == old(self).state,
                self.held_mouse_buttons == old(self).held_mouse_buttons,
                forall|j: int| 0 <= j < kept.len() ==> canonical_view(#[trigger] kept@[j]) != canonical_view(*k),
                forall|j: int| 0 <= j < kept.len() ==> exists|l: int| 0 <= l < i
                    && canonical_view(#[trigger] src[l]) == canonical_view(#[trigger] kept@[j]),
                forall|l: int| 0 <= l < i && canonical_view(#[trigger] src[l]) != canonical_view(*k)
                    ==> exists|j: int| 0 <= j < kept.len() && canonical_view(#[trigger] kept@[j]) == canonical_view(src[l]),
            decreases self.held_keys.len() - i,
        {
            let item = &self.held_keys[i];
            if !item.same(k) {
                let c = item.copy();
                let ghost before = kept@;
                kept.push(c);
                proof {
                    assert(kept@[before.len() as int] == c);
                    assert forall|j: int| 0 <= j < kept.len() implies exists|l: int| 0 <= l < i + 1
                        && canonical_view(#[trigger] src[l]) == canonical_view(#[trigger] kept@[j]) by {
                        if j < before.len() {
                            assert(kept@[j] == before[j]);
                        } else {
                            assert(canonical_view(src[i as int]) == canonical_view(kept@[j]));
                        }
                    }
                    assert forall|l: int| 0 <= l < i + 1 && canonical_view(#[trigger] src[l]) != canonical_view(*k)
                        implies exists|j: int| 0 <= j < kept.len() && canonical_view(#[trigger] kept@[j]) == canonical_view(src[l]) by {
                        if l < i {
                            let j = choose|j: int| 0 <= j < before.len() && canonical_view(#[trigger] before[j]) == canonical_view(src[l]);
                            assert(kept@[j] == before[j]);
                        } else {
                            assert(canonical_view(kept@[before.len() as int]) == canonical_view(src[l]));
                        }
                    }
                }
            }
            i = i + 1;
        }
        self.held_keys = kept;
        proof {
            assert forall|x: (u8, Seq<char>)| self.held_keys_set().contains(x)
                == old(self).held_keys_set().remove(canonical_view(*k)).contains(x) by {
                if self.held_keys_set().contains(x) {
                    let j = choose|j: int| 0 <= j < self.held_keys.len() && canonical_view(#[trigger] self.held_keys@[j]) == x;
                    let l = choose|l: int| 0 <= l < src.len() && canonical_view(#[trigger] src[l]) == canonical_view(self.held_keys@[j]);
                    assert(old(self).held_keys@[l] == src[l]);
                }
                if old(self).held_keys_set().remove(canonical_view(*k)).contains(x) {
                    let l = choose|l: int| 0 <= l < src.len() && canonical_view(#[trigger] old(self).held_keys@[l]) == x;
                    assert(canonical_view(src[l]) == x);
                }
            }
            assert(self.held_keys_set() =~= old(self).held_keys_set().remove(canonical_view(*k)));
        }
    }

    /// Whether some key still held fires the action.
    fn other_key_fires(&self, action: GameAction) -> (r: bool)
        requires
            self.wf(),
        ensures
            r == exists|k: (u8, Seq<char>)| #[trigger] self.held_keys_set().contains(k)
                && key_fires(self.slots(), action, k),
    {
        let mut i: usize = 0;
        while i < self.held_keys.len()
            invariant
                i <= self.held_keys.len(),
                self.wf(),
                forall|j: int| 0 <= j < i ==> !key_fires(self.slots(), action, canonical_view(#[trigger] self.held_keys@[j])),
            decreases self.held_keys.len() - i,
        {
            let key = self.held_keys[i].to_key();
            if self.bindings.is_key_bound(&key, action) {
                proof {
                    let k = canonical_view(self.held_keys@[i as int]);
                    assert(self.held_keys_set().contains(k));
                }
                return true;
            }
            i = i + 1;
        }
        proof {
            assert forall|k: (u8, Seq<char>)| #[trigger] self.held_keys_set().contains(k)
                implies !key_fires(self.slots(), action, k) by {
                let j = choose|j: int| 0 <= j < self.held_keys.len() && canonical_view(#[trigger] self.held_keys@[j]) == k;
                assert(!key_fires(self.slots(), action, canonical_view(self.held_keys@[j])));
            }
        }
        false
    }

    /// A key goes down. A key with no canonical form (a dead or unidentified
    /// key, or an empty text) changes nothing; otherwise it is held, and the
    /// actions it fires are pressed (see `key_press_effect`).
    pub fn on_key_press(&mut self, key: Key)
        requires
            old(self).wf(),
        ensures
            final(self).wf(),
            final(self).slots() == old(self).slots(),
            final(self).held_buttons_set() == old(self).held_buttons_set(),
            match canonical_of(key_view(key)) {
                Some(c) => {
                    &&& final(self).held_keys_set() == old(self).held_keys_set().insert(c)
                    &&& final(self).state_view() == key_press_effect(
                        old(self).state_view(),
                        fired_by_key(old(self).slots(), key_view(key)),
                    )
                },
                None => {
                    &&& final(self).held_keys_set() == old(self).held_keys_set()
                    &&& final(self).state_view() == old(self).state_view()
                },
            },
    {
        let canonical = match CanonicalKey::from_key(&key) {
            Some(k) => k,
            None => {
                return;
            },
        };
        self.add_held_key(canonical);
        let ghost s0 = self.state@;
        let ghost fired = fired_by_key(self.bindings.slots(), key_view(key));
        let mut i: usize = 0;
        while i < ACTION_COUNT
            invariant
                i <= ACTION_COUNT,
                self.wf(),
                self.bindings == old(self).bindings,
                self.held_keys_set() == old(self).held_keys_set().insert(canonical_of(key_view(key))->0),
                self.held_mouse_buttons == old(self).held_mouse_buttons,
                fired == fired_by_key(self.bindings.slots(), key_view(key)),
                s0 == old(self).state@,
                self.state@.2 == s0.2,
                self.state@.3 == s0.3,
                forall|a: GameAction| #[trigger] self.state@.0.contains(a)
                    == (s0.0.contains(a) || (action_index(a) < i && fired.contains(a))),
                forall|a: GameAction| #[trigger] self.state@.1.contains(a)
                    == (s0.1.contains(a) || (action_index(a) < i && fired.contains(a) && !s0.0.contains(a))),
            decreases ACTION_COUNT - i,
        {
            let a = GameAction::from_index(i);
            let ghost st = self.state@;
            if self.bindings.is_key_bound(&key, a) {
                if !self.state.is_held(a) {
                    self.state.hold(a);
                }
            }
            proof {
                assert forall|b: GameAction| #[trigger] self.state@.0.contains(b)
                    == (s0.0.contains(b) || (action_index(b) < i + 1 && fired.contains(b))) by {
                    lemma_action_index(b);
                    assert(st.0.contains(b) == (s0.0.contains(b) || (action_index(b) < i && fired.contains(b))));
                }
                assert forall|b: GameAction| #[trigger] self.state@.1.contains(b)
                    == (s0.1.contains(b) || (action_index(b) < i + 1 && fired.contains(b) && !s0.0.contains(b))) by {
                    lemma_action_index(b);
                    assert(st.0.contains(b) == (s0.0.contains(b) || (action_index(b) < i && fired.contains(b))));
                    assert(st.1.contains(b) == (s0.1.contains(b) || (action_index(b) < i && fired.contains(b) && !s0.0.contains(b))));
                }
            }
            i = i + 1;
        }
        proof {
            let target = key_press_effect(s0, fired);
            assert forall|b: GameAction| self.state@.0.contains(b) == target.0.contains(b) by {
                lemma_action_index(b);
            }
            assert forall|b: GameAction| self.state@.1.contains(b) == target.1.contains(b) by {
                lemma_action_index(b);
            }
            assert(self.state@.0 =~= target.0);
            assert(self.state@.1 =~= target.1);
        }
    }

    /// A key goes up. A key with no canonical form changes nothing;
    /// otherwise it is no longer held, and the actions it fires that no key
    /// still held fires are released (see `release_effect`).
    pub fn on_key_release(&mut self, key: &Key)
        requires
            old(self).wf(),
        ensures
            final(self).wf(),
            final(self).slots() == old(self).slots(),
            final(self).held_buttons_set() == old(self).held_buttons_set(),
            match canonical_of(key_view(*key)) {
                Some(c) => {
                    &&& final(self).held_keys_set() == old(self).held_keys_set().remove(c)
                    &&& final(self).state_view() == release_effect(
                        old(self).state_view(),
                        released_by_key(old(self).slots(), key_view(*key), old(self).held_keys_set().remove(c)),
                    )
                },
                None => {
                    &&& final(self).held_keys_set() == old(self).held_keys_set()
                    &&& final(self).state_view() == old(self).state_view()
                },
            },
    {
        let canonical = match CanonicalKey::from_key(key) {
            Some(k) => k,
            None => {
                return;
            },
        };
        self.remove_held_key(&canonical);
        let ghost s0 = self.state@;
        let ghost released = released_by_key(self.bindings.slots(), key_view(*key), self.held_keys_set());
        let mut i: usize = 0;
        while i < ACTION_COUNT
            invariant
                i <= ACTION_COUNT,
                self.wf(),
                self.bindings == old(self).bindings,
                self.held_keys_set() == old(self).held_keys_set().remove(canonical_of(key_view(*key))->0),
                self.held_mouse_buttons == old(self).held_mouse_buttons,
                released == released_by_key(self.bindings.slots(), key_view(*key), self.held_keys_set()),
                s0 == old(self).state@,
                self.state@.1 == s0.1,
                self.state@.3 == s0.3,
                forall|a: GameAction| #[trigger] self.state@.0.contains(a)
                    == (s0.0.contains(a) && !(action_index(a) < i && released.contains(a))),
                forall|a: GameAction| #[trigger] self.state@.2.contains(a)
                    == (s0.2.contains(a) || (action_index(a) < i && released.contains(a))),
            decreases ACTION_COUNT - i,
        {
            let a = GameAction::from_index(i);
            let ghost st = self.state@;
            if self.bindings.is_key_bound(key, a) {
                let other_key_held = self.other_key_fires(a);
                if !other_key_held {
                    self.state.let_go(a);
                }
            }
            proof {
                assert forall|b: GameAction| #[trigger] self.state@.0.contains(b)
                    == (s0.0.contains(b) && !(action_index(b) < i + 1 && released.contains(b))) by {
                    lemma_action_index(b);
                    assert(st.0.contains(b) == (s0.0.contains(b) && !(action_index(b) < i && released.contains(b))));
                }
                assert forall|b: GameAction| #[trigger] self.state@.2.contains(b)
                    == (s0.2.contains(b) || (action_index(b) < i + 1 && released.contains(b))) by {
                    lemma_action_index(b);
                    assert(st.2.contains(b) == (s0.2.contains(b) || (action_index(b) < i && released.contains(b))));
                }
            }
            i = i + 1;
        }
        proof {
            let target = release_effect(s0, released);
            assert forall|b: GameAction| self.state@.0.contains(b) == target.0.contains(b) by {
                lemma_action_index(b);
            }
            assert forall|b: GameAction| self.state@.2.contains(b) == target.2.contains(b) by {
                lemma_action_index(b);
            }
            assert(self.state@.0 =~= target.0);
            assert(self.state@.2 =~= target.2);
        }
    }

    /// A mouse button goes down: it is held, and the actions bound to it are
    /// pressed (see `mouse_press_effect`).
    pub fn on_mouse_press(&mut self, button: u16)
        requires
            old(self).wf(),
        ensures
            final(self).wf(),
            final(self).slots() == old(self).slots(),
            final(self).held_keys_set() == old(self).held_keys_set(),
            final(self).held_buttons_set() == old(self).held_buttons_set().insert(button),
            final(self).state_view() == mouse_press_effect(old(self).state_view(), fired_by_mouse(old(self).slots(), button)),
    {
        let ghost before = self.held_mouse_buttons@;
        self.held_mouse_buttons.push(button);
        proof {
            assert forall|m: u16| self.held_buttons_set().contains(m) == old(self).held_buttons_set().insert(button).contains(m) by {
                if before.contains(m) {
                    let j = choose|j: int| 0 <= j < before.len() && before[j] == m;
                    assert(self.held_mouse_buttons@[j] == m);
                }
                if m == button {
                    assert(self.held_mouse_buttons@[before.len() as int] == m);
                }
                if self.held_mouse_buttons@.contains(m) && m != button {
                    let j = choose|j: int| 0 <= j < self.held_mouse_buttons@.len() && self.held_mouse_buttons@[j] == m;
                    assert(before[j] == m);
                }
            }
            assert(self.held_buttons_set() =~= old(self).held_buttons_set().insert(button));
        }
        let ghost s0 = self.state@;
        let ghost fired = fired_by_mouse(self.bindings.slots(), button);
        let mut i: usize = 0;
        while i < ACTION_COUNT
            invariant
                i <= ACTION_COUNT,
                self.wf(),
                self.bindings == old(self).bindings,
                self.held_keys == old(self).held_keys,
                self.held_buttons_set() == old(self).held_buttons_set().insert(button),
                fired == fired_by_mouse(self.bindings.slots(), button),
                s0 == old(self).state@,
                self.state@.2 == s0.2,
                self.state@.3 == s0.3,
                forall|a: GameAction| #[trigger] self.state@.0.contains(a)
                    == (s0.0.contains(a) || (action_index(a) < i && fired.contains(a))),
                forall|a: GameAction| #[trigger] self.state@.1.contains(a)
                    == (s0.1.contains(a) || (action_index(a) < i && fired.contains(a))),
            decreases ACTION_COUNT - i,
        {
            let a = GameAction::from_index(i);
            let ghost st = self.state@;
            if self.bindings.is_mouse_bound(button, a) {
                self.state.hold(a);
            }
            proof {
                assert forall|b: GameAction| #[trigger] self.state@.0.contains(b)
                    == (s0.0.contains(b) || (action_index(b) < i + 1 && fired.contains(b))) by {
                    lemma_action_index(b);
                    assert(st.0.contains(b) == (s0.0.contains(b) || (action_index(b) < i && fired.contains(b))));
                }
                assert forall|b: GameAction| #[trigger] self.state@.1.contains(b)
                    == (s0.1.contains(b) || (action_index(b) < i + 1 && fired.contains(b))) by {
                    lemma_action_index(b);
                    assert(st.1.contains(b) == (s0.1.contains(b) || (action_index(b) < i && fired.contains(b))));
                }
            }
            i = i + 1;
        }
        proof {
            let target = mouse_press_effect(s0, fired);
            assert forall|b: GameAction| self.state@.0.contains(b) == target.0.contains(b) by {
                lemma_action_index(b);
            }
            assert forall|b: GameAction| self.state@.1.contains(b) == target.1.contains(b) by {
                lemma_action_index(b);
            }
            assert(self.state@.0 =~= target.0);
            assert(self.state@.1 =~= target.1);
        }
    }

    /// A mouse button goes up: it is no longer held, and the actions bound
    /// to it are released (see `release_effect`).
    pub fn on_mouse_release(&mut self, button: u16)
        requires
            old(self).wf(),
        ensures
            final(self).wf(),
            final(self).slots() == old(self).slots(),
            final(self).held_keys_set() == old(self).held_keys_set(),
            final(self).held_buttons_set() == old(self).held_buttons_set().remove(button),
            final(self).state_view() == release_effect(old(self).state_view(), fired_by_mouse(old(self).slots(), button)),
    {
        let ghost src = self.held_mouse_buttons@;
        let ghost pred = |x: u16| x != button;
        let mut kept: Vec<u16> = Vec::new();
        let mut j: usize = 0;
        while j < self.held_mouse_buttons.len()
            invariant
                j <= self.held_mouse_buttons.len(),
                self.held_mouse_buttons@ == src,
                pred == (|x: u16| x != button),
                kept@ == src.take(j as int).filter(pred),
            decreases self.held_mouse_buttons.len() - j,
        {
            proof {
                reveal(Seq::filter);
                assert(src.take(j as int + 1).drop_last() =~= src.take(j as int));
            }
            let m = self.held_mouse_buttons[j];
            if m != button {
                kept.push(m);
            }
            j = j + 1;
        }
        proof {
            assert(src.take(src.len() as int) =~= src);
            src.filter_lemma(pred);
            assert forall|m: u16| kept@.contains(m) == (m != button && src.contains(m)) by {
                if kept@.contains(m) {
                    src.lemma_filter_contains_rev(pred, m);
                    let k = choose|k: int| 0 <= k < kept@.len() && kept@[k] == m;
                    assert(pred(kept@[k]));
                }
                if m != button && src.contains(m) {
                    let k = choose|k: int| 0 <= k < src.len() && src[k] == m;
                    assert(pred(src[k]));
                }
            }
        }
        self.held_mouse_buttons = kept;
        proof {
            assert(self.held_buttons_set() =~= old(self).held_buttons_set().remove(button));
        }
        let ghost s0 = self.state@;
        let ghost fired = fired_by_mouse(self.bindings.slots(), button);
        let mut i: usize = 0;
        while i < ACTION_COUNT
            invariant
                i <= ACTION_COUNT,
                self.wf(),
                self.bindings == old(self).bindings,
                self.held_keys == old(self).held_keys,
                self.held_buttons_set() == old(self).held_buttons_set().remove(button),
                fired == fired_by_mouse(self.bindings.slots(), button),
                s0 == old(self).state@,
                self.state@.1 == s0.1,
                self.state@.3 == s0.3,
                forall|a: GameAction| #[trigger] self.state@.0.contains(a)
                    == (s0.0.contains(a) && !(action_index(a) < i && fired.contains(a))),
                forall|a: GameAction| #[trigger] self.state@.2.contains(a)
                    == (s0.2.contains(a) || (action_index(a) < i && fired.contains(a))),
            decreases ACTION_COUNT - i,
        {
            let a = GameAction::from_index(i);
            let ghost st = self.state@;
            if self.bindings.is_mouse_bound(button, a) {
                self.state.let_go(a);
            }
            proof {
                assert forall|b: GameAction| #[trigger] self.state@.0.contains(b)
                    == (s0.0.contains(b) && !(action_index(b) < i + 1 && fired.contains(b))) by {
                    lemma_action_index(b);
                    assert(st.0.contains(b) == (s0.0.contains(b) && !(action_index(b) < i && fired.contains(b))));
                }
                assert forall|b: GameAction| #[trigger] self.state@.2.contains(b)
                    == (s0.2.contains(b) || (action_index(b) < i + 1 && fired.contains(b))) by {
                    lemma_action_index(b);
                    assert(st.2.contains(b) == (s0.2.contains(b) || (action_index(b) < i && fired.contains(b))));
                }
            }
            i = i + 1;
        }
        proof {
            let target = release_effect(s0, fired);
            assert forall|b: GameAction| self.state@.0.contains(b) == target.0.contains(b) by {
                lemma_action_index(b);
            }
            assert forall|b: GameAction| self.state@.2.contains(b) == target.2.contains(b) by {
                lemma_action_index(b);
            }
            assert(self.state@.0 =~= target.0);
            assert(self.state@.2 =~= target.2);
        }
    }

    /// Captures or releases the mouse.
    pub fn set_mouse_captured(&mut self, captured: bool)
        requires
            old(self).wf(),
        ensures
            final(self).wf(),
            final(self).slots() == old(self).slots(),
            final(self).held_keys_set() == old(self).held_keys_set(),
            final(self).held_buttons_set() == old(self).held_buttons_set(),
            final(self).state_view() == (old(self).state_view().0, old(self).state_view().1, old(self).state_view().2, captured),
    {
        self.state.set_mouse_captured(captured);
    }

    /// Ends a frame (see `frame_end_effect`).
    pub fn update(&mut self)
        requires
            old(self).wf(),
        ensures
            final(self).wf(),
            final(self).slots() == old(self).slots(),
            final(self).held_keys_set() == old(self).held_keys_set(),
            final(self).held_buttons_set() == old(self).held_buttons_set(),
            final(self).state_view() == frame_end_effect(old(self).state_view()),
    {
        self.state.update();
    }
}

impl Default for InputManager {
    fn default() -> (m: InputManager)
        ensures
            m.wf(),
            m.state_view() == (Set::<GameAction>::empty(), Set::<GameAction>::empty(), Set::<GameAction>::empty(), false),
            m.held_keys_set() == Set::<(u8, Seq<char>)>::empty(),
            m.held_buttons_set() == Set::<u16>::empty(),
    {
        InputManager::with_bindings(KeyBindings::default_bindings())
    }
}

} // verus!
