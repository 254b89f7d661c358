use vstd::prelude::*;
use crate::input::action::{GameAction, ACTION_COUNT, action_index, action_at, lemma_action_index, lemma_action_at};

verus! {

/// A set of game actions, one flag per action.
pub struct ActionSet {
    flags: Vec<bool>,
}

impl View for ActionSet {
    type V = Set<GameAction>;

    closed spec fn view(&self) -> Set<GameAction> {
        Set::new(|a: GameAction| self.flags@[action_index(a)])
    }
}

impl ActionSet {
    /// There is one flag per action.
    pub closed spec fn wf(&self) -> bool {
        self.flags.len() == ACTION_COUNT
    }

    /// The empty set.
    pub fn new() -> (s: ActionSet)
        ensures
            s.wf(),
            s@ == Set::<GameAction>::empty(),
    {
        let mut flags: Vec<bool> = Vec::new();
        let mut i: usize = 0;
        while i < ACTION_COUNT
            invariant
                i <= ACTION_COUNT,
                flags.len() == i,
                forall|j: int| 0 <= j < i ==> !(#[trigger] flags@[j]),
            decreases ACTION_COUNT - i,
        {
            flags.push(false);
            i = i + 1;
        }
        let s = ActionSet { flags };
        proof {
            assert forall|a: GameAction| !s@.contains(a) by {
                lemma_action_index(a);
            }
            assert(s@ =~= Set::<GameAction>::empty());
        }
        s
    }

    /// Whether the action is in the set.
    pub fn contains(&self, a: GameAction) -> (r: bool)
        requires
            self.wf(),
        ensures
            r == self@.contains(a),
    {
        self.flags[a.index()]
    }

    /// Adds the action.
    pub fn insert(&mut self, a: GameAction)
        requires
            old(self).wf(),
        ensures
            final(self).wf(),
            final(self)@ == old(self)@.insert(a),
    {
        let i = a.index();
        self.flags.set(i, true);
        proof {
            assert forall|b: GameAction| self@.contains(b) == old(self)@.insert(a).contains(b) by {
                lemma_action_index(a);
                lemma_action_index(b);
            }
            assert(self@ =~= old(self)@.insert(a));
        }
    }

    /// Removes the action.
    pub fn remove(&mut self, a: GameAction)
        requires
            old(self).wf(),
        ensures
            final(self).wf(),
            final(self)@ == old(self)@.remove(a),
    {
        let i = a.index();
        self.flags.set(i, false);
        proof {
            assert forall|b: GameAction| self@.contains(b) == old(self)@.remove(a).contains(b) by {
                lemma_action_index(a);
                lemma_action_index(b);
            }
            assert(self@ =~= old(self)@.remove(a));
        }
    }

    /// Empties the set.
    pub fn clear(&mut self)
        requires
            old(self).wf(),
        ensures
            final(self).wf(),
            final(self)@ == Set::<GameAction>::empty(),
    {
        *self = ActionSet::new();
    }
}

/// The state of the actions as plain values: the held actions, those
/// pressed since the last frame, those released since the last frame, and
/// whether the mouse is captured.
pub type StateView = (Set<GameAction>, Set<GameAction>, Set<GameAction>, bool);

/// What a key press does: the actions it fires become held, and those among
/// them that were not held are just pressed.
pub open spec fn key_press_effect(s: StateView, fired: Set<GameAction>) -> StateView {
    (s.0.union(fired), s.1.union(fired.difference(s.0)), s.2, s.3)
}

/// What a mouse press does: the actions it fires become held and just
/// pressed, whether they were held or not.
pub open spec fn mouse_press_effect(s: StateView, fired: Set<GameAction>) -> StateView {
    (s.0.union(fired), s.1.union(fired), s.2, s.3)
}

/// What a release does: the released actions stop being held and are just
/// released.
pub open spec fn release_effect(s: StateView, released: Set<GameAction>) -> StateView {
    (s.0.difference(released), s.1, s.2.union(released), s.3)
}

/// What the end of a frame does: nothing is just pressed or just released
/// any more; held actions stay held.
pub open spec fn frame_end_effect(s: StateView) -> StateView {
    (s.0, Set::empty(), Set::empty(), s.3)
}

/// Which actions are held, just pressed or just released, and whether the
/// mouse is captured.
pub struct InputState {
    pressed_actions: ActionSet,
    just_pressed_actions: ActionSet,
    just_released_actions: ActionSet,
    mouse_captured: bool,
}

impl View for InputState {
    type V = StateView;

    closed spec fn view(&self) -> StateView {
        (self.pressed_actions@, self.just_pressed_actions@, self.just_released_actions@, self.mouse_captured)
    }
}

impl InputState {
    /// Each of the three sets is well formed.
    pub closed spec fn wf(&self) -> bool {
        &&& self.pressed_actions.wf()
        &&& self.just_pressed_actions.wf()
        &&& self.just_released_actions.wf()
    }

    /// Nothing held, pressed or released; the mouse is not captured.
    pub fn new() -> (s: InputState)
        ensures
            s.wf(),
            s@ == (Set::<GameAction>::empty(), Set::<GameAction>::empty(), Set::<GameAction>::empty(), false),
    {
        InputState {
            pressed_actions: ActionSet::new(),
            just_pressed_actions: ActionSet::new(),
            just_released_actions: ActionSet::new(),
            mouse_captured: false,
        }
    }

    /// Whether the action is held.
    pub fn is_held(&self, action: GameAction) -> (r: bool)
        requires
            self.wf(),
        ensures
            r == self@.0.contains(action),
    {
        self.pressed_actions.contains(action)
    }

    /// Whether the action was pressed since the last frame.
    pub fn just_pressed(&self, action: GameAction) -> (r: bool)
        requires
            self.wf(),
        ensures
            r == self@.1.contains(action),
    {
        self.just_pressed_actions.contains(action)
    }

    /// Whether the action was released since the last frame.
    pub fn just_released(&self, action: GameAction) -> (r: bool)
        requires
            self.wf(),
        ensures
            r == self@.2.contains(action),
    {
        self.just_released_actions.contains(action)
    }

    /// Whether the mouse is captured.
    pub fn is_mouse_captured(&self) -> (r: bool)
        ensures
            r == self@.3,
    {
        self.mouse_captured
    }

    /// Captures or releases the mouse.
    pub fn set_mouse_captured(&mut self, captured: bool)
        requires
            old(self).wf(),
        ensures
            final(self).wf(),
            final(self)@ == (old(self)@.0, old(self)@.1, old(self)@.2, captured),
    {
        self.mouse_captured = captured;
    }

    /// Marks the action held and just pressed.
    pub(crate) fn hold(&mut self, a: GameAction)
        requires
            old(self).wf(),
        ensures
            final(self).wf(),
            final(self)@ == (old(self)@.0.insert(a), old(self)@.1.insert(a), old(self)@.2, old(self)@.3),
    {
        self.just_pressed_actions.insert(a);
        self.pressed_actions.insert(a);
    }

    /// Marks the action no longer held and just released.
    pub(crate) fn let_go(&mut self, a: GameAction)
        requires
            old(self).wf(),
        ensures
            final(self).wf(),
            final(self)@ == (old(self)@.0.remove(a), old(self)@.1, old(self)@.2.insert(a), old(self)@.3),
    {
        self.just_released_actions.insert(a);
        self.pressed_actions.remove(a);
    }

    /// Ends a frame (see `frame_end_effect`).
    pub fn update(&mut self)
        requires
            old(self).wf(),
        ensures
            final(self).wf(),
            final(self)@ == frame_end_effect(old(self)@),
    {
        self.just_pressed_actions.clear();
        self.just_released_actions.clear();
    }
}

impl Default for InputState {
    fn default() -> (s: InputState)
        ensures
            s.wf(),
            s@ == (Set::<GameAction>::empty(), Set::<GameAction>::empty(), Set::<GameAction>::empty(), false),
    {
        InputState::new()
    }
}

/// Pressing what is already held presses nothing new.
pub proof fn law_key_press_idempotent(s: StateView, fired: Set<GameAction>)
    ensures
        key_press_effect(key_press_effect(s, fired), fired) == key_press_effect(s, fired),
{
    let once = key_press_effect(s, fired);
    assert(fired.difference(once.0) =~= Set::<GameAction>::empty());
    assert(once.1.union(Set::<GameAction>::empty()) =~= once.1);
    assert(once.0.union(fired) =~= once.0);
}

/// A release undoes the hold of what a press fired: after pressing and
/// releasing the same actions, none of them is held, and what else was held
/// still is.
pub proof fn law_release_after_press(s: StateView, fired: Set<GameAction>)
    ensures
        release_effect(key_press_effect(s, fired), fired).0 == s.0.difference(fired),
        release_effect(mouse_press_effect(s, fired), fired).0 == s.0.difference(fired),
        release_effect(key_press_effect(s, fired), fired).2 == s.2.union(fired),
{
    assert(s.0.union(fired).difference(fired) =~= s.0.difference(fired));
}

/// After the end of a frame, pressing a key makes just pressed exactly the
/// fired actions that were not held.
pub proof fn law_frame_then_press(s: StateView, fired: Set<GameAction>)
    ensures
        key_press_effect(frame_end_effect(s), fired).1 == fired.difference(s.0),
        frame_end_effect(key_press_effect(s, fired)).0 == s.0.union(fired),
{
    assert(Set::<GameAction>::empty().union(fired.difference(s.0)) =~= fired.difference(s.0));
}

} // verus!
