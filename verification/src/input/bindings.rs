use vstd::prelude::*;
use crate::input::action::{
    GameAction, ACTION_COUNT, action_index, action_at, action_name, lemma_action_index,
    lemma_action_at, lemma_action_name_injective,
};
use crate::input::keys::{
    Key, InputButton, button_view, key_view, button_matches_key, button_matches, button_repr,
    button_from_repr, copy_button, same_button, law_key_repr_round_trip, law_mouse_repr_round_trip,
};
use crate::util::text::{upper_text, owned, has_prefix, join, str_eq};

verus! {

/// A button as a plain value: see `button_view`.
pub type ButtonView = (u8, Seq<char>, u16);

/// The plain values of a list of buttons.
pub open spec fn buttons_view(s: Seq<InputButton>) -> Seq<ButtonView> {
    s.map_values(|b: InputButton| button_view(b))
}

/// The plain value of one action's slot: `None` when the action was never
/// bound, else its buttons in binding order.
pub open spec fn slot_view(o: Option<Vec<InputButton>>) -> Option<Seq<ButtonView>> {
    match o {
        Some(v) => Some(buttons_view(v@)),
        None => None,
    }
}

/// The slot of an action.
pub open spec fn slot_of(slots: Seq<Option<Seq<ButtonView>>>, a: GameAction) -> Option<Seq<ButtonView>> {
    slots[action_index(a)]
}

/// The buttons bound to an action (none for an action never bound).
pub open spec fn bound_of(slots: Seq<Option<Seq<ButtonView>>>, a: GameAction) -> Seq<ButtonView> {
    match slot_of(slots, a) {
        Some(b) => b,
        None => Seq::empty(),
    }
}

/// Whether a pressed key fires an action: some button bound to the action
/// matches the key (see `button_matches_key`).
pub open spec fn key_fires(slots: Seq<Option<Seq<ButtonView>>>, a: GameAction, key: (u8, Seq<char>)) -> bool {
    exists|j: int| 0 <= j < bound_of(slots, a).len() && button_matches_key(#[trigger] bound_of(slots, a)[j], key)
}

/// The key button for a character.
pub open spec fn char_button(c: char) -> ButtonView {
    (0u8, "Key"@ + upper_text(c), 0u16)
}

/// The key button for a named key.
pub open spec fn named_button(name: Seq<char>) -> ButtonView {
    (0u8, "Named"@ + name, 0u16)
}

/// The mouse button with a number.
pub open spec fn mouse_button(m: u16) -> ButtonView {
    (1u8, Seq::<char>::empty(), m)
}

/// The binding each action starts with; the four look actions start unbound.
pub open spec fn default_slot(a: GameAction) -> Option<Seq<ButtonView>> {
    match a {
        GameAction::MoveForward => Some(seq![char_button('z')]),
        GameAction::MoveBackward => Some(seq![char_button('s')]),
        GameAction::MoveLeft => Some(seq![char_button('q')]),
        GameAction::MoveRight => Some(seq![char_button('d')]),
        GameAction::MoveUp => Some(seq![named_button("Space"@)]),
        GameAction::MoveDown => Some(seq![named_button("Shift"@)]),
        GameAction::ToggleMouseCapture => Some(seq![named_button("Enter"@)]),
        GameAction::ReleaseMouse => Some(seq![named_button("Escape"@)]),
        GameAction::BreakBlock => Some(seq![mouse_button(1)]),
        GameAction::PlaceBlock => Some(seq![mouse_button(3)]),
        GameAction::PickBlock => Some(seq![mouse_button(2)]),
        GameAction::IncreaseSpeed => Some(seq![named_button("Control"@)]),
        GameAction::NextBlockType => Some(seq![mouse_button(4)]),
        GameAction::PreviousBlockType => Some(seq![mouse_button(5)]),
        GameAction::DecreaseSpeed => Some(seq![char_button('-')]),
        GameAction::ToggleDebugUI => Some(seq![named_button("F3"@)]),
        GameAction::OpenChat => Some(seq![char_button('t')]),
        GameAction::ToggleFly => Some(seq![char_button('f')]),
        GameAction::CycleGameMode => Some(seq![char_button('g')]),
        GameAction::ToggleChunkBorders => Some(seq![named_button("F6"@)]),
        GameAction::OpenSettings => Some(seq![named_button("F4"@)]),
        GameAction::LookUp => None,
        GameAction::LookDown => None,
        GameAction::LookLeft => None,
        GameAction::LookRight => None,
    }
}

/// Bindings as written in a configuration file: for each entry an action
/// name and the string forms of its buttons.
pub struct KeyBindingsConfig {
    pub bindings: Vec<(String, Vec<String>)>,
}

/// A list of strings as plain values.
pub open spec fn strings_view(v: Seq<String>) -> Seq<Seq<char>> {
    v.map_values(|s: String| s@)
}

/// Configuration entries as plain values.
pub open spec fn entries_view(v: Seq<(String, Vec<String>)>) -> Seq<(Seq<char>, Seq<Seq<char>>)> {
    v.map_values(|p: (String, Vec<String>)| (p.0@, strings_view(p.1@)))
}

/// A configuration as plain values.
pub open spec fn config_view(c: KeyBindingsConfig) -> Seq<(Seq<char>, Seq<Seq<char>>)> {
    entries_view(c.bindings@)
}

/// The string forms of a list of buttons.
pub open spec fn reprs_of(b: Seq<ButtonView>) -> Seq<Seq<char>> {
    b.map_values(|x: ButtonView| button_repr(x))
}

/// The configuration entries for the first `n` actions, in action order:
/// one entry per action that has a slot.
pub open spec fn config_entries(slots: Seq<Option<Seq<ButtonView>>>, n: nat) -> Seq<(Seq<char>, Seq<Seq<char>>)>
    decreases n,
{
    if n == 0 {
        Seq::empty()
    } else {
        let prev = config_entries(slots, (n - 1) as nat);
        match slots[n - 1] {
            Some(b) => prev.push((action_name(action_at(n - 1)), reprs_of(b))),
            None => prev,
        }
    }
}

/// The buttons that a list of strings reads as; strings that do not read
/// as a button are skipped.
pub open spec fn parse_buttons(strs: Seq<Seq<char>>) -> Seq<ButtonView> {
    strs.filter_map(|s: Seq<char>| button_from_repr(s))
}

/// The slot an action gets from a configuration: the buttons of the last
/// entry that names it and has at least one readable button; none if no
/// entry does.
pub open spec fn slot_from_config(cfg: Seq<(Seq<char>, Seq<Seq<char>>)>, a: GameAction) -> Option<Seq<ButtonView>>
    decreases cfg.len(),
{
    if cfg.len() == 0 {
        None
    } else {
        let last = cfg.last();
        let parsed = parse_buttons(last.1);
        if last.0 == action_name(a) && parsed.len() > 0 {
            Some(parsed)
        } else {
            slot_from_config(cfg.drop_last(), a)
        }
    }
}

/// The buttons bound to each game action.
pub struct KeyBindings {
    bindings: Vec<Option<Vec<InputButton>>>,
}

impl KeyBindings {
    /// There is one slot per action.
    pub closed spec fn wf(&self) -> bool {
        self.bindings.len() == ACTION_COUNT
    }

    /// The slots, indexed by `action_index`.
    pub closed spec fn slots(&self) -> Seq<Option<Seq<ButtonView>>> {
        self.bindings@.map_values(|o: Option<Vec<InputButton>>| slot_view(o))
    }

    /// Well-formed bindings have one slot per action.
    pub proof fn lemma_slot_count(&self)
        requires
            self.wf(),
        ensures
            self.slots().len() == ACTION_COUNT,
    {
    }

    /// The default bindings (see `default_slot`).
    pub fn default_bindings() -> (kb: KeyBindings)
        ensures
            kb.wf(),
            kb.slots().len() == ACTION_COUNT,
            forall|a: GameAction| #[trigger] slot_of(kb.slots(), a) == default_slot(a),
    {
        let mut bindings: Vec<Option<Vec<InputButton>>> = Vec::new();
        let mut i: usize = 0;
        while i < ACTION_COUNT
            invariant
                i <= ACTION_COUNT,
                bindings.len() == i,
                forall|j: int| 0 <= j < i ==> slot_view(#[trigger] bindings@[j]) == default_slot(action_at(j)),
            decreases ACTION_COUNT - i,
        {
            let a = GameAction::from_index(i);
            bindings.push(default_slot_exec(a));
            i = i + 1;
        }
        let kb = KeyBindings { bindings };
        proof {
            assert forall|a: GameAction| #[trigger] slot_of(kb.slots(), a) == default_slot(a) by {
                lemma_action_index(a);
            }
        }
        kb
    }

    /// The buttons bound to an action.
    pub fn get_bindings(&self, action: GameAction) -> (r: &[InputButton])
        requires
            self.wf(),
        ensures
            buttons_view(r@) == bound_of(self.slots(), action),
    {
        let i = action.index();
        match &self.bindings[i] {
            Some(v) => v.as_slice(),
            None => &[],
        }
    }

    /// Whether a pressed key fires the action: some button bound to it
    /// matches the key (see `button_matches_key`).
    pub fn is_key_bound(&self, key: &Key, action: GameAction) -> (r: bool)
        requires
            self.wf(),
        ensures
            r == key_fires(self.slots(), action, key_view(*key)),
    {
        let buttons = self.get_bindings(action);
        let ghost b = bound_of(self.slots(), action);
        let mut j: usize = 0;
        while j < buttons.len()
            invariant
                b == buttons_view(buttons@),
                b == bound_of(self.slots(), action),
                b.len() == buttons.len(),
                j <= buttons.len(),
                forall|k: int| 0 <= k < j ==> !button_matches_key(#[trigger] b[k], key_view(*key)),
            decreases buttons.len() - j,
        {
            if button_matches(&buttons[j], key) {
                assert(button_matches_key(b[j as int], key_view(*key)));
                return true;
            }
            j = j + 1;
        }
        false
    }

    /// Whether the mouse button with this number is bound to the action.
    pub fn is_mouse_bound(&self, button: u16, action: GameAction) -> (r: bool)
        requires
            self.wf(),
        ensures
            r == bound_of(self.slots(), action).contains(mouse_button(button)),
    {
        let buttons = self.get_bindings(action);
        let ghost b = bound_of(self.slots(), action);
        let mut j: usize = 0;
        while j < buttons.len()
            invariant
                b == buttons_view(buttons@),
                b == bound_of(self.slots(), action),
                b.len() == buttons.len(),
                j <= buttons.len(),
                forall|k: int| 0 <= k < j ==> #[trigger] b[k] != mouse_button(button),
            decreases buttons.len() - j,
        {
            match &buttons[j] {
                InputButton::Mouse(m) => {
                    if *m == button {
                        assert(b[j as int] == mouse_button(button));
                        return true;
                    }
                },
                InputButton::Key(_) => {},
            }
            j = j + 1;
        }
        false
    }

    /// Adds a button at the end of the action's bindings (the action gets a
    /// slot if it had none).
    pub fn bind(&mut self, action: GameAction, button: InputButton)
        requires
            old(self).wf(),
        ensures
            final(self).wf(),
            final(self).slots().len() == ACTION_COUNT,
            final(self).slots() == old(self).slots().update(
                action_index(action),
                Some(bound_of(old(self).slots(), action).push(button_view(button))),
            ),
    {
        let i = action.index();
        let ghost bv = button_view(button);
        let mut slot: Option<Vec<InputButton>> = None;
        std::mem::swap(&mut slot, &mut self.bindings[i]);
        assert(slot == old(self).bindings@[i as int]);
        assert(slot_view(slot) == slot_of(old(self).slots(), action));
        let mut v: Vec<InputButton> = match slot {
            Some(v) => v,
            None => Vec::new(),
        };
        let ghost before = buttons_view(v@);
        assert(before =~= bound_of(old(self).slots(), action));
        v.push(button);
        proof {
            assert(buttons_view(v@) =~= before.push(bv));
        }
        self.bindings.set(i, Some(v));
        proof {
            assert(self.slots() =~= old(self).slots().update(
                action_index(action),
                Some(bound_of(old(self).slots(), action).push(bv)),
            ));
        }
    }

    /// Removes every occurrence of a button from the action's bindings (an
    /// action without a slot is left as it is).
    pub fn unbind(&mut self, action: GameAction, button: &InputButton)
        requires
            old(self).wf(),
        ensures
            final(self).wf(),
            final(self).slots().len() == ACTION_COUNT,
            final(self).slots() == match slot_of(old(self).slots(), action) {
                Some(b) => old(self).slots().update(
                    action_index(action),
                    Some(b.filter(|x: ButtonView| x != button_view(*button))),
                ),
                None => old(self).slots(),
            },
    {
        let i = action.index();
        let ghost bv = button_view(*button);
        let ghost pred = |x: ButtonView| x != bv;
        let mut slot: Option<Vec<InputButton>> = None;
        std::mem::swap(&mut slot, &mut self.bindings[i]);
        match slot {
            Some(v) => {
                let ghost src = buttons_view(v@);
                let mut kept: Vec<InputButton> = Vec::new();
                let mut j: usize = 0;
                while j < v.len()
                    invariant
                        j <= v.len(),
                        src == buttons_view(v@),
                        bv == button_view(*button),
                        pred == (|x: ButtonView| x != bv),
                        buttons_view(kept@) == src.take(j as int).filter(pred),
                    decreases v.len() - j,
                {
                    proof {
                        reveal(Seq::filter);
                        assert(src.take(j as int + 1).drop_last() =~= src.take(j as int));
                    }
                    if !same_button(&v[j], button) {
                        let ghost before = buttons_view(kept@);
                        kept.push(copy_button(&v[j]));
                        proof {
                            assert(buttons_view(kept@) =~= before.push(src[j as int]));
                        }
                    }
                    j = j + 1;
                }
                proof {
                    assert(src.take(v.len() as int) =~= src);
                }
                self.bindings.set(i, Some(kept));
                proof {
                    assert(self.slots() =~= old(self).slots().update(
                        action_index(action),
                        Some(src.filter(pred)),
                    ));
                }
            },
            None => {
                self.bindings.set(i, None);
                proof {
                    assert(self.slots() =~= old(self).slots());
                }
            },
        }
    }

    /// The bindings in configuration form: one entry per action that has a
    /// slot, in action order, with its name and the string forms of its
    /// buttons.
    pub fn to_config(&self) -> (c: KeyBindingsConfig)
        requires
            self.wf(),
        ensures
            config_view(c) == config_entries(self.slots(), ACTION_COUNT as nat),
    {
        let mut out: Vec<(String, Vec<String>)> = Vec::new();
        let mut i: usize = 0;
        while i < ACTION_COUNT
            invariant
                i <= ACTION_COUNT,
                self.wf(),
                entries_view(out@) == config_entries(self.slots(), i as nat),
            decreases ACTION_COUNT - i,
        {
            let ghost slot = self.slots()[i as int];
            match &self.bindings[i] {
                Some(buttons) => {
                    let ghost b = buttons_view(buttons@);
                    assert(slot == Some(b));
                    let a = GameAction::from_index(i);
                    let name = owned(a.name());
                    let mut strs: Vec<String> = Vec::new();
                    let mut j: usize = 0;
                    while j < buttons.len()
                        invariant
                            j <= buttons.len(),
                            b == buttons_view(buttons@),
                            strings_view(strs@) == reprs_of(b.take(j as int)),
                        decreases buttons.len() - j,
                    {
                        let ghost before = strings_view(strs@);
                        strs.push(buttons[j].to_string_repr());
                        proof {
                            assert(strings_view(strs@) =~= before.push(button_repr(b[j as int])));
                            assert(reprs_of(b.take(j as int + 1)) =~= reprs_of(b.take(j as int)).push(
                                button_repr(b[j as int]),
                            ));
                        }
                        j = j + 1;
                    }
                    proof {
                        assert(b.take(buttons.len() as int) =~= b);
                    }
                    let ghost before = entries_view(out@);
                    out.push((name, strs));
                    proof {
                        assert(entries_view(out@) =~= before.push((action_name(action_at(i as int)), reprs_of(b))));
                    }
                },
                None => {},
            }
            i = i + 1;
        }
        KeyBindingsConfig { bindings: out }
    }

    /// Bindings read from a configuration: entries whose name is no action
    /// are skipped; strings that do not read as a button are skipped; an
    /// entry with at least one readable button sets its action's slot (a
    /// later entry for the same action wins).
    pub fn from_config(config: &KeyBindingsConfig) -> (kb: KeyBindings)
        ensures
            kb.wf(),
            kb.slots().len() == ACTION_COUNT,
            forall|a: GameAction| #[trigger] slot_of(kb.slots(), a) == slot_from_config(config_view(*config), a),
    {
        let ghost cfg = config_view(*config);
        let mut bindings: Vec<Option<Vec<InputButton>>> = Vec::new();
        let mut k: usize = 0;
        while k < ACTION_COUNT
            invariant
                k <= ACTION_COUNT,
                bindings.len() == k,
                forall|j: int| 0 <= j < k ==> #[trigger] bindings@[j] is None,
            decreases ACTION_COUNT - k,
        {
            bindings.push(None);
            k = k + 1;
        }
        let mut i: usize = 0;
        while i < config.bindings.len()
            invariant
                i <= config.bindings.len(),
                cfg == config_view(*config),
                bindings.len() == ACTION_COUNT,
                forall|a: GameAction| slot_view(#[trigger] bindings@[action_index(a)]) == slot_from_config(cfg.take(i as int), a),
            decreases config.bindings.len() - i,
        {
            let entry = &config.bindings[i];
            let ghost e = cfg[i as int];
            assert(e == (entry.0@, strings_view(entry.1@)));
            let ghost parsed = parse_buttons(e.1);
            proof {
                assert(cfg.take(i as int + 1).drop_last() =~= cfg.take(i as int));
                assert(cfg.take(i as int + 1).last() == e);
            }
            match GameAction::from_name(entry.0.as_str()) {
                Some(a) => {
                    let buttons = parse_button_list(&entry.1);
                    if buttons.len() > 0 {
                        let ghost old_bindings = bindings@;
                        bindings.set(a.index(), Some(buttons));
                        proof {
                            assert forall|b: GameAction| slot_view(#[trigger] bindings@[action_index(b)])
                                == slot_from_config(cfg.take(i as int + 1), b) by {
                                lemma_action_name_injective(a, b);
                                lemma_action_index(a);
                                lemma_action_index(b);
                                if b != a {
                                    assert(action_index(b) != action_index(a)) by {
                                        lemma_action_index(a);
                                        lemma_action_index(b);
                                    }
                                }
                            }
                        }
                    } else {
                        proof {
                            assert forall|b: GameAction| slot_view(#[trigger] bindings@[action_index(b)])
                                == slot_from_config(cfg.take(i as int + 1), b) by {
                                lemma_action_name_injective(a, b);
                            }
                        }
                    }
                },
                None => {
                    proof {
                        assert forall|b: GameAction| slot_view(#[trigger] bindings@[action_index(b)])
                            == slot_from_config(cfg.take(i as int + 1), b) by {
                            assert(e.0 != action_name(b));
                        }
                    }
                },
            }
            i = i + 1;
        }
        proof {
            assert(cfg.take(config.bindings.len() as int) =~= cfg);
        }
        let kb = KeyBindings { bindings };
        proof {
            assert forall|a: GameAction| #[trigger] slot_of(kb.slots(), a) == slot_from_config(cfg, a) by {
                lemma_action_index(a);
            }
        }
        kb
    }
}

/// The buttons that a list of strings reads as, in order.
fn parse_button_list(strs: &Vec<String>) -> (r: Vec<InputButton>)
    ensures
        buttons_view(r@) == parse_buttons(strings_view(strs@)),
{
    let ghost src = strings_view(strs@);
    let mut out: Vec<InputButton> = Vec::new();
    let mut j: usize = 0;
    while j < strs.len()
        invariant
            j <= strs.len(),
            src == strings_view(strs@),
            buttons_view(out@) == parse_buttons(src.take(j as int)),
        decreases strs.len() - j,
    {
        proof {
            assert(src.take(j as int + 1).drop_last() =~= src.take(j as int));
            assert(src.take(j as int + 1).last() == strs@[j as int]@);
        }
        match InputButton::from_string_repr(strs[j].as_str()) {
            Some(b) => {
                let ghost before = buttons_view(out@);
                out.push(b);
                proof {
                    assert(buttons_view(out@) =~= before + seq![button_view(b)]);
                }
            },
            None => {},
        }
        j = j + 1;
    }
    proof {
        assert(src.take(strs.len() as int) =~= src);
    }
    out
}

/// A button whose string form reads back as itself: a key whose name does
/// not begin with `Mouse`, or a mouse button.
pub open spec fn config_safe(b: ButtonView) -> bool {
    (b.0 == 0 && b.2 == 0 && !has_prefix(b.1, "Mouse"@)) || (b.0 == 1 && b.1 == Seq::<char>::empty())
}

/// A slot as reading it back from a configuration gives it: an empty list
/// of buttons reads back as no slot.
pub open spec fn read_back_slot(o: Option<Seq<ButtonView>>) -> Option<Seq<ButtonView>> {
    match o {
        Some(b) => if b.len() > 0 { Some(b) } else { None },
        None => None,
    }
}

proof fn lemma_parse_reprs(b: Seq<ButtonView>)
    requires
        forall|j: int| 0 <= j < b.len() ==> config_safe(#[trigger] b[j]),
    ensures
        parse_buttons(reprs_of(b)) == b,
    decreases b.len(),
{
    if b.len() > 0 {
        let last = b.last();
        lemma_parse_reprs(b.drop_last());
        assert(reprs_of(b).drop_last() =~= reprs_of(b.drop_last()));
        assert(config_safe(b[b.len() - 1]));
        if last.0 == 0 {
            law_key_repr_round_trip(last.1);
            assert(last == (0u8, last.1, 0u16));
        } else {
            law_mouse_repr_round_trip(last.2);
            assert(last == (1u8, Seq::<char>::empty(), last.2));
        }
        assert(button_from_repr(reprs_of(b).last()) == Some(last));
        assert(parse_buttons(reprs_of(b)) =~= parse_buttons(reprs_of(b.drop_last())) + seq![last]);
        assert(b =~= b.drop_last() + seq![last]);
    } else {
        assert(reprs_of(b) =~= Seq::<Seq<char>>::empty());
    }
}

proof fn lemma_read_back_prefix(slots: Seq<Option<Seq<ButtonView>>>, n: nat, a: GameAction)
    requires
        slots.len() == ACTION_COUNT,
        n <= ACTION_COUNT,
        forall|i: int, j: int| 0 <= i < ACTION_COUNT && (#[trigger] slots[i]) is Some
            && 0 <= j < slots[i]->0.len() ==> config_safe(#[trigger] slots[i]->0[j]),
    ensures
        slot_from_config(config_entries(slots, n), a)
            == if action_index(a) < n { read_back_slot(slot_of(slots, a)) } else { None },
    decreases n,
{
    lemma_action_index(a);
    if n > 0 {
        let prev = config_entries(slots, (n - 1) as nat);
        lemma_read_back_prefix(slots, (n - 1) as nat, a);
        let here = action_at(n - 1);
        lemma_action_at(n - 1);
        lemma_action_name_injective(here, a);
        match slots[n - 1] {
            Some(b) => {
                lemma_parse_reprs(b);
                let e = (action_name(here), reprs_of(b));
                assert(config_entries(slots, n) == prev.push(e));
                assert(prev.push(e).drop_last() =~= prev);
                assert(prev.push(e).last() == e);
            },
            None => {},
        }
    }
}

/// Writing the bindings to a configuration and reading it back gives every
/// action the buttons it had, provided each button's string form reads back
/// as itself (no key name begins with `Mouse`); an action whose list of
/// buttons is empty comes back without a slot.
pub proof fn law_config_round_trip(slots: Seq<Option<Seq<ButtonView>>>, a: GameAction)
    requires
        slots.len() == ACTION_COUNT,
        forall|i: int, j: int| 0 <= i < ACTION_COUNT && (#[trigger] slots[i]) is Some
            && 0 <= j < slots[i]->0.len() ==> config_safe(#[trigger] slots[i]->0[j]),
    ensures
        slot_from_config(config_entries(slots, ACTION_COUNT as nat), a) == read_back_slot(slot_of(slots, a)),
{
    lemma_action_index(a);
    lemma_read_back_prefix(slots, ACTION_COUNT as nat, a);
}

/// The default slot of an action, built.
fn default_slot_exec(a: GameAction) -> (r: Option<Vec<InputButton>>)
    ensures
        slot_view(r) == default_slot(a),
{
    let b: Option<InputButton> = match a {
        GameAction::MoveForward => Some(InputButton::char('z')),
        GameAction::MoveBackward => Some(InputButton::char('s')),
        GameAction::MoveLeft => Some(InputButton::char('q')),
        GameAction::MoveRight => Some(InputButton::char('d')),
        GameAction::MoveUp => Some(InputButton::named("Space")),
        GameAction::MoveDown => Some(InputButton::named("Shift")),
        GameAction::ToggleMouseCapture => Some(InputButton::named("Enter")),
        GameAction::ReleaseMouse => Some(InputButton::named("Escape")),
        GameAction::BreakBlock => Some(InputButton::mouse(1)),
        GameAction::PlaceBlock => Some(InputButton::mouse(3)),
        GameAction::PickBlock => Some(InputButton::mouse(2)),
        GameAction::IncreaseSpeed => Some(InputButton::named("Control")),
        GameAction::NextBlockType => Some(InputButton::mouse(4)),
        GameAction::PreviousBlockType => Some(InputButton::mouse(5)),
        GameAction::DecreaseSpeed => Some(InputButton::char('-')),
        GameAction::ToggleDebugUI => Some(InputButton::named("F3")),
        GameAction::OpenChat => Some(InputButton::char('t')),
        GameAction::ToggleFly => Some(InputButton::char('f')),
        GameAction::CycleGameMode => Some(InputButton::char('g')),
        GameAction::ToggleChunkBorders => Some(InputButton::named("F6")),
        GameAction::OpenSettings => Some(InputButton::named("F4")),
        GameAction::LookUp => None,
        GameAction::LookDown => None,
        GameAction::LookLeft => None,
        GameAction::LookRight => None,
    };
    match b {
        Some(button) => {
            let v = vec![button];
            proof {
                assert(buttons_view(v@) =~= seq![button_view(button)]);
            }
            Some(v)
        },
        None => None,
    }
}

impl Default for KeyBindings {
    fn default() -> (kb: KeyBindings)
        ensures
            kb.wf(),
            kb.slots().len() == ACTION_COUNT,
            forall|a: GameAction| #[trigger] slot_of(kb.slots(), a) == default_slot(a),
    {
        KeyBindings::default_bindings()
    }
}

/// The keys of the last entry that names the action, if any.
pub open spec fn entry_for(cfg: Seq<(Seq<char>, Seq<Seq<char>>)>, name: Seq<char>) -> Option<Seq<Seq<char>>>
    decreases cfg.len(),
{
    if cfg.len() == 0 {
        None
    } else if cfg.last().0 == name {
        Some(cfg.last().1)
    } else {
        entry_for(cfg.drop_last(), name)
    }
}

/// The strings joined with `", "` between them.
pub open spec fn comma_joined(parts: Seq<Seq<char>>) -> Seq<char>
    decreases parts.len(),
{
    if parts.len() == 0 {
        Seq::empty()
    } else if parts.len() == 1 {
        parts[0]
    } else {
        comma_joined(parts.drop_last()) + ", "@ + parts.last()
    }
}

/// The strings joined with `", "` between them.
pub fn join_with_commas(parts: &Vec<String>) -> (s: String)
    ensures
        s@ == comma_joined(strings_view(parts@)),
{
    let ghost pv = strings_view(parts@);
    if parts.len() == 0 {
        return String::new();
    }
    let mut out = parts[0].clone();
    proof {
        assert(pv.take(1).drop_last() =~= Seq::<Seq<char>>::empty());
        assert(comma_joined(pv.take(1)) == pv[0]);
    }
    let mut k: usize = 1;
    while k < parts.len()
        invariant
            1 <= k <= parts.len(),
            pv == strings_view(parts@),
            out@ == comma_joined(pv.take(k as int)),
        decreases parts.len() - k,
    {
        let with_comma = join(out.as_str(), ", ");
        out = join(with_comma.as_str(), parts[k].as_str());
        proof {
            assert(pv.take(k as int + 1).drop_last() =~= pv.take(k as int));
            assert(pv.take(k as int + 1).last() == pv[k as int]);
        }
        k = k + 1;
    }
    assert(pv.take(parts.len() as int) =~= pv);
    out
}

/// The keys bound to an action in a configuration, as the settings menu
/// lists them: joined with `", "`, or `Non assigné` when no entry names
/// the action.
pub fn keys_for_action(config: &KeyBindingsConfig, action: GameAction) -> (s: String)
    ensures
        s@ == match entry_for(config_view(*config), action_name(action)) {
            Some(keys) => comma_joined(keys),
            None => "Non assigné"@,
        },
{
    let ghost cv = config_view(*config);
    let name = action.name();
    let mut i: usize = config.bindings.len();
    assert(cv.take(i as int) =~= cv);
    while i > 0
        invariant
            i <= config.bindings.len(),
            cv == config_view(*config),
            name@ == action_name(action),
            entry_for(cv, action_name(action)) == entry_for(cv.take(i as int), action_name(action)),
        decreases i,
    {
        let entry = &config.bindings[i - 1];
        proof {
            assert(cv.take(i as int).drop_last() =~= cv.take(i as int - 1));
            assert(cv.take(i as int).last() == (entry.0@, strings_view(entry.1@)));
        }
        if str_eq(entry.0.as_str(), name) {
            return join_with_commas(&entry.1);
        }
        i = i - 1;
    }
    owned("Non assigné")
}

/// Distinct actions have distinct slots.
pub proof fn lemma_action_index_injective(a: GameAction, b: GameAction)
    ensures
        a != b ==> action_index(a) != action_index(b),
        0 <= action_index(a) < ACTION_COUNT,
{
}

/// After `bind`, the action's buttons are its old buttons followed by the
/// new one (kept even if already there), and every other action's buttons
/// are unchanged.
pub proof fn law_bind_appends(before: Seq<Option<Seq<ButtonView>>>, after: Seq<Option<Seq<ButtonView>>>, action: GameAction, b: ButtonView)
    requires
        before.len() == ACTION_COUNT,
        after == before.update(action_index(action), Some(bound_of(before, action).push(b))),
    ensures
        bound_of(after, action) == bound_of(before, action).push(b),
        forall|a: GameAction| a != action ==> #[trigger] bound_of(after, a) == bound_of(before, a),
{
    lemma_action_index_injective(action, action);
    assert forall|a: GameAction| a != action implies #[trigger] bound_of(after, a) == bound_of(before, a) by {
        lemma_action_index_injective(a, action);
    }
}

/// After `unbind`, the action's buttons are its old buttons without those
/// equal to the removed one, in order; every other action is unchanged.
/// Binding a button the action did not have and unbinding it again gives
/// back the action's buttons.
pub proof fn law_unbind_removes(
    before: Seq<Option<Seq<ButtonView>>>,
    mid: Seq<Option<Seq<ButtonView>>>,
    after: Seq<Option<Seq<ButtonView>>>,
    action: GameAction,
    b: ButtonView,
)
    requires
        before.len() == ACTION_COUNT,
        mid == before.update(action_index(action), Some(bound_of(before, action).push(b))),
        after == match slot_of(mid, action) {
            Some(s) => mid.update(action_index(action), Some(s.filter(|x: ButtonView| x != b))),
            None => mid,
        },
    ensures
        bound_of(after, action) == bound_of(mid, action).filter(|x: ButtonView| x != b),
        forall|a: GameAction| a != action ==> #[trigger] bound_of(after, a) == bound_of(mid, a),
        !bound_of(before, action).contains(b) ==> bound_of(after, action) == bound_of(before, action),
{
    lemma_action_index_injective(action, action);
    assert forall|a: GameAction| a != action implies #[trigger] bound_of(after, a) == bound_of(mid, a) by {
        lemma_action_index_injective(a, action);
    }
    let s = bound_of(before, action);
    let p = |x: ButtonView| x != b;
    s.lemma_filter_push(b, p);
    if !s.contains(b) {
        lemma_filter_keeps_all(s, p);
    }
}

/// Filtering keeps a sequence whole when every element passes.
proof fn lemma_filter_keeps_all<A>(s: Seq<A>, p: spec_fn(A) -> bool)
    requires
        forall|i: int| 0 <= i < s.len() ==> p(#[trigger] s[i]),
    ensures
        s.filter(p) == s,
    decreases s.len(),
{
    if s.len() > 0 {
        let t = s.drop_last();
        assert forall|i: int| 0 <= i < t.len() implies p(#[trigger] t[i]) by {
            assert(t[i] == s[i]);
        }
        lemma_filter_keeps_all(t, p);
        t.lemma_filter_push(s.last(), p);
        assert(t.push(s.last()) =~= s);
    } else {
        reveal(Seq::filter);
    }
}

/// Features that tell buttons apart: the kind, the mouse number, the
/// length of the key text, its fourth character and its last one.
spec fn button_features(b: ButtonView) -> (u8, u16, nat, char, char) {
    (
        b.0,
        b.2,
        b.1.len(),
        if b.1.len() > 3 { b.1[3] } else { ' ' },
        if b.1.len() > 0 { b.1[b.1.len() - 1] } else { ' ' },
    )
}

/// The features of each action's default button.
spec fn default_features(a: GameAction) -> (u8, u16, nat, char, char) {
    match a {
        GameAction::MoveForward => (0u8, 0u16, 4nat, 'Z', 'Z'),
        GameAction::MoveBackward => (0u8, 0u16, 4nat, 'S', 'S'),
        GameAction::MoveLeft => (0u8, 0u16, 4nat, 'Q', 'Q'),
        GameAction::MoveRight => (0u8, 0u16, 4nat, 'D', 'D'),
        GameAction::MoveUp => (0u8, 0u16, 10nat, 'e', 'e'),
        GameAction::MoveDown => (0u8, 0u16, 10nat, 'e', 't'),
        GameAction::ToggleMouseCapture => (0u8, 0u16, 10nat, 'e', 'r'),
        GameAction::ReleaseMouse => (0u8, 0u16, 11nat, 'e', 'e'),
        GameAction::BreakBlock => (1u8, 1u16, 0nat, ' ', ' '),
        GameAction::PlaceBlock => (1u8, 3u16, 0nat, ' ', ' '),
        GameAction::PickBlock => (1u8, 2u16, 0nat, ' ', ' '),
        GameAction::IncreaseSpeed => (0u8, 0u16, 12nat, 'e', 'l'),
        GameAction::NextBlockType => (1u8, 4u16, 0nat, ' ', ' '),
        GameAction::PreviousBlockType => (1u8, 5u16, 0nat, ' ', ' '),
        GameAction::DecreaseSpeed => (0u8, 0u16, 4nat, '-', '-'),
        GameAction::ToggleDebugUI => (0u8, 0u16, 7nat, 'e', '3'),
        GameAction::OpenChat => (0u8, 0u16, 4nat, 'T', 'T'),
        GameAction::ToggleFly => (0u8, 0u16, 4nat, 'F', 'F'),
        GameAction::CycleGameMode => (0u8, 0u16, 4nat, 'G', 'G'),
        GameAction::ToggleChunkBorders => (0u8, 0u16, 7nat, 'e', '6'),
        GameAction::OpenSettings => (0u8, 0u16, 7nat, 'e', '4'),
        _ => (9u8, 0u16, 0nat, ' ', ' '),
    }
}

/// Each default slot holds a single button, with the features listed in
/// `default_features`.
proof fn lemma_default_features(a: GameAction)
    ensures
        default_slot(a) is Some ==> default_slot(a)->0.len() == 1
            && button_features(default_slot(a)->0[0]) == default_features(a),
{
    reveal_strlit("Key");
    reveal_strlit("Named");
    reveal_strlit("Space");
    reveal_strlit("Shift");
    reveal_strlit("Enter");
    reveal_strlit("Escape");
    reveal_strlit("Control");
    reveal_strlit("F3");
    reveal_strlit("F6");
    reveal_strlit("F4");
    assert(upper_text('z') =~= seq!['Z']);
    assert(upper_text('s') =~= seq!['S']);
    assert(upper_text('q') =~= seq!['Q']);
    assert(upper_text('d') =~= seq!['D']);
    assert(upper_text('-') =~= seq!['-']);
    assert(upper_text('t') =~= seq!['T']);
    assert(upper_text('f') =~= seq!['F']);
    assert(upper_text('g') =~= seq!['G']);
}

/// Distinct actions never share a default button: each default button
/// fires one action only.
pub proof fn law_default_buttons_distinct(a: GameAction, b: GameAction)
    requires
        a != b,
    ensures
        default_slot(a) is Some && default_slot(b) is Some ==> !default_slot(b)->0.contains(default_slot(a)->0[0]),
{
    lemma_default_features(a);
    lemma_default_features(b);
    if default_slot(a) is Some && default_slot(b) is Some {
        assert(default_features(a) != default_features(b));
        if default_slot(b)->0.contains(default_slot(a)->0[0]) {
            let k = choose|k: int| 0 <= k < default_slot(b)->0.len() && default_slot(b)->0[k] == default_slot(a)->0[0];
            assert(k == 0);
        }
    }
}

/// The movement keys default to the ZQSD layout: `Z` forward, `S` back,
/// `Q` left, `D` right.
pub proof fn law_default_movement_keys()
    ensures
        default_slot(GameAction::MoveForward) == Some(seq![(0u8, "KeyZ"@, 0u16)]),
        default_slot(GameAction::MoveBackward) == Some(seq![(0u8, "KeyS"@, 0u16)]),
        default_slot(GameAction::MoveLeft) == Some(seq![(0u8, "KeyQ"@, 0u16)]),
        default_slot(GameAction::MoveRight) == Some(seq![(0u8, "KeyD"@, 0u16)]),
{
    reveal_strlit("Key");
    reveal_strlit("KeyZ");
    reveal_strlit("KeyS");
    reveal_strlit("KeyQ");
    reveal_strlit("KeyD");
    assert(("Key"@ + upper_text('z')) =~= "KeyZ"@);
    assert(("Key"@ + upper_text('s')) =~= "KeyS"@);
    assert(("Key"@ + upper_text('q')) =~= "KeyQ"@);
    assert(("Key"@ + upper_text('d')) =~= "KeyD"@);
}

} // verus!
