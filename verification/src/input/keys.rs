use vstd::prelude::*;
use crate::util::text::{
    has_prefix, trim_prefix_all, starts_with, trim_start_matches, parse_u16, parse_u16_spec,
    u16_to_decimal, decimal_spec, to_uppercase_string, to_ascii_uppercase, upper_text, join, owned, str_eq,
    ascii_lower, eq_ignore_ascii_case, to_ascii_lowercase,
};

verus! {

/// A keyboard key as the input layer sees it: a character key (with the
/// text it produced), a named key (by its name, such as `Space` or `F3`), a
/// dead key, or an unidentified key.
#[derive(Debug, Clone, PartialEq, Eq)]
pub enum Key {
    Character(String),
    Named(String),
    Dead,
    Unidentified,
}

/// A key reduced to what identifies it while held: its lower-cased first
/// character, or its name.
#[derive(Debug, Clone, PartialEq, Eq, Hash)]
pub enum CanonicalKey {
    Character(char),
    Named(String),
}

/// A bindable input: a key, by its configuration name (`KeyZ`,
/// `NamedSpace`), or a mouse button by number.
#[derive(Debug, Clone, PartialEq, Eq, Hash)]
pub enum InputButton {
    Key(String),
    Mouse(u16),
}

/// A key as a tag and a text: 0 with the produced text for a character key,
/// 1 with the name for a named key, 2 for a dead key, 3 otherwise.
pub open spec fn key_view(k: Key) -> (u8, Seq<char>) {
    match k {
        Key::Character(s) => (0u8, s@),
        Key::Named(s) => (1u8, s@),
        Key::Dead => (2u8, Seq::<char>::empty()),
        Key::Unidentified => (3u8, Seq::<char>::empty()),
    }
}

/// A canonical key as the key it stands for (see `key_view`).
pub open spec fn canonical_view(k: CanonicalKey) -> (u8, Seq<char>) {
    match k {
        CanonicalKey::Character(c) => (0u8, seq![c]),
        CanonicalKey::Named(s) => (1u8, s@),
    }
}

/// A button as a tag, a text and a number: 0 with the key name, or 1 with
/// the mouse button.
pub open spec fn button_view(b: InputButton) -> (u8, Seq<char>, u16) {
    match b {
        InputButton::Key(s) => (0u8, s@, 0u16),
        InputButton::Mouse(m) => (1u8, Seq::<char>::empty(), m),
    }
}

/// The canonical form of a key, as `from_key` computes it.
pub open spec fn canonical_of(k: (u8, Seq<char>)) -> Option<(u8, Seq<char>)> {
    if k.0 == 0 {
        if k.1.len() > 0 {
            Some((0u8, seq![ascii_lower(k.1[0])]))
        } else {
            None
        }
    } else if k.1.len() >= 0 && k.0 == 1 {
        Some((1u8, k.1))
    } else {
        None
    }
}

/// The named keys that a binding can name.
pub open spec fn bindable_named(name: Seq<char>) -> bool {
    name == "Space"@ || name == "Shift"@ || name == "Control"@ || name == "Alt"@ || name == "Enter"@
        || name == "Escape"@ || name == "F3"@ || name == "F4"@ || name == "F5"@ || name == "F6"@
}

/// The key that a binding name stands for (see `string_to_key`).
pub open spec fn bound_key_of(s: Seq<char>) -> Option<(u8, Seq<char>)> {
    if has_prefix(s, "Key"@) {
        let rest = trim_prefix_all(s, "Key"@);
        if rest.len() > 0 {
            Some((0u8, seq![rest[0]]))
        } else {
            None
        }
    } else if has_prefix(s, "Named"@) {
        let rest = trim_prefix_all(s, "Named"@);
        if bindable_named(rest) {
            Some((1u8, rest))
        } else {
            None
        }
    } else {
        None
    }
}

/// Whether a bound button fires for a pressed key: character keys compare
/// their first characters ignoring ASCII case; other keys must be equal.
pub open spec fn button_matches_key(b: (u8, Seq<char>, u16), key: (u8, Seq<char>)) -> bool {
    if b.0 == 0 {
        match bound_key_of(b.1) {
            Some(bk) => if bk.0 == 0 && key.0 == 0 {
                key.1.len() > 0 && ascii_lower(bk.1[0]) == ascii_lower(key.1[0])
            } else {
                bk == key
            },
            None => false,
        }
    } else {
        false
    }
}

/// How a button is written in the configuration.
pub open spec fn button_repr(b: (u8, Seq<char>, u16)) -> Seq<char> {
    if b.0 == 0 {
        b.1
    } else {
        "Mouse"@ + decimal_spec(b.2 as nat)
    }
}

/// How a configuration string is read back as a button.
pub open spec fn button_from_repr(s: Seq<char>) -> Option<(u8, Seq<char>, u16)> {
    if has_prefix(s, "Mouse"@) {
        match parse_u16_spec(trim_prefix_all(s, "Mouse"@)) {
            Some(m) => Some((1u8, Seq::<char>::empty(), m)),
            None => None,
        }
    } else {
        Some((0u8, s, 0u16))
    }
}

/// A fresh copy of a key.
pub fn copy_key(k: &Key) -> (r: Key)
    ensures
        key_view(r) == key_view(*k),
{
    match k {
        Key::Character(s) => Key::Character(s.clone()),
        Key::Named(s) => Key::Named(s.clone()),
        Key::Dead => Key::Dead,
        Key::Unidentified => Key::Unidentified,
    }
}

/// A fresh copy of a button.
pub fn copy_button(b: &InputButton) -> (r: InputButton)
    ensures
        button_view(r) == button_view(*b),
{
    match b {
        InputButton::Key(s) => InputButton::Key(s.clone()),
        InputButton::Mouse(m) => InputButton::Mouse(*m),
    }
}

/// Whether two buttons are the same.
pub fn same_button(a: &InputButton, b: &InputButton) -> (r: bool)
    ensures
        r == (button_view(*a) == button_view(*b)),
{
    match (a, b) {
        (InputButton::Key(x), InputButton::Key(y)) => str_eq(x.as_str(), y.as_str()),
        (InputButton::Mouse(x), InputButton::Mouse(y)) => *x == *y,
        _ => false,
    }
}

/// Whether two keys are the same.
pub fn same_key(a: &Key, b: &Key) -> (r: bool)
    ensures
        r == (key_view(*a) == key_view(*b)),
{
    match (a, b) {
        (Key::Character(x), Key::Character(y)) => str_eq(x.as_str(), y.as_str()),
        (Key::Named(x), Key::Named(y)) => str_eq(x.as_str(), y.as_str()),
        (Key::Dead, Key::Dead) => true,
        (Key::Unidentified, Key::Unidentified) => true,
        _ => false,
    }
}

/// `char::to_string`.
#[verifier::external_body]
pub(crate) fn char_to_string(c: char) -> (s: String)
    ensures
        s@ == seq![c],
{
    c.to_string()
}

impl CanonicalKey {
    /// The canonical form of a key: its first character lower-cased (none
    /// for an empty text), or its name; dead and unidentified keys have none.
    pub fn from_key(key: &Key) -> (r: Option<CanonicalKey>)
        ensures
            match r {
                Some(c) => canonical_of(key_view(*key)) == Some(canonical_view(c)),
                None => canonical_of(key_view(*key)) is None,
            },
    {
        match key {
            Key::Character(s) => {
                if s.as_str().unicode_len() > 0 {
                    let c = s.as_str().get_char(0);
                    Some(CanonicalKey::Character(to_ascii_lowercase(c)))
                } else {
                    None
                }
            },
            Key::Named(n) => Some(CanonicalKey::Named(n.clone())),
            Key::Dead => None,
            Key::Unidentified => None,
        }
    }

    /// The key this canonical form stands for.
    pub fn to_key(&self) -> (k: Key)
        ensures
            key_view(k) == canonical_view(*self),
    {
        match self {
            CanonicalKey::Character(c) => Key::Character(char_to_string(*c)),
            CanonicalKey::Named(n) => Key::Named(n.clone()),
        }
    }

    /// A fresh copy.
    pub fn copy(&self) -> (r: CanonicalKey)
        ensures
            canonical_view(r) == canonical_view(*self),
    {
        match self {
            CanonicalKey::Character(c) => CanonicalKey::Character(*c),
            CanonicalKey::Named(n) => CanonicalKey::Named(n.clone()),
        }
    }

    /// Whether two canonical keys are the same.
    pub fn same(&self, other: &CanonicalKey) -> (r: bool)
        ensures
            r == (canonical_view(*self) == canonical_view(*other)),
    {
        match (self, other) {
            (CanonicalKey::Character(a), CanonicalKey::Character(b)) => {
                proof {
                    if seq![*a] == seq![*b] {
                        assert(seq![*a][0] == seq![*b][0]);
                    }
                }
                *a == *b
            },
            (CanonicalKey::Named(a), CanonicalKey::Named(b)) => str_eq(a.as_str(), b.as_str()),
            _ => false,
        }
    }
}

impl InputButton {
    /// The key button for a character: `Key` followed by the character in
    /// upper case (see `upper_text`).
    pub fn char(c: char) -> (b: InputButton)
        ensures
            button_view(b) == (0u8, "Key"@ + upper_text(c), 0u16),
    {
        let up = if (c as u32) < 128 {
            char_to_string(to_ascii_uppercase(c))
        } else {
            to_uppercase_string(c)
        };
        InputButton::Key(join("Key", up.as_str()))
    }

    /// The key button for a named key: `Named` followed by its name.
    pub fn named(name: &str) -> (b: InputButton)
        ensures
            button_view(b) == (0u8, "Named"@ + name@, 0u16),
    {
        InputButton::Key(join("Named", name))
    }

    /// The mouse button with this number.
    pub fn mouse(button: u16) -> (b: InputButton)
        ensures
            b == InputButton::Mouse(button),
    {
        InputButton::Mouse(button)
    }

    /// How the button is written in the configuration: the key name, or
    /// `Mouse` followed by the button number.
    pub fn to_string_repr(&self) -> (s: String)
        ensures
            s@ == button_repr(button_view(*self)),
    {
        match self {
            InputButton::Key(s) => s.clone(),
            InputButton::Mouse(b) => {
                let d = u16_to_decimal(*b);
                join("Mouse", d.as_str())
            },
        }
    }

    /// Reads a configuration string: `Mouse` followed by a number is a mouse
    /// button (`None` when the number does not parse); anything else is a key.
    pub fn from_string_repr(s: &str) -> (r: Option<InputButton>)
        ensures
            match r {
                Some(b) => button_from_repr(s@) == Some(button_view(b)),
                None => button_from_repr(s@) is None,
            },
    {
        if starts_with(s, "Mouse") {
            let button_str = trim_start_matches(s, "Mouse");
            match parse_u16(button_str) {
                Some(b) => Some(InputButton::Mouse(b)),
                None => None,
            }
        } else {
            Some(InputButton::Key(owned(s)))
        }
    }
}

/// The key a binding name stands for: `Key` followed by a character gives
/// that character key; `Named` followed by one of the bindable names gives
/// that named key; anything else gives none.
pub fn string_to_key(s: &str) -> (r: Option<Key>)
    ensures
        match r {
            Some(k) => bound_key_of(s@) == Some(key_view(k)),
            None => bound_key_of(s@) is None,
        },
{
    if starts_with(s, "Key") {
        let rest = trim_start_matches(s, "Key");
        if rest.unicode_len() > 0 {
            let c = rest.get_char(0);
            Some(Key::Character(char_to_string(c)))
        } else {
            None
        }
    } else if starts_with(s, "Named") {
        let rest = trim_start_matches(s, "Named");
        if str_eq(rest, "Space") || str_eq(rest, "Shift") || str_eq(rest, "Control") || str_eq(rest, "Alt")
            || str_eq(rest, "Enter") || str_eq(rest, "Escape") || str_eq(rest, "F3") || str_eq(rest, "F4")
            || str_eq(rest, "F5") || str_eq(rest, "F6") {
            Some(Key::Named(owned(rest)))
        } else {
            None
        }
    } else {
        None
    }
}

/// Whether a bound button fires for a pressed key.
pub fn button_matches(b: &InputButton, key: &Key) -> (r: bool)
    ensures
        r == button_matches_key(button_view(*b), key_view(*key)),
{
    match b {
        InputButton::Key(bound) => {
            match string_to_key(bound.as_str()) {
                Some(bound_key) => {
                    match (&bound_key, key) {
                        (Key::Character(bs), Key::Character(es)) => {
                            if es.as_str().unicode_len() > 0 {
                                proof {
                                    assert(bs@.len() == 1);
                                }
                                eq_ignore_ascii_case(bs.as_str().get_char(0), es.as_str().get_char(0))
                            } else {
                                false
                            }
                        },
                        _ => same_key(&bound_key, key),
                    }
                },
                None => false,
            }
        },
        InputButton::Mouse(_) => false,
    }
}

/// A mouse button survives being written to the configuration and read back.
pub proof fn law_mouse_repr_round_trip(m: u16)
    ensures
        button_from_repr(button_repr((1u8, Seq::<char>::empty(), m))) == Some((1u8, Seq::<char>::empty(), m)),
{
    let d = decimal_spec(m as nat);
    let s = "Mouse"@ + d;
    reveal_strlit("Mouse");
    assert(s.subrange(0, 5) =~= "Mouse"@);
    crate::util::text::lemma_decimal_parses(m);
    crate::util::text::lemma_decimal_not_mouse(m as nat);
    assert(s.subrange(5, s.len() as int) =~= d);
    assert(trim_prefix_all(s, "Mouse"@) == trim_prefix_all(d, "Mouse"@));
}

/// A key button survives being written to the configuration and read back,
/// unless its name itself begins with `Mouse`.
pub proof fn law_key_repr_round_trip(name: Seq<char>)
    requires
        !has_prefix(name, "Mouse"@),
    ensures
        button_from_repr(button_repr((0u8, name, 0u16))) == Some((0u8, name, 0u16)),
{
}

} // verus!
