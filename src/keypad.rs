//! The 16-key input device, with a one-shot "released" edge per key.
use vstd::prelude::*;

verus! {

/// Number of keys on the pad.
pub const KEY_COUNT: usize = 16;

/// What the pad knows of a key.
#[derive(Clone, Copy, Debug, PartialEq, Eq, Structural)]
pub enum KeyState {
    /// The key was let go; seen by one machine cycle, then cleared.
    Released,
    /// The key is held down.
    Pressed,
    /// Nothing to report.
    Idle,
}

/// A key of the pad, named by its hexadecimal digit.
#[derive(Clone, Copy, Debug, PartialEq, Eq, Structural)]
pub enum Key {
    Key0,
    Key1,
    Key2,
    Key3,
    Key4,
    Key5,
    Key6,
    Key7,
    Key8,
    Key9,
    KeyA,
    KeyB,
    KeyC,
    KeyD,
    KeyE,
    KeyF,
}

/// A byte that names no key.
#[derive(Clone, Copy, Debug, PartialEq, Eq, Structural)]
pub struct InvalidKey {
    pub value: u8,
}

/// The digit that names `key`.
pub open spec fn key_index(key: Key) -> u8 {
    match key {
        Key::Key0 => 0x0,
        Key::Key1 => 0x1,
        Key::Key2 => 0x2,
        Key::Key3 => 0x3,
        Key::Key4 => 0x4,
        Key::Key5 => 0x5,
        Key::Key6 => 0x6,
        Key::Key7 => 0x7,
        Key::Key8 => 0x8,
        Key::Key9 => 0x9,
        Key::KeyA => 0xA,
        Key::KeyB => 0xB,
        Key::KeyC => 0xC,
        Key::KeyD => 0xD,
        Key::KeyE => 0xE,
        Key::KeyF => 0xF,
    }
}

/// The key named by `value`, if any.
pub open spec fn key_of(value: u8) -> Result<Key, InvalidKey> {
    match value {
        0x0 => Ok(Key::Key0),
        0x1 => Ok(Key::Key1),
        0x2 => Ok(Key::Key2),
        0x3 => Ok(Key::Key3),
        0x4 => Ok(Key::Key4),
        0x5 => Ok(Key::Key5),
        0x6 => Ok(Key::Key6),
        0x7 => Ok(Key::Key7),
        0x8 => Ok(Key::Key8),
        0x9 => Ok(Key::Key9),
        0xA => Ok(Key::KeyA),
        0xB => Ok(Key::KeyB),
        0xC => Ok(Key::KeyC),
        0xD => Ok(Key::KeyD),
        0xE => Ok(Key::KeyE),
        0xF => Ok(Key::KeyF),
        _ => Err(InvalidKey { value }),
    }
}

/// A byte names a key exactly when it is below 16, and the key's digit is the byte.
pub proof fn lemma_key_of(value: u8)
    ensures
        key_of(value) is Ok <==> value < KEY_COUNT,
        key_of(value) is Ok ==> key_index(key_of(value)->Ok_0) == value,
{
}

impl From<Key> for u8 {
    fn from(key: Key) -> (r: u8) {
        match key {
            Key::Key0 => 0x0,
            Key::Key1 => 0x1,
            Key::Key2 => 0x2,
            Key::Key3 => 0x3,
            Key::Key4 => 0x4,
            Key::Key5 => 0x5,
            Key::Key6 => 0x6,
            Key::Key7 => 0x7,
            Key::Key8 => 0x8,
            Key::Key9 => 0x9,
            Key::KeyA => 0xA,
            Key::KeyB => 0xB,
            Key::KeyC => 0xC,
            Key::KeyD => 0xD,
            Key::KeyE => 0xE,
            Key::KeyF => 0xF,
        }
    }
}

impl vstd::std_specs::convert::FromSpecImpl<Key> for u8 {
    open spec fn obeys_from_spec() -> bool {
        true
    }

    open spec fn from_spec(key: Key) -> u8 {
        key_index(key)
    }
}

impl TryFrom<u8> for Key {
    type Error = InvalidKey;

    fn try_from(value: u8) -> (r: Result<Key, InvalidKey>) {
        match value {
            0x0 => Ok(Key::Key0),
            0x1 => Ok(Key::Key1),
            0x2 => Ok(Key::Key2),
            0x3 => Ok(Key::Key3),
            0x4 => Ok(Key::Key4),
            0x5 => Ok(Key::Key5),
            0x6 => Ok(Key::Key6),
            0x7 => Ok(Key::Key7),
            0x8 => Ok(Key::Key8),
            0x9 => Ok(Key::Key9),
            0xA => Ok(Key::KeyA),
            0xB => Ok(Key::KeyB),
            0xC => Ok(Key::KeyC),
            0xD => Ok(Key::KeyD),
            0xE => Ok(Key::KeyE),
            0xF => Ok(Key::KeyF),
            _ => Err(InvalidKey { value }),
        }
    }
}

impl vstd::std_specs::convert::TryFromSpecImpl<u8> for Key {
    open spec fn obeys_try_from_spec() -> bool {
        true
    }

    open spec fn try_from_spec(value: u8) -> Result<Key, InvalidKey> {
        key_of(value)
    }
}

/// The state of each of the 16 keys.
pub struct KeyPad {
    state: [KeyState; KEY_COUNT],
}

impl View for KeyPad {
    type V = Seq<KeyState>;

    closed spec fn view(&self) -> Seq<KeyState> {
        self.state@
    }
}

/// `keys` with every `Released` key set back to `Idle`.
pub open spec fn without_released(keys: Seq<KeyState>) -> Seq<KeyState> {
    keys.map_values(
        |s: KeyState|
            if s == KeyState::Released {
                KeyState::Idle
            } else {
                s
            },
    )
}

impl KeyPad {
    /// A pad with nothing to report on any key.
    pub fn new() -> (r: Self)
        ensures
            r@ == Seq::new(KEY_COUNT as nat, |_i: int| KeyState::Idle),
    {
        let r = Self { state: [KeyState::Idle; KEY_COUNT] };
        assert(r@ =~= Seq::new(KEY_COUNT as nat, |_i: int| KeyState::Idle));
        r
    }

    /// Number of keys, for stating facts about the view.
    pub proof fn lemma_len(&self)
        ensures
            self@.len() == KEY_COUNT,
    {
    }

    /// The state of `key`.
    pub fn get(&self, key: Key) -> (r: KeyState)
        ensures
            r == self@[key_index(key) as int],
    {
        self.state[u8::from(key) as usize]
    }

    /// Records `state` for `key`.
    pub fn set(&mut self, key: Key, state: KeyState)
        ensures
            final(self)@ == old(self)@.update(key_index(key) as int, state),
    {
        self.state[u8::from(key) as usize] = state;
    }

    /// The first key, in digit order, whose state is `Released`.
    pub fn find_released_key(&self) -> (r: Option<Key>)
        ensures
            r is None <==> forall|i: int| 0 <= i < KEY_COUNT ==> self@[i] != KeyState::Released,
            r is Some ==> self@[key_index(r->Some_0) as int] == KeyState::Released && forall|
                i: int,
            |
                0 <= i < key_index(r->Some_0) ==> self@[i] != KeyState::Released,
    {
        let mut i: u8 = 0;
        while i < KEY_COUNT as u8
            invariant
                i <= KEY_COUNT,
                forall|k: int| 0 <= k < i ==> self@[k] != KeyState::Released,
            decreases KEY_COUNT - i,
        {
            if self.state[i as usize] == KeyState::Released {
                proof {
                    lemma_key_of(i);
                }
                return match Key::try_from(i) {
                    Ok(key) => Some(key),
                    Err(_) => None,
                };
            }
            i = i + 1;
        }
        None
    }

    /// Sets every `Released` key back to `Idle`.
    pub fn reset_released_keys(&mut self)
        ensures
            final(self)@ == without_released(old(self)@),
    {
        let mut i: usize = 0;
        while i < KEY_COUNT
            invariant
                i <= KEY_COUNT,
                self@.len() == KEY_COUNT,
                forall|k: int|
                    0 <= k < KEY_COUNT ==> self@[k] == if k < i {
                        without_released(old(self)@)[k]
                    } else {
                        old(self)@[k]
                    },
            decreases KEY_COUNT - i,
        {
            if self.state[i] == KeyState::Released {
                self.state[i] = KeyState::Idle;
            }
            i = i + 1;
        }
        assert(self@ =~= without_released(old(self)@));
    }
}

} // verus!
