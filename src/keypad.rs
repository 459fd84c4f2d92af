use vstd::prelude::*;

verus! {

/// Number of keys on the hex keypad.
pub const KEY_COUNT: usize = 16;

/// The state of one key, as seen at the last input poll.
#[derive(Clone, Copy, PartialEq, Eq, Structural, Debug)]
pub enum KeyState {
    Unpressed,
    Pressed,
    /// The key went up since the previous poll.
    Released,
}

impl Default for KeyState {
    fn default() -> (r: Self)
        ensures
            r == KeyState::Unpressed,
    {
        KeyState::Unpressed
    }
}

impl KeyState {
    /// The state of a key that is `down` now, or was `released` since the last poll.
    /// A key held down counts as pressed even if it was also released in between.
    pub fn from_input(down: bool, released: bool) -> (r: KeyState)
        ensures
            r == (if down {
                KeyState::Pressed
            } else if released {
                KeyState::Released
            } else {
                KeyState::Unpressed
            }),
    {
        if down {
            KeyState::Pressed
        } else if released {
            KeyState::Released
        } else {
            KeyState::Unpressed
        }
    }
}

/// The lowest index `k` below `n` of a released key in `keys`, if any.
pub open spec fn first_released_below(keys: Seq<KeyState>, n: int) -> Option<int>
    decreases n,
{
    if n <= 0 {
        None
    } else {
        match first_released_below(keys, n - 1) {
            Some(k) => Some(k),
            None => if keys[n - 1] == KeyState::Released {
                Some(n - 1)
            } else {
                None
            },
        }
    }
}

/// Once a released key is found, looking further does not change the answer.
proof fn lemma_first_released_stable(keys: Seq<KeyState>, k: int, n: int)
    requires
        0 <= k < n,
        first_released_below(keys, k + 1) == Some(k),
    ensures
        first_released_below(keys, n) == Some(k),
    decreases n - k,
{
    if n > k + 1 {
        lemma_first_released_stable(keys, k, n - 1);
    }
}

/// The lowest index of a released key, if any.
pub open spec fn first_released(keys: Seq<KeyState>) -> Option<int> {
    first_released_below(keys, keys.len() as int)
}

/// The sixteen keys 0 to F, by hex index.
#[derive(Clone, Copy, Debug)]
pub struct Keypad {
    pub keys: [KeyState; 16],
}

impl Keypad {
    /// A keypad with no key pressed.
    pub fn new() -> (r: Keypad)
        ensures
            forall|k: int| 0 <= k < 16 ==> #[trigger] r.keys@[k] == KeyState::Unpressed,
    {
        Keypad { keys: [KeyState::Unpressed; 16] }
    }

    /// Take a new snapshot: key `k` is down now (`down[k]`) or went up since the
    /// last poll (`released[k]`).
    pub fn update_keys(&mut self, down: [bool; 16], released: [bool; 16])
        ensures
            forall|k: int|
                0 <= k < 16 ==> #[trigger] final(self).keys@[k] == (if down@[k] {
                    KeyState::Pressed
                } else if released@[k] {
                    KeyState::Released
                } else {
                    KeyState::Unpressed
                }),
    {
        let mut k: usize = 0;
        while k < KEY_COUNT
            invariant
                k <= 16,
                forall|j: int|
                    0 <= j < k ==> #[trigger] self.keys@[j] == (if down@[j] {
                        KeyState::Pressed
                    } else if released@[j] {
                        KeyState::Released
                    } else {
                        KeyState::Unpressed
                    }),
            decreases 16 - k,
        {
            self.keys[k] = KeyState::from_input(down[k], released[k]);
            k = k + 1;
        }
    }

    /// Whether key `key` is held down.
    pub fn is_key_pressed(&self, key: usize) -> (r: bool)
        requires
            key < 16,
        ensures
            r == (self.keys@[key as int] == KeyState::Pressed),
    {
        self.keys[key] == KeyState::Pressed
    }

    /// Whether key `key` went up since the previous poll.
    pub fn is_key_released(&self, key: usize) -> (r: bool)
        requires
            key < 16,
        ensures
            r == (self.keys@[key as int] == KeyState::Released),
    {
        self.keys[key] == KeyState::Released
    }

    /// The lowest key that went up since the previous poll, if any.
    pub fn get_released_key(&self) -> (r: Option<u8>)
        ensures
            r matches Some(k) ==> first_released(self.keys@) == Some(k as int),
            r is None ==> first_released(self.keys@) is None,
    {
        let mut k: usize = 0;
        while k < KEY_COUNT
            invariant
                k <= 16,
                first_released_below(self.keys@, k as int) is None,
            decreases 16 - k,
        {
            if self.keys[k] == KeyState::Released {
                proof {
                    lemma_first_released_stable(self.keys@, k as int, 16);
                }
                return Some(k as u8);
            }
            k = k + 1;
        }
        None
    }
}

impl Default for Keypad {
    fn default() -> (r: Self)
        ensures
            forall|k: int| 0 <= k < 16 ==> #[trigger] r.keys@[k] == KeyState::Unpressed,
    {
        Keypad::new()
    }
}

} // verus!
