use vstd::prelude::*;

verus! {

/// The sixteen keys of the hexadecimal keypad are numbered 0x0 to 0xF.
pub const KEY_COUNT: u8 = 16;

/// The keys among `0..n` that `down` marks as held, in increasing order.
pub open spec fn down_keys(down: Seq<bool>, n: nat) -> Seq<u8>
    decreases n,
{
    if n == 0 {
        Seq::empty()
    } else {
        let rest = down_keys(down, (n - 1) as nat);
        if down[n - 1] {
            rest.push((n - 1) as u8)
        } else {
            rest
        }
    }
}

/// A key is listed by `down_keys` exactly when it is below `n` and marked as held.
pub proof fn lemma_down_keys_contains(down: Seq<bool>, n: nat, key: u8)
    requires
        n <= 256,
    ensures
        down_keys(down, n).contains(key) <==> (key < n && down[key as int]),
    decreases n,
{
    if n > 0 {
        lemma_down_keys_contains(down, (n - 1) as nat, key);
        let rest = down_keys(down, (n - 1) as nat);
        if down[n - 1] {
            let all = rest.push((n - 1) as u8);
            assert(all[rest.len() as int] == (n - 1) as u8);
            if all.contains(key) {
                let j = choose|j: int| 0 <= j < all.len() && #[trigger] all[j] == key;
                if j < rest.len() {
                    assert(rest[j] == key);
                }
            }
            if rest.contains(key) {
                let j = choose|j: int| 0 <= j < rest.len() && #[trigger] rest[j] == key;
                assert(all[j] == key);
            }
        }
    }
}

/// `keys` with every occurrence of `key` taken out, the others in their order.
pub open spec fn without_key(keys: Seq<u8>, key: u8) -> Seq<u8> {
    keys.filter(|x: u8| x != key)
}

/// The keys that are currently held on a hexadecimal keypad.
pub trait Keyboard {
    /// Whether `key` is held.
    spec fn key_down(&self, key: u8) -> bool;

    /// The key that an instruction waiting for a key press receives, if any.
    spec fn awaited_key(&self) -> Option<u8>;

    /// The awaited key is one that is held, and there is one exactly when some key is held.
    proof fn lemma_awaited_key(&self)
        ensures
            self.awaited_key() matches Some(k) ==> self.key_down(k),
            self.awaited_key() is None ==> forall|k: u8| !#[trigger] self.key_down(k),
    ;

    fn is_key_pressed(&self, key: u8) -> (pressed: bool)
        ensures
            pressed == self.key_down(key),
    ;

    fn wait_key_press(&self) -> (key: Option<u8>)
        ensures
            key == self.awaited_key(),
            key matches Some(k) ==> self.key_down(k),
            key is None ==> forall|k: u8| !#[trigger] self.key_down(k),
    ;

    fn press_key(&mut self, key: u8)
        ensures
            final(self).key_down(key),
            forall|k: u8| k != key ==> #[trigger] final(self).key_down(k) == old(self).key_down(k),
    ;

    fn unpress_key(&mut self, key: u8)
        requires
            old(self).key_down(key),
        ensures
            !final(self).key_down(key),
            forall|k: u8| k != key ==> #[trigger] final(self).key_down(k) == old(self).key_down(k),
    ;

    /// Replaces the held keys by those that `down` marks, `down[k]` for key `k`.
    fn update_state(&mut self, down: [bool; 16])
        ensures
            forall|k: u8| #[trigger] final(self).key_down(k) == (k < KEY_COUNT && down@[k as int]),
    ;
}

/// The window keys that stand for the sixteen keys of the keypad.
#[derive(Clone, Copy, PartialEq, Eq, Debug)]
pub enum WindowKey {
    X,
    Key1,
    Key2,
    Key3,
    Q,
    W,
    E,
    A,
    S,
    D,
    Y,
    C,
    Key4,
    R,
    F,
    V,
}

/// The window key for each keypad key, `0x0` to `0xF`.
pub open spec fn window_key_table(chip8_key: u8) -> WindowKey {
    match chip8_key {
        0x0 => WindowKey::X,
        0x1 => WindowKey::Key1,
        0x2 => WindowKey::Key2,
        0x3 => WindowKey::Key3,
        0x4 => WindowKey::Q,
        0x5 => WindowKey::W,
        0x6 => WindowKey::E,
        0x7 => WindowKey::A,
        0x8 => WindowKey::S,
        0x9 => WindowKey::D,
        0xA => WindowKey::Y,
        0xB => WindowKey::C,
        0xC => WindowKey::Key4,
        0xD => WindowKey::R,
        0xE => WindowKey::F,
        _ => WindowKey::V,
    }
}

/// The keypad key that a window key stands for.
pub open spec fn keypad_key_of(key: WindowKey) -> u8 {
    match key {
        WindowKey::X => 0x0,
        WindowKey::Key1 => 0x1,
        WindowKey::Key2 => 0x2,
        WindowKey::Key3 => 0x3,
        WindowKey::Q => 0x4,
        WindowKey::W => 0x5,
        WindowKey::E => 0x6,
        WindowKey::A => 0x7,
        WindowKey::S => 0x8,
        WindowKey::D => 0x9,
        WindowKey::Y => 0xA,
        WindowKey::C => 0xB,
        WindowKey::Key4 => 0xC,
        WindowKey::R => 0xD,
        WindowKey::F => 0xE,
        WindowKey::V => 0xF,
    }
}

/// Each keypad key has a window key of its own: the table is undone by `keypad_key_of`, so no
/// two keypad keys share a window key.
pub proof fn law_window_keys_distinct()
    ensures
        forall|k: u8| k < KEY_COUNT ==> #[trigger] keypad_key_of(window_key_table(k)) == k,
        forall|a: u8, b: u8|
            a < KEY_COUNT && b < KEY_COUNT && a != b ==> #[trigger] window_key_table(a)
                != #[trigger] window_key_table(b),
{
    assert forall|a: u8, b: u8|
        a < KEY_COUNT && b < KEY_COUNT && a != b implies #[trigger] window_key_table(a)
            != #[trigger] window_key_table(b) by {
        assert(keypad_key_of(window_key_table(a)) == a);
        assert(keypad_key_of(window_key_table(b)) == b);
    }
}

/// One thing that can happen to a keypad.
pub enum KeyEvent {
    Press(u8),
    Release(u8),
    Update([bool; 16]),
}

/// `after` is `before` once `event` has happened to it, as the `Keyboard` methods `press_key`,
/// `unpress_key` and `update_state` state it.
pub open spec fn key_event_effect<K: Keyboard>(before: K, event: KeyEvent, after: K) -> bool {
    match event {
        KeyEvent::Press(key) => {
            &&& after.key_down(key)
            &&& forall|k: u8| k != key ==> #[trigger] after.key_down(k) == before.key_down(k)
        },
        KeyEvent::Release(key) => {
            &&& !after.key_down(key)
            &&& forall|k: u8| k != key ==> #[trigger] after.key_down(k) == before.key_down(k)
        },
        KeyEvent::Update(down) => forall|k: u8|
            #[trigger] after.key_down(k) == (k < KEY_COUNT && down@[k as int]),
    }
}

/// Whether `key` is held after `events` have happened to `start`: the last event that concerns
/// `key` decides, an update concerning every key.
pub open spec fn held_after<K: Keyboard>(start: K, events: Seq<KeyEvent>, key: u8) -> bool
    decreases events.len(),
{
    if events.len() == 0 {
        start.key_down(key)
    } else {
        match events.last() {
            KeyEvent::Press(pressed) => pressed == key || held_after(start, events.drop_last(), key),
            KeyEvent::Release(released) => released != key && held_after(
                start,
                events.drop_last(),
                key,
            ),
            KeyEvent::Update(down) => key < KEY_COUNT && down@[key as int],
        }
    }
}

/// After any history of presses, releases and updates, a key is held exactly when the last
/// event concerning it left it held: pressed since the last update and not released after, or
/// marked as down by the last update and neither released nor pressed again since.
pub proof fn law_keys_after_history<K: Keyboard>(states: Seq<K>, events: Seq<KeyEvent>, key: u8)
    requires
        states.len() == events.len() + 1,
        forall|i: int|
            #![trigger events[i]]
            0 <= i < events.len() ==> key_event_effect(states[i], events[i], states[i + 1]),
    ensures
        states.last().key_down(key) == held_after(states[0], events, key),
    decreases events.len(),
{
    if events.len() > 0 {
        let n = events.len() - 1;
        let prefix = states.drop_last();
        assert forall|i: int| #![trigger events.drop_last()[i]] 0 <= i < events.drop_last().len() implies key_event_effect(
            prefix[i],
            events.drop_last()[i],
            prefix[i + 1],
        ) by {
            assert(events[i] == events.drop_last()[i]);
        }
        law_keys_after_history(prefix, events.drop_last(), key);
        assert(events[n] == events.last());
        assert(key_event_effect(states[n], events[n], states[n + 1]));
    }
}

/// A keypad state kept as the list of held keys, in the order in which they were pressed.
pub struct MacroquadKeyboard {
    pressed_keys: Vec<u8>,
}

impl View for MacroquadKeyboard {
    type V = Seq<u8>;

    closed spec fn view(&self) -> Seq<u8> {
        self.pressed_keys@
    }
}

impl MacroquadKeyboard {
    pub fn new() -> (keyboard: Self)
        ensures
            keyboard@ == Seq::<u8>::empty(),
    {
        MacroquadKeyboard { pressed_keys: Vec::new() }
    }

    /// The window key that stands for keypad key `chip8_key`.
    pub fn map(&self, chip8_key: u8) -> (key: WindowKey)
        requires
            chip8_key < KEY_COUNT,
        ensures
            key == window_key_table(chip8_key),
    {
        match chip8_key {
            0x0 => WindowKey::X,
            0x1 => WindowKey::Key1,
            0x2 => WindowKey::Key2,
            0x3 => WindowKey::Key3,
            0x4 => WindowKey::Q,
            0x5 => WindowKey::W,
            0x6 => WindowKey::E,
            0x7 => WindowKey::A,
            0x8 => WindowKey::S,
            0x9 => WindowKey::D,
            0xA => WindowKey::Y,
            0xB => WindowKey::C,
            0xC => WindowKey::Key4,
            0xD => WindowKey::R,
            0xE => WindowKey::F,
            _ => WindowKey::V,
        }
    }
}

impl Keyboard for MacroquadKeyboard {
    open spec fn key_down(&self, key: u8) -> bool {
        self@.contains(key)
    }

    open spec fn awaited_key(&self) -> Option<u8> {
        if self@.len() > 0 {
            Some(self@[0])
        } else {
            None
        }
    }

    proof fn lemma_awaited_key(&self) {
        if self@.len() > 0 {
            assert(self@[0] == self@[0]);
        }
    }

    fn is_key_pressed(&self, key: u8) -> (pressed: bool) {
        let mut idx: usize = 0;
        while idx < self.pressed_keys.len()
            invariant
                idx <= self@.len(),
                self@ == self.pressed_keys@,
                forall|j: int| 0 <= j < idx ==> self@[j] != key,
            decreases self@.len() - idx,
        {
            if self.pressed_keys[idx] == key {
                return true;
            }
            idx = idx + 1;
        }
        false
    }

    fn wait_key_press(&self) -> (key: Option<u8>) {
        if self.pressed_keys.len() > 0 {
            Option::Some(self.pressed_keys[0])
        } else {
            None
        }
    }

    fn press_key(&mut self, key: u8)
        ensures
            final(self)@ == old(self)@.push(key),
    {
        self.pressed_keys.push(key);
        proof {
            assert(final(self)@[old(self)@.len() as int] == key);
            assert forall|k: u8| k != key implies final(self).key_down(k) == old(self).key_down(k) by {
                if old(self)@.contains(k) {
                    let j = choose|j: int| 0 <= j < old(self)@.len() && old(self)@[j] == k;
                    assert(final(self)@[j] == k);
                }
                if final(self)@.contains(k) {
                    let j = choose|j: int| 0 <= j < final(self)@.len() && final(self)@[j] == k;
                    assert(old(self)@[j] == k);
                }
            }
        }
    }

    fn unpress_key(&mut self, key: u8)
        ensures
            final(self)@ == without_key(old(self)@, key),
    {
        let ghost keep = |x: u8| x != key;
        let ghost before = self@;
        let mut kept: Vec<u8> = Vec::new();
        let mut idx: usize = 0;
        while idx < self.pressed_keys.len()
            invariant
                idx <= before.len(),
                self@ == before,
                self.pressed_keys@ == before,
                keep == (|x: u8| x != key),
                kept@ == before.take(idx as int).filter(keep),
            decreases before.len() - idx,
        {
            let k = self.pressed_keys[idx];
            proof {
                let prefix = before.take(idx + 1);
                assert(prefix.drop_last() =~= before.take(idx as int));
                assert(prefix.last() == k);
                reveal(Seq::filter);
                assert(prefix.filter(keep) == if keep(k) {
                    before.take(idx as int).filter(keep).push(k)
                } else {
                    before.take(idx as int).filter(keep)
                });
            }
            if k != key {
                kept.push(k);
            }
            idx = idx + 1;
        }
        proof {
            assert(before.take(before.len() as int) =~= before);
        }
        self.pressed_keys = kept;
        proof {
            broadcast use vstd::seq_lib::group_filter_ensures;
            let out = before.filter(keep);
            assert(!out.contains(key)) by {
                if out.contains(key) {
                    let j = choose|j: int| 0 <= j < out.len() && out[j] == key;
                    assert(keep(out[j]));
                }
            }
            assert forall|k: u8| k != key implies final(self).key_down(k) == old(self).key_down(k) by {
                if before.contains(k) {
                    let j = choose|j: int| 0 <= j < before.len() && before[j] == k;
                    assert(keep(before[j]));
                }
                if out.contains(k) {
                    before.lemma_filter_contains_rev(keep, k);
                }
            }
        }
    }

    fn update_state(&mut self, down: [bool; 16])
        ensures
            final(self)@ == down_keys(down@, KEY_COUNT as nat),
    {
        self.pressed_keys = Vec::new();
        let mut key: u8 = 0;
        while key < KEY_COUNT
            invariant
                key <= KEY_COUNT,
                self@ == down_keys(down@, key as nat),
            decreases KEY_COUNT - key,
        {
            if down[key as usize] {
                self.press_key(key);
            }
            key = key + 1;
        }
        proof {
            assert forall|k: u8| final(self).key_down(k) == (k < KEY_COUNT && down@[k as int]) by {
                lemma_down_keys_contains(down@, KEY_COUNT as nat, k);
            }
        }
    }
}

} // verus!
