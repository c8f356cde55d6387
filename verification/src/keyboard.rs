//! The sixteen-key keypad and the latch behind the "wait for a key"
//! instruction.

use vstd::prelude::*;

verus! {

/// Where a wait for a key stands. A wait is started by polling, completed by
/// the next release of any key, and its key is handed over by the poll after
/// that.
#[derive(Clone, Copy, Debug, PartialEq, Eq, Structural)]
pub enum WaitingState {
    /// Nobody is waiting for a key.
    Idle,
    /// A wait was started and no key has been released since.
    Waiting,
    /// The wait has ended with the release of `key`, which the next poll
    /// reports.
    Resolved { key: u8 },
}

/// What a keypad holds, as plain mathematical values.
pub struct Keypad {
    /// For each key `0x0..=0xF`, whether it is held down.
    pub pressed: Seq<bool>,
    /// The latch of the blocking wait.
    pub waiting: WaitingState,
}

impl Keypad {
    /// The keypad has sixteen keys.
    pub open spec fn wf(self) -> bool {
        self.pressed.len() == 16
    }

    /// No key held down and nobody waiting.
    pub open spec fn released() -> Keypad {
        Keypad { pressed: Seq::new(16, |k: int| false), waiting: WaitingState::Idle }
    }

    /// Whether `key` is one of the sixteen keys and is held down.
    pub open spec fn is_down(self, key: int) -> bool {
        0 <= key < 16 && self.pressed[key]
    }

    /// The keypad after `key` went down. A press alone never ends a wait.
    pub open spec fn press(self, key: u8) -> Keypad {
        Keypad { pressed: self.pressed.update(key as int, true), ..self }
    }

    /// The keypad after `key` came up. A release ends a wait in progress and
    /// latches the key; otherwise the latch keeps its state.
    pub open spec fn release(self, key: u8) -> Keypad {
        Keypad {
            pressed: self.pressed.update(key as int, false),
            waiting: match self.waiting {
                WaitingState::Waiting => WaitingState::Resolved { key },
                other => other,
            },
        }
    }

    /// One poll of the latch: the keypad afterwards and the key reported.
    /// An idle latch starts waiting, a waiting latch keeps waiting, and a
    /// resolved latch reports its key and goes back to idle.
    pub open spec fn poll(self) -> (Keypad, Option<u8>) {
        match self.waiting {
            WaitingState::Idle => (Keypad { waiting: WaitingState::Waiting, ..self }, None),
            WaitingState::Waiting => (self, None),
            WaitingState::Resolved { key } => (
                Keypad { waiting: WaitingState::Idle, ..self },
                Some(key),
            ),
        }
    }
}

/// The keypad of the machine. Its view is a `Keypad`.
pub struct Keyboard {
    /// For each key, whether it is held down.
    pressed_keys: [bool; 16],
    /// The latch of the blocking wait.
    waiting_state: WaitingState,
}

impl View for Keyboard {
    type V = Keypad;

    closed spec fn view(&self) -> Keypad {
        Keypad { pressed: self.pressed_keys@, waiting: self.waiting_state }
    }
}

impl Keyboard {
    /// A latched key is one of the sixteen.
    #[verifier::type_invariant]
    spec fn inv(self) -> bool {
        self.waiting_state matches WaitingState::Resolved { key } ==> key < 16
    }

    /// The view of every keypad is well formed.
    pub proof fn lemma_wf(&self)
        ensures
            self@.wf(),
    {
    }

    /// A keypad with no key held down and nobody waiting.
    pub fn new() -> (k: Self)
        ensures
            k@ == Keypad::released(),
    {
        let k = Keyboard { pressed_keys: [false; 16], waiting_state: WaitingState::Idle };
        assert(k.pressed_keys@ =~= Keypad::released().pressed);
        k
    }

    /// Whether `key` is held down.
    pub fn is_pressed(&self, key: u8) -> (down: bool)
        requires
            key < 16,
        ensures
            down == self@.is_down(key as int),
    {
        self.pressed_keys[key as usize]
    }

    /// Records that `key` went down.
    pub fn press_key(&mut self, key: u8)
        requires
            key < 16,
        ensures
            final(self)@ == old(self)@.press(key),
    {
        proof {
            use_type_invariant(&*self);
        }
        self.pressed_keys[key as usize] = true;
    }

    /// Records that `key` came up, which ends a wait in progress.
    pub fn release_key(&mut self, key: u8)
        requires
            key < 16,
        ensures
            final(self)@ == old(self)@.release(key),
    {
        proof {
            use_type_invariant(&*self);
        }
        self.pressed_keys[key as usize] = false;
        if self.waiting_state == WaitingState::Waiting {
            self.waiting_state = WaitingState::Resolved { key };
        }
    }

    /// Polls the latch of the blocking wait. The first poll starts the wait
    /// and reports nothing; polls during the wait report nothing; the poll
    /// after a key was released reports that key, once, and ends the wait.
    pub fn wait_for_keypress(&mut self) -> (key: Option<u8>)
        ensures
            (final(self)@, key) == old(self)@.poll(),
            key matches Some(k) ==> k < 16,
    {
        proof {
            use_type_invariant(&*self);
        }
        match self.waiting_state {
            WaitingState::Idle => {
                self.waiting_state = WaitingState::Waiting;
                None
            },
            WaitingState::Waiting => None,
            WaitingState::Resolved { key } => {
                self.waiting_state = WaitingState::Idle;
                Some(key)
            },
        }
    }

    /// Where the blocking wait stands.
    pub fn waiting_state(&self) -> (state: WaitingState)
        ensures
            state == self@.waiting,
    {
        self.waiting_state
    }
}

} // verus!
