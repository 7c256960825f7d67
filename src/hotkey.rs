//! The exit-hotkey monitor: the set of held key codes, shared by every
//! capture thread, and the test for Ctrl+Shift+Alt+E.

use crate::protocol::{InputEvent, EV_KEY};
use std::collections::HashSet;
use vstd::prelude::*;
use vstd::std_specs::hash::*;

verus! {

broadcast use vstd::std_specs::hash::group_hash_axioms;

// Key codes of the Linux input subsystem.
pub const KEY_E: u16 = 18;
pub const KEY_LEFTCTRL: u16 = 29;
pub const KEY_LEFTSHIFT: u16 = 42;
pub const KEY_RIGHTSHIFT: u16 = 54;
pub const KEY_LEFTALT: u16 = 56;
pub const KEY_RIGHTCTRL: u16 = 97;
pub const KEY_RIGHTALT: u16 = 100;

/// Value of a key event that reports a press.
pub const KEY_PRESS: i32 = 1;
/// Value of a key event that reports a release.
pub const KEY_RELEASE: i32 = 0;

/// Whether the held set `s` holds the exit combination: a Ctrl, a Shift and
/// an Alt (left or right) and the letter E.
pub open spec fn exit_combo(s: Set<u16>) -> bool {
    &&& (s.contains(KEY_LEFTCTRL) || s.contains(KEY_RIGHTCTRL))
    &&& (s.contains(KEY_LEFTSHIFT) || s.contains(KEY_RIGHTSHIFT))
    &&& (s.contains(KEY_LEFTALT) || s.contains(KEY_RIGHTALT))
    &&& s.contains(KEY_E)
}

/// The held set after a key transition with `value` on `code`: a press
/// adds the code, a release removes it, anything else (auto-repeat) leaves
/// the set as it was.
pub open spec fn after_key(s: Set<u16>, code: u16, value: i32) -> Set<u16> {
    if value == KEY_PRESS {
        s.insert(code)
    } else if value == KEY_RELEASE {
        s.remove(code)
    } else {
        s
    }
}

/// The held set after the transitions `ops`, in order, starting from `s`.
pub open spec fn after_keys(s: Set<u16>, ops: Seq<(u16, i32)>) -> Set<u16>
    decreases ops.len(),
{
    if ops.len() == 0 {
        s
    } else {
        after_key(after_keys(s, ops.drop_last()), ops.last().0, ops.last().1)
    }
}

/// What a capture thread does with an event once the monitor has seen it.
#[derive(Clone, Copy, Debug, PartialEq, Eq, Structural)]
pub enum Verdict {
    /// Send the event on.
    Forward,
    /// The exit combination is complete: release every grabbed device and stop.
    Exit,
}

/// The set of currently held key codes.
pub struct HotkeyMonitor {
    pressed: HashSet<u16>,
}

impl View for HotkeyMonitor {
    type V = Set<u16>;

    closed spec fn view(&self) -> Set<u16> {
        self.pressed@
    }
}

impl HotkeyMonitor {
    /// A monitor with no key held.
    pub fn new() -> (r: HotkeyMonitor)
        ensures
            r@ == Set::<u16>::empty(),
    {
        HotkeyMonitor { pressed: HashSet::new() }
    }

    /// Whether `code` is held.
    pub fn is_pressed(&self, code: u16) -> (r: bool)
        ensures
            r == self@.contains(code),
    {
        self.pressed.contains(&code)
    }

    /// Whether the exit combination is held.
    pub fn combo_held(&self) -> (r: bool)
        ensures
            r == exit_combo(self@),
    {
        let has_ctrl = self.is_pressed(KEY_LEFTCTRL) || self.is_pressed(KEY_RIGHTCTRL);
        let has_shift = self.is_pressed(KEY_LEFTSHIFT) || self.is_pressed(KEY_RIGHTSHIFT);
        let has_alt = self.is_pressed(KEY_LEFTALT) || self.is_pressed(KEY_RIGHTALT);
        let has_e = self.is_pressed(KEY_E);
        has_ctrl && has_shift && has_alt && has_e
    }

    /// Records a transition of `code`. A press adds it and then tests the
    /// exit combination; a release removes it and never triggers an exit.
    /// Returns whether the exit fires.
    pub fn key_transition(&mut self, code: u16, value: i32) -> (exit: bool)
        ensures
            final(self)@ == after_key(old(self)@, code, value),
            exit == (value == KEY_PRESS && exit_combo(final(self)@)),
    {
        if value == KEY_PRESS {
            self.pressed.insert(code);
            self.combo_held()
        } else {
            if value == KEY_RELEASE {
                self.pressed.remove(&code);
            }
            false
        }
    }

    /// Sees one captured event before it is forwarded. Only key events
    /// change the held set.
    pub fn observe(&mut self, e: &InputEvent) -> (r: Verdict)
        ensures
            e.event_type == EV_KEY ==> final(self)@ == after_key(old(self)@, e.code, e.value),
            e.event_type != EV_KEY ==> final(self)@ == old(self)@,
            r == (if e.event_type == EV_KEY && e.value == KEY_PRESS && exit_combo(final(self)@) {
                Verdict::Exit
            } else {
                Verdict::Forward
            }),
    {
        if e.event_type == EV_KEY && self.key_transition(e.code, e.value) {
            Verdict::Exit
        } else {
            Verdict::Forward
        }
    }
}

/// Whether the most recent transition of `c` in `ops` is a press: some
/// press of `c` is followed by no release of it.
pub open spec fn last_transition_is_press(ops: Seq<(u16, i32)>, c: u16) -> bool {
    exists|i: int|
        0 <= i < ops.len() && #[trigger] ops[i] == (c, KEY_PRESS) && forall|j: int|
            i < j < ops.len() ==> ops[j] != (c, KEY_RELEASE)
}

/// Whether every transition in `ops` is a press.
pub open spec fn all_presses(ops: Seq<(u16, i32)>) -> bool {
    forall|i: int| 0 <= i < ops.len() ==> (#[trigger] ops[i]).1 == KEY_PRESS
}

proof fn lemma_after_keys_membership(s: Set<u16>, ops: Seq<(u16, i32)>, c: u16)
    ensures
        after_keys(s, ops).contains(c) <==> (last_transition_is_press(ops, c) || (s.contains(c)
            && forall|j: int| 0 <= j < ops.len() ==> ops[j] != (c, KEY_RELEASE))),
    decreases ops.len(),
{
    if ops.len() > 0 {
        let init = ops.drop_last();
        let n = ops.len() - 1;
        lemma_after_keys_membership(s, init, c);
        if last_transition_is_press(init, c) {
            let i = choose|i: int|
                0 <= i < init.len() && #[trigger] init[i] == (c, KEY_PRESS) && forall|j: int|
                    i < j < init.len() ==> init[j] != (c, KEY_RELEASE);
            assert(ops[i] == (c, KEY_PRESS));
            if ops[n] != (c, KEY_RELEASE) {
                assert forall|j: int| i < j < ops.len() implies ops[j] != (c, KEY_RELEASE) by {
                    if j < n {
                        assert(ops[j] == init[j]);
                    }
                }
                assert(last_transition_is_press(ops, c));
            }
        }
        if last_transition_is_press(ops, c) {
            let i = choose|i: int|
                0 <= i < ops.len() && #[trigger] ops[i] == (c, KEY_PRESS) && forall|j: int|
                    i < j < ops.len() ==> ops[j] != (c, KEY_RELEASE);
            if i < n {
                assert(init[i] == (c, KEY_PRESS));
                assert(last_transition_is_press(init, c));
            }
        }
        if ops[n] == (c, KEY_PRESS) {
            assert(last_transition_is_press(ops, c));
        }
        if s.contains(c) && forall|j: int| 0 <= j < init.len() ==> init[j] != (c, KEY_RELEASE) {
            if ops[n] != (c, KEY_RELEASE) {
                assert forall|j: int| 0 <= j < ops.len() implies ops[j] != (c, KEY_RELEASE) by {
                    if j < n {
                        assert(ops[j] == init[j]);
                    }
                }
            }
        }
        if forall|j: int| 0 <= j < ops.len() ==> ops[j] != (c, KEY_RELEASE) {
            assert forall|j: int| 0 <= j < init.len() implies init[j] != (c, KEY_RELEASE) by {
                assert(init[j] == ops[j]);
            }
        }
    }
}

/// Starting with no key held, after any sequence of press and release
/// transitions a code is held exactly when its most recent transition was a
/// press. Repeating a press changes nothing, and releasing a code that is
/// not held changes nothing.
pub proof fn lemma_held_set_tracks_last_transition(ops: Seq<(u16, i32)>, s: Set<u16>, c: u16)
    ensures
        after_keys(Set::empty(), ops).contains(c) <==> last_transition_is_press(ops, c),
        after_key(after_key(s, c, KEY_PRESS), c, KEY_PRESS) == after_key(s, c, KEY_PRESS),
        !s.contains(c) ==> after_key(s, c, KEY_RELEASE) == s,
{
    lemma_after_keys_membership(Set::empty(), ops, c);
    assert(after_key(after_key(s, c, KEY_PRESS), c, KEY_PRESS) =~= after_key(s, c, KEY_PRESS));
    if !s.contains(c) {
        assert(after_key(s, c, KEY_RELEASE) =~= s);
    }
}

proof fn lemma_presses_add_codes(s: Set<u16>, ops: Seq<(u16, i32)>, c: u16)
    requires
        all_presses(ops),
    ensures
        after_keys(s, ops).contains(c) <==> (s.contains(c) || ops.contains((c, KEY_PRESS))),
    decreases ops.len(),
{
    if ops.len() > 0 {
        let init = ops.drop_last();
        let n = ops.len() - 1;
        assert(all_presses(init)) by {
            assert forall|i: int| 0 <= i < init.len() implies (#[trigger] init[i]).1
                == KEY_PRESS by {
                assert(init[i] == ops[i]);
            }
        }
        lemma_presses_add_codes(s, init, c);
        assert(ops[n].1 == KEY_PRESS);
        if init.contains((c, KEY_PRESS)) {
            let i = choose|i: int| 0 <= i < init.len() && init[i] == (c, KEY_PRESS);
            assert(ops[i] == (c, KEY_PRESS));
        }
        if ops.contains((c, KEY_PRESS)) {
            let i = choose|i: int| 0 <= i < ops.len() && ops[i] == (c, KEY_PRESS);
            if i < n {
                assert(init[i] == (c, KEY_PRESS));
            }
        }
    }
}

/// Two sequences of presses of the same keys, in any order, leave the same
/// set held, so the exit fires after the last of them in both or in
/// neither.
pub proof fn lemma_press_order_irrelevant(a: Seq<(u16, i32)>, b: Seq<(u16, i32)>)
    requires
        all_presses(a),
        all_presses(b),
        a.to_set() == b.to_set(),
    ensures
        after_keys(Set::empty(), a) == after_keys(Set::empty(), b),
        exit_combo(after_keys(Set::empty(), a)) == exit_combo(after_keys(Set::empty(), b)),
{
    assert forall|c: u16|
        after_keys(Set::empty(), a).contains(c) == after_keys(Set::empty(), b).contains(c) by {
        lemma_presses_add_codes(Set::empty(), a, c);
        lemma_presses_add_codes(Set::empty(), b, c);
        assert(a.contains((c, KEY_PRESS)) == a.to_set().contains((c, KEY_PRESS)));
        assert(b.contains((c, KEY_PRESS)) == b.to_set().contains((c, KEY_PRESS)));
    }
    assert(after_keys(Set::empty(), a) =~= after_keys(Set::empty(), b));
}

} // verus!
