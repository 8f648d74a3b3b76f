//! Keyboard state of a frame: which keys are held down, and which went
//! down or up during the current frame. Keys are known by their key code.
use vstd::prelude::*;
use std::collections::HashSet;

verus! {

broadcast use vstd::std_specs::hash::group_hash_axioms;

/// A key going down or coming up. `repeat` marks a press that the system
/// repeats while the key is held.
#[derive(Clone, Copy, Debug, PartialEq, Eq)]
pub struct KeyEventModel {
    pub pressed: bool,
    pub repeat: bool,
}

/// The keys that are down, and those pressed and released in this frame.
pub struct InputsView {
    pub down: Set<u32>,
    pub pressed: Set<u32>,
    pub released: Set<u32>,
    pub mouse_delta: (u32, u32),
}

/// Keyboard state, and the mouse movement of the frame as the bit
/// patterns of its two `f32` components (what the caller adds up).
pub struct Inputs {
    keys_down: HashSet<u32>,
    keys_pressed: HashSet<u32>,
    keys_released: HashSet<u32>,
    pub mouse_delta: (u32, u32),
}

/// The same keyboard state, under the name the game uses for it.
pub type InputState = Inputs;

/// The state after the event `e` for key `k`: a press holds the key down
/// and, unless it is a repeat, counts as this frame's press of it; a
/// release lets it up and counts as this frame's release of it.
pub open spec fn after_event(v: InputsView, e: KeyEventModel, k: u32) -> InputsView {
    if e.pressed {
        InputsView {
            down: v.down.insert(k),
            pressed: if e.repeat { v.pressed } else { v.pressed.insert(k) },
            released: v.released,
            mouse_delta: v.mouse_delta,
        }
    } else {
        InputsView {
            down: v.down.remove(k),
            pressed: v.pressed,
            released: v.released.insert(k),
            mouse_delta: v.mouse_delta,
        }
    }
}

/// The state at the start of the next frame: keys stay down, no key is
/// pressed or released yet, and the mouse has not moved (0.0, 0.0).
pub open spec fn after_frame(v: InputsView) -> InputsView {
    InputsView { down: v.down, pressed: Set::empty(), released: Set::empty(), mouse_delta: (0, 0) }
}

impl View for Inputs {
    type V = InputsView;

    closed spec fn view(&self) -> InputsView {
        InputsView {
            down: self.keys_down@,
            pressed: self.keys_pressed@,
            released: self.keys_released@,
            mouse_delta: self.mouse_delta,
        }
    }
}

impl Default for Inputs {
    /// No key down, pressed or released.
    fn default() -> (r: Inputs)
        ensures
            r@.down == Set::<u32>::empty(),
            r@.pressed == Set::<u32>::empty(),
            r@.released == Set::<u32>::empty(),
            r@.mouse_delta == (0u32, 0u32),
    {
        Inputs {
            keys_down: HashSet::new(),
            keys_pressed: HashSet::new(),
            keys_released: HashSet::new(),
            mouse_delta: (0, 0),
        }
    }
}

impl Inputs {
    /// Whether the key is held down.
    pub fn down(&self, keycode: u32) -> (b: bool)
        ensures
            b == self@.down.contains(keycode),
    {
        self.keys_down.contains(&keycode)
    }

    /// Whether the key went down in this frame.
    pub fn pressed(&self, keycode: u32) -> (b: bool)
        ensures
            b == self@.pressed.contains(keycode),
    {
        self.keys_pressed.contains(&keycode)
    }

    /// Whether the key came up in this frame.
    pub fn released(&self, keycode: u32) -> (b: bool)
        ensures
            b == self@.released.contains(keycode),
    {
        self.keys_released.contains(&keycode)
    }

    /// Records the event `event` for the key `keycode`.
    pub fn on_input(&mut self, event: KeyEventModel, keycode: u32)
        ensures
            final(self)@ == after_event(old(self)@, event, keycode),
    {
        if event.pressed {
            if !event.repeat {
                self.keys_pressed.insert(keycode);
            }
            self.keys_down.insert(keycode);
        } else {
            self.keys_down.remove(&keycode);
            self.keys_released.insert(keycode);
        }
    }

    /// Ends the frame: forgets this frame's presses and releases, and sets
    /// the mouse movement back to (0.0, 0.0).
    pub fn end_frame(&mut self)
        ensures
            final(self)@ == after_frame(old(self)@),
    {
        self.keys_pressed.clear();
        self.keys_released.clear();
        self.mouse_delta = (0, 0);
    }
}

/// After an event for key `k`, every other key is as it was.
pub proof fn lemma_event_touches_one_key(v: InputsView, e: KeyEventModel, k: u32, other: u32)
    requires
        other != k,
    ensures
        after_event(v, e, k).down.contains(other) == v.down.contains(other),
        after_event(v, e, k).pressed.contains(other) == v.pressed.contains(other),
        after_event(v, e, k).released.contains(other) == v.released.contains(other),
{
}

/// A key that was pressed is down, and a repeated press of a key that is
/// not yet down does not count as this frame's press.
pub proof fn lemma_press_holds_key(v: InputsView, e: KeyEventModel, k: u32)
    requires
        e.pressed,
    ensures
        after_event(v, e, k).down.contains(k),
        !e.repeat ==> after_event(v, e, k).pressed.contains(k),
        e.repeat ==> after_event(v, e, k).pressed.contains(k) == v.pressed.contains(k),
{
}

/// A key pressed and released within one frame is no longer down, yet the
/// frame still reports both its press and its release; at the next frame
/// neither is reported.
pub proof fn lemma_tap_within_frame(v: InputsView, k: u32)
    ensures
        ({
            let press = KeyEventModel { pressed: true, repeat: false };
            let release = KeyEventModel { pressed: false, repeat: false };
            let w = after_event(after_event(v, press, k), release, k);
            &&& !w.down.contains(k)
            &&& w.pressed.contains(k)
            &&& w.released.contains(k)
            &&& !after_frame(w).pressed.contains(k)
            &&& !after_frame(w).released.contains(k)
            &&& !after_frame(w).down.contains(k)
        }),
{
}

/// Ending a frame keeps every held key held, and ending it twice is the
/// same as ending it once.
pub proof fn lemma_frame_keeps_held_keys(v: InputsView)
    ensures
        after_frame(v).down == v.down,
        after_frame(after_frame(v)) == after_frame(v),
{
}

} // verus!
