use vstd::prelude::*;
use std::collections::HashSet;

verus! {

broadcast use {
    vstd::std_specs::hash::axiom_u32_obeys_hash_table_key_model,
    vstd::std_specs::hash::axiom_random_state_builds_valid_hashers,
    vstd::std_specs::hash::axiom_set_contains_deref_key,
};

/// Keyboard and left-mouse-button state between frames. Keys are
/// identified by a numeric key code chosen by the windowing layer.
pub struct InputState {
    keys_pressed: HashSet<u32>,
    keys_just_pressed: HashSet<u32>,
    mouse_left_pressed: bool,
    mouse_left_just_pressed: bool,
}

impl InputState {
    /// Keys held down now.
    pub closed spec fn pressed(&self) -> Set<u32> {
        self.keys_pressed@
    }

    /// Keys that went down since the last `end_frame` and are still held.
    pub closed spec fn just_pressed(&self) -> Set<u32> {
        self.keys_just_pressed@
    }

    /// Every key that counts as just pressed is held.
    pub open spec fn wf(&self) -> bool {
        self.just_pressed().subset_of(self.pressed())
    }

    /// Whether the left mouse button is held.
    pub closed spec fn left_held(&self) -> bool {
        self.mouse_left_pressed
    }

    /// Whether the left mouse button went down since the last `end_frame`.
    pub closed spec fn left_clicked(&self) -> bool {
        self.mouse_left_just_pressed
    }

    /// Whether the left mouse button is held.
    pub fn mouse_left_pressed(&self) -> (b: bool)
        ensures
            b == self.left_held(),
    {
        self.mouse_left_pressed
    }

    /// Whether the left mouse button went down since the last `end_frame`.
    pub fn mouse_left_just_pressed(&self) -> (b: bool)
        ensures
            b == self.left_clicked(),
    {
        self.mouse_left_just_pressed
    }

    /// Nothing pressed.
    pub fn new() -> (s: InputState)
        ensures
            s.wf(),
            s.pressed() == Set::<u32>::empty(),
            s.just_pressed() == Set::<u32>::empty(),
            !s.left_held(),
            !s.left_clicked(),
    {
        InputState {
            keys_pressed: HashSet::new(),
            keys_just_pressed: HashSet::new(),
            mouse_left_pressed: false,
            mouse_left_just_pressed: false,
        }
    }

    /// A key went down (`pressed`) or up. A press of a key that is not
    /// already held counts as "just pressed"; a release clears both.
    pub fn handle_key_event(&mut self, key: u32, pressed: bool)
        ensures
            old(self).wf() ==> final(self).wf(),
            pressed ==> final(self).pressed() == old(self).pressed().insert(key),
            pressed ==> final(self).just_pressed() == if old(self).pressed().contains(key) {
                old(self).just_pressed()
            } else {
                old(self).just_pressed().insert(key)
            },
            !pressed ==> final(self).pressed() == old(self).pressed().remove(key),
            !pressed ==> final(self).just_pressed() == old(self).just_pressed().remove(key),
            final(self).left_held() == old(self).left_held(),
            final(self).left_clicked() == old(self).left_clicked(),
    {
        if pressed {
            let was_held = self.keys_pressed.contains(&key);
            self.keys_pressed.insert(key);
            if !was_held {
                self.keys_just_pressed.insert(key);
            }
        } else {
            self.keys_just_pressed.remove(&key);
            self.keys_pressed.remove(&key);
        }
    }

    /// Whether `key` is held.
    pub fn is_key_pressed(&self, key: u32) -> (b: bool)
        ensures
            b == self.pressed().contains(key),
    {
        self.keys_pressed.contains(&key)
    }

    /// Whether `key` went down this frame. A key that went down this
    /// frame is held.
    pub fn is_key_just_pressed(&self, key: u32) -> (b: bool)
        ensures
            b == self.just_pressed().contains(key),
            self.wf() ==> (b ==> self.pressed().contains(key)),
    {

        self.keys_just_pressed.contains(&key)
    }

    /// Ends a frame: nothing counts as just pressed any more.
    pub fn end_frame(&mut self)
        ensures
            final(self).wf(),
            final(self).pressed() == old(self).pressed(),
            final(self).just_pressed() == Set::<u32>::empty(),
            final(self).left_held() == old(self).left_held(),
            !final(self).left_clicked(),
    {
        self.keys_just_pressed.clear();
        self.mouse_left_just_pressed = false;
    }

    /// A mouse button went down or up; only the left button is tracked.
    pub fn handle_mouse_button(&mut self, left_button: bool, pressed: bool)
        ensures
            final(self).wf() == old(self).wf(),
            final(self).pressed() == old(self).pressed(),
            final(self).just_pressed() == old(self).just_pressed(),
            !left_button ==> final(self).left_held() == old(self).left_held()
                && final(self).left_clicked() == old(self).left_clicked(),
            left_button && pressed ==> final(self).left_held() && final(self).left_clicked() == (
            old(self).left_clicked() || !old(self).left_held()),
            left_button && !pressed ==> !final(self).left_held() && final(self).left_clicked()
                == old(self).left_clicked(),
    {
        if left_button {
            if pressed {
                if !self.mouse_left_pressed {
                    self.mouse_left_just_pressed = true;
                }
                self.mouse_left_pressed = true;
            } else {
                self.mouse_left_pressed = false;
            }
        }
    }
}

} // verus!
