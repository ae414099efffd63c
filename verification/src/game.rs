//! The decisions of the game's event loop: when to stop, when the window was
//! really resized, and when the cursor is grabbed or released (F1 toggles,
//! losing focus releases).
use crate::event_handlers::{on_key_event, spec_after_key_event};
use std::collections::HashMap;
use vstd::prelude::*;

verus! {

broadcast use vstd::std_specs::hash::group_hash_axioms;

/// Window events that the loop reacts to.
#[derive(Debug, Clone, Copy, PartialEq, Eq, Structural)]
pub enum WindowEventKind {
    CloseRequested,
    Focused(bool),
    Resized,
    Other,
}

/// The loop's state between events.
#[derive(Debug, Clone, Copy, PartialEq, Eq, Structural)]
pub struct InputState {
    /// The loop goes on.
    pub running: bool,
    /// No resize has been seen yet (the window reports one when it opens).
    pub just_started: bool,
    /// The window has the keyboard focus.
    pub focused: bool,
    /// The player wants the cursor grabbed (toggled with F1).
    pub should_grab_cursor: bool,
    /// Whether the cursor is grabbed now.
    pub cursor_grabbed: bool,
    /// Whether the cursor should be grabbed once this frame's events are in.
    pub new_cursor_grabbed: bool,
    /// The current F1 press has already toggled the grab.
    pub already_changed_cursor_state: bool,
    /// The window was resized during this frame.
    pub resized: bool,
}

/// The state after a window event.
pub open spec fn spec_on_window_event(s: InputState, e: WindowEventKind) -> InputState {
    match e {
        WindowEventKind::CloseRequested => InputState { running: false, ..s },
        WindowEventKind::Focused(f) => InputState {
            focused: f,
            new_cursor_grabbed: if f {
                if s.should_grab_cursor {
                    true
                } else {
                    s.new_cursor_grabbed
                }
            } else {
                false
            },
            ..s
        },
        WindowEventKind::Resized => if s.just_started {
            InputState { just_started: false, ..s }
        } else {
            InputState { resized: true, ..s }
        },
        WindowEventKind::Other => s,
    }
}

/// The state after the held keys were looked at: Escape stops the loop, and
/// the first report of a single F1 press toggles the wanted grab; once F1 is
/// released the next press may toggle again.
pub open spec fn spec_on_keys(
    s: InputState,
    keys: Map<u32, usize>,
    escape: u32,
    f1: u32,
) -> InputState {
    let s1 = if keys.contains_key(escape) {
        InputState { running: false, ..s }
    } else {
        s
    };
    if keys.contains_key(f1) {
        if keys[f1] == 1 && !s1.already_changed_cursor_state {
            InputState {
                should_grab_cursor: !s1.should_grab_cursor,
                new_cursor_grabbed: !s1.should_grab_cursor,
                already_changed_cursor_state: true,
                ..s1
            }
        } else {
            s1
        }
    } else {
        InputState { already_changed_cursor_state: false, ..s1 }
    }
}

impl InputState {
    /// The state when the loop starts: running, focused, cursor grabbed.
    pub fn new() -> (r: InputState)
        ensures
            r.running,
            r.just_started,
            r.focused,
            r.should_grab_cursor,
            r.cursor_grabbed,
            r.new_cursor_grabbed,
            !r.already_changed_cursor_state,
            !r.resized,
    {
        InputState {
            running: true,
            just_started: true,
            focused: true,
            should_grab_cursor: true,
            cursor_grabbed: true,
            new_cursor_grabbed: true,
            already_changed_cursor_state: false,
            resized: false,
        }
    }

    /// Starts a frame: nothing resized yet, and the grab stays as it is unless
    /// an event changes it.
    pub fn begin_frame(&mut self)
        ensures
            *final(self) == (InputState {
                resized: false,
                new_cursor_grabbed: old(self).cursor_grabbed,
                ..*old(self)
            }),
    {
        self.resized = false;
        self.new_cursor_grabbed = self.cursor_grabbed;
    }

    /// Reacts to a window event.
    pub fn on_window_event(&mut self, e: WindowEventKind)
        ensures
            *final(self) == spec_on_window_event(*old(self), e),
    {
        match e {
            WindowEventKind::CloseRequested => {
                self.running = false;
            },
            WindowEventKind::Focused(f) => {
                self.focused = f;
                if f {
                    if self.should_grab_cursor {
                        self.new_cursor_grabbed = true;
                    }
                } else {
                    self.new_cursor_grabbed = false;
                }
            },
            WindowEventKind::Resized => {
                if self.just_started {
                    self.just_started = false;
                } else {
                    self.resized = true;
                }
            },
            WindowEventKind::Other => {},
        }
    }

    /// Reacts to a device event. Without the focus it is ignored; with it,
    /// the key it carries (if any) is recorded in `pressed_keys`, then the
    /// held keys are looked at (see `spec_on_keys`).
    pub fn on_device_event(
        &mut self,
        pressed_keys: &mut HashMap<u32, usize>,
        key: Option<(u32, bool)>,
        escape: u32,
        f1: u32,
    )
        requires
            match key {
                Some((k, pressed)) => pressed && old(pressed_keys)@.contains_key(k) ==> old(
                    pressed_keys,
                )@[k] < usize::MAX,
                None => true,
            },
        ensures
            old(self).focused ==> {
                &&& final(pressed_keys)@ == match key {
                    Some((k, pressed)) => spec_after_key_event(old(pressed_keys)@, Some(k), pressed),
                    None => old(pressed_keys)@,
                }
                &&& *final(self) == spec_on_keys(*old(self), final(pressed_keys)@, escape, f1)
            },
            !old(self).focused ==> *final(self) == *old(self) && final(pressed_keys)@ == old(
                pressed_keys,
            )@,
    {
        if self.focused {
            match key {
                Some((k, pressed)) => on_key_event(pressed_keys, Some(k), pressed),
                None => {},
            }
            if pressed_keys.contains_key(&escape) {
                self.running = false;
            }
            match pressed_keys.get(&f1) {
                Some(count) => {
                    if *count == 1 && !self.already_changed_cursor_state {
                        self.should_grab_cursor = !self.should_grab_cursor;
                        self.new_cursor_grabbed = self.should_grab_cursor;
                        self.already_changed_cursor_state = true;
                    }
                },
                None => {
                    self.already_changed_cursor_state = false;
                },
            }
        }
    }

    /// Ends the frame's events: returns whether the cursor grab has to change,
    /// and takes the new grab as the current one.
    pub fn finish_events(&mut self) -> (toggle: bool)
        ensures
            toggle == (old(self).new_cursor_grabbed != old(self).cursor_grabbed),
            *final(self) == (InputState {
                cursor_grabbed: old(self).new_cursor_grabbed,
                ..*old(self)
            }),
    {
        let toggle = self.new_cursor_grabbed != self.cursor_grabbed;
        self.cursor_grabbed = self.new_cursor_grabbed;
        toggle
    }
}

/// Holding F1 toggles the wanted grab once: the first report of a single
/// press toggles it, and further reports while it is held change nothing.
pub proof fn lemma_f1_toggles_once(s: InputState, keys: Map<u32, usize>, escape: u32, f1: u32)
    requires
        keys.contains_key(f1),
        keys[f1] == 1,
        !s.already_changed_cursor_state,
    ensures
        spec_on_keys(s, keys, escape, f1).should_grab_cursor == !s.should_grab_cursor,
        spec_on_keys(spec_on_keys(s, keys, escape, f1), keys, escape, f1).should_grab_cursor
            == !s.should_grab_cursor,
        spec_on_keys(spec_on_keys(s, keys, escape, f1), keys, escape, f1).new_cursor_grabbed
            == !s.should_grab_cursor,
{
}

/// Releasing F1 re-arms the toggle, so the next press toggles again.
pub proof fn lemma_f1_release_rearms(s: InputState, keys: Map<u32, usize>, escape: u32, f1: u32)
    requires
        !keys.contains_key(f1),
    ensures
        !spec_on_keys(s, keys, escape, f1).already_changed_cursor_state,
        spec_on_keys(s, keys, escape, f1).should_grab_cursor == s.should_grab_cursor,
{
}

/// Losing the focus always releases the cursor; regaining it grabs the cursor
/// again when the player wants it grabbed.
pub proof fn lemma_focus_controls_grab(s: InputState)
    ensures
        !spec_on_window_event(s, WindowEventKind::Focused(false)).new_cursor_grabbed,
        s.should_grab_cursor ==> spec_on_window_event(
            s,
            WindowEventKind::Focused(true),
        ).new_cursor_grabbed,
{
}

/// The resize the window reports when it opens is not counted; every later
/// one is.
pub proof fn lemma_first_resize_ignored(s: InputState)
    requires
        s.just_started,
        !s.resized,
    ensures
        !spec_on_window_event(s, WindowEventKind::Resized).resized,
        spec_on_window_event(
            spec_on_window_event(s, WindowEventKind::Resized),
            WindowEventKind::Resized,
        ).resized,
{
}

/// Once the loop is told to stop it stays stopped, whatever events follow.
pub proof fn lemma_stop_is_final(s: InputState, e: WindowEventKind, keys: Map<u32, usize>, escape: u32, f1: u32)
    requires
        !s.running,
    ensures
        !spec_on_window_event(s, e).running,
        !spec_on_keys(s, keys, escape, f1).running,
{
}

/// A focus event sets the focus to what it reports, whatever it was before:
/// after losing the focus and getting it back the window is focused again,
/// and the next device event is handled.
pub proof fn lemma_focus_event_sets_focus(s: InputState, f: bool)
    ensures
        spec_on_window_event(s, WindowEventKind::Focused(f)).focused == f,
        spec_on_window_event(
            spec_on_window_event(s, WindowEventKind::Focused(false)),
            WindowEventKind::Focused(true),
        ).focused,
{
}

/// A window event the loop does not react to changes nothing.
pub proof fn lemma_other_event_changes_nothing(s: InputState)
    ensures
        spec_on_window_event(s, WindowEventKind::Other) == s,
{
}

/// A resize seen during a frame is never erased by a later event of the same
/// frame, window event or held keys alike; and once the opening resize is
/// past, every resize is reported.
pub proof fn lemma_resize_is_kept(
    s: InputState,
    e: WindowEventKind,
    keys: Map<u32, usize>,
    escape: u32,
    f1: u32,
)
    ensures
        s.resized ==> spec_on_window_event(s, e).resized,
        s.resized ==> spec_on_keys(s, keys, escape, f1).resized,
        !s.just_started ==> spec_on_window_event(s, WindowEventKind::Resized).resized,
{
}

/// Escape among the held keys stops the loop.
pub proof fn lemma_escape_stops(s: InputState, keys: Map<u32, usize>, escape: u32, f1: u32)
    requires
        keys.contains_key(escape),
    ensures
        !spec_on_keys(s, keys, escape, f1).running,
{
}

/// Each window event touches only what it is about: a close request only
/// stops the loop; a focus event only sets the focus and the grab wanted for
/// the end of the frame; a resize only clears the opening flag or marks the
/// frame resized. Without Escape held the loop keeps running, and the held
/// keys never touch the focus, the resize flags or the current grab.
pub proof fn lemma_events_touch_only_their_fields(
    s: InputState,
    f: bool,
    keys: Map<u32, usize>,
    escape: u32,
    f1: u32,
)
    ensures
        spec_on_window_event(s, WindowEventKind::CloseRequested) == (InputState {
            running: false,
            ..s
        }),
        ({
            let t = spec_on_window_event(s, WindowEventKind::Focused(f));
            t == InputState { focused: f, new_cursor_grabbed: t.new_cursor_grabbed, ..s }
        }),
        ({
            let t = spec_on_window_event(s, WindowEventKind::Resized);
            t == InputState { just_started: t.just_started, resized: t.resized, ..s }
        }),
        !keys.contains_key(escape) ==> spec_on_keys(s, keys, escape, f1).running == s.running,
        ({
            let t = spec_on_keys(s, keys, escape, f1);
            &&& t.focused == s.focused
            &&& t.just_started == s.just_started
            &&& t.resized == s.resized
            &&& t.cursor_grabbed == s.cursor_grabbed
        }),
{
}

/// Only a single report of an F1 press can toggle the grab: while F1 is
/// reported more than once (held, auto-repeating) or after the toggle for
/// this press, the wanted grab stays as it is.
pub proof fn lemma_f1_toggle_needs_fresh_press(
    s: InputState,
    keys: Map<u32, usize>,
    escape: u32,
    f1: u32,
)
    requires
        !keys.contains_key(f1) || keys[f1] != 1 || s.already_changed_cursor_state,
    ensures
        spec_on_keys(s, keys, escape, f1).should_grab_cursor == s.should_grab_cursor,
        spec_on_keys(s, keys, escape, f1).new_cursor_grabbed == s.new_cursor_grabbed,
{
}

} // verus!
