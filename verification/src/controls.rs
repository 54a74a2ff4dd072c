//! The viewer's input handling: which window and keyboard events pause,
//! speed up, reset, pan, zoom, redraw or quit, as a state machine over the
//! few flags that these decisions depend on.
//!
//! Cursor positions, the simulation speed and zoom factors are measured in
//! floating point and stay with the caller; this module only decides what
//! to do with them.
use vstd::prelude::*;

verus! {

/// A key as the viewer distinguishes it.
pub enum Key {
    Space,
    ArrowUp,
    ArrowDown,
    Escape,
    /// A key that produces text, with that text.
    Character(String),
    Other,
}

/// What a key press asks for.
#[derive(PartialEq, Eq, Structural, Clone, Copy, Debug)]
pub enum KeyCommand {
    TogglePause,
    SpeedUp,
    SpeedDown,
    Reset,
    Exit,
    Nothing,
}

/// The reset key: the letter r, in either case.
pub open spec fn spec_is_reset_text(text: Seq<char>) -> bool {
    text == seq!['r'] || text == seq!['R']
}

/// Whether the text of a key is the letter r in either case (the text
/// compared to "r" ignoring ASCII case).
pub fn is_reset_text(text: &str) -> (b: bool)
    ensures
        b == spec_is_reset_text(text@),
{
    let mut chars = text.chars();
    let first = chars.next();
    match first {
        None => {
            assert(text@.len() == 0);
            false
        },
        Some(c) => {
            let second = chars.next();
            match second {
                None => {
                    assert(text@ =~= seq![c]);
                    c == 'r' || c == 'R'
                },
                Some(_) => {
                    assert(text@.len() >= 2);
                    false
                },
            }
        },
    }
}

/// The command of a key event: nothing unless the key was pressed.
pub open spec fn spec_key_command(key: Key, pressed: bool) -> KeyCommand {
    if !pressed {
        KeyCommand::Nothing
    } else {
        match key {
            Key::Space => KeyCommand::TogglePause,
            Key::ArrowUp => KeyCommand::SpeedUp,
            Key::ArrowDown => KeyCommand::SpeedDown,
            Key::Character(text) => if spec_is_reset_text(text@) {
                KeyCommand::Reset
            } else {
                KeyCommand::Nothing
            },
            Key::Escape => KeyCommand::Exit,
            Key::Other => KeyCommand::Nothing,
        }
    }
}

/// The command of a key event.
pub fn key_command(key: &Key, pressed: bool) -> (cmd: KeyCommand)
    ensures
        cmd == spec_key_command(*key, pressed),
{
    if !pressed {
        return KeyCommand::Nothing;
    }
    match key {
        Key::Space => KeyCommand::TogglePause,
        Key::ArrowUp => KeyCommand::SpeedUp,
        Key::ArrowDown => KeyCommand::SpeedDown,
        Key::Character(text) => {
            if is_reset_text(text.as_str()) {
                KeyCommand::Reset
            } else {
                KeyCommand::Nothing
            }
        },
        Key::Escape => KeyCommand::Exit,
        Key::Other => KeyCommand::Nothing,
    }
}

/// A window event, with the float-valued parts already judged by the
/// caller.
pub enum Event {
    CloseRequested,
    Resized,
    Key { key: Key, pressed: bool },
    CursorMoved,
    MouseButton { left: bool, pressed: bool },
    /// A scroll of the mouse wheel; `usable` when its zoom factor is finite
    /// and not 1.
    Wheel { usable: bool },
    RedrawRequested,
    Other,
}

/// What the viewer does in answer to an event.
#[derive(PartialEq, Eq, Structural, Clone, Copy, Debug)]
pub enum Action {
    Nothing,
    Exit,
    /// Mark the swapchain for rebuilding before the next frame.
    InvalidateSwapchain,
    /// The pause flag flipped: restart the frame clock and retitle.
    PauseToggled,
    SpeedUp,
    SpeedDown,
    /// Restart the universe, restart the frame clock and retitle.
    Reset,
    /// Pan the camera by the cursor's movement.
    Pan,
    /// Zoom about the cursor.
    Zoom,
    Redraw,
}

/// What the viewer does when the event loop runs idle.
#[derive(PartialEq, Eq, Structural, Clone, Copy, Debug)]
pub enum IdleAction {
    /// Render the diagnostic frame to a file, then quit.
    DumpFrameAndExit,
    RequestRedraw,
    Nothing,
}

/// What a redraw does.
#[derive(PartialEq, Eq, Structural, Clone, Copy, Debug)]
pub enum FramePlan {
    /// No window, or a window with no area: draw nothing.
    Skip,
    /// Draw a frame, advancing the simulation first when `advance`.
    Draw { advance: bool },
}

/// The flags that the input decisions depend on.
#[derive(PartialEq, Eq, Structural, Clone, Copy, Debug)]
pub struct Controls {
    pub paused: bool,
    /// The left mouse button is held.
    pub dragging: bool,
    /// A cursor position has been seen.
    pub has_cursor: bool,
    /// The diagnostic frame has been written.
    pub dump_done: bool,
}

/// The state after an event, and the action it calls for; `has_window`
/// tells whether a window (and its render context) exists.
pub open spec fn step(s: Controls, e: Event, has_window: bool) -> (Controls, Action) {
    match e {
        Event::CloseRequested => (s, Action::Exit),
        Event::Resized => (s, if has_window {
            Action::InvalidateSwapchain
        } else {
            Action::Nothing
        }),
        Event::Key { key, pressed } => match spec_key_command(key, pressed) {
            KeyCommand::TogglePause => (Controls { paused: !s.paused, ..s }, Action::PauseToggled),
            KeyCommand::SpeedUp => (s, Action::SpeedUp),
            KeyCommand::SpeedDown => (s, Action::SpeedDown),
            KeyCommand::Reset => (s, Action::Reset),
            KeyCommand::Exit => (s, Action::Exit),
            KeyCommand::Nothing => (s, Action::Nothing),
        },
        Event::CursorMoved => (
            Controls { has_cursor: true, ..s },
            if s.dragging && s.has_cursor {
                Action::Pan
            } else {
                Action::Nothing
            },
        ),
        Event::MouseButton { left, pressed } => (
            if left {
                Controls { dragging: pressed, ..s }
            } else {
                s
            },
            Action::Nothing,
        ),
        Event::Wheel { usable } => (s, if usable && s.has_cursor && has_window {
            Action::Zoom
        } else {
            Action::Nothing
        }),
        Event::RedrawRequested => (s, Action::Redraw),
        Event::Other => (s, Action::Nothing),
    }
}

/// The state after the event loop ran idle, and what to do; the
/// diagnostic frame is written when `dump_requested` and not yet done.
pub open spec fn idle_step(s: Controls, dump_requested: bool, has_window: bool) -> (
    Controls,
    IdleAction,
) {
    if !s.dump_done && dump_requested {
        (Controls { dump_done: true, ..s }, IdleAction::DumpFrameAndExit)
    } else if has_window {
        (s, IdleAction::RequestRedraw)
    } else {
        (s, IdleAction::Nothing)
    }
}

/// What a redraw of a window of `width` by `height` pixels does.
pub open spec fn spec_plan_frame(s: Controls, has_window: bool, width: u32, height: u32) -> FramePlan {
    if !has_window || width == 0 || height == 0 {
        FramePlan::Skip
    } else {
        FramePlan::Draw { advance: !s.paused }
    }
}

/// A key that is released, not pressed, changes nothing and asks for
/// nothing.
pub proof fn lemma_released_key_is_inert(s: Controls, key: Key, has_window: bool)
    ensures
        step(s, Event::Key { key, pressed: false }, has_window) == (s, Action::Nothing),
{
}

/// Pressing space twice leaves the viewer as it was, paused or running.
pub proof fn lemma_pause_toggle_involution(s: Controls, has_window: bool)
    ensures
        step(s, Event::Key { key: Key::Space, pressed: true }, has_window).1
            == Action::PauseToggled,
        step(
            step(s, Event::Key { key: Key::Space, pressed: true }, has_window).0,
            Event::Key { key: Key::Space, pressed: true },
            has_window,
        ).0 == s,
{
}

/// Escape and a close request quit without changing any flag.
pub proof fn lemma_exit_requests(s: Controls, has_window: bool)
    ensures
        step(s, Event::Key { key: Key::Escape, pressed: true }, has_window) == (s, Action::Exit),
        step(s, Event::CloseRequested, has_window) == (s, Action::Exit),
{
}

/// Only the space key changes the pause flag: every other event leaves it
/// as it was (a reset in particular does not resume a paused viewer).
pub proof fn lemma_only_space_pauses(s: Controls, e: Event, has_window: bool)
    requires
        !(e matches Event::Key { key: Key::Space, pressed: true }),
    ensures
        step(s, e, has_window).0.paused == s.paused,
{
}

/// The camera pans only while the left button is held and a previous
/// cursor position is known; after any cursor movement one is known.
pub proof fn lemma_pan_needs_drag(s: Controls, e: Event, has_window: bool)
    ensures
        step(s, e, has_window).1 == Action::Pan ==> s.dragging && s.has_cursor,
        (e matches Event::CursorMoved) ==> step(s, e, has_window).0.has_cursor,
{
}

/// The diagnostic frame is written at most once: after an idle turn that
/// dumps it, no later idle turn dumps it again.
pub proof fn lemma_dump_at_most_once(s: Controls, first: bool, second: bool, has_window: bool)
    requires
        idle_step(s, first, has_window).1 == IdleAction::DumpFrameAndExit,
    ensures
        idle_step(idle_step(s, first, has_window).0, second, has_window).1
            != IdleAction::DumpFrameAndExit,
{
}

/// Window events never mark the frame dump as done, so a dump requested
/// later still happens.
pub proof fn lemma_events_keep_dump_pending(s: Controls, e: Event, has_window: bool)
    ensures
        step(s, e, has_window).0.dump_done == s.dump_done,
{
}

/// A paused viewer draws frames without advancing the simulation, and a
/// window with no area draws nothing.
pub proof fn lemma_paused_frames_do_not_advance(s: Controls, has_window: bool, width: u32, height: u32)
    ensures
        s.paused ==> spec_plan_frame(s, has_window, width, height) != (FramePlan::Draw {
            advance: true,
        }),
        (width == 0 || height == 0) ==> spec_plan_frame(s, has_window, width, height)
            == FramePlan::Skip,
{
}

/// Only the left button drags: pressing it starts a drag, releasing it ends
/// one, and any other button, pressed or released, changes nothing.
pub proof fn lemma_left_button_drags(s: Controls, left: bool, pressed: bool, has_window: bool)
    ensures
        step(s, Event::MouseButton { left, pressed }, has_window).1 == Action::Nothing,
        left ==> step(s, Event::MouseButton { left, pressed }, has_window).0 == (Controls {
            dragging: pressed,
            ..s
        }),
        !left ==> step(s, Event::MouseButton { left, pressed }, has_window).0 == s,
{
}

/// Any window of nonzero width and height is drawn, whatever its shape;
/// the simulation advances exactly when the viewer is not paused.
pub proof fn lemma_every_visible_window_is_drawn(
    s: Controls,
    has_window: bool,
    width: u32,
    height: u32,
)
    ensures
        has_window && width > 0 && height > 0 ==> spec_plan_frame(s, has_window, width, height)
            == (FramePlan::Draw { advance: !s.paused }),
        !has_window ==> spec_plan_frame(s, has_window, width, height) == FramePlan::Skip,
{
}

/// The reset key is the single letter r, lower or upper case, and nothing
/// else.
pub proof fn lemma_reset_text_exactly(text: Seq<char>)
    ensures
        spec_is_reset_text(text) <==> (text.len() == 1 && (text[0] == 'r' || text[0] == 'R')),
{
    if text.len() == 1 && (text[0] == 'r' || text[0] == 'R') {
        if text[0] == 'r' {
            assert(text =~= seq!['r']);
        } else {
            assert(text =~= seq!['R']);
        }
    }
}

/// The key bindings: space pauses, up and down change the speed, r or R
/// resets, escape quits, any other key does nothing, and a released key
/// never does anything.
pub proof fn lemma_key_bindings(text: String, key: Key)
    ensures
        spec_key_command(Key::Space, true) == KeyCommand::TogglePause,
        spec_key_command(Key::ArrowUp, true) == KeyCommand::SpeedUp,
        spec_key_command(Key::ArrowDown, true) == KeyCommand::SpeedDown,
        spec_key_command(Key::Escape, true) == KeyCommand::Exit,
        spec_key_command(Key::Other, true) == KeyCommand::Nothing,
        spec_key_command(Key::Character(text), true) == (if text@.len() == 1 && (text@[0] == 'r'
            || text@[0] == 'R') {
            KeyCommand::Reset
        } else {
            KeyCommand::Nothing
        }),
        spec_key_command(key, false) == KeyCommand::Nothing,
{
    lemma_reset_text_exactly(text@);
}

/// What each window event does to the flags and asks for:
/// - a close request quits; a resize invalidates the swapchain when there is
///   a window; a redraw request redraws; other events do nothing; none of
///   these changes a flag;
/// - a key event asks for its command (pause toggled, speed up or down,
///   reset, exit or nothing), and flips the pause flag exactly when its
///   command is the pause toggle;
/// - a cursor movement records that the cursor is known and pans exactly
///   when dragging with a known cursor;
/// - a wheel event zooms exactly when usable, with a known cursor and a
///   window, and changes no flag.
pub proof fn lemma_event_effects(s: Controls, key: Key, pressed: bool, usable: bool, w: bool)
    ensures
        step(s, Event::CloseRequested, w) == (s, Action::Exit),
        step(s, Event::Resized, w).0 == s,
        step(s, Event::Resized, w).1 == (if w {
            Action::InvalidateSwapchain
        } else {
            Action::Nothing
        }),
        step(s, Event::RedrawRequested, w) == (s, Action::Redraw),
        step(s, Event::Other, w) == (s, Action::Nothing),
        ({
            let c = spec_key_command(key, pressed);
            let (t, a) = step(s, Event::Key { key, pressed }, w);
            &&& t.dragging == s.dragging && t.has_cursor == s.has_cursor && t.dump_done
                == s.dump_done
            &&& t.paused == (if c == KeyCommand::TogglePause {
                !s.paused
            } else {
                s.paused
            })
            &&& (c == KeyCommand::TogglePause <==> a == Action::PauseToggled)
            &&& (c == KeyCommand::SpeedUp <==> a == Action::SpeedUp)
            &&& (c == KeyCommand::SpeedDown <==> a == Action::SpeedDown)
            &&& (c == KeyCommand::Reset <==> a == Action::Reset)
            &&& (c == KeyCommand::Exit <==> a == Action::Exit)
            &&& (c == KeyCommand::Nothing <==> a == Action::Nothing)
        }),
        step(s, Event::CursorMoved, w).0 == (Controls { has_cursor: true, ..s }),
        (step(s, Event::CursorMoved, w).1 == Action::Pan) <==> (s.dragging && s.has_cursor),
        step(s, Event::CursorMoved, w).1 != Action::Pan ==> step(s, Event::CursorMoved, w).1
            == Action::Nothing,
        step(s, Event::Wheel { usable }, w).0 == s,
        (step(s, Event::Wheel { usable }, w).1 == Action::Zoom) <==> (usable && s.has_cursor && w),
        step(s, Event::Wheel { usable }, w).1 != Action::Zoom ==> step(
            s,
            Event::Wheel { usable },
            w,
        ).1 == Action::Nothing,
{
}

/// An idle turn writes the diagnostic frame (and then quits) exactly when
/// one is requested and none was written yet, and records that it was;
/// otherwise it changes no flag and asks for a redraw exactly when there is
/// a window.
pub proof fn lemma_idle_effects(s: Controls, dump_requested: bool, has_window: bool)
    ensures
        (idle_step(s, dump_requested, has_window).1 == IdleAction::DumpFrameAndExit) <==> (
        dump_requested && !s.dump_done),
        idle_step(s, dump_requested, has_window).1 == IdleAction::DumpFrameAndExit ==> idle_step(
            s,
            dump_requested,
            has_window,
        ).0 == (Controls { dump_done: true, ..s }),
        idle_step(s, dump_requested, has_window).1 != IdleAction::DumpFrameAndExit ==> {
            &&& idle_step(s, dump_requested, has_window).0 == s
            &&& (idle_step(s, dump_requested, has_window).1 == IdleAction::RequestRedraw
                <==> has_window)
        },
{
}

impl Controls {
    /// Running, no drag, no cursor seen, no frame dumped.
    pub fn new() -> (c: Self)
        ensures
            c == (Controls { paused: false, dragging: false, has_cursor: false, dump_done: false }),
    {
        Controls { paused: false, dragging: false, has_cursor: false, dump_done: false }
    }

    /// Takes one window event.
    pub fn on_event(&mut self, event: &Event, has_window: bool) -> (action: Action)
        ensures
            (*final(self), action) == step(*old(self), *event, has_window),
            *event matches Event::MouseButton { left, pressed } ==> {
                &&& action == Action::Nothing
                &&& final(self).paused == old(self).paused
                &&& final(self).has_cursor == old(self).has_cursor
                &&& final(self).dump_done == old(self).dump_done
                &&& final(self).dragging == if left {
                    pressed
                } else {
                    old(self).dragging
                }
            },
    {
        match event {
            Event::CloseRequested => Action::Exit,
            Event::Resized => {
                if has_window {
                    Action::InvalidateSwapchain
                } else {
                    Action::Nothing
                }
            },
            Event::Key { key, pressed } => {
                match key_command(key, *pressed) {
                    KeyCommand::TogglePause => {
                        self.paused = !self.paused;
                        Action::PauseToggled
                    },
                    KeyCommand::SpeedUp => Action::SpeedUp,
                    KeyCommand::SpeedDown => Action::SpeedDown,
                    KeyCommand::Reset => Action::Reset,
                    KeyCommand::Exit => Action::Exit,
                    KeyCommand::Nothing => Action::Nothing,
                }
            },
            Event::CursorMoved => {
                let pan = self.dragging && self.has_cursor;
                self.has_cursor = true;
                if pan {
                    Action::Pan
                } else {
                    Action::Nothing
                }
            },
            Event::MouseButton { left, pressed } => {
                if *left {
                    self.dragging = *pressed;
                }
                Action::Nothing
            },
            Event::Wheel { usable } => {
                if *usable && self.has_cursor && has_window {
                    Action::Zoom
                } else {
                    Action::Nothing
                }
            },
            Event::RedrawRequested => Action::Redraw,
            Event::Other => Action::Nothing,
        }
    }

    /// Takes one idle turn of the event loop.
    pub fn on_idle(&mut self, dump_requested: bool, has_window: bool) -> (action: IdleAction)
        ensures
            (*final(self), action) == idle_step(*old(self), dump_requested, has_window),
    {
        if !self.dump_done && dump_requested {
            self.dump_done = true;
            IdleAction::DumpFrameAndExit
        } else if has_window {
            IdleAction::RequestRedraw
        } else {
            IdleAction::Nothing
        }
    }

    /// What a redraw of a window of `width` by `height` pixels does.
    pub fn plan_frame(&self, has_window: bool, width: u32, height: u32) -> (plan: FramePlan)
        ensures
            plan == spec_plan_frame(*self, has_window, width, height),
            has_window && width > 0 && height > 0 ==> plan == (FramePlan::Draw {
                advance: !self.paused,
            }),
            !has_window || width == 0 || height == 0 ==> plan == FramePlan::Skip,
    {
        if !has_window || width == 0 || height == 0 {
            FramePlan::Skip
        } else {
            FramePlan::Draw { advance: !self.paused }
        }
    }
}

} // verus!
