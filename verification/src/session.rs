//! The bridge's state between calls from the Android side.
//!
//! One app is loaded at a time. Its screen is created when the app is
//! loaded; a window surface that Android offers before that is held back
//! and handed to the screen once it exists. A tick loop runs while the
//! bridge is running and an app is loaded, and stops for good when a tick
//! fails.

use vstd::prelude::*;
use crate::keys::{KeyCode, convert_key_code, key_for_code};

verus! {

/// What the bridge holds, as flags.
#[verifier::ext_equal]
pub struct SessionState {
    /// An emulator is loaded.
    pub app_loaded: bool,
    /// The screen of the latest load exists.
    pub screen_ready: bool,
    /// A window surface waits for a screen.
    pub window_pending: bool,
    /// The screen draws into a window surface.
    pub window_bound: bool,
    /// The tick loop is allowed to run.
    pub running: bool,
}

impl SessionState {
    /// A window is only bound to an existing screen, and a window only waits
    /// while there is no screen.
    pub open spec fn wf(self) -> bool {
        &&& self.window_bound ==> self.screen_ready
        &&& !(self.screen_ready && self.window_pending)
    }

    /// Nothing loaded, nothing held, not running.
    pub open spec fn fresh() -> SessionState {
        SessionState {
            app_loaded: false,
            screen_ready: false,
            window_pending: false,
            window_bound: false,
            running: false,
        }
    }

    /// A load creates the screen, which takes over any waiting window.
    pub open spec fn begin_load(self) -> SessionState {
        SessionState {
            screen_ready: true,
            window_bound: self.window_pending,
            window_pending: false,
            ..self
        }
    }

    /// A load that succeeded replaces the emulator; one that failed keeps
    /// whatever was loaded before.
    pub open spec fn end_load(self, loaded: bool) -> SessionState {
        SessionState { app_loaded: self.app_loaded || loaded, ..self }
    }

    /// The tick loop may run.
    pub open spec fn start(self) -> SessionState {
        SessionState { running: true, ..self }
    }

    /// The tick loop stops.
    pub open spec fn stop(self) -> SessionState {
        SessionState { running: false, ..self }
    }

    /// Everything is dropped.
    pub open spec fn destroy(self) -> SessionState {
        SessionState::fresh()
    }

    /// Android offers a window surface (or fails to make one): it goes to the
    /// screen if there is one, else it waits.
    pub open spec fn surface_created(self, has_window: bool) -> SessionState {
        if self.screen_ready {
            SessionState { window_bound: has_window, ..self }
        } else {
            SessionState { window_pending: has_window, ..self }
        }
    }

    /// Android takes the window surface back: no window is held any more.
    pub open spec fn surface_destroyed(self) -> SessionState {
        SessionState { window_pending: false, window_bound: false, ..self }
    }

    /// Whether the tick loop runs another tick.
    pub open spec fn tick_allowed(self) -> bool {
        self.running && self.app_loaded
    }

    /// After a tick: a failed tick stops the loop.
    pub open spec fn tick_finished(self, ok: bool) -> SessionState {
        if ok {
            self
        } else {
            self.stop()
        }
    }
}

/// Where a new window surface goes.
#[derive(Clone, Copy, Debug, PartialEq, Eq, Structural)]
pub enum SurfaceAction {
    /// Hand it to the screen.
    BindToScreen,
    /// Keep it until a screen exists.
    KeepPending,
}

/// What the tick loop does next.
#[derive(Clone, Copy, Debug, PartialEq, Eq, Structural)]
pub enum TickStep {
    /// Redraw and run one tick.
    Tick,
    /// Leave the loop.
    Exit,
}

/// The bridge's state (see `SessionState`).
pub struct Session {
    app_loaded: bool,
    screen_ready: bool,
    window_pending: bool,
    window_bound: bool,
    running: bool,
}

impl View for Session {
    type V = SessionState;

    closed spec fn view(&self) -> SessionState {
        SessionState {
            app_loaded: self.app_loaded,
            screen_ready: self.screen_ready,
            window_pending: self.window_pending,
            window_bound: self.window_bound,
            running: self.running,
        }
    }
}

impl Session {
    #[verifier::type_invariant]
    closed spec fn inv(self) -> bool {
        self@.wf()
    }

    fn from_state(
        app_loaded: bool,
        screen_ready: bool,
        window_pending: bool,
        window_bound: bool,
        running: bool,
    ) -> (s: Session)
        requires
            window_bound ==> screen_ready,
            !(screen_ready && window_pending),
        ensures
            s@ == (SessionState { app_loaded, screen_ready, window_pending, window_bound, running }),
    {
        Session { app_loaded, screen_ready, window_pending, window_bound, running }
    }

    /// A bridge with nothing loaded.
    pub fn new() -> (s: Session)
        ensures
            s@ == SessionState::fresh(),
            s@.wf(),
    {
        Session::from_state(false, false, false, false, false)
    }

    /// A load has created its screen; returns whether the waiting window is
    /// to be handed to it.
    pub fn begin_load(&mut self) -> (claim_pending: bool)
        ensures
            claim_pending == old(self)@.window_pending,
            final(self)@ == old(self)@.begin_load(),
            final(self)@.wf(),
    {
        proof {
            use_type_invariant(&*self);
        }
        let claim = self.window_pending;
        *self = Session::from_state(self.app_loaded, true, false, claim, self.running);
        claim
    }

    /// A load has ended, with an emulator when `loaded`.
    pub fn end_load(&mut self, loaded: bool)
        ensures
            final(self)@ == old(self)@.end_load(loaded),
            final(self)@.wf(),
    {
        proof {
            use_type_invariant(&*self);
        }
        *self = Session::from_state(
            self.app_loaded || loaded,
            self.screen_ready,
            self.window_pending,
            self.window_bound,
            self.running,
        );
    }

    /// The tick loop is started.
    pub fn start(&mut self)
        ensures
            final(self)@ == old(self)@.start(),
            final(self)@.wf(),
    {
        proof {
            use_type_invariant(&*self);
        }
        *self = Session::from_state(
            self.app_loaded,
            self.screen_ready,
            self.window_pending,
            self.window_bound,
            true,
        );
    }

    /// The tick loop is stopped (by the Android side, or by the app exiting).
    pub fn stop(&mut self)
        ensures
            final(self)@ == old(self)@.stop(),
            final(self)@.wf(),
    {
        proof {
            use_type_invariant(&*self);
        }
        *self = Session::from_state(
            self.app_loaded,
            self.screen_ready,
            self.window_pending,
            self.window_bound,
            false,
        );
    }

    /// Everything is dropped and the loop stopped.
    pub fn destroy(&mut self)
        ensures
            final(self)@ == old(self)@.destroy(),
            final(self)@.wf(),
    {
        *self = Session::new();
        proof {
            use_type_invariant(&*self);
        }
    }

    /// Android offers a window surface (`has_window` says whether one could
    /// be made of it); says where it goes.
    pub fn surface_created(&mut self, has_window: bool) -> (action: SurfaceAction)
        ensures
            action == if old(self)@.screen_ready {
                SurfaceAction::BindToScreen
            } else {
                SurfaceAction::KeepPending
            },
            final(self)@ == old(self)@.surface_created(has_window),
            final(self)@.wf(),
    {
        proof {
            use_type_invariant(&*self);
        }
        if self.screen_ready {
            *self = Session::from_state(self.app_loaded, true, false, has_window, self.running);
            SurfaceAction::BindToScreen
        } else {
            *self = Session::from_state(self.app_loaded, false, has_window, false, self.running);
            SurfaceAction::KeepPending
        }
    }

    /// Android takes the window surface back; returns whether the screen
    /// must let go of it.
    pub fn surface_destroyed(&mut self) -> (unbind_screen: bool)
        ensures
            unbind_screen == old(self)@.screen_ready,
            final(self)@ == old(self)@.surface_destroyed(),
            final(self)@.wf(),
    {
        proof {
            use_type_invariant(&*self);
        }
        let unbind = self.screen_ready;
        *self = Session::from_state(self.app_loaded, self.screen_ready, false, false, self.running);
        unbind
    }

    /// What the tick loop does next.
    pub fn next_tick(&self) -> (step: TickStep)
        ensures
            step == if self@.tick_allowed() {
                TickStep::Tick
            } else {
                TickStep::Exit
            },
    {
        if self.running && self.app_loaded {
            TickStep::Tick
        } else {
            TickStep::Exit
        }
    }

    /// A tick has run, successfully when `ok`; returns whether the loop goes
    /// on.
    pub fn tick_finished(&mut self, ok: bool) -> (go_on: bool)
        ensures
            go_on == ok,
            final(self)@ == old(self)@.tick_finished(ok),
            final(self)@.wf(),
    {
        proof {
            use_type_invariant(&*self);
        }
        if !ok {
            self.stop();
        }
        proof {
            use_type_invariant(&*self);
        }
        ok
    }

    /// The key a key event from the Android side is forwarded as: only a
    /// code from the table, and only while an app is loaded.
    pub fn key_event(&self, code: i32) -> (key: Option<KeyCode>)
        ensures
            key == if self@.app_loaded {
                key_for_code(code as int)
            } else {
                None
            },
    {
        let key = convert_key_code(code);
        if self.app_loaded {
            key
        } else {
            None
        }
    }
}

/// Every transition keeps the state well formed.
pub proof fn lemma_transitions_keep_wf(s: SessionState, flag: bool)
    requires
        s.wf(),
    ensures
        SessionState::fresh().wf(),
        s.begin_load().wf(),
        s.end_load(flag).wf(),
        s.start().wf(),
        s.stop().wf(),
        s.destroy().wf(),
        s.surface_created(flag).wf(),
        s.surface_destroyed().wf(),
        s.tick_finished(flag).wf(),
{
}

/// A window surface offered before any app is loaded ends up on the screen
/// of the next load.
pub proof fn lemma_early_window_reaches_screen(s: SessionState)
    requires
        s.wf(),
        !s.screen_ready,
    ensures
        s.surface_created(true).begin_load().window_bound,
        !s.surface_created(true).begin_load().window_pending,
{
}

/// A window surface offered while a screen exists goes straight to it.
pub proof fn lemma_late_window_reaches_screen(s: SessionState)
    requires
        s.wf(),
        s.screen_ready,
    ensures
        s.surface_created(true).window_bound,
        !s.surface_created(true).window_pending,
{
}

/// Once Android takes the surface back, no window is held, until it offers
/// a new one (a load in between binds nothing).
pub proof fn lemma_destroyed_surface_is_not_reused(s: SessionState, loaded: bool)
    ensures
        !s.surface_destroyed().window_pending,
        !s.surface_destroyed().window_bound,
        !s.surface_destroyed().begin_load().end_load(loaded).window_bound,
{
}

/// No tick runs after a stop, after a destroy, or after a failed tick,
/// until the loop is started again.
pub proof fn lemma_ticks_stop(s: SessionState)
    ensures
        !s.stop().tick_allowed(),
        !s.destroy().tick_allowed(),
        !s.tick_finished(false).tick_allowed(),
        s.tick_allowed() ==> s.tick_finished(true).tick_allowed(),
{
}

/// Once an app has loaded it stays loaded until the bridge is destroyed: a
/// later load that fails keeps it.
pub proof fn lemma_failed_load_keeps_app(s: SessionState)
    requires
        s.app_loaded,
    ensures
        s.begin_load().end_load(false).app_loaded,
        !s.destroy().app_loaded,
{
}

/// Window surfaces come and go without touching the emulator or the tick
/// loop: losing or regaining the surface keeps the app loaded, keeps the
/// loop running or stopped as it was, and keeps the screen.
pub proof fn lemma_surfaces_leave_the_loop_alone(s: SessionState, has_window: bool)
    ensures
        s.surface_destroyed().running == s.running,
        s.surface_destroyed().app_loaded == s.app_loaded,
        s.surface_destroyed().screen_ready == s.screen_ready,
        s.surface_created(has_window).running == s.running,
        s.surface_created(has_window).app_loaded == s.app_loaded,
        s.surface_created(has_window).screen_ready == s.screen_ready,
        s.surface_destroyed().tick_allowed() == s.tick_allowed(),
        s.surface_created(has_window).tick_allowed() == s.tick_allowed(),
        s.surface_destroyed().surface_created(has_window).tick_allowed() == s.tick_allowed(),
{
}

/// What each step changes, and that it changes nothing else of the loop
/// and the app: starting and stopping set only `running`; a load sets the
/// screen and keeps the loop's state; a finished load adds the app when it
/// succeeded; a successful tick changes nothing.
pub proof fn lemma_steps_change_only_their_part(s: SessionState, ok: bool)
    ensures
        s.start().running,
        s.start().app_loaded == s.app_loaded,
        s.start().screen_ready == s.screen_ready,
        s.start().window_bound == s.window_bound,
        s.start().window_pending == s.window_pending,
        !s.stop().running,
        s.stop().app_loaded == s.app_loaded,
        s.stop().screen_ready == s.screen_ready,
        s.stop().window_bound == s.window_bound,
        s.stop().window_pending == s.window_pending,
        s.begin_load().screen_ready,
        s.begin_load().running == s.running,
        s.begin_load().app_loaded == s.app_loaded,
        s.begin_load().window_bound == s.window_pending,
        !s.begin_load().window_pending,
        s.end_load(ok).app_loaded == (s.app_loaded || ok),
        s.end_load(ok).running == s.running,
        s.end_load(ok).screen_ready == s.screen_ready,
        s.end_load(ok).window_bound == s.window_bound,
        s.end_load(ok).window_pending == s.window_pending,
        s.tick_finished(true) == s,
        s.tick_allowed() == (s.running && s.app_loaded),
{
}

} // verus!
