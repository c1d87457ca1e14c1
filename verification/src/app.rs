//! The demo application state driven by the animation timer and the
//! power events.

use vstd::prelude::*;

verus! {

/// Battery and charger state as the power controller reports it, with
/// the charger's status and fault registers carried as raw bytes.
#[derive(Clone, Copy, Debug, PartialEq, Eq, Structural)]
pub struct PowerState {
    pub overcurrent: bool,
    pub vcc: u16,
    pub status: u8,
    pub faults: u8,
}

/// What the application asks its environment to do.
#[derive(Clone, Copy, Debug, PartialEq, Eq, Structural)]
pub enum AppRequest {
    PowerOff,
}

/// What the environment reports to the application.
#[derive(Clone, Copy, Debug, PartialEq, Eq, Structural)]
pub enum AppEvent {
    AnimationFrame,
    Power(PowerState),
}

/// The application's visible state: the current animation frame.
#[derive(Clone, Copy, Debug, PartialEq, Eq, Structural)]
pub struct AppState {
    pub frame: usize,
}

/// The demo application: an animation counter fed by events.
pub struct App {
    state: AppState,
}

impl App {
    /// The application's current state.
    pub closed spec fn spec_state(&self) -> AppState {
        self.state
    }

    /// An application at frame zero.
    pub fn new() -> (r: App)
        ensures
            r.spec_state().frame == 0,
    {
        App { state: AppState { frame: 0 } }
    }

    /// The current state.
    pub fn state(&self) -> (r: &AppState)
        ensures
            r == self.spec_state(),
    {
        &self.state
    }

    /// Advance the animation by one frame.
    pub fn animate(&mut self)
        requires
            old(self).spec_state().frame < usize::MAX,
        ensures
            final(self).spec_state().frame == old(self).spec_state().frame + 1,
    {
        self.state.frame = self.state.frame + 1;
    }

    /// React to one event: an animation tick advances the frame; a power
    /// report is noted and asks for nothing.
    pub fn handle_event(&mut self, ev: AppEvent) -> (r: Option<AppRequest>)
        requires
            ev == AppEvent::AnimationFrame ==> old(self).spec_state().frame < usize::MAX,
        ensures
            ev == AppEvent::AnimationFrame ==> final(self).spec_state().frame == old(
                self,
            ).spec_state().frame + 1 && r is None,
            ev matches AppEvent::Power(_) ==> final(self).spec_state() == old(self).spec_state()
                && r is None,
    {
        match ev {
            AppEvent::AnimationFrame => {
                self.animate();
                None
            }
            AppEvent::Power(_) => None,
        }
    }
}

} // verus!
