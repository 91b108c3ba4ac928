//! Keyboard view over the event stream: aggregates key edges by virtual key
//! code.

use vstd::prelude::*;

use super::input::Input;
use crate::event::{ElementState, Event, WindowEvent};

verus! {

broadcast use vstd::laws_eq::group_laws_eq;

/// The key edge an event carries, if any. Key events are not filtered by
/// window: every window's key edges feed the same aggregator.
pub open spec fn key_edge(event: Event) -> Option<(ElementState, u32)> {
    match event {
        Event::WindowEvent { event: WindowEvent::KeyboardInput { state, key }, .. } => Some(
            (state, key),
        ),
        _ => None,
    }
}

/// An [`Input`] over virtual key codes, fed from the event stream, with an
/// optional auto-clear on the end-of-frame signal.
#[derive(Debug, Clone)]
pub struct KeyboardState {
    /// The aggregated key state; exposed whole, as the device adapter is
    /// only plumbing around it.
    pub input: Input<u32>,
    /// Whether the end-of-frame signal clears the just-pressed and
    /// just-released sets automatically.
    pub auto_clear: bool,
}

impl KeyboardState {
    /// A keyboard with no recorded edges and no auto-clear.
    pub fn new() -> (r: Self)
        ensures
            r.input.wf(),
            !r.auto_clear,
            r.input.pressed_set() == Set::<u32>::empty(),
            r.input.just_pressed_set() == Set::<u32>::empty(),
            r.input.just_released_set() == Set::<u32>::empty(),
    {
        KeyboardState { input: Input::new(), auto_clear: false }
    }

    /// The same keyboard with auto-clear switched on.
    pub fn with_auto_clear(self) -> (r: Self)
        ensures
            r.input == self.input,
            r.auto_clear,
    {
        let mut this = self;
        this.set_auto_clear(true);
        this
    }

    /// Switches auto-clear on or off.
    pub fn set_auto_clear(&mut self, auto_clear: bool)
        ensures
            final(self).input == old(self).input,
            final(self).auto_clear == auto_clear,
    {
        self.auto_clear = auto_clear;
    }

    /// Consumes one event: a key edge is recorded in the aggregator; the
    /// end-of-frame signal clears the per-frame sets when auto-clear is on;
    /// everything else is ignored.
    pub fn event(&mut self, event: &Event)
        requires
            old(self).input.wf(),
        ensures
            final(self).input.wf(),
            final(self).auto_clear == old(self).auto_clear,
            match key_edge(*event) {
                Some((state, key)) => {
                    &&& state is Pressed ==> {
                        &&& final(self).input.pressed_set() == old(
                            self,
                        ).input.pressed_set().insert(key)
                        &&& final(self).input.just_pressed_set() == old(
                            self,
                        ).input.just_pressed_set().insert(key)
                        &&& final(self).input.just_released_set() == old(
                            self,
                        ).input.just_released_set()
                    }
                    &&& state is Released ==> {
                        &&& final(self).input.pressed_set() == old(
                            self,
                        ).input.pressed_set().remove(key)
                        &&& final(self).input.just_pressed_set() == old(
                            self,
                        ).input.just_pressed_set()
                        &&& final(self).input.just_released_set() == old(
                            self,
                        ).input.just_released_set().insert(key)
                    }
                },
                None => {
                    if *event is RedrawEventsCleared && old(self).auto_clear {
                        &&& final(self).input.pressed_set() == old(self).input.pressed_set()
                        &&& final(self).input.just_pressed_set() == Set::<u32>::empty()
                        &&& final(self).input.just_released_set() == Set::<u32>::empty()
                    } else {
                        final(self).input == old(self).input
                    }
                },
            },
    {
        match event {
            Event::WindowEvent { event: WindowEvent::KeyboardInput { state, key }, .. } => {
                self.input.event(*state, *key);
            }
            Event::RedrawEventsCleared => {
                if self.auto_clear {
                    self.input.clear();
                }
            }
            _ => {}
        }
    }
}

impl Default for KeyboardState {
    /// Same as [`KeyboardState::new`].
    fn default() -> (r: Self)
        ensures
            r.input.wf(),
            !r.auto_clear,
            r.input.pressed_set() == Set::<u32>::empty(),
            r.input.just_pressed_set() == Set::<u32>::empty(),
            r.input.just_released_set() == Set::<u32>::empty(),
    {
        Self::new()
    }
}

} // verus!
