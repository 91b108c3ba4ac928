//! Gamepad view over the event stream: button edges feed the aggregator,
//! analog axis readings are kept in a per-axis table after deadzone
//! filtering, and every pad seen gets a configurable deadzone entry.

use vstd::prelude::*;
use vstd::laws_eq::obeys_concrete_eq;
use vstd::math::abs;

use super::input::Input;
use crate::event::{CustomEvent, ElementState, Event, GamepadEventType};

pub use crate::event::{GamepadAxis, GamepadButton};

verus! {

broadcast use vstd::laws_eq::group_laws_eq;

/// One button on one gamepad.
#[derive(Debug, Clone, Copy, Hash)]
pub struct GamepadButtonInput {
    /// Identifier of the gamepad.
    pub gamepad: u64,
    /// The button.
    pub button: GamepadButton,
}

impl PartialEq for GamepadButtonInput {
    fn eq(&self, other: &Self) -> (r: bool) {
        self.gamepad == other.gamepad && self.button == other.button
    }
}

impl vstd::std_specs::cmp::PartialEqSpecImpl for GamepadButtonInput {
    open spec fn obeys_eq_spec() -> bool {
        true
    }

    open spec fn eq_spec(&self, other: &Self) -> bool {
        self.gamepad == other.gamepad && self.button == other.button
    }
}

impl Eq for GamepadButtonInput {

}

/// One analog axis on one gamepad.
#[derive(Debug, Clone, Copy, Hash)]
pub struct GamepadAxisInput {
    /// Identifier of the gamepad.
    pub gamepad: u64,
    /// The axis.
    pub axis: GamepadAxis,
}

impl PartialEq for GamepadAxisInput {
    fn eq(&self, other: &Self) -> (r: bool) {
        self.gamepad == other.gamepad && self.axis == other.axis
    }
}

impl vstd::std_specs::cmp::PartialEqSpecImpl for GamepadAxisInput {
    open spec fn obeys_eq_spec() -> bool {
        true
    }

    open spec fn eq_spec(&self, other: &Self) -> bool {
        self.gamepad == other.gamepad && self.axis == other.axis
    }
}

impl Eq for GamepadAxisInput {

}

/// Exec equality on the two input-code types agrees with their mathematical
/// equality, so they can key the aggregator and the axis table.
pub proof fn lemma_gamepad_inputs_obey_concrete_eq()
    ensures
        obeys_concrete_eq::<GamepadButtonInput>(),
        obeys_concrete_eq::<GamepadAxisInput>(),
{
    reveal(obeys_concrete_eq);
}

/// Thresholds below which an analog reading is treated as neutral, one per
/// axis category, in milli-units of the axis range.
#[derive(Debug, Clone, Copy, PartialEq, Eq, Structural)]
pub struct DeadZone {
    /// Left stick, horizontal.
    pub left_stick_x: i32,
    /// Left stick, vertical.
    pub left_stick_y: i32,
    /// Right stick, horizontal.
    pub right_stick_x: i32,
    /// Right stick, vertical.
    pub right_stick_y: i32,
    /// Left trigger.
    pub left: i32,
    /// Right trigger.
    pub right: i32,
    /// Directional pad, horizontal.
    pub d_pad_x: i32,
    /// Directional pad, vertical.
    pub d_pad_y: i32,
}

/// The default deadzone: a small threshold on the sticks, none beyond exact
/// zero on triggers and directional pad.
pub open spec fn default_deadzone() -> DeadZone {
    DeadZone {
        left_stick_x: 40,
        left_stick_y: 40,
        right_stick_x: 40,
        right_stick_y: 40,
        left: 0,
        right: 0,
        d_pad_x: 0,
        d_pad_y: 0,
    }
}

impl Default for DeadZone {
    /// The default deadzone: `40` milli-units on the sticks, zero elsewhere.
    fn default() -> (r: Self)
        ensures
            r == default_deadzone(),
    {
        DeadZone {
            left_stick_x: 40,
            left_stick_y: 40,
            right_stick_x: 40,
            right_stick_y: 40,
            left: 0,
            right: 0,
            d_pad_x: 0,
            d_pad_y: 0,
        }
    }
}

/// The deadzone threshold that applies to `axis`; `None` for the unknown
/// axis, whose readings are dropped.
pub open spec fn axis_deadzone(dz: DeadZone, axis: GamepadAxis) -> Option<i32> {
    match axis {
        GamepadAxis::LeftStickX => Some(dz.left_stick_x),
        GamepadAxis::LeftStickY => Some(dz.left_stick_y),
        GamepadAxis::LeftZ => Some(dz.left),
        GamepadAxis::RightStickX => Some(dz.right_stick_x),
        GamepadAxis::RightStickY => Some(dz.right_stick_y),
        GamepadAxis::RightZ => Some(dz.right),
        GamepadAxis::DPadX => Some(dz.d_pad_x),
        GamepadAxis::DPadY => Some(dz.d_pad_y),
        GamepadAxis::Unknown => None,
    }
}

/// The axis a trigger button's analog value is recorded under; `None` for
/// buttons that carry no analog value of interest.
pub open spec fn button_axis(button: GamepadButton) -> Option<GamepadAxis> {
    match button {
        GamepadButton::LeftTrigger2 => Some(GamepadAxis::LeftZ),
        GamepadButton::RightTrigger2 => Some(GamepadAxis::RightZ),
        _ => None,
    }
}

/// How one analog reading changes the axis table: a value inside the
/// deadzone clears the entry, one outside it is recorded.
pub open spec fn axes_step(
    axes: Map<GamepadAxisInput, i32>,
    input: GamepadAxisInput,
    value: i32,
    deadzone: i32,
) -> Map<GamepadAxisInput, i32> {
    if abs(value as int) <= deadzone {
        axes.remove(input)
    } else {
        axes.insert(input, value)
    }
}

/// The pad table after any event from `pad` has been seen: an unknown pad is
/// registered with the default deadzone.
pub open spec fn pad_registered(pads: Map<u64, DeadZone>, pad: u64) -> Map<u64, DeadZone> {
    if pads.dom().contains(pad) {
        pads
    } else {
        pads.insert(pad, default_deadzone())
    }
}

/// An [`Input`] over gamepad buttons plus the filtered analog state, fed
/// from the event stream, with an optional auto-clear on the end-of-frame
/// signal.
#[derive(Debug, Clone)]
pub struct GamepadState {
    inner: Input<GamepadButtonInput>,
    axes: Vec<(GamepadAxisInput, i32)>,
    gamepads: Vec<(u64, DeadZone)>,
    auto_clear: bool,
}

impl GamepadState {
    /// The aggregated button state.
    pub closed spec fn spec_input(&self) -> Input<GamepadButtonInput> {
        self.inner
    }

    /// The analog readings currently outside their deadzone.
    pub closed spec fn axes_map(&self) -> Map<GamepadAxisInput, i32> {
        kv_map(self.axes@)
    }

    /// The registered pads and their deadzones.
    pub closed spec fn pads_map(&self) -> Map<u64, DeadZone> {
        kv_map(self.gamepads@)
    }

    /// The registered pads in registration order.
    pub closed spec fn pads_seq(&self) -> Seq<u64> {
        self.gamepads@.map_values(|p: (u64, DeadZone)| p.0)
    }

    /// Whether the end-of-frame signal clears the just-pressed and
    /// just-released sets automatically.
    pub closed spec fn is_auto_clear(&self) -> bool {
        self.auto_clear
    }

    /// The representation invariant: the aggregator is well formed and the
    /// two tables hold each key at most once.
    pub closed spec fn wf(&self) -> bool {
        &&& self.inner.wf()
        &&& keys_unique(self.axes@)
        &&& keys_unique(self.gamepads@)
    }

    /// A gamepad view with nothing recorded and no auto-clear.
    pub fn new() -> (r: Self)
        ensures
            r.wf(),
            !r.is_auto_clear(),
            r.spec_input().pressed_set() == Set::<GamepadButtonInput>::empty(),
            r.spec_input().just_pressed_set() == Set::<GamepadButtonInput>::empty(),
            r.spec_input().just_released_set() == Set::<GamepadButtonInput>::empty(),
            r.axes_map() == Map::<GamepadAxisInput, i32>::empty(),
            r.pads_map() == Map::<u64, DeadZone>::empty(),
            r.pads_seq() == Seq::<u64>::empty(),
    {
        let r = GamepadState {
            inner: Input::new(),
            axes: Vec::new(),
            gamepads: Vec::new(),
            auto_clear: false,
        };
        proof {
            assert(r.axes_map() =~= Map::<GamepadAxisInput, i32>::empty());
            assert(r.pads_map() =~= Map::<u64, DeadZone>::empty());
            assert(r.pads_seq() =~= Seq::<u64>::empty());
        }
        r
    }

    /// The same view with auto-clear switched on.
    pub fn with_auto_clear(self) -> (r: Self)
        ensures
            r.spec_input() == self.spec_input(),
            r.axes_map() == self.axes_map(),
            r.pads_map() == self.pads_map(),
            r.pads_seq() == self.pads_seq(),
            r.wf() == self.wf(),
            r.is_auto_clear(),
    {
        let mut this = self;
        this.set_auto_clear(true);
        this
    }

    /// Switches auto-clear on or off.
    pub fn set_auto_clear(&mut self, auto_clear: bool)
        ensures
            final(self).spec_input() == old(self).spec_input(),
            final(self).axes_map() == old(self).axes_map(),
            final(self).pads_map() == old(self).pads_map(),
            final(self).pads_seq() == old(self).pads_seq(),
            final(self).wf() == old(self).wf(),
            final(self).is_auto_clear() == auto_clear,
    {
        self.auto_clear = auto_clear;
    }

    /// Read access to the aggregated button state.
    pub fn input(&self) -> (r: &Input<GamepadButtonInput>)
        ensures
            *r == self.spec_input(),
    {
        &self.inner
    }

    /// Ends the observation window of the button aggregator.
    pub fn clear(&mut self)
        requires
            old(self).wf(),
        ensures
            final(self).wf(),
            final(self).spec_input().pressed_set() == old(self).spec_input().pressed_set(),
            final(self).spec_input().just_pressed_set() == Set::<GamepadButtonInput>::empty(),
            final(self).spec_input().just_released_set() == Set::<GamepadButtonInput>::empty(),
            final(self).axes_map() == old(self).axes_map(),
            final(self).pads_map() == old(self).pads_map(),
            final(self).pads_seq() == old(self).pads_seq(),
            final(self).is_auto_clear() == old(self).is_auto_clear(),
    {
        self.inner.clear();
    }

    /// Consumes one event: gamepad events register the pad and update the
    /// button or axis state; the end-of-frame signal clears the per-frame
    /// sets when auto-clear is on; everything else is ignored.
    pub fn event(&mut self, event: &Event)
        requires
            old(self).wf(),
        ensures
            final(self).wf(),
            final(self).is_auto_clear() == old(self).is_auto_clear(),
            match *event {
                Event::UserEvent(CustomEvent::GamePadEvent(ge)) => {
                    let pads1 = pad_registered(old(self).pads_map(), ge.id);
                    let dz = pads1[ge.id];
                    match ge.event {
                        GamepadEventType::ButtonPressed(button) => {
                            let code = GamepadButtonInput { gamepad: ge.id, button };
                            &&& final(self).pads_map() == pads1
                            &&& final(self).axes_map() == old(self).axes_map()
                            &&& final(self).spec_input().pressed_set() == old(
                                self,
                            ).spec_input().pressed_set().insert(code)
                            &&& final(self).spec_input().just_pressed_set() == old(
                                self,
                            ).spec_input().just_pressed_set().insert(code)
                            &&& final(self).spec_input().just_released_set() == old(
                                self,
                            ).spec_input().just_released_set()
                        },
                        GamepadEventType::ButtonReleased(button) => {
                            let code = GamepadButtonInput { gamepad: ge.id, button };
                            &&& final(self).pads_map() == pads1
                            &&& final(self).axes_map() == old(self).axes_map()
                            &&& final(self).spec_input().pressed_set() == old(
                                self,
                            ).spec_input().pressed_set().remove(code)
                            &&& final(self).spec_input().just_pressed_set() == old(
                                self,
                            ).spec_input().just_pressed_set()
                            &&& final(self).spec_input().just_released_set() == old(
                                self,
                            ).spec_input().just_released_set().insert(code)
                        },
                        GamepadEventType::ButtonChanged(button, value) => {
                            &&& final(self).pads_map() == pads1
                            &&& final(self).spec_input() == old(self).spec_input()
                            &&& final(self).axes_map() == match button_axis(button) {
                                Some(axis) => axes_step(
                                    old(self).axes_map(),
                                    GamepadAxisInput { gamepad: ge.id, axis },
                                    value,
                                    axis_deadzone(dz, axis)->0,
                                ),
                                None => old(self).axes_map(),
                            }
                        },
                        GamepadEventType::AxisChanged(axis, value) => {
                            &&& final(self).pads_map() == pads1
                            &&& final(self).spec_input() == old(self).spec_input()
                            &&& final(self).axes_map() == match axis_deadzone(dz, axis) {
                                Some(deadzone) => axes_step(
                                    old(self).axes_map(),
                                    GamepadAxisInput { gamepad: ge.id, axis },
                                    value,
                                    deadzone,
                                ),
                                None => old(self).axes_map(),
                            }
                        },
                        GamepadEventType::Disconnected => {
                            &&& final(self).pads_map() == old(self).pads_map().remove(ge.id)
                            &&& final(self).axes_map() == old(self).axes_map()
                            &&& final(self).spec_input() == old(self).spec_input()
                        },
                        GamepadEventType::Connected => {
                            &&& final(self).pads_map() == pads1
                            &&& final(self).axes_map() == old(self).axes_map()
                            &&& final(self).spec_input() == old(self).spec_input()
                        },
                    }
                },
                Event::RedrawEventsCleared => {
                    if old(self).is_auto_clear() {
                        &&& final(self).spec_input().pressed_set() == old(
                            self,
                        ).spec_input().pressed_set()
                        &&& final(self).spec_input().just_pressed_set() == Set::<
                            GamepadButtonInput,
                        >::empty()
                        &&& final(self).spec_input().just_released_set() == Set::<
                            GamepadButtonInput,
                        >::empty()
                        &&& final(self).axes_map() == old(self).axes_map()
                        &&& final(self).pads_map() == old(self).pads_map()
                    } else {
                        *final(self) == *old(self)
                    }
                },
                _ => *final(self) == *old(self),
            },
    {
        proof {
            lemma_gamepad_inputs_obey_concrete_eq();
        }
        match event {
            Event::UserEvent(CustomEvent::GamePadEvent(ge)) => {
                let gamepad = ge.id;
                let deadzone = pad_entry(&mut self.gamepads, gamepad);
                match ge.event {
                    GamepadEventType::ButtonPressed(button) => {
                        let input = GamepadButtonInput { gamepad, button };
                        self.inner.event(ElementState::Pressed, input);
                    }
                    GamepadEventType::ButtonReleased(button) => {
                        let input = GamepadButtonInput { gamepad, button };
                        self.inner.event(ElementState::Released, input);
                    }
                    GamepadEventType::ButtonChanged(button, value) => {
                        let (threshold, axis) = match button {
                            GamepadButton::LeftTrigger2 => (deadzone.left, GamepadAxis::LeftZ),
                            GamepadButton::RightTrigger2 => (deadzone.right, GamepadAxis::RightZ),
                            _ => {
                                return ;
                            },
                        };
                        let input = GamepadAxisInput { gamepad, axis };
                        self.apply_axis(input, value, threshold);
                    }
                    GamepadEventType::AxisChanged(axis, value) => {
                        let threshold = match axis {
                            GamepadAxis::LeftStickX => deadzone.left_stick_x,
                            GamepadAxis::LeftStickY => deadzone.left_stick_y,
                            GamepadAxis::LeftZ => deadzone.left,
                            GamepadAxis::RightStickX => deadzone.right_stick_x,
                            GamepadAxis::RightStickY => deadzone.right_stick_y,
                            GamepadAxis::RightZ => deadzone.right,
                            GamepadAxis::DPadX => deadzone.d_pad_x,
                            GamepadAxis::DPadY => deadzone.d_pad_y,
                            GamepadAxis::Unknown => {
                                return ;
                            },
                        };
                        let input = GamepadAxisInput { gamepad, axis };
                        self.apply_axis(input, value, threshold);
                    }
                    GamepadEventType::Disconnected => {
                        kv_remove(&mut self.gamepads, gamepad);
                        proof {
                            assert(kv_map(self.gamepads@) =~= old(self).pads_map().remove(
                                gamepad,
                            ));
                        }
                    }
                    GamepadEventType::Connected => {}
                }
            }
            Event::RedrawEventsCleared => {
                if self.auto_clear {
                    self.inner.clear();
                }
            }
            _ => {}
        }
    }

    /// Records one filtered analog reading.
    fn apply_axis(&mut self, input: GamepadAxisInput, value: i32, threshold: i32)
        requires
            old(self).wf(),
        ensures
            final(self).wf(),
            final(self).axes_map() == axes_step(old(self).axes_map(), input, value, threshold),
            final(self).spec_input() == old(self).spec_input(),
            final(self).pads_map() == old(self).pads_map(),
            final(self).pads_seq() == old(self).pads_seq(),
            final(self).is_auto_clear() == old(self).is_auto_clear(),
    {
        proof {
            lemma_gamepad_inputs_obey_concrete_eq();
        }
        let inside = (value as i64) <= (threshold as i64) && -(threshold as i64) <= (value as i64);
        if inside {
            kv_remove(&mut self.axes, input);
        } else {
            kv_insert(&mut self.axes, input, value);
        }
    }

    /// Overwrites the deadzone of a registered pad; unknown pads are left
    /// unregistered.
    pub fn set_deadzone(&mut self, gamepad: u64, deadzone: DeadZone)
        requires
            old(self).wf(),
        ensures
            final(self).wf(),
            final(self).pads_map() == if old(self).pads_map().dom().contains(gamepad) {
                old(self).pads_map().insert(gamepad, deadzone)
            } else {
                old(self).pads_map()
            },
            final(self).axes_map() == old(self).axes_map(),
            final(self).spec_input() == old(self).spec_input(),
            final(self).is_auto_clear() == old(self).is_auto_clear(),
    {
        if kv_get(&self.gamepads, gamepad).is_some() {
            kv_insert(&mut self.gamepads, gamepad, deadzone);
        }
    }

    /// The deadzone of a registered pad.
    pub fn get_deadzone(&self, gamepad: u64) -> (r: Option<DeadZone>)
        requires
            self.wf(),
        ensures
            r == if self.pads_map().dom().contains(gamepad) {
                Some(self.pads_map()[gamepad])
            } else {
                None::<DeadZone>
            },
    {
        kv_get(&self.gamepads, gamepad)
    }

    /// The registered pads, in registration order.
    pub fn gamepads(&self) -> (r: Vec<u64>)
        requires
            self.wf(),
        ensures
            r@ == self.pads_seq(),
            r@.to_set() == self.pads_map().dom(),
    {
        let mut keys: Vec<u64> = Vec::new();
        let mut i: usize = 0;
        while i < self.gamepads.len()
            invariant
                i <= self.gamepads@.len(),
                keys@ == self.gamepads@.take(i as int).map_values(|p: (u64, DeadZone)| p.0),
            decreases self.gamepads@.len() - i,
        {
            keys.push(self.gamepads[i].0);
            proof {
                assert(self.gamepads@.take(i + 1).drop_last() =~= self.gamepads@.take(i as int));
                assert(keys@ =~= self.gamepads@.take(i + 1).map_values(
                    |p: (u64, DeadZone)| p.0,
                ));
            }
            i = i + 1;
        }
        proof {
            assert(self.gamepads@.take(self.gamepads@.len() as int) =~= self.gamepads@);
            assert forall|pad: u64| #[trigger]
                self.pads_seq().contains(pad) == self.pads_map().dom().contains(pad) by {
                if self.pads_seq().contains(pad) {
                    let j = choose|j: int|
                        0 <= j < self.pads_seq().len() && self.pads_seq()[j] == pad;
                    assert(self.gamepads@[j].0 == pad);
                }
                if self.pads_map().dom().contains(pad) {
                    let j = choose|j: int|
                        0 <= j < self.gamepads@.len() && self.gamepads@[j].0 == pad;
                    assert(self.pads_seq()[j] == pad);
                }
            }
            assert(keys@.to_set() =~= self.pads_map().dom());
        }
        keys
    }

    /// The recorded reading of one axis; zero inside the deadzone or when
    /// nothing was recorded.
    pub fn axis_value(&self, code: GamepadAxisInput) -> (r: i32)
        requires
            self.wf(),
        ensures
            r == if self.axes_map().dom().contains(code) {
                self.axes_map()[code]
            } else {
                0
            },
    {
        proof {
            lemma_gamepad_inputs_obey_concrete_eq();
        }
        match kv_get(&self.axes, code) {
            Some(value) => value,
            None => 0,
        }
    }

    /// The recorded reading of `axis` on the first registered pad; `None`
    /// when no pad is registered.
    pub fn axis_value_first(&self, axis: GamepadAxis) -> (r: Option<i32>)
        requires
            self.wf(),
        ensures
            r == if self.pads_seq().len() == 0 {
                None::<i32>
            } else {
                let code = GamepadAxisInput { gamepad: self.pads_seq()[0], axis };
                Some(
                    if self.axes_map().dom().contains(code) {
                        self.axes_map()[code]
                    } else {
                        0
                    },
                )
            },
    {
        if self.gamepads.len() == 0 {
            None
        } else {
            let gamepad = self.gamepads[0].0;
            Some(self.axis_value(GamepadAxisInput { gamepad, axis }))
        }
    }
}

impl Default for GamepadState {
    /// Same as [`GamepadState::new`].
    fn default() -> (r: Self)
        ensures
            r.wf(),
            !r.is_auto_clear(),
            r.spec_input().pressed_set() == Set::<GamepadButtonInput>::empty(),
            r.spec_input().just_pressed_set() == Set::<GamepadButtonInput>::empty(),
            r.spec_input().just_released_set() == Set::<GamepadButtonInput>::empty(),
            r.axes_map() == Map::<GamepadAxisInput, i32>::empty(),
            r.pads_map() == Map::<u64, DeadZone>::empty(),
            r.pads_seq() == Seq::<u64>::empty(),
    {
        Self::new()
    }
}

/// No key occurs twice in an association list.
pub open spec fn keys_unique<K, V>(s: Seq<(K, V)>) -> bool {
    forall|i: int, j: int| 0 <= i < j < s.len() ==> s[i].0 != s[j].0
}

/// Is `key` bound in the association list?
pub open spec fn kv_contains<K, V>(s: Seq<(K, V)>, key: K) -> bool {
    exists|i: int| 0 <= i < s.len() && s[i].0 == key
}

/// The value bound to `key`, assuming it is bound.
pub open spec fn kv_value<K, V>(s: Seq<(K, V)>, key: K) -> V {
    let i = choose|i: int| 0 <= i < s.len() && s[i].0 == key;
    s[i].1
}

/// The finite map an association list represents.
pub open spec fn kv_map<K, V>(s: Seq<(K, V)>) -> Map<K, V> {
    Map::new(|k: K| kv_contains(s, k), |k: K| kv_value(s, k))
}

/// Looks `key` up in an association list with unique keys.
fn kv_get<K: Copy + PartialEq, V: Copy>(v: &Vec<(K, V)>, key: K) -> (r: Option<V>)
    requires
        obeys_concrete_eq::<K>(),
        keys_unique(v@),
    ensures
        r == if kv_map(v@).dom().contains(key) {
            Some(kv_value(v@, key))
        } else {
            None::<V>
        },
{
    proof {
        reveal(obeys_concrete_eq);
    }
    let mut i: usize = 0;
    while i < v.len()
        invariant
            obeys_concrete_eq::<K>(),
            keys_unique(v@),
            i <= v@.len(),
            forall|j: int| 0 <= j < i ==> v@[j].0 != key,
        decreases v@.len() - i,
    {
        proof {
            reveal(obeys_concrete_eq);
        }
        let pair = v[i];
        if pair.0 == key {
            proof {
                assert(kv_contains(v@, key));
                let j = choose|j: int| 0 <= j < v@.len() && v@[j].0 == key;
                assert(j == i);
            }
            return Some(pair.1);
        }
        i = i + 1;
    }
    None
}

/// Binds `key` to `value`, replacing any previous binding.
fn kv_insert<K: Copy + PartialEq, V: Copy>(v: &mut Vec<(K, V)>, key: K, value: V)
    requires
        obeys_concrete_eq::<K>(),
        keys_unique(old(v)@),
    ensures
        keys_unique(final(v)@),
        kv_map(final(v)@) == kv_map(old(v)@).insert(key, value),
        final(v)@.map_values(|p: (K, V)| p.0).to_set() == old(v)@.map_values(
            |p: (K, V)| p.0,
        ).to_set().insert(key),
{
    kv_remove(v, key);
    let ghost mid = v@;
    v.push((key, value));
    proof {
        assert forall|k: K| kv_contains(v@, k) == (kv_contains(mid, k) || k == key) by {
            if kv_contains(mid, k) {
                let j = choose|j: int| 0 <= j < mid.len() && mid[j].0 == k;
                assert(v@[j].0 == k);
            }
            if k == key {
                assert(v@[v@.len() - 1].0 == k);
            }
            if kv_contains(v@, k) {
                let j = choose|j: int| 0 <= j < v@.len() && v@[j].0 == k;
                if j < mid.len() {
                    assert(mid[j].0 == k);
                }
            }
        }
        assert(keys_unique(v@));
        assert forall|k: K| #[trigger] kv_contains(v@, k) implies kv_value(v@, k) == kv_map(
            mid,
        ).insert(key, value)[k] by {
            let j = choose|j: int| 0 <= j < v@.len() && v@[j].0 == k;
            if k == key {
                assert(!kv_contains(mid, key));
                assert(j == v@.len() - 1);
                assert(kv_value(v@, k) == value);
            } else {
                assert(j < mid.len());
                assert(mid[j] == v@[j]);
                let j2 = choose|j2: int| 0 <= j2 < mid.len() && mid[j2].0 == k;
                assert(j2 == j);
                assert(kv_value(mid, k) == mid[j].1);
                assert(kv_value(v@, k) == v@[j].1);
            }
        }
        assert(kv_map(v@) =~= kv_map(mid).insert(key, value));
        assert(kv_map(mid).insert(key, value) =~= kv_map(old(v)@).insert(key, value));
        let f = |p: (K, V)| p.0;
        assert forall|k: K|
            v@.map_values(f).to_set().contains(k) == old(v)@.map_values(f).to_set().insert(
                key,
            ).contains(k) by {
            lemma_keys_seq_contains(v@, k);
            lemma_keys_seq_contains(mid, k);
            lemma_keys_seq_contains(old(v)@, k);
            assert(kv_contains(v@, k) == (kv_contains(mid, k) || k == key));
            assert(mid.map_values(f).to_set().contains(k) == old(v)@.map_values(f).to_set().remove(
                key,
            ).contains(k));
            assert(v@.map_values(f).contains(k) == kv_contains(v@, k));
            assert(mid.map_values(f).contains(k) == kv_contains(mid, k));
            assert(old(v)@.map_values(f).contains(k) == kv_contains(old(v)@, k));
        }
        assert(v@.map_values(f).to_set() =~= old(v)@.map_values(f).to_set().insert(key));
    }
}

/// Unbinds `key` if it is bound.
fn kv_remove<K: Copy + PartialEq, V: Copy>(v: &mut Vec<(K, V)>, key: K)
    requires
        obeys_concrete_eq::<K>(),
        keys_unique(old(v)@),
    ensures
        keys_unique(final(v)@),
        !kv_contains(final(v)@, key),
        kv_map(final(v)@) == kv_map(old(v)@).remove(key),
        final(v)@.map_values(|p: (K, V)| p.0).to_set() == old(v)@.map_values(
            |p: (K, V)| p.0,
        ).to_set().remove(key),
{
    proof {
        reveal(obeys_concrete_eq);
    }
    let ghost orig = v@;
    let mut i: usize = 0;
    while i < v.len()
        invariant
            obeys_concrete_eq::<K>(),
            v@ == orig,
            orig == old(v)@,
            keys_unique(orig),
            i <= v@.len(),
            forall|j: int| 0 <= j < i ==> v@[j].0 != key,
        decreases v@.len() - i,
    {
        proof {
            reveal(obeys_concrete_eq);
        }
        let pair = v[i];
        if pair.0 == key {
            v.swap_remove(i);
            proof {
                lemma_kv_swap_remove(orig, i as int);
                assert(orig[i as int].0 == key);
            }
            return ;
        }
        i = i + 1;
    }
    proof {
        assert(!kv_contains(orig, key));
        assert(kv_map(v@) =~= kv_map(orig).remove(key));
        assert(v@.map_values(|p: (K, V)| p.0).to_set() =~= orig.map_values(
            |p: (K, V)| p.0,
        ).to_set().remove(key));
    }
}

/// After removing the only entry with the key at `i` from an association
/// list with unique keys by a swap with the last entry, the represented map
/// loses exactly that key.
proof fn lemma_kv_swap_remove<K, V>(s: Seq<(K, V)>, i: int)
    requires
        keys_unique(s),
        0 <= i < s.len(),
    ensures
        keys_unique(s.update(i, s.last()).drop_last()),
        !kv_contains(s.update(i, s.last()).drop_last(), s[i].0),
        kv_map(s.update(i, s.last()).drop_last()) == kv_map(s).remove(s[i].0),
        s.update(i, s.last()).drop_last().map_values(|p: (K, V)| p.0).to_set() == s.map_values(
            |p: (K, V)| p.0,
        ).to_set().remove(s[i].0),
{
    let key = s[i].0;
    let t = s.update(i, s.last()).drop_last();
    assert forall|p: int, q: int| 0 <= p < q < t.len() implies t[p].0 != t[q].0 by {
        if p == i {
            assert(t[p] == s[s.len() - 1]);
            assert(t[q] == s[q]);
        } else if q == i {
            assert(t[q] == s[s.len() - 1]);
            assert(t[p] == s[p]);
        } else {
            assert(t[p] == s[p] && t[q] == s[q]);
        }
    }
    assert forall|k: K| kv_contains(t, k) == (kv_contains(s, k) && k != key) by {
        if kv_contains(t, k) {
            let j = choose|j: int| 0 <= j < t.len() && t[j].0 == k;
            if j == i {
                assert(s[s.len() - 1].0 == k);
            } else {
                assert(s[j].0 == k);
            }
            assert(k != key);
        }
        if kv_contains(s, k) && k != key {
            let j = choose|j: int| 0 <= j < s.len() && s[j].0 == k;
            if j == s.len() - 1 {
                assert(i < s.len() - 1);
                assert(t[i].0 == k);
            } else {
                assert(j != i);
                assert(t[j].0 == k);
            }
        }
    }
    assert forall|k: K| #[trigger] kv_contains(t, k) implies kv_value(t, k) == kv_value(s, k) by {
        let j = choose|j: int| 0 <= j < t.len() && t[j].0 == k;
        let j2 = choose|j2: int| 0 <= j2 < s.len() && s[j2].0 == k;
        if j == i {
            assert(t[j] == s[s.len() - 1]);
            assert(j2 == s.len() - 1);
        } else {
            assert(t[j] == s[j]);
            assert(j2 == j);
        }
    }
    assert(kv_map(t) =~= kv_map(s).remove(key));
    let f = |p: (K, V)| p.0;
    assert forall|k: K| t.map_values(f).contains(k) == (s.map_values(f).contains(k) && k != key)
        by {
        assert(t.map_values(f).contains(k) == kv_contains(t, k)) by {
            lemma_keys_seq_contains(t, k);
        }
        assert(s.map_values(f).contains(k) == kv_contains(s, k)) by {
            lemma_keys_seq_contains(s, k);
        }
    }
    assert(t.map_values(f).to_set() =~= s.map_values(f).to_set().remove(key));
}

/// A key occurs in the key sequence of an association list exactly when it
/// is bound in it.
proof fn lemma_keys_seq_contains<K, V>(s: Seq<(K, V)>, k: K)
    ensures
        s.map_values(|p: (K, V)| p.0).contains(k) == kv_contains(s, k),
{
    let f = |p: (K, V)| p.0;
    if s.map_values(f).contains(k) {
        let j = choose|j: int| 0 <= j < s.map_values(f).len() && s.map_values(f)[j] == k;
        assert(s[j].0 == k);
    }
    if kv_contains(s, k) {
        let j = choose|j: int| 0 <= j < s.len() && s[j].0 == k;
        assert(s.map_values(f)[j] == k);
    }
}

/// Finds the deadzone entry for `pad`, registering the pad with the default
/// deadzone first when it is unknown.
fn pad_entry(v: &mut Vec<(u64, DeadZone)>, pad: u64) -> (dz: DeadZone)
    requires
        keys_unique(old(v)@),
    ensures
        keys_unique(final(v)@),
        kv_map(final(v)@) == pad_registered(kv_map(old(v)@), pad),
        dz == kv_map(final(v)@)[pad],
{
    match kv_get(v, pad) {
        Some(dz) => {
            proof {
                assert(kv_map(v@) =~= pad_registered(kv_map(v@), pad));
            }
            dz
        },
        None => {
            let dz = DeadZone::default();
            kv_insert(v, pad, dz);
            dz
        },
    }
}

} // verus!
