//! Edge-triggered input-state aggregation.
//!
//! An [`Input`] turns a stream of press/release edges over an arbitrary
//! copyable input-code type into three queryable sets: the codes currently
//! held down, the codes pressed since the last clear, and the codes released
//! since the last clear. Clearing is the owner's per-frame duty (or happens
//! automatically in the device adapters that opt in).

use vstd::prelude::*;
use vstd::laws_eq::obeys_concrete_eq;

use crate::event::ElementState;

verus! {

broadcast use vstd::laws_eq::group_laws_eq;

/// Three disjoint-purpose sets over the input-code type `T`, stored as
/// duplicate-free vectors.
#[derive(Debug, Clone)]
pub struct Input<T> {
    pressed: Vec<T>,
    just_pressed: Vec<T>,
    just_released: Vec<T>,
}

impl<T> Input<T> {
    /// Codes currently held down: the most recent edge for each was a press.
    pub closed spec fn pressed_set(&self) -> Set<T> {
        self.pressed@.to_set()
    }

    /// Codes whose press edge arrived in the current observation window.
    pub closed spec fn just_pressed_set(&self) -> Set<T> {
        self.just_pressed@.to_set()
    }

    /// Codes whose release edge arrived in the current observation window.
    pub closed spec fn just_released_set(&self) -> Set<T> {
        self.just_released@.to_set()
    }

    /// The representation holds each code at most once per set.
    pub closed spec fn wf(&self) -> bool {
        &&& self.pressed@.no_duplicates()
        &&& self.just_pressed@.no_duplicates()
        &&& self.just_released@.no_duplicates()
    }
}

/// Membership test against a duplicate-free vector used as a set.
fn vec_set_contains<T: Copy + PartialEq>(v: &Vec<T>, code: T) -> (r: bool)
    requires
        obeys_concrete_eq::<T>(),
    ensures
        r == v@.to_set().contains(code),
{
    proof {
        reveal(obeys_concrete_eq);
    }
    let mut i: usize = 0;
    while i < v.len()
        invariant
            obeys_concrete_eq::<T>(),
            i <= v@.len(),
            forall|j: int| 0 <= j < i ==> v@[j] != code,
        decreases v@.len() - i,
    {
        proof {
            reveal(obeys_concrete_eq);
        }
        if v[i] == code {
            return true;
        }
        i = i + 1;
    }
    false
}

/// Inserts `code` unless it is already present, keeping the vector
/// duplicate-free.
fn vec_set_insert<T: Copy + PartialEq>(v: &mut Vec<T>, code: T)
    requires
        obeys_concrete_eq::<T>(),
        old(v)@.no_duplicates(),
    ensures
        final(v)@.no_duplicates(),
        final(v)@.to_set() == old(v)@.to_set().insert(code),
{
    if !vec_set_contains(v, code) {
        let ghost orig = v@;
        v.push(code);
        assert forall|x: T| #[trigger] v@.contains(x) == (orig.contains(x) || x == code) by {
            if orig.contains(x) {
                let j = choose|j: int| 0 <= j < orig.len() && orig[j] == x;
                assert(v@[j] == x);
            }
            if x == code {
                assert(v@[v@.len() - 1] == x);
            }
            if v@.contains(x) {
                let j = choose|j: int| 0 <= j < v@.len() && v@[j] == x;
                if j < orig.len() {
                    assert(orig[j] == x);
                }
            }
        }
        assert(v@.to_set() =~= orig.to_set().insert(code));
        assert forall|p: int, q: int| 0 <= p < q < v@.len() implies v@[p] != v@[q] by {
            if q == v@.len() - 1 {
                assert(!orig.to_set().contains(code));
                assert(orig[p] != code);
            }
        }
    } else {
        assert(v@.to_set() =~= old(v)@.to_set().insert(code));
    }
}

/// Removes `code` if present, keeping the vector duplicate-free.
fn vec_set_remove<T: Copy + PartialEq>(v: &mut Vec<T>, code: T)
    requires
        obeys_concrete_eq::<T>(),
        old(v)@.no_duplicates(),
    ensures
        final(v)@.no_duplicates(),
        final(v)@.to_set() == old(v)@.to_set().remove(code),
{
    proof {
        reveal(obeys_concrete_eq);
    }
    let ghost orig = v@;
    let mut i: usize = 0;
    while i < v.len()
        invariant
            obeys_concrete_eq::<T>(),
            v@ == orig,
            orig == old(v)@,
            orig.no_duplicates(),
            i <= v@.len(),
            forall|j: int| 0 <= j < i ==> v@[j] != code,
        decreases v@.len() - i,
    {
        proof {
            reveal(obeys_concrete_eq);
        }
        if v[i] == code {
            v.swap_remove(i);
            proof {
                lemma_swap_remove_set(orig, i as int);
                assert(orig[i as int] == code);
            }
            return;
        }
        i = i + 1;
    }
    assert(!orig.to_set().contains(code));
    assert(v@.to_set() =~= orig.to_set().remove(code));
}

/// After removing the only occurrence of the element at `i` from a
/// duplicate-free sequence by a swap with the last element, the set of
/// elements loses exactly that element.
proof fn lemma_swap_remove_set<T>(s: Seq<T>, i: int)
    requires
        s.no_duplicates(),
        0 <= i < s.len(),
    ensures
        s.update(i, s.last()).drop_last().no_duplicates(),
        s.update(i, s.last()).drop_last().to_set() == s.to_set().remove(s[i]),
{
    let t = s.update(i, s.last()).drop_last();
    assert forall|x: T| t.to_set().contains(x) implies s.to_set().remove(s[i]).contains(x) by {
        let j = choose|j: int| 0 <= j < t.len() && t[j] == x;
        if j == i {
            assert(s[s.len() - 1] == x);
        } else {
            assert(s[j] == x);
        }
    }
    assert forall|x: T| s.to_set().remove(s[i]).contains(x) implies t.to_set().contains(x) by {
        let j = choose|j: int| 0 <= j < s.len() && s[j] == x;
        if j == s.len() - 1 {
            assert(i < s.len() - 1);
            assert(t[i] == x);
        } else {
            assert(j != i);
            assert(t[j] == x);
        }
    }
    assert(t.to_set() =~= s.to_set().remove(s[i]));
    assert forall|p: int, q: int| 0 <= p < q < t.len() implies t[p] != t[q] by {
        if p == i {
            assert(t[p] == s[s.len() - 1]);
            assert(t[q] == s[q]);
        } else if q == i {
            assert(t[q] == s[s.len() - 1]);
            assert(t[p] == s[p]);
        } else {
            assert(t[p] == s[p] && t[q] == s[q]);
        }
    }
}

impl<T: Copy + Eq> Input<T> where T: PartialEq {
    /// An aggregator with no recorded edges.
    pub fn new() -> (r: Self)
        ensures
            r.wf(),
            r.pressed_set() == Set::<T>::empty(),
            r.just_pressed_set() == Set::<T>::empty(),
            r.just_released_set() == Set::<T>::empty(),
    {
        let r = Input { pressed: Vec::new(), just_pressed: Vec::new(), just_released: Vec::new() };
        assert(r.pressed_set() =~= Set::<T>::empty());
        assert(r.just_pressed_set() =~= Set::<T>::empty());
        assert(r.just_released_set() =~= Set::<T>::empty());
        r
    }

    /// Records one edge. A press inserts the code into `pressed` and
    /// `just_pressed`; a release removes it from `pressed` and inserts it
    /// into `just_released`. Pressing an already-held code is idempotent on
    /// `pressed` but still marks `just_pressed`.
    pub fn event(&mut self, state: ElementState, code: T)
        requires
            old(self).wf(),
            obeys_concrete_eq::<T>(),
        ensures
            final(self).wf(),
            state is Pressed ==> {
                &&& final(self).pressed_set() == old(self).pressed_set().insert(code)
                &&& final(self).just_pressed_set() == old(self).just_pressed_set().insert(code)
                &&& final(self).just_released_set() == old(self).just_released_set()
            },
            state is Released ==> {
                &&& final(self).pressed_set() == old(self).pressed_set().remove(code)
                &&& final(self).just_pressed_set() == old(self).just_pressed_set()
                &&& final(self).just_released_set() == old(self).just_released_set().insert(code)
            },
    {
        match state {
            ElementState::Pressed => {
                vec_set_insert(&mut self.pressed, code);
                vec_set_insert(&mut self.just_pressed, code);
            }
            ElementState::Released => {
                vec_set_remove(&mut self.pressed, code);
                vec_set_insert(&mut self.just_released, code);
            }
        }
    }

    /// Is `code` currently held down?
    pub fn pressed(&self, code: T) -> (r: bool)
        requires
            obeys_concrete_eq::<T>(),
        ensures
            r == self.pressed_set().contains(code),
    {
        vec_set_contains(&self.pressed, code)
    }

    /// Was `code` pressed in the current observation window?
    pub fn just_pressed(&self, code: T) -> (r: bool)
        requires
            obeys_concrete_eq::<T>(),
        ensures
            r == self.just_pressed_set().contains(code),
    {
        vec_set_contains(&self.just_pressed, code)
    }

    /// Was `code` released in the current observation window?
    pub fn just_released(&self, code: T) -> (r: bool)
        requires
            obeys_concrete_eq::<T>(),
        ensures
            r == self.just_released_set().contains(code),
    {
        vec_set_contains(&self.just_released, code)
    }

    /// The codes currently held down, each exactly once, in no promised
    /// order.
    pub fn get_pressed(&self) -> (r: &Vec<T>)
        requires
            self.wf(),
        ensures
            r@.no_duplicates(),
            r@.to_set() == self.pressed_set(),
    {
        &self.pressed
    }

    /// The codes pressed in the current observation window.
    pub fn get_just_pressed(&self) -> (r: &Vec<T>)
        requires
            self.wf(),
        ensures
            r@.no_duplicates(),
            r@.to_set() == self.just_pressed_set(),
    {
        &self.just_pressed
    }

    /// The codes released in the current observation window.
    pub fn get_just_released(&self) -> (r: &Vec<T>)
        requires
            self.wf(),
        ensures
            r@.no_duplicates(),
            r@.to_set() == self.just_released_set(),
    {
        &self.just_released
    }

    /// True when no state is recorded at all.
    pub fn is_empty(&self) -> (r: bool)
        ensures
            r == (self.pressed_set() == Set::<T>::empty()
                && self.just_pressed_set() == Set::<T>::empty()
                && self.just_released_set() == Set::<T>::empty()),
    {
        proof {
            lemma_to_set_empty(self.pressed@);
            lemma_to_set_empty(self.just_pressed@);
            lemma_to_set_empty(self.just_released@);
        }
        self.pressed.is_empty() && self.just_pressed.is_empty() && self.just_released.is_empty()
    }

    /// Ends the observation window: empties `just_pressed` and
    /// `just_released` and leaves `pressed` untouched.
    pub fn clear(&mut self)
        requires
            old(self).wf(),
        ensures
            final(self).wf(),
            final(self).pressed_set() == old(self).pressed_set(),
            final(self).just_pressed_set() == Set::<T>::empty(),
            final(self).just_released_set() == Set::<T>::empty(),
    {
        self.just_pressed.clear();
        self.just_released.clear();
        assert(final(self).just_pressed_set() =~= Set::<T>::empty());
        assert(final(self).just_released_set() =~= Set::<T>::empty());
    }
}

/// A sequence is empty exactly when its set of elements is.
proof fn lemma_to_set_empty<T>(s: Seq<T>)
    ensures
        (s.to_set() == Set::<T>::empty()) == (s.len() == 0),
{
    if s.len() == 0 {
        assert(s.to_set() =~= Set::<T>::empty());
    } else {
        assert(s.to_set().contains(s[0]));
    }
}

impl<T: Copy + Eq> Default for Input<T> where T: PartialEq {
    /// Same as [`Input::new`]: an aggregator with no recorded edges.
    fn default() -> (r: Self)
        ensures
            r.wf(),
            r.pressed_set() == Set::<T>::empty(),
            r.just_pressed_set() == Set::<T>::empty(),
            r.just_released_set() == Set::<T>::empty(),
    {
        Self::new()
    }
}

/// How one edge changes the set of held codes: a press inserts, a release
/// removes.
pub open spec fn pressed_step<T>(held: Set<T>, state: ElementState, code: T) -> Set<T> {
    match state {
        ElementState::Pressed => held.insert(code),
        ElementState::Released => held.remove(code),
    }
}

/// The set of held codes after a whole sequence of edges.
pub open spec fn pressed_after<T>(held: Set<T>, events: Seq<(ElementState, T)>) -> Set<T>
    decreases events.len(),
{
    if events.len() == 0 {
        held
    } else {
        pressed_step(pressed_after(held, events.drop_last()), events.last().0, events.last().1)
    }
}

/// The most recent edge recorded for `code`, if any.
pub open spec fn last_edge<T>(events: Seq<(ElementState, T)>, code: T) -> Option<ElementState>
    decreases events.len(),
{
    if events.len() == 0 {
        None
    } else if events.last().1 == code {
        Some(events.last().0)
    } else {
        last_edge(events.drop_last(), code)
    }
}

/// Edge correctness: after any sequence of edges, a code is held exactly
/// when its most recent edge was a press — or, for codes never touched,
/// when it was held at the start. Clearing does not enter into it:
/// [`Input::clear`] leaves `pressed` untouched.
pub proof fn lemma_pressed_tracks_last_edge<T>(
    held: Set<T>,
    events: Seq<(ElementState, T)>,
    code: T,
)
    ensures
        pressed_after(held, events).contains(code) == match last_edge(events, code) {
            Some(edge) => edge is Pressed,
            None => held.contains(code),
        },
    decreases events.len(),
{
    if events.len() > 0 {
        lemma_pressed_tracks_last_edge(held, events.drop_last(), code);
    }
}

/// Starting from no held codes, the held set after a sequence of edges is
/// exactly the set of codes whose most recent edge was a press.
pub proof fn lemma_pressed_is_last_edge_press<T>(events: Seq<(ElementState, T)>)
    ensures
        pressed_after(Set::<T>::empty(), events) == Set::new(
            |code: T| last_edge(events, code) == Some(ElementState::Pressed),
        ),
{
    assert forall|code: T|
        pressed_after(Set::<T>::empty(), events).contains(code) == (last_edge(events, code)
            == Some(ElementState::Pressed)) by {
        lemma_pressed_tracks_last_edge(Set::<T>::empty(), events, code);
    }
    assert(pressed_after(Set::<T>::empty(), events) =~= Set::new(
        |code: T| last_edge(events, code) == Some(ElementState::Pressed),
    ));
}

/// Repeat-press idempotence: pressing a code that is already held leaves the
/// held set unchanged, while [`Input::event`] still marks it just-pressed.
pub proof fn lemma_press_idempotent<T>(held: Set<T>, code: T)
    requires
        held.contains(code),
    ensures
        pressed_step(held, ElementState::Pressed, code) == held,
{
    assert(held.insert(code) =~= held);
}

} // verus!
