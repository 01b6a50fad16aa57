//! Ownership of pointer and keyboard input between host and embedded views.
use crate::geometry::Point;
use crate::ids::contains_id;
use crate::input::DispatchEventResult;
use crate::scalar::{Scalar, LARGEST_BITS};
use std::collections::HashSet;
use vstd::prelude::*;

verus! {

broadcast use vstd::std_specs::hash::group_hash_axioms;

/// Input ownership reported by the most recent input pass.
///
/// The host publishes input to every reader, so ownership is reported as claims
/// and run conditions. Pointer ownership may persist across frames until a later
/// pointer event or window teardown clears it.
#[derive(Debug)]
pub struct GpuiInputState {
    /// The latest routed pointer state contains a hit or capture claim.
    pub wants_pointer_input: bool,
    /// The embedded application wants keyboard input for its focused element.
    pub wants_keyboard_input: bool,
    /// At least one dispatch of the latest pass prevented the default action.
    pub default_prevented: bool,
    pointer_claims: HashSet<u64>,
}

/// Input ownership as plain values.
#[verifier::ext_equal]
pub struct InputView {
    pub wants_pointer_input: bool,
    pub wants_keyboard_input: bool,
    pub default_prevented: bool,
    /// Windows whose pointer the embedded application owns.
    pub claims: Set<u64>,
}

impl View for GpuiInputState {
    type V = InputView;

    closed spec fn view(&self) -> InputView {
        InputView {
            wants_pointer_input: self.wants_pointer_input,
            wants_keyboard_input: self.wants_keyboard_input,
            default_prevented: self.default_prevented,
            claims: self.pointer_claims@,
        }
    }
}

impl Clone for GpuiInputState {
    /// The same ownership.
    fn clone(&self) -> (r: Self)
        ensures
            r@ == self@,
    {
        let mut pointer_claims: HashSet<u64> = HashSet::new();
        let ghost claims = vstd::std_specs::iter::IteratorSpec::remaining(
            &vstd::std_specs::hash::spec_hash_keys_iter(&self.pointer_claims),
        ).unref();
        for window in it: self.pointer_claims.iter()
            invariant
                it.seq().unref() == claims,
                pointer_claims@ == claims.take(it.index()).to_set(),
        {
            proof {
                assert(claims.take(it.index() + 1) =~= claims.take(it.index()).push(*window));
                claims.take(it.index()).lemma_push_to_set_commute(*window);
            }
            pointer_claims.insert(*window);
        }
        proof {
            assert(claims.take(claims.len() as int) =~= claims);
            assert(pointer_claims@ =~= self.pointer_claims@);
        }
        GpuiInputState {
            wants_pointer_input: self.wants_pointer_input,
            wants_keyboard_input: self.wants_keyboard_input,
            default_prevented: self.default_prevented,
            pointer_claims,
        }
    }
}

impl InputView {
    /// Nothing claimed.
    pub open spec fn idle() -> InputView {
        InputView {
            wants_pointer_input: false,
            wants_keyboard_input: false,
            default_prevented: false,
            claims: Set::empty(),
        }
    }

    /// Whether a dispatch result claims the pointer.
    pub open spec fn claims_pointer(result: DispatchEventResult) -> bool {
        result.pointer_hit || !result.propagate || result.default_prevented
    }

    /// Ownership after a pointer event was answered.
    pub open spec fn after_pointer(self, window: u64, result: DispatchEventResult) -> InputView {
        InputView {
            default_prevented: self.default_prevented || result.default_prevented,
            claims: if InputView::claims_pointer(result) {
                self.claims.insert(window)
            } else {
                self.claims
            },
            ..self
        }
    }

    /// Ownership after an event was answered that belongs to no window.
    pub open spec fn after_dispatch(self, result: DispatchEventResult) -> InputView {
        InputView {
            default_prevented: self.default_prevented || result.default_prevented,
            ..self
        }
    }

    /// Ownership after a keyboard event was answered.
    pub open spec fn after_keyboard(self, result: DispatchEventResult) -> InputView {
        InputView {
            default_prevented: self.default_prevented || result.default_prevented,
            wants_keyboard_input: self.wants_keyboard_input || !result.propagate
                || result.default_prevented,
            ..self
        }
    }

    /// Ownership after a text edit reached a text field or not.
    pub open spec fn after_text(self, handled: bool) -> InputView {
        InputView { wants_keyboard_input: self.wants_keyboard_input || handled, ..self }
    }

    /// Ownership at the start of an input pass: claims persist while the embedded
    /// application runs.
    pub open spec fn begun(self, running: bool) -> InputView {
        if running {
            InputView { wants_keyboard_input: false, default_prevented: false, ..self }
        } else {
            InputView::idle()
        }
    }

    /// Ownership at the end of an input pass: windows that show nothing of the
    /// application lose their claim.
    pub open spec fn finished(self, accepts_text: bool, shown: Set<u64>) -> InputView {
        InputView {
            wants_pointer_input: self.claims.intersect(shown) != Set::<u64>::empty(),
            wants_keyboard_input: self.wants_keyboard_input || accepts_text,
            default_prevented: self.default_prevented,
            claims: self.claims.intersect(shown),
        }
    }

    /// Ownership after a window's claim was dropped.
    pub open spec fn released(self, window: u64) -> InputView {
        InputView { claims: self.claims.remove(window), ..self }
    }
}

impl Default for GpuiInputState {
    /// Nothing claimed.
    fn default() -> (r: Self)
        ensures
            r@ == InputView::idle(),
    {
        GpuiInputState {
            wants_pointer_input: false,
            wants_keyboard_input: false,
            default_prevented: false,
            pointer_claims: HashSet::new(),
        }
    }
}

impl GpuiInputState {
    /// Whether the embedded application owns the pointer of a window.
    pub fn claims_window(&self, window: u64) -> (r: bool)
        ensures
            r == self@.claims.contains(window),
    {
        self.pointer_claims.contains(&window)
    }

    /// Starts an input pass. Without a running application nothing is claimed.
    pub fn begin_pass(&mut self, running: bool)
        ensures
            final(self)@ == old(self)@.begun(running),
    {
        self.wants_keyboard_input = false;
        self.default_prevented = false;
        if !running {
            self.pointer_claims.clear();
            self.wants_pointer_input = false;
        }
    }

    /// Ends an input pass, where `accepts_text` tells whether some shown root has
    /// a text field and `shown` lists the windows that show a root.
    pub fn finish_pass(&mut self, accepts_text: bool, shown: &Vec<u64>)
        ensures
            final(self)@ == old(self)@.finished(accepts_text, shown@.to_set()),
    {
        self.wants_keyboard_input = self.wants_keyboard_input || accepts_text;
        let mut claims: HashSet<u64> = HashSet::new();
        let mut any: bool = false;
        let mut index: usize = 0;
        let ghost before = self.pointer_claims@;
        proof {
            assert(shown@.take(0).to_set() =~= Set::<u64>::empty());
            assert(claims@ =~= before.intersect(shown@.take(0).to_set()));
        }
        while index < shown.len()
            invariant
                index <= shown@.len(),
                before == self.pointer_claims@,
                claims@ == before.intersect(shown@.take(index as int).to_set()),
                any <==> claims@ != Set::<u64>::empty(),
            decreases shown@.len() - index,
        {
            let window: u64 = shown[index];
            proof {
                let done = shown@.take(index as int);
                let next = shown@.take(index + 1);
                assert(next =~= done.push(window));
                assert forall|w: u64| next.to_set().contains(w) <==> done.to_set().insert(
                    window,
                ).contains(w) by {
                    if done.contains(w) {
                        let i = choose|i: int| 0 <= i < done.len() && done[i] == w;
                        assert(next[i] == w);
                    }
                    assert(next[index as int] == window);
                    if next.contains(w) {
                        let i = choose|i: int| 0 <= i < next.len() && next[i] == w;
                        if i < index {
                            assert(done[i] == w);
                        }
                    }
                }
                assert(next.to_set() =~= done.to_set().insert(window));
                assert(before.intersect(next.to_set()) =~= (if before.contains(window) {
                    claims@.insert(window)
                } else {
                    claims@
                }));
            }
            if self.pointer_claims.contains(&window) {
                claims.insert(window);
                any = true;
                assert(claims@.contains(window));
            }
            index = index + 1;
        }
        proof {
            assert(shown@.take(shown@.len() as int) =~= shown@);
        }
        self.pointer_claims = claims;
        self.wants_pointer_input = any;
    }

    /// Drops the claim on a window's pointer.
    pub fn release_pointer(&mut self, window: u64)
        ensures
            final(self)@ == old(self)@.released(window),
    {
        self.pointer_claims.remove(&window);
    }
}

/// Records the answer to a pointer event: a hit, a stopped event or a prevented
/// default claims the window's pointer.
pub fn record_pointer_dispatch(
    window: u64,
    result: DispatchEventResult,
    state: &mut GpuiInputState,
)
    ensures
        final(state)@ == old(state)@.after_pointer(window, result),
{
    state.default_prevented = state.default_prevented || result.default_prevented;
    if result.pointer_hit || !result.propagate || result.default_prevented {
        state.pointer_claims.insert(window);
    }
}

/// Records the answer to an event that belongs to no window: it claims nothing, and a
/// prevented default counts all the same.
pub fn record_dispatch(result: DispatchEventResult, state: &mut GpuiInputState)
    ensures
        final(state)@ == old(state)@.after_dispatch(result),
{
    state.default_prevented = state.default_prevented || result.default_prevented;
}

/// Records the answer to a keyboard event: a stopped event or a prevented default
/// claims the keyboard.
pub fn record_keyboard_dispatch(result: DispatchEventResult, state: &mut GpuiInputState)
    ensures
        final(state)@ == old(state)@.after_keyboard(result),
{
    state.default_prevented = state.default_prevented || result.default_prevented;
    state.wants_keyboard_input = state.wants_keyboard_input || !result.propagate
        || result.default_prevented;
}

/// Records whether a text edit reached a text field.
pub fn record_text_input(handled: bool, state: &mut GpuiInputState)
    ensures
        final(state)@ == old(state)@.after_text(handled),
{
    state.wants_keyboard_input = state.wants_keyboard_input || handled;
}

/// Whether some of the roots have a text field, where `accepting` are those that do.
pub fn any_accepts(ids: &Vec<u64>, accepting: &Vec<u64>) -> (r: bool)
    ensures
        r == (exists|i: int| 0 <= i < ids@.len() && accepting@.contains(#[trigger] ids@[i])),
{
    let mut index: usize = 0;
    while index < ids.len()
        invariant
            index <= ids@.len(),
            forall|i: int| 0 <= i < index ==> !accepting@.contains(#[trigger] ids@[i]),
        decreases ids@.len() - index,
    {
        if contains_id(accepting, ids[index]) {
            assert(accepting@.contains(ids@[index as int]));
            return true;
        }
        index = index + 1;
    }
    false
}

/// Run condition for pointer-driven gameplay systems.
#[must_use]
pub fn gpui_wants_pointer_input(state: Option<&GpuiInputState>) -> (r: bool)
    ensures
        r == (state matches Some(s) && s@.wants_pointer_input),
{
    match state {
        Some(state) => state.wants_pointer_input,
        None => false,
    }
}

/// Run condition for keyboard-driven gameplay systems.
#[must_use]
pub fn gpui_wants_keyboard_input(state: Option<&GpuiInputState>) -> (r: bool)
    ensures
        r == (state matches Some(s) && s@.wants_keyboard_input),
{
    match state {
        Some(state) => state.wants_keyboard_input,
        None => false,
    }
}

/// What a pointer is over.
#[derive(Clone, Copy, Debug, PartialEq, Eq, Structural)]
pub enum LocationTarget {
    /// A host window.
    Window(u64),
    /// An off-screen target.
    Offscreen,
}

/// Where a pointer is.
#[derive(Clone, Copy, Debug, PartialEq, Eq, Structural)]
pub struct Location {
    /// What it is over.
    pub target: LocationTarget,
    /// Its position on that target.
    pub position: Point,
}

/// One entity hit by a pointer.
#[derive(Clone, Copy, Debug, PartialEq, Eq, Structural)]
pub struct HitData {
    /// The camera through which the hit was found.
    pub camera: u64,
    /// Distance from that camera.
    pub depth: Scalar,
    /// Position of the hit on the plane at depth zero.
    pub position: Point,
}

/// The entities hit by a pointer, with the rank of the layer they belong to.
pub struct PointerHits<P> {
    /// The pointer.
    pub pointer: P,
    /// Entities hit, in no particular order.
    pub picks: Vec<(u64, HitData)>,
    /// Rank of the layer: higher ranks are in front.
    pub order: Scalar,
}

/// Whether a pointer at a location belongs to the embedded application.
pub open spec fn location_claimed(location: Location, claims: Set<u64>) -> bool {
    match location.target {
        LocationTarget::Window(window) => claims.contains(window),
        LocationTarget::Offscreen => false,
    }
}

/// Whether hits are those of a blocker in front of everything else at a location.
pub open spec fn is_blocker_hit<P>(
    hits: PointerHits<P>,
    pointer: P,
    location: Location,
    blocker: u64,
) -> bool {
    &&& hits.pointer == pointer
    &&& hits.picks@ == seq![
        (
            blocker,
            HitData { camera: blocker, depth: Scalar { bits: 0 }, position: location.position },
        ),
    ]
    &&& hits.order == (Scalar { bits: LARGEST_BITS })
}

/// The hit that blocks lower entities for a pointer over a claimed window.
pub fn gpui_picking_hit<P>(
    pointer: P,
    location: &Location,
    blocker: u64,
    input: &GpuiInputState,
) -> (r: Option<PointerHits<P>>)
    ensures
        r is Some <==> location_claimed(*location, input@.claims),
        r matches Some(hits) ==> is_blocker_hit(hits, pointer, *location, blocker),
{
    match location.target {
        LocationTarget::Window(window) => {
            if input.pointer_claims.contains(&window) {
                let mut picks: Vec<(u64, HitData)> = Vec::new();
                picks.push(
                    (
                        blocker,
                        HitData {
                            camera: blocker,
                            depth: Scalar::zero(),
                            position: location.position,
                        },
                    ),
                );
                Some(PointerHits { pointer, picks, order: Scalar { bits: LARGEST_BITS } })
            } else {
                None
            }
        },
        LocationTarget::Offscreen => None,
    }
}

/// The pointers that are over a claimed window, each with its location, in order.
pub open spec fn claimed_pointers<P>(
    pointers: Seq<(P, Option<Location>)>,
    claims: Set<u64>,
) -> Seq<(P, Location)>
    decreases pointers.len(),
{
    if pointers.len() == 0 {
        Seq::empty()
    } else {
        let rest = claimed_pointers(pointers.drop_last(), claims);
        match pointers.last() {
            (pointer, Some(location)) => if location_claimed(location, claims) {
                rest.push((pointer, location))
            } else {
                rest
            },
            (_, None) => rest,
        }
    }
}

/// The blocker hits for all pointers, in the order of the pointers.
pub fn gpui_picking_backend<P: Copy>(
    blocker: u64,
    input: &GpuiInputState,
    pointers: &Vec<(P, Option<Location>)>,
) -> (r: Vec<PointerHits<P>>)
    ensures
        r@.len() == claimed_pointers(pointers@, input@.claims).len(),
        forall|i: int|
            0 <= i < r@.len() ==> {
                let (pointer, location) = claimed_pointers(pointers@, input@.claims)[i];
                is_blocker_hit(#[trigger] r@[i], pointer, location, blocker)
            },
{
    let mut hits: Vec<PointerHits<P>> = Vec::new();
    let mut index: usize = 0;
    proof {
        assert(pointers@.take(0) =~= Seq::empty());
    }
    while index < pointers.len()
        invariant
            index <= pointers@.len(),
            hits@.len() == claimed_pointers(pointers@.take(index as int), input@.claims).len(),
            forall|i: int|
                0 <= i < hits@.len() ==> {
                    let (pointer, location) = claimed_pointers(
                        pointers@.take(index as int),
                        input@.claims,
                    )[i];
                    is_blocker_hit(#[trigger] hits@[i], pointer, location, blocker)
                },
        decreases pointers@.len() - index,
    {
        proof {
            let next = pointers@.take(index + 1);
            assert(next.drop_last() =~= pointers@.take(index as int));
            assert(next.last() == pointers@[index as int]);
        }
        let (pointer, location) = pointers[index];
        if let Some(location) = location {
            if let Some(hit) = gpui_picking_hit(pointer, &location, blocker, input) {
                hits.push(hit);
            }
        }
        index = index + 1;
    }
    proof {
        assert(pointers@.take(pointers@.len() as int) =~= pointers@);
    }
    hits
}

/// A pointer is blocked for lower entities exactly when it is over a window whose
/// pointer the embedded application owns, and each pointer is blocked at most
/// once.
pub proof fn law_only_claimed_pointers_are_blocked<P>(
    pointers: Seq<(P, Option<Location>)>,
    claims: Set<u64>,
)
    ensures
        claimed_pointers(pointers, claims).len() <= pointers.len(),
        forall|pointer: P, location: Location|
            claimed_pointers(pointers, claims).contains((pointer, location)) <==> pointers.contains(
                (pointer, Some(location)),
            ) && location_claimed(location, claims),
    decreases pointers.len(),
{
    if pointers.len() > 0 {
        let rest = pointers.drop_last();
        law_only_claimed_pointers_are_blocked(rest, claims);
        assert(pointers =~= rest.push(pointers.last()));
        let before = claimed_pointers(rest, claims);
        let after = claimed_pointers(pointers, claims);
        assert forall|pointer: P, location: Location|
            after.contains((pointer, location)) <==> pointers.contains((pointer, Some(location)))
                && location_claimed(location, claims) by {
            let item = (pointer, location);
            let given = (pointer, Some(location));
            if pointers.contains(given) {
                let i = choose|i: int| 0 <= i < pointers.len() && pointers[i] == given;
                if i < rest.len() {
                    assert(rest[i] == given);
                    assert(rest.contains(given));
                }
            }
            if rest.contains(given) {
                let i = choose|i: int| 0 <= i < rest.len() && rest[i] == given;
                assert(pointers[i] == given);
            }
            if before.contains(item) {
                let i = choose|i: int| 0 <= i < before.len() && before[i] == item;
                assert(after[i] == item);
            }
            if after.contains(item) {
                let i = choose|i: int| 0 <= i < after.len() && after[i] == item;
                if i < before.len() {
                    assert(before[i] == item);
                } else {
                    assert(pointers[rest.len() as int] == given);
                }
            }
            if pointers.last() == given && location_claimed(location, claims) {
                assert(after[before.len() as int] == item);
            }
        }
    }
}

/// After a pass pointer input is wanted exactly where some window is claimed, and
/// only windows that show the application are claimed.
pub proof fn law_finished_pass_is_consistent(state: InputView, accepts_text: bool, shown: Set<u64>)
    ensures
        state.finished(accepts_text, shown).wants_pointer_input <==> state.finished(
            accepts_text,
            shown,
        ).claims != Set::<u64>::empty(),
        state.finished(accepts_text, shown).claims.subset_of(shown),
        accepts_text ==> state.finished(accepts_text, shown).wants_keyboard_input,
{
}

/// A pass without input keeps the claims of all windows that are still shown and
/// wants the keyboard only for a text field.
pub proof fn law_claims_persist_without_input(state: InputView, accepts_text: bool, shown: Set<u64>)
    ensures
        state.begun(true).finished(accepts_text, shown).claims == state.claims.intersect(shown),
        state.begun(true).finished(accepts_text, shown).wants_keyboard_input == accepts_text,
        !state.begun(true).finished(accepts_text, shown).default_prevented,
{
}

/// Without a running application nothing is claimed.
pub proof fn law_nothing_claimed_without_runtime(state: InputView)
    ensures
        state.begun(false) == InputView::idle(),
{
}

/// The answers to a run of pointer events for one window.
pub open spec fn after_pointers(
    state: InputView,
    window: u64,
    results: Seq<DispatchEventResult>,
) -> InputView
    decreases results.len(),
{
    if results.len() == 0 {
        state
    } else {
        after_pointers(state, window, results.drop_last()).after_pointer(window, results.last())
    }
}

/// After a run of pointer events a window that was not claimed before is claimed
/// exactly when one of the answers claimed it; no other window's claim changes;
/// and a prevented default is remembered.
pub proof fn law_pointer_claim_iff_some_answer_claims(
    state: InputView,
    window: u64,
    results: Seq<DispatchEventResult>,
)
    ensures
        after_pointers(state, window, results).claims.contains(window) <==> state.claims.contains(
            window,
        ) || exists|i: int| 0 <= i < results.len() && InputView::claims_pointer(#[trigger] results[i]),
        after_pointers(state, window, results).claims.remove(window) == state.claims.remove(window),
        after_pointers(state, window, results).default_prevented <==> state.default_prevented
            || exists|i: int| 0 <= i < results.len() && (#[trigger] results[i]).default_prevented,
        after_pointers(state, window, results).wants_keyboard_input == state.wants_keyboard_input,
    decreases results.len(),
{
    if results.len() > 0 {
        let rest = results.drop_last();
        law_pointer_claim_iff_some_answer_claims(state, window, rest);
        let last = results.last();
        assert(results[results.len() - 1] == last);
        assert(forall|i: int| 0 <= i < rest.len() ==> #[trigger] results[i] == rest[i]);
        let before = after_pointers(state, window, rest);
        let after = after_pointers(state, window, results);
        assert(after.claims.remove(window) =~= before.claims.remove(window));
        if exists|i: int| 0 <= i < rest.len() && InputView::claims_pointer(#[trigger] rest[i]) {
            let i = choose|i: int|
                0 <= i < rest.len() && InputView::claims_pointer(#[trigger] rest[i]);
            assert(InputView::claims_pointer(results[i]));
        }
        if exists|i: int| 0 <= i < rest.len() && (#[trigger] rest[i]).default_prevented {
            let i = choose|i: int| 0 <= i < rest.len() && (#[trigger] rest[i]).default_prevented;
            assert(results[i].default_prevented);
        }
    }
}

/// A window's pointer is claimed by an answer that hit something, stopped the event or
/// prevented the default, and by no other answer; a claim stays until it is released.
/// Other windows and the keyboard are left alone.
pub proof fn law_hit_stop_or_prevention_claims_pointer(
    state: InputView,
    window: u64,
    other: u64,
    result: DispatchEventResult,
)
    ensures
        state.after_pointer(window, result).claims.contains(window) <==> state.claims.contains(
            window,
        ) || result.pointer_hit || !result.propagate || result.default_prevented,
        other != window ==> (state.after_pointer(window, result).claims.contains(other)
            <==> state.claims.contains(other)),
        state.after_pointer(window, result).default_prevented <==> state.default_prevented
            || result.default_prevented,
        state.after_pointer(window, result).wants_keyboard_input == state.wants_keyboard_input,
        state.after_dispatch(result).claims == state.claims,
        state.after_dispatch(result).default_prevented <==> state.default_prevented
            || result.default_prevented,
{
}

/// The keyboard is claimed by an answer that stopped the key or prevented the default
/// and by text that reached a text field; a pointer that hit something does not matter.
/// No pointer changes hands.
pub proof fn law_stop_prevention_or_text_claims_keyboard(
    state: InputView,
    result: DispatchEventResult,
    handled: bool,
)
    ensures
        state.after_keyboard(result).wants_keyboard_input <==> state.wants_keyboard_input
            || !result.propagate || result.default_prevented,
        state.after_keyboard(result).default_prevented <==> state.default_prevented
            || result.default_prevented,
        state.after_keyboard(result).claims == state.claims,
        state.after_text(handled).wants_keyboard_input <==> state.wants_keyboard_input || handled,
        state.after_text(handled).claims == state.claims,
        state.after_text(handled).default_prevented == state.default_prevented,
{
}

/// Releasing a window's pointer takes the claim of that window and nothing else.
pub proof fn law_release_takes_one_claim(state: InputView, window: u64, other: u64)
    ensures
        state.released(window).claims.contains(other) <==> other != window
            && state.claims.contains(other),
        state.released(window).wants_keyboard_input == state.wants_keyboard_input,
        state.released(window).default_prevented == state.default_prevented,
        state.released(window).wants_pointer_input == state.wants_pointer_input,
{
}

/// A pass starts with neither keyboard nor prevented default, and keeps exactly the
/// pointers claimed before while the application runs; it ends with the claims of the
/// windows that show the application, and wants the keyboard where an answer or a text
/// field does.
pub proof fn law_passes_start_and_end_clean(
    state: InputView,
    running: bool,
    accepts_text: bool,
    shown: Set<u64>,
    window: u64,
)
    ensures
        !state.begun(running).wants_keyboard_input,
        !state.begun(running).default_prevented,
        state.begun(running).claims.contains(window) <==> running && state.claims.contains(window),
        !running ==> !state.begun(running).wants_pointer_input,
        state.finished(accepts_text, shown).claims.contains(window) <==> state.claims.contains(
            window,
        ) && shown.contains(window),
        state.finished(accepts_text, shown).claims.contains(window) ==> state.finished(
            accepts_text,
            shown,
        ).wants_pointer_input,
        state.finished(accepts_text, shown).wants_keyboard_input <==> state.wants_keyboard_input
            || accepts_text,
        state.finished(accepts_text, shown).default_prevented == state.default_prevented,
{
    if state.finished(accepts_text, shown).claims.contains(window) {
        assert(state.claims.intersect(shown).contains(window));
        assert(state.claims.intersect(shown) != Set::<u64>::empty());
    }
}

/// A pointer belongs to the application exactly where it is over a window that the
/// application claims; one over anything else never does.
pub proof fn law_pointer_belongs_over_claimed_window(
    window: u64,
    position: Point,
    claims: Set<u64>,
)
    ensures
        location_claimed(Location { target: LocationTarget::Window(window), position }, claims)
            <==> claims.contains(window),
        !location_claimed(Location { target: LocationTarget::Offscreen, position }, claims),
{
}

/// The blocker is the one thing hit, where the pointer is, at depth zero, and no layer
/// with a finite rank lies in front of it.
pub proof fn law_blocker_is_in_front_of_everything<P>(
    hits: PointerHits<P>,
    pointer: P,
    location: Location,
    blocker: u64,
    order: Scalar,
)
    requires
        is_blocker_hit(hits, pointer, location, blocker),
        order.magnitude() < crate::scalar::INFINITY_BITS,
    ensures
        hits.pointer == pointer,
        hits.picks@.len() == 1,
        hits.picks@[0].0 == blocker,
        hits.picks@[0].1.camera == blocker,
        hits.picks@[0].1.depth.units() == 0,
        !hits.picks@[0].1.depth.is_nan_spec(),
        hits.picks@[0].1.position == location.position,
        !hits.order.is_nan_spec(),
        order.units() <= hits.order.units(),
{
    crate::scalar::law_largest(order);
}

/// A run condition holds exactly where there is a state that wants the input it asks
/// for: the pointer's does not look at the keyboard, nor the keyboard's at the pointer.
pub proof fn law_run_conditions_ask_for_their_input(
    state: GpuiInputState,
    pointer: bool,
    keyboard: bool,
    nobody: bool,
)
    requires
        call_ensures(gpui_wants_pointer_input, (Some(&state),), pointer),
        call_ensures(gpui_wants_keyboard_input, (Some(&state),), keyboard),
        call_ensures(gpui_wants_pointer_input, (None,), nobody) || call_ensures(
            gpui_wants_keyboard_input,
            (None,),
            nobody,
        ),
    ensures
        pointer == state@.wants_pointer_input,
        keyboard == state@.wants_keyboard_input,
        !nobody,
{
}

} // verus!
