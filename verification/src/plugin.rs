//! The tick stage: what happens to one view at the start of every simulation step.

use vstd::prelude::*;
use crate::binding::BindingTypeView;
use crate::clock::InputClock;
use crate::state::Timestamp;
use crate::view::InputView;

verus! {

/// Advances one view by a tick at the clock reading `now`: every press that arrived since
/// the last tick is stamped with `now`, and from then on counts as held since `now`.
/// Nothing else changes: released receivers stay released, and stamped presses keep their
/// stamp.
pub fn tick_system<Keys>(view: &mut InputView<Keys>, now: Timestamp) where Keys: BindingTypeView
    ensures
        final(view)@ == old(view)@.ticked(now),
        old(view)@.wf() ==> final(view)@.wf(),
{
    proof {
        if old(view)@.wf() {
            crate::wellformed::lemma_ticked_wf(old(view)@, now);
        }
    }
    let mut i: usize = 0;
    while i < view.descriptors.len()
        invariant
            i <= view.descriptors.len(),
            view.descriptors.len() == old(view).descriptors.len(),
            view.last_input_source == old(view).last_input_source,
            view.bindings == old(view).bindings,
            view.capacity == old(view).capacity,
            forall|j: int| 0 <= j < i ==> view.descriptors@[j] == old(view).descriptors@[j].stamped(now),
            forall|j: int|
                i <= j < view.descriptors.len() ==> view.descriptors@[j] == old(
                    view,
                ).descriptors@[j],
        decreases view.descriptors.len() - i,
    {
        view.descriptors[i].axis.press.stamp(now);
        i += 1;
    }
    assert(view@.descriptors == old(view)@.ticked(now).descriptors);
}

/// Advances one view by a tick at the present reading of `clock`: the clock is read once,
/// and every press that arrived since the last tick is stamped with that reading.
pub fn tick<Keys>(view: &mut InputView<Keys>, clock: &mut InputClock) where Keys: BindingTypeView
    ensures
        final(view)@ == old(view)@.ticked(final(clock).last_reading()),
        final(clock).last_reading() >= old(clock).last_reading(),
        old(view)@.wf() ==> final(view)@.wf(),
{
    let now = clock.now();
    tick_system(view, now);
}

} // verus!
