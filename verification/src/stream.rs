//! The stream that a subscriber of the diagnostics gets: what each thing
//! that can happen to a subscriber does to its stream.

use vstd::prelude::*;

verus! {

/// The number of messages that the broadcast keeps for slow subscribers.
pub const STREAM_CAPACITY: usize = 1024;

/// What a subscriber's wait ended with.
pub enum Event {
    /// The next message arrived.
    Message(Vec<u8>),
    /// The subscriber fell behind and this many messages were lost to it.
    Lagged(u64),
    /// The broadcast is shut down.
    Closed,
    /// The service is shutting down.
    Shutdown,
}

/// What the stream does next.
pub enum Step {
    /// Hand these bytes to the subscriber and wait again.
    Emit(Vec<u8>),
    /// Wait again.
    Skip,
    /// End the stream.
    End,
}

/// What the stream does on `event`: a message is handed on, a gap is
/// passed over, and either kind of shutdown ends the stream.
pub open spec fn step_of(event: Event) -> Step {
    match event {
        Event::Message(bytes) => Step::Emit(bytes),
        Event::Lagged(_) => Step::Skip,
        Event::Closed => Step::End,
        Event::Shutdown => Step::End,
    }
}

/// Decides what a subscriber's stream does on `event`.
pub fn stream(event: Event) -> (step: Step)
    ensures
        step == step_of(event),
{
    match event {
        Event::Message(bytes) => Step::Emit(bytes),
        Event::Lagged(_) => Step::Skip,
        Event::Closed => Step::End,
        Event::Shutdown => Step::End,
    }
}

/// All that a stream hands to its subscriber when `events` happen to it in
/// turn.
pub open spec fn chunks(events: Seq<Event>) -> Seq<Vec<u8>>
    decreases events.len(),
{
    if events.len() == 0 {
        Seq::empty()
    } else {
        match step_of(events[0]) {
            Step::Emit(bytes) => seq![bytes] + chunks(events.skip(1)),
            Step::Skip => chunks(events.skip(1)),
            Step::End => Seq::empty(),
        }
    }
}

/// A subscriber that fell behind is told so and goes on: a gap anywhere in
/// what happens to a stream takes nothing from what the stream hands on
/// before and after it.
pub proof fn lemma_lag_does_not_end_the_stream(before: Seq<Event>, lost: u64, after: Seq<Event>)
    ensures
        chunks(before + seq![Event::Lagged(lost)] + after) == chunks(before + after),
    decreases before.len(),
{
    let gap = seq![Event::Lagged(lost)];
    if before.len() == 0 {
        assert(before + gap + after =~= gap + after);
        assert((gap + after).skip(1) =~= after);
        assert(before + after =~= after);
    } else {
        lemma_lag_does_not_end_the_stream(before.skip(1), lost, after);
        assert((before + gap + after).skip(1) =~= before.skip(1) + gap + after);
        assert((before + after).skip(1) =~= before.skip(1) + after);
        assert((before + gap + after)[0] == before[0]);
        assert((before + after)[0] == before[0]);
    }
}

} // verus!
