//! What the pipeline reads from a call's results: emitted events and messages to L1,
//! and the limits on event sizes.

use vstd::prelude::*;

use crate::versioned_constants::EventLimits;

verus! {

/// Sizes of one emitted event.
#[derive(Clone, Copy, Debug, PartialEq, Eq, Structural)]
pub struct EventSummary {
    pub n_keys: usize,
    pub n_data: usize,
}

/// Results of a call and its inner calls: events and L2-to-L1 message payload lengths,
/// in execution order.
#[derive(Debug)]
pub struct CallInfo {
    pub events: Vec<EventSummary>,
    pub message_payload_lengths: Vec<usize>,
}

/// An event limit that was exceeded, with the offending size and the limit.
#[derive(Clone, Copy, Debug, PartialEq, Eq, Structural)]
pub enum EmitEventError {
    ExceedsMaxNumberOfEmittedEvents { n_emitted_events: usize, max_n_emitted_events: usize },
    ExceedsMaxKeysLength { keys_length: usize, max_keys_length: usize },
    ExceedsMaxDataLength { data_length: usize, max_data_length: usize },
}

/// The limit broken by the event at `position` (counting from zero), checking the number
/// of events first, then the keys, then the data.
pub open spec fn event_violation(e: EventSummary, position: int, limits: EventLimits) -> Option<EmitEventError> {
    if position + 1 > limits.max_n_emitted_events {
        Some(EmitEventError::ExceedsMaxNumberOfEmittedEvents {
            n_emitted_events: (position + 1) as usize,
            max_n_emitted_events: limits.max_n_emitted_events,
        })
    } else if e.n_keys > limits.max_keys_length {
        Some(EmitEventError::ExceedsMaxKeysLength { keys_length: e.n_keys, max_keys_length: limits.max_keys_length })
    } else if e.n_data > limits.max_data_length {
        Some(EmitEventError::ExceedsMaxDataLength { data_length: e.n_data, max_data_length: limits.max_data_length })
    } else {
        None
    }
}

/// The first limit broken by a sequence of events.
pub open spec fn events_violation(events: Seq<EventSummary>, limits: EventLimits) -> Option<EmitEventError>
    decreases events.len(),
{
    if events.len() == 0 {
        None
    } else {
        match events_violation(events.drop_last(), limits) {
            Some(e) => Some(e),
            None => event_violation(events.last(), events.len() - 1, limits),
        }
    }
}

/// The events of the validate call, then those of the execute call.
pub open spec fn chained_events(validate: Option<CallInfo>, execute: Option<CallInfo>) -> Seq<EventSummary> {
    let v = match validate {
        Some(c) => c.events@,
        None => Seq::empty(),
    };
    let x = match execute {
        Some(c) => c.events@,
        None => Seq::empty(),
    };
    v + x
}

/// The message payload lengths of the validate call, then those of the execute call.
pub open spec fn chained_payloads(validate: Option<CallInfo>, execute: Option<CallInfo>) -> Seq<usize> {
    let v = match validate {
        Some(c) => c.message_payload_lengths@,
        None => Seq::empty(),
    };
    let x = match execute {
        Some(c) => c.message_payload_lengths@,
        None => Seq::empty(),
    };
    v + x
}

pub open spec fn sum_keys(events: Seq<EventSummary>) -> int
    decreases events.len(),
{
    if events.len() == 0 {
        0
    } else {
        sum_keys(events.drop_last()) + events.last().n_keys
    }
}

pub open spec fn sum_data(events: Seq<EventSummary>) -> int
    decreases events.len(),
{
    if events.len() == 0 {
        0
    } else {
        sum_data(events.drop_last()) + events.last().n_data
    }
}

pub open spec fn sum_lengths(lengths: Seq<usize>) -> int
    decreases lengths.len(),
{
    if lengths.len() == 0 {
        0
    } else {
        sum_lengths(lengths.drop_last()) + lengths.last()
    }
}

fn append_events(out: &mut Vec<EventSummary>, call: &Option<CallInfo>)
    ensures
        final(out)@ == old(out)@ + match call {
            Some(c) => c.events@,
            None => Seq::empty(),
        },
{
    if let Some(c) = call {
        let mut i: usize = 0;
        let ghost start = out@;
        while i < c.events.len()
            invariant
                i <= c.events.len(),
                out@ == start + c.events@.take(i as int),
            decreases c.events.len() - i,
        {
            out.push(c.events[i]);
            assert(c.events@.take(i + 1) =~= c.events@.take(i as int).push(c.events@[i as int]));
            i = i + 1;
        }
        assert(c.events@.take(c.events.len() as int) =~= c.events@);
    } else {
        assert(out@ =~= out@ + Seq::<EventSummary>::empty());
    }
}

fn append_payloads(out: &mut Vec<usize>, call: &Option<CallInfo>)
    ensures
        final(out)@ == old(out)@ + match call {
            Some(c) => c.message_payload_lengths@,
            None => Seq::empty(),
        },
{
    if let Some(c) = call {
        let mut i: usize = 0;
        let ghost start = out@;
        while i < c.message_payload_lengths.len()
            invariant
                i <= c.message_payload_lengths.len(),
                out@ == start + c.message_payload_lengths@.take(i as int),
            decreases c.message_payload_lengths.len() - i,
        {
            out.push(c.message_payload_lengths[i]);
            assert(c.message_payload_lengths@.take(i + 1) =~= c.message_payload_lengths@.take(i as int).push(
                c.message_payload_lengths@[i as int],
            ));
            i = i + 1;
        }
        assert(c.message_payload_lengths@.take(c.message_payload_lengths.len() as int) =~= c.message_payload_lengths@);
    } else {
        assert(out@ =~= out@ + Seq::<usize>::empty());
    }
}

/// The events of the validate call, then those of the execute call.
pub fn chain_events(validate: &Option<CallInfo>, execute: &Option<CallInfo>) -> (r: Vec<EventSummary>)
    ensures
        r@ == chained_events(*validate, *execute),
{
    let mut out: Vec<EventSummary> = Vec::new();
    append_events(&mut out, validate);
    append_events(&mut out, execute);
    out
}

/// The message payload lengths of the validate call, then those of the execute call.
pub fn chain_payloads(validate: &Option<CallInfo>, execute: &Option<CallInfo>) -> (r: Vec<usize>)
    ensures
        r@ == chained_payloads(*validate, *execute),
{
    let mut out: Vec<usize> = Vec::new();
    append_payloads(&mut out, validate);
    append_payloads(&mut out, execute);
    out
}

/// Checks every event against the limits; fails with the first limit broken.
pub fn check_event_limits(events: &Vec<EventSummary>, limits: &EventLimits) -> (r: Result<(), EmitEventError>)
    ensures
        r matches Err(e) ==> events_violation(events@, *limits) == Some(e),
        r is Ok <==> events_violation(events@, *limits) is None,
{
    let mut i: usize = 0;
    assert(events@.take(0) =~= Seq::<EventSummary>::empty());
    while i < events.len()
        invariant
            i <= events.len(),
            events_violation(events@.take(i as int), *limits) is None,
        decreases events.len() - i,
    {
        let e = events[i];
        let ghost prefix = events@.take(i + 1);
        assert(prefix.drop_last() =~= events@.take(i as int));
        assert(prefix.last() == e);
        if i >= limits.max_n_emitted_events {
            proof {
                lemma_violation_persists(events@, *limits, i + 1);
            }
            return Err(EmitEventError::ExceedsMaxNumberOfEmittedEvents {
                n_emitted_events: i + 1,
                max_n_emitted_events: limits.max_n_emitted_events,
            });
        }
        if e.n_keys > limits.max_keys_length {
            proof {
                lemma_violation_persists(events@, *limits, i + 1);
            }
            return Err(EmitEventError::ExceedsMaxKeysLength { keys_length: e.n_keys, max_keys_length: limits.max_keys_length });
        }
        if e.n_data > limits.max_data_length {
            proof {
                lemma_violation_persists(events@, *limits, i + 1);
            }
            return Err(EmitEventError::ExceedsMaxDataLength { data_length: e.n_data, max_data_length: limits.max_data_length });
        }
        i = i + 1;
    }
    assert(events@.take(events.len() as int) =~= events@);
    Ok(())
}

/// Once a prefix of the events breaks a limit, the whole sequence reports that violation.
pub proof fn lemma_violation_persists(events: Seq<EventSummary>, limits: EventLimits, n: int)
    requires
        0 <= n <= events.len(),
        events_violation(events.take(n), limits) is Some,
    ensures
        events_violation(events, limits) == events_violation(events.take(n), limits),
    decreases events.len() - n,
{
    if n == events.len() {
        assert(events.take(n) =~= events);
    } else {
        let shorter = events.drop_last();
        assert(shorter.take(n) =~= events.take(n));
        lemma_violation_persists(shorter, limits, n);
    }
}

/// Sums of event keys, event data and message payloads.
pub fn event_and_message_totals(events: &Vec<EventSummary>, payloads: &Vec<usize>) -> (r: (u128, u128, u128))
    requires
        events.len() <= usize::MAX,
    ensures
        r.0 == sum_keys(events@),
        r.1 == sum_data(events@),
        r.2 == sum_lengths(payloads@),
{
    let mut keys: u128 = 0;
    let mut data: u128 = 0;
    let mut i: usize = 0;
    assert(events@.take(0) =~= Seq::<EventSummary>::empty());
    while i < events.len()
        invariant
            i <= events.len(),
            keys == sum_keys(events@.take(i as int)),
            data == sum_data(events@.take(i as int)),
            keys <= i * (usize::MAX as int),
            data <= i * (usize::MAX as int),
        decreases events.len() - i,
    {
        let ghost prefix = events@.take(i + 1);
        assert(prefix.drop_last() =~= events@.take(i as int));
        assert(i * (usize::MAX as int) + usize::MAX == (i + 1) * (usize::MAX as int)) by (nonlinear_arith);
        assert((i + 1) * (usize::MAX as int) <= (usize::MAX as int) * (usize::MAX as int)) by (nonlinear_arith)
            requires i + 1 <= usize::MAX;
        assert((usize::MAX as int) * (usize::MAX as int) < u128::MAX);
        keys = keys + events[i].n_keys as u128;
        data = data + events[i].n_data as u128;
        i = i + 1;
    }
    assert(events@.take(events.len() as int) =~= events@);
    let mut lengths: u128 = 0;
    let mut j: usize = 0;
    assert(payloads@.take(0) =~= Seq::<usize>::empty());
    while j < payloads.len()
        invariant
            j <= payloads.len(),
            lengths == sum_lengths(payloads@.take(j as int)),
            lengths <= j * (usize::MAX as int),
        decreases payloads.len() - j,
    {
        let ghost prefix = payloads@.take(j + 1);
        assert(prefix.drop_last() =~= payloads@.take(j as int));
        assert(j * (usize::MAX as int) + usize::MAX == (j + 1) * (usize::MAX as int)) by (nonlinear_arith);
        assert((j + 1) * (usize::MAX as int) <= (usize::MAX as int) * (usize::MAX as int)) by (nonlinear_arith)
            requires j + 1 <= usize::MAX;
        assert((usize::MAX as int) * (usize::MAX as int) < u128::MAX);
        lengths = lengths + payloads[j] as u128;
        j = j + 1;
    }
    assert(payloads@.take(payloads.len() as int) =~= payloads@);
    (keys, data, lengths)
}

/// Events within every limit pass; an event one over a size limit, or one event too
/// many, is reported as exactly that limit.
pub proof fn lemma_event_limits(events: Seq<EventSummary>, limits: EventLimits)
    ensures
        (events.len() <= limits.max_n_emitted_events && forall|i: int| 0 <= i < events.len() ==>
            (#[trigger] events[i]).n_keys <= limits.max_keys_length && events[i].n_data <= limits.max_data_length)
            ==> events_violation(events, limits) is None,
        (events.len() == limits.max_n_emitted_events + 1 && forall|i: int| 0 <= i < events.len() ==>
            (#[trigger] events[i]).n_keys <= limits.max_keys_length && events[i].n_data <= limits.max_data_length)
            ==> events_violation(events, limits) == Some(EmitEventError::ExceedsMaxNumberOfEmittedEvents {
                n_emitted_events: events.len() as usize,
                max_n_emitted_events: limits.max_n_emitted_events,
            }),
        (events.len() <= limits.max_n_emitted_events && events.len() > 0
            && events.last().n_keys == limits.max_keys_length + 1
            && forall|i: int| 0 <= i < events.len() - 1 ==>
            (#[trigger] events[i]).n_keys <= limits.max_keys_length && events[i].n_data <= limits.max_data_length)
            ==> events_violation(events, limits) == Some(EmitEventError::ExceedsMaxKeysLength {
                keys_length: events.last().n_keys,
                max_keys_length: limits.max_keys_length,
            }),
        (events.len() <= limits.max_n_emitted_events && events.len() > 0
            && events.last().n_keys <= limits.max_keys_length
            && events.last().n_data == limits.max_data_length + 1
            && forall|i: int| 0 <= i < events.len() - 1 ==>
            (#[trigger] events[i]).n_keys <= limits.max_keys_length && events[i].n_data <= limits.max_data_length)
            ==> events_violation(events, limits) == Some(EmitEventError::ExceedsMaxDataLength {
                data_length: events.last().n_data,
                max_data_length: limits.max_data_length,
            }),
{
    if events.len() > 0 {
        lemma_within_limits(events, limits, events.len() as int);
        lemma_within_limits(events, limits, events.len() - 1);
        assert(events.drop_last() =~= events.take(events.len() - 1));
    }
}

/// No violation among the first `n` events when they are all within the limits.
proof fn lemma_within_limits(events: Seq<EventSummary>, limits: EventLimits, n: int)
    requires
        0 <= n <= events.len(),
    ensures
        (n <= limits.max_n_emitted_events && forall|i: int| 0 <= i < n ==>
            (#[trigger] events[i]).n_keys <= limits.max_keys_length && events[i].n_data <= limits.max_data_length)
            ==> events_violation(events.take(n), limits) is None,
        n == events.len() ==> events.take(n) == events,
        n < events.len() ==> events.take(n) == events.take(n + 1).drop_last() && events.take(n + 1).last() == events[n],
    decreases n,
{
    if n == events.len() {
        assert(events.take(n) =~= events);
    } else {
        assert(events.take(n) =~= events.take(n + 1).drop_last());
    }
    if n > 0 {
        lemma_within_limits(events, limits, n - 1);
    } else {
        assert(events.take(0) =~= Seq::<EventSummary>::empty());
    }
}

} // verus!
