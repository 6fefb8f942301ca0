//! Advertisement-event dispatch.
//!
//! The steady-state scan loop pulls radio events one at a time. Only the
//! manufacturer-data advertisement variant matters: its payload mapping is
//! searched for the fixed company identifier, the entry found (or an empty
//! buffer when the key is absent) is handed to the decoder with the fixed
//! start code, and every successful decode becomes one callback delivery,
//! in arrival order. Every other event variant is discarded with no effect.

use vstd::prelude::*;
use crate::decoder::{process_manufacturer_data, spec_decode};

verus! {

/// The 16-bit company identifier whose manufacturer-data entry carries the
/// heart-rate payload.
pub const COMPANY_ID: u16 = 0xFF04;

/// The marker byte expected at the start of the payload frame.
pub const START_CODE: u8 = 0xA1;

/// A radio event as the scan loop sees it: a manufacturer-data
/// advertisement carrying its keyed payload entries, or any other event,
/// which the loop ignores. The platform's device identifier for the event
/// is not carried: the pipeline does not read it.
pub enum ScanEvent {
    ManufacturerDataAdvertisement { manufacturer_data: Vec<(u16, Vec<u8>)> },
    Other,
}

/// The payload entries of an advertisement, as a mathematical sequence of
/// key/buffer pairs.
pub open spec fn entries_view(entries: Seq<(u16, Vec<u8>)>) -> Seq<(u16, Seq<u8>)> {
    entries.map_values(|e: (u16, Vec<u8>)| (e.0, e.1@))
}

/// The buffer of the first entry keyed by `key`, or the empty buffer when
/// no entry matches.
pub open spec fn spec_lookup(entries: Seq<(u16, Seq<u8>)>, key: u16) -> Seq<u8>
    decreases entries.len(),
{
    if entries.len() == 0 {
        Seq::empty()
    } else if entries[0].0 == key {
        entries[0].1
    } else {
        spec_lookup(entries.drop_first(), key)
    }
}

/// The payload an event offers for decoding: the company-identifier entry
/// of a manufacturer-data advertisement, empty when the key is absent or
/// the event is of another kind.
pub open spec fn spec_event_payload(e: ScanEvent) -> Seq<u8> {
    match e {
        ScanEvent::ManufacturerDataAdvertisement { manufacturer_data } => spec_lookup(
            entries_view(manufacturer_data@),
            COMPANY_ID,
        ),
        ScanEvent::Other => Seq::empty(),
    }
}

/// The reading one event produces: a decode of its payload for a
/// manufacturer-data advertisement, nothing for any other event.
pub open spec fn spec_event_output(e: ScanEvent) -> Option<(u32, u32)> {
    match e {
        ScanEvent::ManufacturerDataAdvertisement { .. } => spec_decode(
            spec_event_payload(e),
            START_CODE,
        ),
        ScanEvent::Other => None,
    }
}

/// `spec_lookup` really is the first match: a position whose entry matches
/// `key`, with no match before it, determines the result.
proof fn lemma_lookup_at(entries: Seq<(u16, Seq<u8>)>, key: u16, p: int)
    requires
        0 <= p < entries.len(),
        entries[p].0 == key,
        forall|k: int| 0 <= k < p ==> entries[k].0 != key,
    ensures
        spec_lookup(entries, key) == entries[p].1,
    decreases entries.len(),
{
    if p > 0 {
        lemma_lookup_at(entries.drop_first(), key, p - 1);
    }
}

/// When no entry matches `key`, the lookup is the empty buffer.
proof fn lemma_lookup_absent(entries: Seq<(u16, Seq<u8>)>, key: u16)
    requires
        forall|k: int| 0 <= k < entries.len() ==> entries[k].0 != key,
    ensures
        spec_lookup(entries, key) == Seq::<u8>::empty(),
    decreases entries.len(),
{
    if entries.len() > 0 {
        lemma_lookup_absent(entries.drop_first(), key);
    }
}

/// Index of the first entry keyed by `key`, if any.
fn find_entry(entries: &Vec<(u16, Vec<u8>)>, key: u16) -> (r: Option<usize>)
    ensures
        match r {
            Some(i) => {
                &&& i < entries@.len()
                &&& entries@[i as int].0 == key
                &&& forall|k: int| 0 <= k < i ==> entries@[k].0 != key
            },
            None => forall|k: int| 0 <= k < entries@.len() ==> entries@[k].0 != key,
        },
{
    let mut i: usize = 0;
    while i < entries.len()
        invariant
            0 <= i <= entries@.len(),
            forall|k: int| 0 <= k < i ==> entries@[k].0 != key,
        decreases entries@.len() - i,
    {
        if entries[i].0 == key {
            return Some(i);
        }
        i = i + 1;
    }
    None
}

/// Handle one radio event: decode the company-identifier payload of a
/// manufacturer-data advertisement, and produce nothing for any other
/// event. The result is the reading to deliver to the callback, if any.
pub fn handle_event(event: &ScanEvent) -> (r: Option<(u32, u32)>)
    ensures
        r == spec_event_output(*event),
{
    match event {
        ScanEvent::ManufacturerDataAdvertisement { manufacturer_data } => {
            let found = find_entry(manufacturer_data, COMPANY_ID);
            proof {
                let ev = entries_view(manufacturer_data@);
                match found {
                    Some(i) => lemma_lookup_at(ev, COMPANY_ID, i as int),
                    None => lemma_lookup_absent(ev, COMPANY_ID),
                }
            }
            match found {
                Some(i) => process_manufacturer_data(manufacturer_data[i].1.as_slice(), START_CODE),
                None => {
                    let empty: Vec<u8> = Vec::new();
                    process_manufacturer_data(empty.as_slice(), START_CODE)
                },
            }
        },
        ScanEvent::Other => None,
    }
}

/// The readings a whole event sequence produces, in arrival order: one
/// entry per event that decodes successfully, none for the rest.
pub open spec fn spec_outputs(events: Seq<ScanEvent>) -> Seq<(u32, u32)>
    decreases events.len(),
{
    if events.len() == 0 {
        Seq::empty()
    } else {
        let rest = spec_outputs(events.drop_last());
        match spec_event_output(events.last()) {
            Some(reading) => rest.push(reading),
            None => rest,
        }
    }
}

/// Ordering law: the readings of an event sequence are exactly the
/// per-event results, kept in the relative order of the events that
/// produced them, with nothing emitted for events that did not decode.
pub proof fn lemma_outputs_preserve_order(events: Seq<ScanEvent>)
    ensures
        spec_outputs(events) == events.map_values(|e: ScanEvent| spec_event_output(e)).filter(
            |o: Option<(u32, u32)>| o is Some,
        ).map_values(|o: Option<(u32, u32)>| o->Some_0),
    decreases events.len(),
{
    reveal(Seq::filter);
    let per_event = |e: ScanEvent| spec_event_output(e);
    let delivered = |o: Option<(u32, u32)>| o is Some;
    let reading = |o: Option<(u32, u32)>| o->Some_0;
    let m = events.map_values(per_event);
    if events.len() == 0 {
        assert(spec_outputs(events) =~= m.filter(delivered).map_values(reading));
    } else {
        lemma_outputs_preserve_order(events.drop_last());
        assert(m.drop_last() =~= events.drop_last().map_values(per_event));
        assert(m.last() == per_event(events.last()));
        if delivered(m.last()) {
            assert(m.filter(delivered) == m.drop_last().filter(delivered).push(m.last()));
            assert(m.filter(delivered).map_values(reading) =~= m.drop_last().filter(
                delivered,
            ).map_values(reading).push(reading(m.last())));
        } else {
            assert(m.filter(delivered) == m.drop_last().filter(delivered));
        }
    }
}

/// Dispatch a finite sequence of events in order, collecting the readings
/// that would be delivered to the callback, first to last.
pub fn dispatch_events(events: &Vec<ScanEvent>) -> (r: Vec<(u32, u32)>)
    ensures
        r@ == spec_outputs(events@),
{
    let mut out: Vec<(u32, u32)> = Vec::new();
    let mut i: usize = 0;
    while i < events.len()
        invariant
            0 <= i <= events@.len(),
            out@ == spec_outputs(events@.take(i as int)),
        decreases events@.len() - i,
    {
        proof {
            assert(events@.take(i + 1).drop_last() =~= events@.take(i as int));
            assert(events@.take(i + 1).last() == events@[i as int]);
        }
        if let Some(reading) = handle_event(&events[i]) {
            out.push(reading);
        }
        i = i + 1;
    }
    proof {
        assert(events@.take(events@.len() as int) =~= events@);
    }
    out
}

} // verus!
