use hr_scan::dispatch::{dispatch_events, handle_event, ScanEvent, COMPANY_ID, START_CODE};

fn advertisement(entries: Vec<(u16, Vec<u8>)>) -> ScanEvent {
    ScanEvent::ManufacturerDataAdvertisement { manufacturer_data: entries }
}

#[test]
fn constants_match_the_wire_protocol() {
    assert_eq!(COMPANY_ID, 0xFF04);
    assert_eq!(START_CODE, 0xA1);
}

#[test]
fn decodes_payload_under_company_id() {
    let event = advertisement(vec![(0xFF04, vec![0xA1, 0x00, 0x00, 0x01, 0x2C, 0x48])]);
    assert_eq!(handle_event(&event), Some((300, 72)));
}

#[test]
fn missing_company_id_gives_no_reading() {
    let event = advertisement(vec![(0x004C, vec![0xA1, 0x00, 0x00, 0x01, 0x2C, 0x48])]);
    assert_eq!(handle_event(&event), None);
}

#[test]
fn empty_mapping_gives_no_reading() {
    let event = advertisement(vec![]);
    assert_eq!(handle_event(&event), None);
}

#[test]
fn foreign_entries_do_not_hide_the_payload() {
    let event = advertisement(vec![
        (0x004C, vec![0x99, 0x99]),
        (0xFF04, vec![0x05, 0xA1, 0x00, 0x00, 0x01, 0x2C, 0x48]),
    ]);
    assert_eq!(handle_event(&event), Some((300, 72)));
}

#[test]
fn non_advertisement_events_are_discarded() {
    assert_eq!(handle_event(&ScanEvent::Other), None);
}

#[test]
fn malformed_payload_gives_no_reading() {
    let event = advertisement(vec![(0xFF04, vec![0x99, 0x99])]);
    assert_eq!(handle_event(&event), None);
}

#[test]
fn dispatch_preserves_event_order() {
    let events = vec![
        advertisement(vec![(0xFF04, vec![0xA1, 0x00, 0x00, 0x00, 0x01, 10])]),
        ScanEvent::Other,
        advertisement(vec![(0xFF04, vec![0x99, 0x99])]),
        advertisement(vec![(0xFF04, vec![0xA1, 0x00, 0x00, 0x00, 0x02, 20])]),
        advertisement(vec![(0x004C, vec![0xA1, 0x00, 0x00, 0x00, 0x03, 30])]),
        advertisement(vec![(0xFF04, vec![0x07, 0xA1, 0x00, 0x00, 0x00, 0x04, 40])]),
    ];
    let readings = dispatch_events(&events);
    assert_eq!(readings, vec![(1, 10), (2, 20), (4, 40)]);
}

#[test]
fn dispatch_of_nothing_delivers_nothing() {
    let events: Vec<ScanEvent> = vec![];
    assert_eq!(dispatch_events(&events), vec![]);
}
