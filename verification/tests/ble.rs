use picodsp_ble::ble_midi::{
    adv_contains_uuid, connect_request, link_step, parse_ble_midi, ConnectRequest, LinkAction,
    LinkEvent, LinkState, MidiScanHandler, ALL_NOTES_OFF, MAX_INTERVAL_MS, MIDI_CHAR_UUID, MIDI_SERVICE_UUID,
    MIN_INTERVAL_MS,
};

fn advertisement(parts: &[(u8, &[u8])]) -> Vec<u8> {
    let mut data = Vec::new();
    for (ad_type, payload) in parts {
        data.push(payload.len() as u8 + 1);
        data.push(*ad_type);
        data.extend_from_slice(payload);
    }
    data
}

#[test]
fn ids_in_text_form() {
    let text = |id: &[u8; 16]| {
        id.iter()
            .rev()
            .map(|b| format!("{:02X}", b))
            .collect::<Vec<_>>()
            .concat()
    };
    assert_eq!(
        text(&MIDI_SERVICE_UUID),
        "03B80E5AEDE84B33A7516CE34EC4C700"
    );
    assert_eq!(text(&MIDI_CHAR_UUID), "7772E5DB38684112A1A9F2669D106BF3");
    assert_eq!((MIN_INTERVAL_MS, MAX_INTERVAL_MS), (15, 30));
}

#[test]
fn keyboard_is_recognised() {
    let id = MIDI_SERVICE_UUID;
    let flags: &[u8] = &[6];
    assert!(adv_contains_uuid(
        &advertisement(&[(1, flags), (7, &id), (9, b"keys")]),
        &id
    ));
    assert!(adv_contains_uuid(&advertisement(&[(6, &id)]), &id));
    let two: Vec<u8> = MIDI_CHAR_UUID.iter().chain(id.iter()).copied().collect();
    assert!(adv_contains_uuid(&advertisement(&[(6, &two)]), &id));
}

#[test]
fn other_advertisements_are_not() {
    let id = MIDI_SERVICE_UUID;
    assert!(!adv_contains_uuid(&[], &id));
    assert!(!adv_contains_uuid(&[5], &id));
    // the id in a part that lists no services
    assert!(!adv_contains_uuid(&advertisement(&[(0x21, &id)]), &id));
    // not on a border between ids
    let mut shifted = vec![0];
    shifted.extend_from_slice(&id);
    assert!(!adv_contains_uuid(&advertisement(&[(7, &shifted)]), &id));
    // behind an empty part
    let mut hidden = vec![0, 0];
    hidden.extend(advertisement(&[(7, &id)]));
    assert!(!adv_contains_uuid(&hidden, &id));
    // cut off
    let cut = advertisement(&[(7, &id)]);
    assert!(!adv_contains_uuid(&cut[..17], &id));
}

#[test]
fn first_keyboard_is_kept() {
    let mut h = MidiScanHandler::new();
    let adv = advertisement(&[(7, &MIDI_SERVICE_UUID)]);
    h.on_adv_report(0, [1; 6], &[2, 1, 6]);
    assert_eq!(h.found, None);
    h.on_adv_report(1, [2; 6], &adv);
    h.on_adv_report(0, [3; 6], &adv);
    assert_eq!(h.found, Some((1, [2; 6])));
    assert_eq!(
        connect_request(h.found),
        Some(ConnectRequest {
            peer: (1, [2; 6]),
            min_interval_ms: 15,
            max_interval_ms: 30,
            active: true,
        })
    );
    h.reset();
    assert_eq!(h.found, None);
    assert_eq!(connect_request(h.found), None);
}

#[test]
fn packets_are_read() {
    assert_eq!(
        parse_ble_midi(&[0x80, 0x80, 0x90, 60, 100]),
        vec![[0x90, 60, 100]]
    );
    // a new status for each message
    assert_eq!(
        parse_ble_midi(&[0x80, 0x81, 0x90, 60, 100, 0x82, 0x80, 60, 0]),
        vec![[0x90, 60, 100], [0x80, 60, 0]]
    );
    // the status goes on, with and without a time stamp
    assert_eq!(
        parse_ble_midi(&[0x80, 0x81, 0x90, 60, 100, 64, 101, 0x83, 67, 102]),
        vec![[0x90, 60, 100], [0x90, 64, 101], [0x90, 67, 102]]
    );
    // messages with one data byte
    assert_eq!(
        parse_ble_midi(&[0x80, 0x80, 0xC0, 5, 0x80, 0xD1, 9]),
        vec![[0xC0, 5, 0], [0xD1, 9, 0]]
    );
}

#[test]
fn what_cannot_be_read_ends_the_packet() {
    assert!(parse_ble_midi(&[]).is_empty());
    assert!(parse_ble_midi(&[0x80, 0x80]).is_empty());
    // no status yet
    assert!(parse_ble_midi(&[0x80, 60, 100, 1]).is_empty());
    // system messages
    assert!(parse_ble_midi(&[0x80, 0x80, 0xF0, 1, 2, 3]).is_empty());
    // cut off
    assert!(parse_ble_midi(&[0x80, 0x80, 0x90, 60]).is_empty());
    assert_eq!(
        parse_ble_midi(&[0x80, 0x80, 0x90, 60, 100, 0x81]),
        vec![[0x90, 60, 100]]
    );
    assert_eq!(
        parse_ble_midi(&[0x80, 0x80, 0x90, 60, 100, 0x81, 0xFE, 0x82, 0x80, 60, 0]),
        vec![[0x90, 60, 100]]
    );
}

#[test]
fn link_is_built_step_by_step() {
    let steps = [
        (LinkEvent::Done, LinkState::Connecting, LinkAction::Connect),
        (LinkEvent::Done, LinkState::Bonding, LinkAction::SetBondable),
        (LinkEvent::Done, LinkState::Securing, LinkAction::RequestSecurity),
        (LinkEvent::Done, LinkState::Pairing, LinkAction::Wait),
        (LinkEvent::Other, LinkState::Pairing, LinkAction::Wait),
        (
            LinkEvent::ParamsRequested,
            LinkState::Pairing,
            LinkAction::AcceptParams,
        ),
        (
            LinkEvent::PairingComplete,
            LinkState::OpeningClient,
            LinkAction::OpenClient,
        ),
        (
            LinkEvent::Done,
            LinkState::FindingService,
            LinkAction::FindService,
        ),
        (
            LinkEvent::Done,
            LinkState::FindingCharacteristic,
            LinkAction::FindCharacteristic,
        ),
        (LinkEvent::Done, LinkState::Subscribing, LinkAction::Subscribe),
        (LinkEvent::Done, LinkState::Playing, LinkAction::Wait),
        (LinkEvent::Notified, LinkState::Playing, LinkAction::Forward),
        (
            LinkEvent::Disconnected,
            LinkState::Scanning,
            LinkAction::SilenceAndScan,
        ),
    ];
    let mut state = LinkState::Scanning;
    for (event, next, action) in steps {
        assert_eq!(link_step(state, event), (next, action));
        state = next;
    }
    assert_eq!(ALL_NOTES_OFF, [0xB0, 123, 0]);
}

#[test]
fn failures_lead_back_to_scanning() {
    for state in [
        LinkState::Connecting,
        LinkState::Bonding,
        LinkState::Securing,
        LinkState::Pairing,
        LinkState::OpeningClient,
        LinkState::FindingService,
        LinkState::FindingCharacteristic,
        LinkState::Subscribing,
    ] {
        assert_eq!(
            link_step(state, LinkEvent::Failed),
            (LinkState::Scanning, LinkAction::Scan)
        );
        assert_eq!(
            link_step(state, LinkEvent::Disconnected),
            (LinkState::Scanning, LinkAction::Scan)
        );
    }
    assert_eq!(
        link_step(LinkState::Scanning, LinkEvent::Failed),
        (LinkState::Scanning, LinkAction::ScanAfter { millis: 1000 })
    );
    assert_eq!(
        link_step(LinkState::Pairing, LinkEvent::PairingFailed),
        (LinkState::Scanning, LinkAction::Scan)
    );
    assert_eq!(
        link_step(LinkState::Connecting, LinkEvent::PairingComplete),
        (LinkState::Connecting, LinkAction::Wait)
    );
}
