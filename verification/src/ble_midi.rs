//! The radio link to a keyboard: finding it, pairing with it and reading its messages.

use vstd::prelude::*;

verus! {

/// The service that a MIDI keyboard offers, `03B80E5A-EDE8-4B33-A751-6CE34EC4C700`, least
/// significant byte first.
pub const MIDI_SERVICE_UUID: [u8; 16] = [
    0x00,
    0xC7,
    0xC4,
    0x4E,
    0xE3,
    0x6C,
    0x51,
    0xA7,
    0x33,
    0x4B,
    0xE8,
    0xED,
    0x5A,
    0x0E,
    0xB8,
    0x03,
];

/// The characteristic that carries the messages, `7772E5DB-3868-4112-A1A9-F2669D106BF3`, least
/// significant byte first.
pub const MIDI_CHAR_UUID: [u8; 16] = [
    0xF3,
    0x6B,
    0x10,
    0x9D,
    0x66,
    0xF2,
    0xA9,
    0xA1,
    0x12,
    0x41,
    0x68,
    0x38,
    0xDB,
    0xE5,
    0x72,
    0x77,
];

/// The shortest and the longest connection interval that is asked for.
pub const MIN_INTERVAL_MS: u32 = 15;

pub const MAX_INTERVAL_MS: u32 = 30;

/// The radio listens for the second time out of each first time, so that it leaves the bus to the
/// sound generator.
pub const SCAN_INTERVAL_MS: u32 = 1000;

pub const SCAN_WINDOW_MS: u32 = 50;

/// How long to wait after a scan could not be started.
pub const SCAN_RETRY_MS: u32 = 1000;

/// The message that lets go of every note.
pub const ALL_NOTES_OFF: [u8; 3] = [0xB0, 123, 0];

/// `payload` is a list of 16-byte ids and holds `uuid`; a shorter piece at its end is passed over.
pub open spec fn holds_uuid(payload: Seq<u8>, uuid: Seq<u8>) -> bool {
    exists|k: int|
        0 <= k && 16 * k + 16 <= payload.len() && #[trigger] payload.subrange(16 * k, 16 * k + 16)
            == uuid
}

/// A part of an advertisement with type `ad_type` lists 16-byte service ids.
pub open spec fn lists_services(ad_type: u8) -> bool {
    ad_type == 0x06 || ad_type == 0x07
}

/// An advertisement is a row of parts. Each starts with its length, which counts the type that
/// follows and the payload. An empty part, or one that is cut off, ends the row. The advertisement
/// offers `uuid` if a part that lists service ids holds it.
pub open spec fn offers(data: Seq<u8>, uuid: Seq<u8>) -> bool
    decreases data.len(),
{
    if data.len() < 2 || data[0] == 0 || data[0] + 1 > data.len() {
        false
    } else {
        let len = data[0] as int;
        (lists_services(data[1]) && holds_uuid(data.subrange(2, 1 + len), uuid)) || offers(
            data.skip(1 + len),
            uuid,
        )
    }
}

fn same_bytes(data: &[u8], at: usize, uuid: &[u8; 16]) -> (same: bool)
    requires
        at + 16 <= data@.len(),
    ensures
        same == (data@.subrange(at as int, at + 16) == uuid@),
{
    let total: usize = data.len();
    let mut i: usize = 0;
    while i < 16
        invariant
            i <= 16,
            total == data@.len(),
            at + 16 <= total,
            forall|j: int| 0 <= j < i ==> data@[at + j] == uuid@[j],
        decreases 16 - i,
    {
        if data[at + i] != uuid[i] {
            assert(data@.subrange(at as int, at + 16)[i as int] != uuid@[i as int]);
            return false;
        }
        i += 1;
    }
    assert(data@.subrange(at as int, at + 16) =~= uuid@);
    true
}

/// Whether an advertisement offers the service `uuid`.
pub fn adv_contains_uuid(data: &[u8], uuid: &[u8; 16]) -> (found: bool)
    ensures
        found == offers(data@, uuid@),
{
    let total: usize = data.len();
    let mut at: usize = 0;
    assert(data@.skip(0) =~= data@);
    while total - at >= 2
        invariant_except_break
            offers(data@, uuid@) == offers(data@.skip(at as int), uuid@),
        invariant
            at <= total,
            total == data@.len(),
        ensures
            !offers(data@, uuid@),
        decreases total - at,
    {
        let ghost rest = data@.skip(at as int);
        let len: usize = data[at] as usize;
        if len == 0 || len + 1 > total - at {
            break;
        }
        let ghost payload = rest.subrange(2, 1 + len);
        if data[at + 1] == 0x06 || data[at + 1] == 0x07 {
            let size: usize = len - 1;
            let mut k: usize = 0;
            while size - k >= 16
                invariant
                    k <= size,
                    k % 16 == 0,
                    size == len - 1,
                    size == payload.len(),
                    at + 1 + len <= total,
                    total == data@.len(),
                    payload == data@.skip(at as int).subrange(2, 1 + len),
                    offers(data@, uuid@) == offers(data@.skip(at as int), uuid@),
                    len == data@[at as int],
                    len > 0,
                    lists_services(data@[at + 1]),
                    forall|j: int|
                        0 <= j && 16 * j < k ==> #[trigger] payload.subrange(16 * j, 16 * j + 16)
                            != uuid@,
                decreases size - k,
            {
                assert(payload.subrange(k as int, k + 16) =~= data@.subrange(
                    at + 2 + k,
                    at + 2 + k + 16,
                ));
                let ghost j0 = k as int / 16;
                assert(16 * j0 == k);
                if same_bytes(data, at + 2 + k, uuid) {
                    assert(payload.subrange(16 * j0, 16 * j0 + 16) == uuid@);
                    return true;
                }
                k += 16;
            }
            assert(!holds_uuid(payload, uuid@)) by {
                assert forall|j: int|
                    0 <= j && 16 * j + 16 <= payload.len() implies #[trigger] payload.subrange(
                    16 * j,
                    16 * j + 16,
                ) != uuid@ by {
                    assert(16 * j < k);
                }
            }
        }
        assert(rest.skip(1 + len) =~= data@.skip(at + 1 + len));
        at = at + 1 + len;
    }
    false
}

/// The bytes of an advertisement made of the given parts, each a type and a payload.
pub open spec fn advertisement(parts: Seq<(u8, Seq<u8>)>) -> Seq<u8>
    decreases parts.len(),
{
    if parts.len() == 0 {
        Seq::empty()
    } else {
        let (ad_type, payload) = parts[0];
        seq![(payload.len() + 1) as u8, ad_type] + payload + advertisement(parts.skip(1))
    }
}

/// A well-formed advertisement offers a service exactly if one of its parts lists it.
pub proof fn advertised_is_found(parts: Seq<(u8, Seq<u8>)>, uuid: Seq<u8>)
    requires
        forall|i: int| 0 <= i < parts.len() ==> (#[trigger] parts[i]).1.len() < 255,
    ensures
        offers(advertisement(parts), uuid) <==> exists|i: int|
            0 <= i < parts.len() && lists_services((#[trigger] parts[i]).0) && holds_uuid(
                parts[i].1,
                uuid,
            ),
    decreases parts.len(),
{
    if parts.len() > 0 {
        let rest = parts.skip(1);
        let data = advertisement(parts);
        advertised_is_found(rest, uuid);
        let len = parts[0].1.len() as int + 1;
        assert(data.subrange(2, 1 + len) =~= parts[0].1);
        assert(data.skip(1 + len) =~= advertisement(rest));
        assert forall|i: int|
            0 <= i < rest.len() && lists_services((#[trigger] rest[i]).0) && holds_uuid(
                rest[i].1,
                uuid,
            ) implies lists_services(parts[i + 1].0) && holds_uuid(parts[i + 1].1, uuid) by {}
        assert forall|i: int|
            1 <= i < parts.len() && lists_services((#[trigger] parts[i]).0) && holds_uuid(
                parts[i].1,
                uuid,
            ) implies lists_services(rest[i - 1].0) && holds_uuid(rest[i - 1].1, uuid) by {}
    }
}

/// The keyboard that is kept after one more report: the kind of an address, the address and the
/// advertisement that came from it.
pub open spec fn heard(
    found: Option<(u8, [u8; 6])>,
    report: (u8, [u8; 6], Seq<u8>),
) -> Option<(u8, [u8; 6])> {
    if found is None && offers(report.2, MIDI_SERVICE_UUID@) {
        Some((report.0, report.1))
    } else {
        found
    }
}

/// The keyboard that is kept after all of `reports`.
pub open spec fn heard_of(reports: Seq<(u8, [u8; 6], Seq<u8>)>) -> Option<(u8, [u8; 6])>
    decreases reports.len(),
{
    if reports.len() == 0 {
        None
    } else {
        heard(heard_of(reports.drop_last()), reports.last())
    }
}

/// The first keyboard that is heard is the one that is kept, by the kind and the address that its
/// report gave; devices of other sorts are passed over.
pub proof fn first_keyboard_is_kept(reports: Seq<(u8, [u8; 6], Seq<u8>)>)
    ensures
        heard_of(reports) is None <==> forall|i: int|
            0 <= i < reports.len() ==> !offers((#[trigger] reports[i]).2, MIDI_SERVICE_UUID@),
        heard_of(reports) matches Some(peer) ==> exists|i: int|
            0 <= i < reports.len() && offers((#[trigger] reports[i]).2, MIDI_SERVICE_UUID@)
                && peer.0 == reports[i].0 && peer.1 == reports[i].1 && forall|j: int|
                0 <= j < i ==> !offers((#[trigger] reports[j]).2, MIDI_SERVICE_UUID@),
    decreases reports.len(),
{
    if reports.len() > 0 {
        let front = reports.drop_last();
        let n = reports.len() - 1;
        first_keyboard_is_kept(front);
        assert forall|i: int| 0 <= i < n implies front[i] == #[trigger] reports[i] by {}
        if heard_of(front) is Some {
            let peer = heard_of(front)->Some_0;
            let i = choose|i: int|
                0 <= i < front.len() && offers((#[trigger] front[i]).2, MIDI_SERVICE_UUID@)
                    && peer.0 == front[i].0 && peer.1 == front[i].1 && forall|j: int|
                    0 <= j < i ==> !offers((#[trigger] front[j]).2, MIDI_SERVICE_UUID@);
            assert(reports[i] == front[i]);
            assert(forall|j: int| 0 <= j < i ==> front[j] == #[trigger] reports[j]);
        } else {
            assert(reports[n] == reports.last());
            assert(forall|j: int| 0 <= j < n ==> front[j] == #[trigger] reports[j]);
        }
    }
}

/// Keeps the address of the first keyboard that was heard since the last reset.
pub struct MidiScanHandler {
    /// The kind of the address, and the address.
    pub found: Option<(u8, [u8; 6])>,
}

impl MidiScanHandler {
    pub fn new() -> (handler: Self)
        ensures
            handler.found is None,
    {
        MidiScanHandler { found: None }
    }

    pub fn reset(&mut self)
        ensures
            final(self).found is None,
    {
        self.found = None;
    }

    /// Takes note of an advertisement.
    pub fn on_adv_report(&mut self, kind: u8, addr: [u8; 6], data: &[u8])
        ensures
            final(self).found == if old(self).found is None && offers(data@, MIDI_SERVICE_UUID@) {
                Some((kind, addr))
            } else {
                old(self).found
            },
            final(self).found == heard(old(self).found, (kind, addr, data@)),
    {
        let uuid: [u8; 16] = MIDI_SERVICE_UUID;
        if self.found.is_none() && adv_contains_uuid(data, &uuid) {
            self.found = Some((kind, addr));
        }
    }
}

/// How to connect to a keyboard.
#[derive(Clone, Copy, Debug, PartialEq, Eq)]
pub struct ConnectRequest {
    /// The kind of the only address that may answer, and the address.
    pub peer: (u8, [u8; 6]),
    pub min_interval_ms: u32,
    pub max_interval_ms: u32,
    /// Advertisers are asked for more than they send by themselves.
    pub active: bool,
}

/// How to connect to the keyboard that was heard, if one was.
pub open spec fn request_for(found: Option<(u8, [u8; 6])>) -> Option<ConnectRequest> {
    match found {
        Some(peer) => Some(
            ConnectRequest {
                peer,
                min_interval_ms: MIN_INTERVAL_MS,
                max_interval_ms: MAX_INTERVAL_MS,
                active: true,
            },
        ),
        None => None,
    }
}

/// A connection is asked for exactly to the first keyboard that was heard, at an interval between
/// 15 and 30 milliseconds; with none heard none is asked for.
pub proof fn connects_to_the_first_keyboard(reports: Seq<(u8, [u8; 6], Seq<u8>)>)
    ensures
        match request_for(heard_of(reports)) {
            Some(request) => {
                &&& request.min_interval_ms == 15
                &&& request.max_interval_ms == 30
                &&& request.active
                &&& exists|i: int|
                    0 <= i < reports.len() && offers((#[trigger] reports[i]).2, MIDI_SERVICE_UUID@)
                        && request.peer.0 == reports[i].0 && request.peer.1 == reports[i].1
                        && forall|j: int|
                        0 <= j < i ==> !offers((#[trigger] reports[j]).2, MIDI_SERVICE_UUID@)
            },
            None => forall|i: int|
                0 <= i < reports.len() ==> !offers((#[trigger] reports[i]).2, MIDI_SERVICE_UUID@),
        },
{
    first_keyboard_is_kept(reports);
}

/// How to connect to the keyboard that was heard, if one was: to that address alone, at an interval
/// short enough to play on.
pub fn connect_request(found: Option<(u8, [u8; 6])>) -> (request: Option<ConnectRequest>)
    ensures
        request == match found {
            Some(peer) => Some(
                ConnectRequest {
                    peer,
                    min_interval_ms: MIN_INTERVAL_MS,
                    max_interval_ms: MAX_INTERVAL_MS,
                    active: true,
                },
            ),
            None => None::<ConnectRequest>,
        },
        request == request_for(found),
{
    match found {
        Some(peer) => Some(
            ConnectRequest {
                peer,
                min_interval_ms: MIN_INTERVAL_MS,
                max_interval_ms: MAX_INTERVAL_MS,
                active: true,
            },
        ),
        None => None,
    }
}

/// How many data bytes follow a status byte.
pub open spec fn data_count(status: u8) -> nat {
    if 0xC0 <= status < 0xE0 {
        1
    } else {
        2
    }
}

/// A channel message in three bytes, with zero for a data byte that it does not have.
pub open spec fn three_bytes(status: u8, data: Seq<u8>) -> Seq<u8> {
    seq![
        status,
        data[0],
        if data_count(status) == 2 {
            data[1]
        } else {
            0
        },
    ]
}

/// The channel messages in `rest`, the part of a packet behind its header, when `status` was the
/// last status byte (zero for none). Bytes with the top bit set are a time stamp and, directly
/// behind it, a new status; without a new status the last one goes on. Anything but a channel
/// message ends the packet, as does a message that is cut off.
pub open spec fn messages_in(rest: Seq<u8>, status: u8) -> Seq<Seq<u8>>
    decreases rest.len(),
{
    let stamped = rest.len() > 0 && rest[0] >= 0x80;
    let fresh = stamped && rest.len() > 1 && rest[1] >= 0x80;
    let now = if fresh {
        rest[1]
    } else {
        status
    };
    let body = if fresh {
        rest.skip(2)
    } else if stamped {
        rest.skip(1)
    } else {
        rest
    };
    if rest.len() == 0 || now == 0 || now >= 0xF0 || body.len() < data_count(now) {
        Seq::empty()
    } else {
        seq![three_bytes(now, body)] + messages_in(body.skip(data_count(now) as int), now)
    }
}

/// The channel messages in a packet: its first byte is a header.
pub open spec fn packet_messages(packet: Seq<u8>) -> Seq<Seq<u8>> {
    if packet.len() < 3 {
        Seq::empty()
    } else {
        messages_in(packet.skip(1), 0)
    }
}

/// The messages in `found`, as sequences.
pub open spec fn as_seqs(found: Seq<[u8; 3]>) -> Seq<Seq<u8>> {
    found.map_values(|m: [u8; 3]| m@)
}

/// Reads the channel messages out of a packet.
pub fn parse_ble_midi(packet: &[u8]) -> (found: Vec<[u8; 3]>)
    ensures
        as_seqs(found@) == packet_messages(packet@),
{
    let mut found: Vec<[u8; 3]> = Vec::new();
    let total: usize = packet.len();
    if total < 3 {
        assert(as_seqs(found@) =~= packet_messages(packet@));
        return found;
    }
    let mut i: usize = 1;
    let mut status: u8 = 0;
    let ghost all = packet_messages(packet@);
    assert(as_seqs(found@) + messages_in(packet@.skip(1), 0) =~= all);
    while i < total
        invariant_except_break
            as_seqs(found@) + messages_in(packet@.skip(i as int), status) == all,
        invariant
            1 <= i <= total,
            total == packet@.len(),
        ensures
            as_seqs(found@) == all,
        decreases total - i,
    {
        let ghost rest = packet@.skip(i as int);
        let ghost before = status;
        let ghost start = i as int;
        if packet[i] >= 0x80 {
            i += 1;
            if i >= total {
                assert(messages_in(rest, status) =~= Seq::empty()) by {
                    assert(rest.skip(1).len() == 0);
                }
                assert(as_seqs(found@) =~= all);
                break;
            }
            if packet[i] >= 0x80 {
                status = packet[i];
                i += 1;
                assert(rest.skip(2) =~= packet@.skip(i as int));
            } else {
                assert(rest.skip(1) =~= packet@.skip(i as int));
            }
        }
        if status == 0 || status >= 0xF0 {
            assert(as_seqs(found@) =~= all);
            break;
        }
        let needed: usize = if 0xC0 <= status && status < 0xE0 {
            1
        } else {
            2
        };
        if needed > total - i {
            assert(as_seqs(found@) =~= all);
            break;
        }
        let d1: u8 = packet[i];
        let d2: u8 = if needed == 2 {
            packet[i + 1]
        } else {
            0
        };
        let ghost body = packet@.skip(i as int);
        let m: [u8; 3] = [status, d1, d2];
        let ghost old_found = found@;
        found.push(m);
        i += needed;
        proof {
            assert(m@ =~= three_bytes(status, body));
            assert(body.skip(needed as int) =~= packet@.skip(i as int));
            assert(messages_in(rest, before) == seq![m@] + messages_in(
                packet@.skip(i as int),
                status,
            ));
            assert(as_seqs(found@) =~= as_seqs(old_found).push(m@));
            assert(as_seqs(found@) + messages_in(packet@.skip(i as int), status) =~= as_seqs(
                old_found,
            ) + messages_in(rest, before));
        }
        if i == total {
            assert(packet@.skip(i as int) =~= Seq::empty());
            assert(as_seqs(found@) =~= all);
        }
    }
    found
}

/// A message as a keyboard sends it.
#[verifier::ext_equal]
pub struct Sent {
    /// The time stamp's low byte, which has its top bit set; a message with the status of the one
    /// before it may go without.
    pub stamp: Option<u8>,
    pub status: u8,
    /// The status byte is left out because the message before it had the same.
    pub running: bool,
    pub data: Seq<u8>,
}

/// `m` may be sent behind a message with status `before` (zero for none).
pub open spec fn sendable(m: Sent, before: u8) -> bool {
    &&& 0x80 <= m.status < 0xF0
    &&& m.data.len() == data_count(m.status)
    &&& forall|i: int| 0 <= i < m.data.len() ==> #[trigger] m.data[i] < 0x80
    &&& m.stamp matches Some(t) ==> t >= 0x80
    &&& m.running ==> m.status == before
    &&& !m.running ==> m.stamp is Some
}

/// The messages may be sent in this order in one packet.
pub open spec fn all_sendable(messages: Seq<Sent>, before: u8) -> bool
    decreases messages.len(),
{
    messages.len() > 0 ==> sendable(messages[0], before) && all_sendable(
        messages.skip(1),
        messages[0].status,
    )
}

pub open spec fn sent_bytes(m: Sent) -> Seq<u8> {
    let stamp = match m.stamp {
        Some(t) => seq![t],
        None => Seq::empty(),
    };
    let status = if m.running {
        Seq::empty()
    } else {
        seq![m.status]
    };
    stamp + status + m.data
}

pub open spec fn all_sent_bytes(messages: Seq<Sent>) -> Seq<u8>
    decreases messages.len(),
{
    if messages.len() == 0 {
        Seq::empty()
    } else {
        sent_bytes(messages[0]) + all_sent_bytes(messages.skip(1))
    }
}

/// Every message that a keyboard puts into a packet is read back, in order, with or without time
/// stamps and repeated status bytes.
pub proof fn sent_is_read_back(header: u8, messages: Seq<Sent>)
    requires
        messages.len() > 0,
        all_sendable(messages, 0),
    ensures
        packet_messages(seq![header] + all_sent_bytes(messages)) == messages.map_values(
            |m: Sent| three_bytes(m.status, m.data),
        ),
{
    let packet = seq![header] + all_sent_bytes(messages);
    assert(packet.skip(1) =~= all_sent_bytes(messages));
    assert(sent_bytes(messages[0]).len() >= 3);
    sent_rest_is_read_back(messages, 0);
}

proof fn sent_rest_is_read_back(messages: Seq<Sent>, before: u8)
    requires
        all_sendable(messages, before),
    ensures
        messages_in(all_sent_bytes(messages), before) == messages.map_values(
            |m: Sent| three_bytes(m.status, m.data),
        ),
    decreases messages.len(),
{
    let bytes = all_sent_bytes(messages);
    let expected = messages.map_values(|m: Sent| three_bytes(m.status, m.data));
    if messages.len() == 0 {
        assert(expected =~= Seq::empty());
    } else {
        let m = messages[0];
        let rest = messages.skip(1);
        sent_rest_is_read_back(rest, m.status);
        let tail = all_sent_bytes(rest);
        let body = m.data + tail;
        assert(m.data.len() >= 1 && m.data[0] < 0x80);
        if !m.running {
            assert(bytes.skip(2) =~= body);
        } else if m.stamp is Some {
            assert(bytes.skip(1) =~= body);
        } else {
            assert(bytes =~= body);
        }
        assert(body.skip(data_count(m.status) as int) =~= tail);
        assert(three_bytes(m.status, body) =~= three_bytes(m.status, m.data));
        assert(messages_in(bytes, before) == seq![three_bytes(m.status, body)] + messages_in(
            tail,
            m.status,
        ));
        assert(expected =~= seq![three_bytes(m.status, m.data)] + rest.map_values(
            |m: Sent| three_bytes(m.status, m.data),
        ));
    }
}

/// Only channel messages are read out of a packet, whatever it holds.
pub proof fn only_channel_messages(rest: Seq<u8>, status: u8, i: int)
    requires
        0 <= i < messages_in(rest, status).len(),
        status == 0 || status >= 0x80,
    ensures
        messages_in(rest, status)[i].len() == 3,
        0x80 <= messages_in(rest, status)[i][0] < 0xF0,
    decreases rest.len(),
{
    let stamped = rest.len() > 0 && rest[0] >= 0x80;
    let fresh = stamped && rest.len() > 1 && rest[1] >= 0x80;
    let now = if fresh {
        rest[1]
    } else {
        status
    };
    let body = if fresh {
        rest.skip(2)
    } else if stamped {
        rest.skip(1)
    } else {
        rest
    };
    if i > 0 {
        let tail = body.skip(data_count(now) as int);
        assert(messages_in(rest, status)[i] == messages_in(tail, now)[i - 1]);
        only_channel_messages(tail, now, i - 1);
    }
}

/// How far the link to a keyboard has come.
#[derive(Clone, Copy, Debug, PartialEq, Eq, Structural)]
pub enum LinkState {
    /// Listening for a keyboard.
    Scanning,
    Connecting,
    /// Connected; asking for a lasting pairing.
    Bonding,
    Securing,
    Pairing,
    /// The link is encrypted from here on.
    OpeningClient,
    FindingService,
    FindingCharacteristic,
    Subscribing,
    /// Messages come in.
    Playing,
}

/// What happened on the link.
#[derive(Clone, Copy, Debug, PartialEq, Eq, Structural)]
pub enum LinkEvent {
    /// What was last asked for was done.
    Done,
    /// What was last asked for failed, or nothing was found.
    Failed,
    PairingComplete,
    PairingFailed,
    Disconnected,
    /// The keyboard asks for other connection parameters.
    ParamsRequested,
    /// A packet of messages came.
    Notified,
    /// Anything else.
    Other,
}

/// What to do next on the link.
#[derive(Clone, Copy, Debug, PartialEq, Eq, Structural)]
pub enum LinkAction {
    /// Listen for a keyboard.
    Scan,
    /// Listen for a keyboard after a pause.
    ScanAfter { millis: u32 },
    /// Connect to the keyboard that was heard, as `connect_request` says.
    Connect,
    SetBondable,
    RequestSecurity,
    AcceptParams,
    OpenClient,
    FindService,
    FindCharacteristic,
    Subscribe,
    /// Read the messages in the packet and pass them on.
    Forward,
    /// Let go of every note, then listen for a keyboard.
    SilenceAndScan,
    /// Wait for what happens.
    Wait,
}

/// The link is encrypted and its services may be used.
pub open spec fn is_encrypted(s: LinkState) -> bool {
    s is OpeningClient || s is FindingService || s is FindingCharacteristic || s is Subscribing
        || s is Playing
}

/// The next state and what to do on `event`: each step follows when the one before is done, a
/// failure goes back to scanning, and events that mean nothing in a state are waited out.
pub open spec fn link_next(state: LinkState, event: LinkEvent) -> (LinkState, LinkAction) {
    match (state, event) {
        (LinkState::Scanning, LinkEvent::Done) => (LinkState::Connecting, LinkAction::Connect),
        (LinkState::Scanning, LinkEvent::Failed) => (
            LinkState::Scanning,
            LinkAction::ScanAfter { millis: SCAN_RETRY_MS },
        ),
        (LinkState::Connecting, LinkEvent::Done) => (LinkState::Bonding, LinkAction::SetBondable),
        (LinkState::Bonding, LinkEvent::Done) => (
            LinkState::Securing,
            LinkAction::RequestSecurity,
        ),
        (LinkState::Securing, LinkEvent::Done) => (LinkState::Pairing, LinkAction::Wait),
        (LinkState::Pairing, LinkEvent::PairingComplete) => (
            LinkState::OpeningClient,
            LinkAction::OpenClient,
        ),
        (LinkState::Pairing, LinkEvent::PairingFailed) => (LinkState::Scanning, LinkAction::Scan),
        (LinkState::Pairing, LinkEvent::ParamsRequested) => (
            LinkState::Pairing,
            LinkAction::AcceptParams,
        ),
        (LinkState::OpeningClient, LinkEvent::Done) => (
            LinkState::FindingService,
            LinkAction::FindService,
        ),
        (LinkState::FindingService, LinkEvent::Done) => (
            LinkState::FindingCharacteristic,
            LinkAction::FindCharacteristic,
        ),
        (LinkState::FindingCharacteristic, LinkEvent::Done) => (
            LinkState::Subscribing,
            LinkAction::Subscribe,
        ),
        (LinkState::Subscribing, LinkEvent::Done) => (LinkState::Playing, LinkAction::Wait),
        (LinkState::Playing, LinkEvent::Notified) => (LinkState::Playing, LinkAction::Forward),
        (LinkState::Playing, LinkEvent::Disconnected) => (
            LinkState::Scanning,
            LinkAction::SilenceAndScan,
        ),
        (LinkState::Playing, LinkEvent::Failed) => (
            LinkState::Scanning,
            LinkAction::SilenceAndScan,
        ),
        (LinkState::Scanning, _) => (LinkState::Scanning, LinkAction::Wait),
        (_, LinkEvent::Failed) => (LinkState::Scanning, LinkAction::Scan),
        (_, LinkEvent::Disconnected) => (LinkState::Scanning, LinkAction::Scan),
        (s, _) => (s, LinkAction::Wait),
    }
}

/// Decides what to do on `event`.
pub fn link_step(state: LinkState, event: LinkEvent) -> (next: (LinkState, LinkAction))
    ensures
        next == link_next(state, event),
{
    match event {
        LinkEvent::Done => match state {
            LinkState::Scanning => (LinkState::Connecting, LinkAction::Connect),
            LinkState::Connecting => (LinkState::Bonding, LinkAction::SetBondable),
            LinkState::Bonding => (LinkState::Securing, LinkAction::RequestSecurity),
            LinkState::Securing => (LinkState::Pairing, LinkAction::Wait),
            LinkState::OpeningClient => (LinkState::FindingService, LinkAction::FindService),
            LinkState::FindingService => (
                LinkState::FindingCharacteristic,
                LinkAction::FindCharacteristic,
            ),
            LinkState::FindingCharacteristic => (LinkState::Subscribing, LinkAction::Subscribe),
            LinkState::Subscribing => (LinkState::Playing, LinkAction::Wait),
            LinkState::Pairing | LinkState::Playing => (state, LinkAction::Wait),
        },
        LinkEvent::Failed | LinkEvent::Disconnected => match state {
            LinkState::Scanning => {
                if event == LinkEvent::Failed {
                    (LinkState::Scanning, LinkAction::ScanAfter { millis: SCAN_RETRY_MS })
                } else {
                    (LinkState::Scanning, LinkAction::Wait)
                }
            },
            LinkState::Playing => (LinkState::Scanning, LinkAction::SilenceAndScan),
            _ => (LinkState::Scanning, LinkAction::Scan),
        },
        LinkEvent::PairingComplete => {
            if state == LinkState::Pairing {
                (LinkState::OpeningClient, LinkAction::OpenClient)
            } else {
                (state, LinkAction::Wait)
            }
        },
        LinkEvent::PairingFailed => {
            if state == LinkState::Pairing {
                (LinkState::Scanning, LinkAction::Scan)
            } else {
                (state, LinkAction::Wait)
            }
        },
        LinkEvent::ParamsRequested => {
            if state == LinkState::Pairing {
                (LinkState::Pairing, LinkAction::AcceptParams)
            } else {
                (state, LinkAction::Wait)
            }
        },
        LinkEvent::Notified => {
            if state == LinkState::Playing {
                (LinkState::Playing, LinkAction::Forward)
            } else {
                (state, LinkAction::Wait)
            }
        },
        LinkEvent::Other => (state, LinkAction::Wait),
    }
}

/// The state of the link after `events`, from scanning on.
pub open spec fn link_after(events: Seq<LinkEvent>) -> LinkState
    decreases events.len(),
{
    if events.len() == 0 {
        LinkState::Scanning
    } else {
        link_next(link_after(events.drop_last()), events.last()).0
    }
}

/// The keyboard's services are used only over an encrypted link: whenever the link is in such a
/// state, pairing was completed and it has not been scanning since.
pub proof fn services_need_pairing(events: Seq<LinkEvent>)
    requires
        is_encrypted(link_after(events)),
    ensures
        exists|i: int|
            0 <= i < events.len() && #[trigger] events[i] is PairingComplete && forall|j: int|
                i < j <= events.len() ==> is_encrypted(#[trigger] link_after(events.take(j))),
    decreases events.len(),
{
    if events.len() > 0 {
        let front = events.drop_last();
        assert(events.take(events.len() as int) =~= events);
        if is_encrypted(link_after(front)) {
            services_need_pairing(front);
            let i = choose|i: int|
                0 <= i < front.len() && #[trigger] front[i] is PairingComplete && forall|j: int|
                    i < j <= front.len() ==> is_encrypted(#[trigger] link_after(front.take(j)));
            assert(events[i] is PairingComplete);
            assert forall|j: int| i < j <= events.len() implies is_encrypted(
                #[trigger] link_after(events.take(j)),
            ) by {
                if j < events.len() {
                    assert(events.take(j) =~= front.take(j));
                }
            }
        } else {
            assert(events.last() is PairingComplete);
            let i = events.len() - 1;
            assert forall|j: int| i < j <= events.len() implies is_encrypted(
                #[trigger] link_after(events.take(j)),
            ) by {
                assert(j == events.len());
            }
            assert(events[i] is PairingComplete);
        }
    }
}

/// A link on which messages came ends in silence: whenever it is lost, every note is let go and a
/// keyboard is looked for again.
pub proof fn lost_link_is_silenced(event: LinkEvent)
    ensures
        link_next(LinkState::Playing, event).0 != LinkState::Playing ==> link_next(
            LinkState::Playing,
            event,
        ) == (LinkState::Scanning, LinkAction::SilenceAndScan),
        link_next(LinkState::Playing, LinkEvent::Disconnected).0 == LinkState::Scanning,
{
}

/// A failure or a lost link leads back to scanning from every state.
pub proof fn failure_rescans(state: LinkState)
    ensures
        link_next(state, LinkEvent::Failed).0 == LinkState::Scanning,
        link_next(state, LinkEvent::Disconnected).0 == LinkState::Scanning,
{
}

/// A channel command, on any channel, that two data bytes follow.
pub open spec fn takes_two(status: u8) -> bool {
    0x80 <= status <= 0xBF || 0xE0 <= status <= 0xEF
}

/// A channel command, on any channel, that one data byte follows.
pub open spec fn takes_one(status: u8) -> bool {
    0xC0 <= status <= 0xDF
}

/// What follows a time stamp and a new status: two data bytes for 80, 90, A0, B0 and E0, one for C0
/// and D0, on any channel; then the rest of the packet, for which that status goes on.
pub proof fn new_status_is_read(t: u8, status: u8, a: u8, b: u8, rest: Seq<u8>, before: u8)
    requires
        t >= 0x80,
    ensures
        takes_two(status) ==> messages_in(seq![t, status, a, b] + rest, before) == seq![
            seq![status, a, b],
        ] + messages_in(rest, status),
        takes_one(status) ==> messages_in(seq![t, status, a] + rest, before) == seq![
            seq![status, a, 0u8],
        ] + messages_in(rest, status),
{
    let two = seq![t, status, a, b] + rest;
    assert(two[0] == t && two[1] == status);
    assert(two.skip(2) =~= seq![a, b] + rest);
    assert(two.skip(2).skip(2) =~= rest);
    let one = seq![t, status, a] + rest;
    assert(one[0] == t && one[1] == status);
    assert(one.skip(2) =~= seq![a] + rest);
    assert(one.skip(2).skip(1) =~= rest);
    if takes_two(status) {
        assert(three_bytes(status, two.skip(2)) =~= seq![status, a, b]);
    }
    if takes_one(status) {
        assert(three_bytes(status, one.skip(2)) =~= seq![status, a, 0u8]);
    }
}

/// Data bytes without a status in front belong to a message with the last status, whether a time
/// stamp stands before them or not.
pub proof fn running_status_is_read(t: u8, status: u8, a: u8, b: u8, rest: Seq<u8>)
    requires
        t >= 0x80,
        a < 0x80,
    ensures
        takes_two(status) ==> messages_in(seq![a, b] + rest, status) == seq![seq![status, a, b]]
            + messages_in(rest, status),
        takes_two(status) ==> messages_in(seq![t, a, b] + rest, status) == seq![seq![status, a, b]]
            + messages_in(rest, status),
        takes_one(status) ==> messages_in(seq![a] + rest, status) == seq![seq![status, a, 0u8]]
            + messages_in(rest, status),
        takes_one(status) ==> messages_in(seq![t, a] + rest, status) == seq![seq![status, a, 0u8]]
            + messages_in(rest, status),
{
    let two = seq![a, b] + rest;
    let stamped_two = seq![t, a, b] + rest;
    let one = seq![a] + rest;
    let stamped_one = seq![t, a] + rest;
    assert(two[0] == a && one[0] == a);
    assert(stamped_two[0] == t && stamped_two[1] == a);
    assert(stamped_one[0] == t && stamped_one[1] == a);
    assert(two.skip(2) =~= rest);
    assert(one.skip(1) =~= rest);
    assert(stamped_two.skip(1) =~= two);
    assert(stamped_one.skip(1) =~= one);
    if takes_two(status) {
        assert(three_bytes(status, two) =~= seq![status, a, b]);
    }
    if takes_one(status) {
        assert(three_bytes(status, one) =~= seq![status, a, 0u8]);
    }
}

/// A packet with one message gives exactly that message, whatever its header `h` and time stamp
/// `t`: its status and its two data bytes, or its one data byte and a zero.
pub proof fn one_message_is_read(h: u8, t: u8, c: u8, a: u8, b: u8)
    requires
        t >= 0x80,
        c < 16,
    ensures
        packet_messages(seq![h, t, (0x80 + c) as u8, a, b]) == seq![seq![(0x80 + c) as u8, a, b]],
        packet_messages(seq![h, t, (0x90 + c) as u8, a, b]) == seq![seq![(0x90 + c) as u8, a, b]],
        packet_messages(seq![h, t, (0xA0 + c) as u8, a, b]) == seq![seq![(0xA0 + c) as u8, a, b]],
        packet_messages(seq![h, t, (0xB0 + c) as u8, a, b]) == seq![seq![(0xB0 + c) as u8, a, b]],
        packet_messages(seq![h, t, (0xC0 + c) as u8, a]) == seq![seq![(0xC0 + c) as u8, a, 0u8]],
        packet_messages(seq![h, t, (0xD0 + c) as u8, a]) == seq![seq![(0xD0 + c) as u8, a, 0u8]],
        packet_messages(seq![h, t, (0xE0 + c) as u8, a, b]) == seq![seq![(0xE0 + c) as u8, a, b]],
{
    lone_message(h, t, (0x80 + c) as u8, a, b);
    lone_message(h, t, (0x90 + c) as u8, a, b);
    lone_message(h, t, (0xA0 + c) as u8, a, b);
    lone_message(h, t, (0xB0 + c) as u8, a, b);
    lone_message(h, t, (0xC0 + c) as u8, a, b);
    lone_message(h, t, (0xD0 + c) as u8, a, b);
    lone_message(h, t, (0xE0 + c) as u8, a, b);
}

proof fn lone_message(h: u8, t: u8, status: u8, a: u8, b: u8)
    requires
        t >= 0x80,
    ensures
        takes_two(status) ==> packet_messages(seq![h, t, status, a, b]) == seq![seq![status, a, b]],
        takes_one(status) ==> packet_messages(seq![h, t, status, a]) == seq![seq![status, a, 0u8]],
{
    let none = Seq::<u8>::empty();
    new_status_is_read(t, status, a, b, none, 0);
    assert(seq![h, t, status, a, b].skip(1) =~= seq![t, status, a, b] + none);
    assert(seq![h, t, status, a].skip(1) =~= seq![t, status, a] + none);
    assert(seq![seq![status, a, b]] + messages_in(none, status) =~= seq![seq![status, a, b]]);
    assert(seq![seq![status, a, 0u8]] + messages_in(none, status) =~= seq![seq![status, a, 0u8]]);
}

/// What cannot be read ends the packet: a system message, data before any status, a message that is
/// cut off, and a time stamp with nothing behind it. A packet of fewer than three bytes is empty.
pub proof fn reading_stops(t: u8, status: u8, a: u8, rest: Seq<u8>, before: u8)
    requires
        t >= 0x80,
    ensures
        status >= 0xF0 ==> messages_in(seq![t, status] + rest, before).len() == 0,
        a < 0x80 ==> messages_in(seq![a] + rest, 0).len() == 0,
        a < 0x80 ==> messages_in(seq![t, a] + rest, 0).len() == 0,
        messages_in(seq![t], before).len() == 0,
        0x80 <= status ==> messages_in(seq![t, status], before).len() == 0,
        0x80 <= status < 0xC0 || 0xE0 <= status ==> messages_in(seq![t, status, a], before).len()
            == 0,
        rest.len() < 3 ==> packet_messages(rest).len() == 0,
{
    assert((seq![t, status] + rest)[0] == t && (seq![t, status] + rest)[1] == status);
    assert((seq![a] + rest)[0] == a);
    assert((seq![t, a] + rest)[0] == t && (seq![t, a] + rest)[1] == a);
    assert(seq![t].skip(1).len() == 0);
    assert(seq![t, status].skip(2).len() == 0);
    assert(seq![t, status, a].skip(2).len() == 1);
}

/// Neither the header nor the value of a time stamp in front of a new status matters.
pub proof fn times_do_not_matter(h1: u8, h2: u8, t1: u8, t2: u8, status: u8, rest: Seq<u8>)
    requires
        t1 >= 0x80,
        t2 >= 0x80,
        status >= 0x80,
    ensures
        packet_messages(seq![h1, t1, status] + rest) == packet_messages(
            seq![h2, t2, status] + rest,
        ),
{
    let p1 = seq![h1, t1, status] + rest;
    let p2 = seq![h2, t2, status] + rest;
    assert(p1.skip(1)[0] == t1 && p1.skip(1)[1] == status);
    assert(p2.skip(1)[0] == t2 && p2.skip(1)[1] == status);
    assert(p1.skip(1).skip(2) =~= rest);
    assert(p2.skip(1).skip(2) =~= rest);
}

/// The bytes of ids of sixteen bytes each, one after the other, and `tail` behind them.
pub open spec fn id_list(ids: Seq<Seq<u8>>, tail: Seq<u8>) -> Seq<u8> {
    Seq::new(
        16 * ids.len() + tail.len(),
        |i: int|
            if i < 16 * ids.len() {
                ids[i / 16][i % 16]
            } else {
                tail[i - 16 * ids.len()]
            },
    )
}

/// A list of ids holds an id exactly if it is one of them; fewer than sixteen bytes behind them do
/// not matter.
proof fn list_holds_its_ids(ids: Seq<Seq<u8>>, tail: Seq<u8>, uuid: Seq<u8>)
    requires
        forall|i: int| 0 <= i < ids.len() ==> #[trigger] ids[i].len() == 16,
        tail.len() < 16,
    ensures
        holds_uuid(id_list(ids, tail), uuid) <==> ids.contains(uuid),
{
    let list = id_list(ids, tail);
    assert forall|k: int| 0 <= k < ids.len() implies #[trigger] list.subrange(16 * k, 16 * k + 16)
        == ids[k] by {
        assert(ids[k].len() == 16);
        assert forall|j: int| 0 <= j < 16 implies list.subrange(16 * k, 16 * k + 16)[j]
            == ids[k][j] by {
            let i = 16 * k + j;
            assert(i / 16 == k && i % 16 == j);
            assert(i < 16 * ids.len());
        }
        assert(list.subrange(16 * k, 16 * k + 16) =~= ids[k]);
    }
    if holds_uuid(list, uuid) {
        let k = choose|k: int|
            0 <= k && 16 * k + 16 <= list.len() && #[trigger] list.subrange(16 * k, 16 * k + 16)
                == uuid;
        assert(k < ids.len());
        assert(ids[k] == uuid);
    }
    if ids.contains(uuid) {
        let k = choose|k: int| 0 <= k < ids.len() && ids[k] == uuid;
        assert(list.subrange(16 * k, 16 * k + 16) == uuid);
    }
}

/// An advertisement offers exactly the services whose ids stand in its parts of type 6 and 7; parts
/// of other types do not matter, wherever they stand. `ids` and `tails` give each part's payload.
pub proof fn services_are_offered(
    types: Seq<u8>,
    ids: Seq<Seq<Seq<u8>>>,
    tails: Seq<Seq<u8>>,
    uuid: Seq<u8>,
)
    requires
        types.len() == ids.len(),
        types.len() == tails.len(),
        forall|i: int| 0 <= i < ids.len() ==> #[trigger] tails[i].len() < 16 && ids[i].len() <= 14,
        forall|i: int, j: int|
            0 <= i < ids.len() && 0 <= j < ids[i].len() ==> #[trigger] ids[i][j].len() == 16,
    ensures
        ({
            let parts = Seq::new(types.len(), |i: int| (types[i], id_list(ids[i], tails[i])));
            offers(advertisement(parts), uuid) <==> exists|i: int|
                0 <= i < types.len() && (types[i] == 6 || types[i] == 7)
                    && #[trigger] ids[i].contains(uuid)
        }),
{
    let parts = Seq::new(types.len(), |i: int| (types[i], id_list(ids[i], tails[i])));
    assert forall|i: int| 0 <= i < parts.len() implies (#[trigger] parts[i]).1.len() < 255 by {
        assert(tails[i].len() < 16 && ids[i].len() <= 14);
    }
    advertised_is_found(parts, uuid);
    assert forall|i: int| 0 <= i < parts.len() implies holds_uuid((#[trigger] parts[i]).1, uuid)
        == ids[i].contains(uuid) by {
        assert(tails[i].len() < 16);
        list_holds_its_ids(ids[i], tails[i], uuid);
    }
    if offers(advertisement(parts), uuid) {
        let i = choose|i: int|
            0 <= i < parts.len() && lists_services((#[trigger] parts[i]).0) && holds_uuid(
                parts[i].1,
                uuid,
            );
        assert(ids[i].contains(uuid));
    }
    if exists|i: int|
        0 <= i < types.len() && (types[i] == 6 || types[i] == 7)
            && #[trigger] ids[i].contains(uuid) {
        let i = choose|i: int|
            0 <= i < types.len() && (types[i] == 6 || types[i] == 7)
                && #[trigger] ids[i].contains(uuid);
        assert(lists_services(parts[i].0) && holds_uuid(parts[i].1, uuid));
    }
}

/// Behind an empty part, or one that claims more bytes than there are, nothing is read.
pub proof fn broken_parts_end_it(len: u8, rest: Seq<u8>, uuid: Seq<u8>)
    requires
        len == 0 || len > rest.len(),
    ensures
        !offers(seq![len] + rest, uuid),
{
    assert((seq![len] + rest)[0] == len);
}

/// How far the link has come, counted in steps.
pub open spec fn link_rank(s: LinkState) -> int {
    match s {
        LinkState::Scanning => 0,
        LinkState::Connecting => 1,
        LinkState::Bonding => 2,
        LinkState::Securing => 3,
        LinkState::Pairing => 4,
        LinkState::OpeningClient => 5,
        LinkState::FindingService => 6,
        LinkState::FindingCharacteristic => 7,
        LinkState::Subscribing => 8,
        LinkState::Playing => 9,
    }
}

/// The link goes on by one step, stays, or starts over; it never skips a step. It goes on when what
/// was asked for is done; pairing goes on when the pairing is complete.
pub proof fn link_goes_step_by_step(s: LinkState, e: LinkEvent)
    ensures
        ({
            let next = link_next(s, e).0;
            let forward = if s is Pairing {
                e is PairingComplete
            } else {
                e is Done && !(s is Playing)
            };
            let back = e is Failed || e is Disconnected || (s is Pairing && e is PairingFailed);
            &&& forward ==> link_rank(next) == link_rank(s) + 1
            &&& back ==> link_rank(next) == 0
            &&& !forward && !back ==> next == s
        }),
{
}

/// What is done at each step: the action that goes with the state that is entered, or that a
/// message or a request of the keyboard calls for; in all other cases the device waits.
pub proof fn link_actions(s: LinkState, e: LinkEvent)
    ensures
        ({
            let (next, action) = link_next(s, e);
            &&& next != s && next is Connecting ==> action == LinkAction::Connect
            &&& next != s && next is Bonding ==> action == LinkAction::SetBondable
            &&& next != s && next is Securing ==> action == LinkAction::RequestSecurity
            &&& next != s && next is Pairing ==> action == LinkAction::Wait
            &&& next != s && next is OpeningClient ==> action == LinkAction::OpenClient
            &&& next != s && next is FindingService ==> action == LinkAction::FindService
            &&& next != s && next is FindingCharacteristic ==> action
                == LinkAction::FindCharacteristic
            &&& next != s && next is Subscribing ==> action == LinkAction::Subscribe
            &&& next != s && next is Playing ==> action == LinkAction::Wait
            &&& next != s && next is Scanning ==> action == if s is Playing {
                LinkAction::SilenceAndScan
            } else {
                LinkAction::Scan
            }
            &&& next == s ==> action == if s is Scanning && e is Failed {
                LinkAction::ScanAfter { millis: 1000 }
            } else if s is Pairing && e is ParamsRequested {
                LinkAction::AcceptParams
            } else if s is Playing && e is Notified {
                LinkAction::Forward
            } else {
                LinkAction::Wait
            }
        }),
{
}

/// What is sent on behalf of a keyboard that was lost is the message that lets every note go. The
/// radio listens for a twentieth of each second, and tries again after a second.
pub proof fn lost_keyboard_lets_go()
    ensures
        ALL_NOTES_OFF@.len() == 3,
        crate::midi::message_of(ALL_NOTES_OFF@[0], ALL_NOTES_OFF@[1], ALL_NOTES_OFF@[2]) == (
        crate::midi::Message::Control { cc: 123, value: 0 }),
        SCAN_INTERVAL_MS == 1000,
        20 * SCAN_WINDOW_MS == SCAN_INTERVAL_MS,
        SCAN_RETRY_MS == 1000,
{
}

} // verus!
