//! System-exclusive transfers over USB-MIDI.
//!
//! A message starts with `F0`, ends with `F7` and travels in four-byte USB packets: a code
//! that says how many bytes follow, then up to three bytes of the message. The bank of presets
//! is sent as one message, each byte of it split into two half bytes so that no payload byte
//! has its top bit set.

use crate::presets::{preset_bytes, Preset};
use crate::storage::{
    bank_image, bank_is_read_back, flash_after, full_bank_size, is_current, record,
    write_replaces_the_bank, write_steps, write_then_load, Storage, ADDR_OFFSET, FLASH_SIZE,
    STORAGE_IMAGE_SIZE,
};
use vstd::prelude::*;

verus! {

pub const SYSEX_START: u8 = 0xF0;

pub const SYSEX_END: u8 = 0xF7;

/// Manufacturer id for non-commercial use.
pub const SYSEX_ID: u8 = 0x7D;

pub const SYSEX_MODEL: u8 = 0x01;

pub const CMD_DUMP_REQ: u8 = 0x01;

pub const CMD_WRITE_REQ: u8 = 0x02;

pub const CMD_WRITE_SUCCESS: u8 = 0x03;

pub const CMD_WRITE_ERROR: u8 = 0x04;

pub const ERR_BAD_LENGTH: u8 = 0x01;

pub const ERR_BAD_MAGIC: u8 = 0x02;

/// `bytes` split into half bytes, high half first.
pub open spec fn nibbles(bytes: Seq<u8>) -> Seq<u8> {
    Seq::new(
        2 * bytes.len(),
        |i: int|
            if i % 2 == 0 {
                (bytes[i / 2] / 16) as u8
            } else {
                (bytes[i / 2] % 16) as u8
            },
    )
}

/// The first four bytes of a message that carries a whole bank.
pub open spec fn write_header() -> Seq<u8> {
    seq![SYSEX_START, SYSEX_ID, SYSEX_MODEL, CMD_WRITE_REQ]
}

/// The message that carries `image`.
pub open spec fn dump_message(image: Seq<u8>) -> Seq<u8> {
    write_header() + nibbles(image) + seq![SYSEX_END]
}

/// The message that reports on a write: the command, then the error if there is one.
pub open spec fn status_message(cmd: u8, err: Option<u8>) -> Seq<u8> {
    match err {
        None => seq![SYSEX_START, SYSEX_ID, SYSEX_MODEL, cmd, SYSEX_END],
        Some(e) => seq![SYSEX_START, SYSEX_ID, SYSEX_MODEL, cmd, e, SYSEX_END],
    }
}

/// The USB packet that carries bytes `3 * k` to `3 * k + 3` of `message`. A packet that does
/// not end the message has code 4; one that ends it has code 5, 6 or 7 for one, two or three
/// bytes, and zeros behind them.
pub open spec fn usb_packet(message: Seq<u8>, k: int) -> Seq<u8> {
    let rest = message.skip(3 * k);
    if rest.len() > 3 {
        seq![4u8] + rest.take(3)
    } else {
        seq![(4 + rest.len()) as u8] + rest + Seq::new((3 - rest.len()) as nat, |i: int| 0u8)
    }
}

/// All packets of `message`, in the order in which they are sent.
pub open spec fn usb_packets(message: Seq<u8>) -> Seq<Seq<u8>> {
    Seq::new(((message.len() + 2) / 3) as nat, |k: int| usb_packet(message, k))
}

/// How many bytes of a system-exclusive message a packet with code `cin` carries.
pub open spec fn sysex_count(cin: u8) -> int {
    if cin == 4 || cin == 7 {
        3
    } else if cin == 5 {
        1
    } else if cin == 6 {
        2
    } else {
        0
    }
}

/// The message bytes that `packet` carries.
pub open spec fn packet_bytes(packet: Seq<u8>) -> Seq<u8> {
    packet.subrange(1, 1 + sysex_count((packet[0] % 16) as u8))
}

/// The message bytes that `packets` carry, one packet after the other.
pub open spec fn joined(packets: Seq<Seq<u8>>) -> Seq<u8>
    decreases packets.len(),
{
    if packets.len() == 0 {
        Seq::empty()
    } else {
        joined(packets.drop_last()) + packet_bytes(packets.last())
    }
}

/// Collects message bytes in threes and turns them into USB packets.
pub struct SysexTx {
    buf: [u8; 3],
    len: usize,
}

impl SysexTx {
    pub closed spec fn wf(&self) -> bool {
        self.len < 3
    }

    /// The bytes that are not in a packet yet.
    pub closed spec fn pending(&self) -> Seq<u8> {
        self.buf@.subrange(0, self.len as int)
    }

    pub fn new() -> (tx: Self)
        ensures
            tx.wf(),
            tx.pending() == Seq::<u8>::empty(),
    {
        SysexTx { buf: [0; 3], len: 0 }
    }

    /// Adds `b` to the message. The third byte of a group completes a packet.
    pub fn push(&mut self, b: u8) -> (packet: Option<[u8; 4]>)
        requires
            old(self).wf(),
        ensures
            final(self).wf(),
            packet is Some <==> old(self).pending().len() == 2,
            packet matches Some(p) ==> p@ == seq![4u8] + old(self).pending().push(b),
            final(self).pending() == if packet is Some {
                Seq::empty()
            } else {
                old(self).pending().push(b)
            },
    {
        self.buf[self.len] = b;
        self.len += 1;
        if self.len == 3 {
            self.len = 0;
            Some([4, self.buf[0], self.buf[1], self.buf[2]])
        } else {
            assert(self.pending() =~= old(self).pending().push(b));
            None
        }
    }

    /// Ends the message: the pending bytes and the terminator, in a packet whose code says how
    /// many bytes it carries.
    pub fn end(&mut self) -> (packet: [u8; 4])
        requires
            old(self).wf(),
        ensures
            final(self).wf(),
            packet@ == usb_packet(old(self).pending().push(SYSEX_END), 0),
            final(self).pending() == Seq::<u8>::empty(),
    {
        let packet = match self.len {
            0 => [0x05, SYSEX_END, 0x00, 0x00],
            1 => [0x06, self.buf[0], SYSEX_END, 0x00],
            _ => [0x07, self.buf[0], self.buf[1], SYSEX_END],
        };
        self.len = 0;
        assert(packet@ =~= usb_packet(old(self).pending().push(SYSEX_END), 0));
        packet
    }
}

/// Hands out the packets of a bank dump one at a time, splitting bytes as it goes, so that the
/// encoded message is never held in memory.
pub struct SysexDump {
    tx: SysexTx,
    at: usize,
    done: bool,
}

impl SysexDump {
    /// The dump is between two packets of the message for an image of `size` bytes.
    pub closed spec fn wf(&self, size: nat) -> bool {
        &&& self.tx.wf()
        &&& self.tx.pending().len() == 0
        &&& self.at <= 4 + 2 * size
        &&& if self.done {
            self.at == 4 + 2 * size
        } else {
            self.at % 3 == 0
        }
    }

    /// How many packets were handed out.
    pub closed spec fn sent(&self) -> int {
        if self.done {
            self.at as int / 3 + 1
        } else {
            self.at as int / 3
        }
    }

    pub fn new() -> (dump: Self)
        ensures
            dump.sent() == 0,
            forall|size: nat| dump.wf(size),
    {
        SysexDump { tx: SysexTx::new(), at: 0, done: false }
    }

    /// The next packet of the dump of `image`, until all were handed out.
    pub fn next_packet(&mut self, image: &[u8]) -> (packet: Option<[u8; 4]>)
        requires
            old(self).wf(image@.len()),
            2 * image@.len() + 5 <= usize::MAX,
        ensures
            final(self).wf(image@.len()),
            packet is Some <==> old(self).sent() < usb_packets(dump_message(image@)).len(),
            packet matches Some(p) ==> p@ == usb_packets(dump_message(image@))[old(self).sent()],
            final(self).sent() == old(self).sent() + if packet is Some {
                1int
            } else {
                0
            },
    {
        let ghost message = dump_message(image@);
        if self.done {
            return None;
        }
        let ghost start = self.at as int;
        let end: usize = 4 + 2 * image.len();
        while self.at < end
            invariant
                self.tx.wf(),
                !self.done,
                message == dump_message(image@),
                end == 4 + 2 * image@.len(),
                end < usize::MAX,
                start % 3 == 0,
                start <= self.at <= end,
                self.at < start + 3,
                self.tx.pending() == message.subrange(start, self.at as int),
                start == old(self).at,
                !old(self).done,
            decreases end - self.at,
        {
            let b: u8 = dump_byte(image, self.at);
            let ghost before = self.tx.pending();
            self.at += 1;
            assert(before.push(b) =~= message.subrange(start, self.at as int));
            if let Some(p) = self.tx.push(b) {
                assert(p@ =~= usb_packet(message, start / 3));
                return Some(p);
            }
        }
        self.done = true;
        let ghost before = self.tx.pending();
        let p = self.tx.end();
        proof {
            assert(before.push(SYSEX_END) =~= message.skip(start));
            assert(before.push(SYSEX_END).skip(0) =~= before.push(SYSEX_END));
            assert(start / 3 * 3 == start);
        }
        Some(p)
    }
}

/// Byte `at` of the message that carries `image`, without its terminator.
fn dump_byte(image: &[u8], at: usize) -> (b: u8)
    requires
        at < 4 + 2 * image@.len(),
        2 * image@.len() + 5 <= usize::MAX,
    ensures
        b == dump_message(image@)[at as int],
{
    if at == 0 {
        SYSEX_START
    } else if at == 1 {
        SYSEX_ID
    } else if at == 2 {
        SYSEX_MODEL
    } else if at == 3 {
        CMD_WRITE_REQ
    } else if at % 2 == 0 {
        image[(at - 4) / 2] / 16
    } else {
        image[(at - 4) / 2] % 16
    }
}

/// The two packets that report on a write.
pub fn sysex_status(cmd: u8, err: Option<u8>) -> (packets: [[u8; 4]; 2])
    ensures
        usb_packets(status_message(cmd, err)) == seq![packets@[0]@, packets@[1]@],
{
    let first: [u8; 4] = [0x04, SYSEX_START, SYSEX_ID, SYSEX_MODEL];
    let second: [u8; 4] = match err {
        None => [0x06, cmd, SYSEX_END, 0x00],
        Some(e) => [0x07, cmd, e, SYSEX_END],
    };
    proof {
        let message = status_message(cmd, err);
        assert(first@ =~= usb_packet(message, 0));
        assert(second@ =~= usb_packet(message, 1));
        assert(usb_packets(message) =~= seq![first@, second@]);
    }
    [first, second]
}

/// What a receiver has taken in.
#[verifier::ext_equal]
pub struct Reception {
    /// A start byte came and no end byte since.
    pub open: bool,
    /// The start byte, manufacturer, model and command, as far as they came.
    pub header: Seq<u8>,
    /// The bytes put together from pairs of half bytes.
    pub data: Seq<u8>,
    /// The first half of a pair whose second half is still to come.
    pub high: Option<u8>,
    /// More data came than fits, or the message ended in half a byte.
    pub overflow: bool,
}

/// A message that has come in completely.
#[derive(Clone, Copy, Debug, PartialEq, Eq, Structural)]
pub struct SysexMessage {
    pub command: u8,
    /// How many bytes its payload put into the image.
    pub len: usize,
    pub overflow: bool,
}

/// The receiver's state after byte `b`, when its image holds `room` bytes.
pub open spec fn receive(s: Reception, b: u8, room: nat) -> Reception {
    if b == SYSEX_START {
        Reception {
            open: true,
            header: seq![b],
            data: Seq::empty(),
            high: None,
            overflow: false,
        }
    } else if !s.open {
        s
    } else if s.header.len() < 4 {
        Reception { header: s.header.push(b), ..s }
    } else if b == SYSEX_END {
        Reception { open: false, overflow: s.overflow || s.high is Some, ..s }
    } else {
        match s.high {
            None => Reception { high: Some((b % 16) as u8), ..s },
            Some(h) => if s.data.len() < room {
                Reception { high: None, data: s.data.push((h * 16 + b % 16) as u8), ..s }
            } else {
                Reception { high: None, overflow: true, ..s }
            },
        }
    }
}

/// Byte `b` ends a message that is meant for this device.
pub open spec fn completes(s: Reception, b: u8) -> bool {
    s.open && s.header.len() == 4 && b == SYSEX_END && s.header[1] == SYSEX_ID && s.header[2]
        == SYSEX_MODEL
}

/// The receiver's state after all of `bytes`.
pub open spec fn receive_all(s: Reception, bytes: Seq<u8>, room: nat) -> Reception
    decreases bytes.len(),
{
    if bytes.len() == 0 {
        s
    } else {
        receive(receive_all(s, bytes.drop_last(), room), bytes.last(), room)
    }
}

/// Takes in system-exclusive messages byte by byte and puts the payload's half bytes together
/// in `image`.
pub struct SysexRx {
    pub image: Vec<u8>,
    pub open: bool,
    pub header: [u8; 4],
    pub header_len: usize,
    /// How many bytes of `image` the payload has filled.
    pub len: usize,
    pub high: Option<u8>,
    pub overflow: bool,
}

impl View for SysexRx {
    type V = Reception;

    open spec fn view(&self) -> Reception {
        Reception {
            open: self.open,
            header: self.header@.subrange(0, self.header_len as int),
            data: self.image@.subrange(0, self.len as int),
            high: self.high,
            overflow: self.overflow,
        }
    }
}

impl SysexRx {
    pub open spec fn wf(&self) -> bool {
        &&& self.header_len <= 4
        &&& self.len <= self.image@.len()
        &&& self.high matches Some(h) ==> h < 16
    }

    /// A receiver whose image holds `size` bytes.
    pub fn new(size: usize) -> (rx: Self)
        ensures
            rx.wf(),
            rx.image@ == Seq::new(size as nat, |i: int| 0u8),
            rx@ == (Reception {
                open: false,
                header: Seq::empty(),
                data: Seq::empty(),
                high: None,
                overflow: false,
            }),
    {
        let mut image: Vec<u8> = Vec::new();
        let mut i: usize = 0;
        while i < size
            invariant
                i <= size,
                image@ == Seq::new(i as nat, |j: int| 0u8),
            decreases size - i,
        {
            image.push(0);
            i += 1;
        }
        let rx = SysexRx {
            image,
            open: false,
            header: [0; 4],
            header_len: 0,
            len: 0,
            high: None,
            overflow: false,
        };
        assert(rx@.header =~= Seq::empty());
        assert(rx@.data =~= Seq::empty());
        rx
    }

    /// Takes in `b`. The byte that ends a message for this device gives the message back; its
    /// payload is the front of `image`.
    pub fn feed(&mut self, b: u8) -> (message: Option<SysexMessage>)
        requires
            old(self).wf(),
        ensures
            final(self).wf(),
            final(self)@ == receive(old(self)@, b, old(self).image@.len()),
            final(self).image@.len() == old(self).image@.len(),
            final(self).image@.skip(final(self)@.data.len() as int) == old(self).image@.skip(
                final(self)@.data.len() as int,
            ),
            final(self).image@.take(final(self)@.data.len() as int) == final(self)@.data,
            message is Some <==> completes(old(self)@, b),
            message matches Some(m) ==> m.command == old(self)@.header[3] && m.len
                == final(self)@.data.len() && m.overflow == final(self)@.overflow,
    {
        let mut message: Option<SysexMessage> = None;
        if b == SYSEX_START {
            self.open = true;
            self.header[0] = b;
            self.header_len = 1;
            self.len = 0;
            self.high = None;
            self.overflow = false;
        } else if !self.open {
            // a byte outside any message
        } else if self.header_len < 4 {
            self.header[self.header_len] = b;
            self.header_len += 1;
        } else if b == SYSEX_END {
            self.open = false;
            if self.high.is_some() {
                self.overflow = true;
            }
            if self.header[1] == SYSEX_ID && self.header[2] == SYSEX_MODEL {
                message = Some(
                    SysexMessage {
                        command: self.header[3],
                        len: self.len,
                        overflow: self.overflow,
                    },
                );
            }
        } else {
            match self.high {
                None => {
                    self.high = Some(b % 16);
                },
                Some(h) => {
                    if self.len < self.image.len() {
                        self.image[self.len] = h * 16 + b % 16;
                        self.len += 1;
                    } else {
                        self.overflow = true;
                    }
                    self.high = None;
                },
            }
        }
        assert(self@ =~= receive(old(self)@, b, old(self).image@.len()));
        message
    }
}

/// The packets of a message carry exactly the bytes of the message.
pub proof fn packets_carry_the_message(message: Seq<u8>)
    ensures
        joined(usb_packets(message)) == message,
{
    let packets = usb_packets(message);
    packets_carry_a_prefix(message, packets.len() as int);
    assert(packets.take(packets.len() as int) =~= packets);
}

proof fn packets_carry_a_prefix(message: Seq<u8>, k: int)
    requires
        0 <= k <= usb_packets(message).len(),
    ensures
        joined(usb_packets(message).take(k)) == if 3 * k < message.len() {
            message.take(3 * k)
        } else {
            message
        },
    decreases k,
{
    let packets = usb_packets(message);
    if k == 0 {
        assert(packets.take(0) =~= Seq::empty());
        assert(message.take(0) =~= Seq::empty());
    } else {
        packets_carry_a_prefix(message, k - 1);
        assert(packets.take(k).drop_last() =~= packets.take(k - 1));
        let p = usb_packet(message, k - 1);
        let rest = message.skip(3 * (k - 1));
        assert(packets.take(k).last() == p);
        if rest.len() > 3 {
            assert(packet_bytes(p) =~= rest.take(3));
            assert(joined(packets.take(k)) =~= message.take(3 * k));
        } else {
            assert(packet_bytes(p) =~= rest);
            assert(joined(packets.take(k)) =~= message);
        }
    }
}

/// Bytes can be taken in one part after the other.
pub proof fn receive_all_parts(s: Reception, a: Seq<u8>, b: Seq<u8>, room: nat)
    ensures
        receive_all(s, a + b, room) == receive_all(receive_all(s, a, room), b, room),
    decreases b.len(),
{
    if b.len() == 0 {
        assert(a + b =~= a);
    } else {
        assert((a + b).drop_last() =~= a + b.drop_last());
        receive_all_parts(s, a, b.drop_last(), room);
    }
}

/// What is left of `bytes` when only `room` of them fit.
pub open spec fn fitting(bytes: Seq<u8>, room: nat) -> Seq<u8> {
    if bytes.len() <= room {
        bytes
    } else {
        bytes.take(room as int)
    }
}

/// Receiving the half bytes of `bytes` behind a complete header appends as many of them to the
/// data as fit.
proof fn receive_nibbles(s: Reception, bytes: Seq<u8>, room: nat)
    requires
        s.open,
        s.header.len() == 4,
        s.high is None,
        s.data.len() == 0,
    ensures
        receive_all(s, nibbles(bytes), room) == (Reception {
            data: fitting(bytes, room),
            overflow: s.overflow || bytes.len() > room,
            ..s
        }),
    decreases bytes.len(),
{
    if bytes.len() == 0 {
        assert(nibbles(bytes) =~= Seq::empty());
        assert(s.data =~= bytes);
    } else {
        let front = bytes.drop_last();
        let last = bytes.last();
        receive_nibbles(s, front, room);
        let pair = seq![(last / 16) as u8, (last % 16) as u8];
        assert(nibbles(bytes) =~= nibbles(front) + pair);
        receive_all_parts(s, nibbles(front), pair, room);
        let mid = Reception {
            data: fitting(front, room),
            overflow: s.overflow || front.len() > room,
            ..s
        };
        let one = receive(mid, pair[0], room);
        assert(pair.drop_last().drop_last() =~= Seq::empty());
        assert(receive_all(mid, Seq::empty(), room) == mid);
        assert(receive_all(mid, pair.drop_last(), room) == one);
        assert(receive_all(mid, pair, room) == receive(one, pair[1], room));
        if bytes.len() <= room {
            assert(bytes =~= front.push(last));
        } else {
            assert(fitting(front, room) =~= bytes.take(room as int));
        }
    }
}

/// The header of a write request opens a message, whatever came before.
proof fn receive_header(s: Reception, room: nat)
    ensures
        receive_all(s, write_header(), room) == (Reception {
            open: true,
            header: write_header(),
            data: Seq::empty(),
            high: None,
            overflow: false,
        }),
{
    let header = write_header();
    let h3 = header.drop_last();
    let h2 = h3.drop_last();
    let h1 = h2.drop_last();
    let h0 = h1.drop_last();
    assert(h0 =~= Seq::empty());
    let s1 = receive(s, SYSEX_START, room);
    let s2 = receive(s1, SYSEX_ID, room);
    let s3 = receive(s2, SYSEX_MODEL, room);
    assert(receive_all(s, h0, room) == s);
    assert(receive_all(s, h1, room) == s1);
    assert(receive_all(s, h2, room) == s2);
    assert(receive_all(s, h3, room) == s3);
    assert(receive_all(s, header, room).header =~= header);
}

/// Everything of a dump but its last byte leaves the receiver with an open message and as much of
/// the image as fits.
proof fn receive_body(image: Seq<u8>, s: Reception, room: nat)
    ensures
        receive_all(s, write_header() + nibbles(image), room) == (Reception {
            open: true,
            header: write_header(),
            data: fitting(image, room),
            high: None,
            overflow: image.len() > room,
        }),
{
    receive_header(s, room);
    receive_all_parts(s, write_header(), nibbles(image), room);
    receive_nibbles(receive_all(s, write_header(), room), image, room);
}

/// A dump of an image, received by a device whose image has room for `room` bytes, ends as a
/// write request and leaves there as much of the image as fits, whatever the device had received
/// before; that more came than fits is noted.
pub proof fn dump_is_received(image: Seq<u8>, s: Reception, room: nat)
    ensures
        ({
            let bytes = joined(usb_packets(dump_message(image)));
            let before = receive_all(s, bytes.drop_last(), room);
            let after = receive_all(s, bytes, room);
            &&& after.data == fitting(image, room)
            &&& after.overflow == (image.len() > room)
            &&& !after.open
            &&& completes(before, bytes.last())
            &&& before.header[3] == CMD_WRITE_REQ
        }),
{
    let message = dump_message(image);
    let body = write_header() + nibbles(image);
    let before = receive_all(s, body, room);
    packets_carry_the_message(message);
    receive_body(image, s, room);
    assert(message.drop_last() =~= body);
    assert(message.last() == SYSEX_END);
    assert(receive_all(s, message, room) == receive(before, SYSEX_END, room));
}

/// What a complete message asks the device to do with its flash.
#[derive(Clone, Copy, Debug, PartialEq, Eq, Structural)]
pub enum SysexJob {
    Nothing,
    /// Read this many bytes of the bank and send them as a dump.
    Dump { len: usize },
    /// Write this many bytes of the image over the bank.
    Write { len: usize },
}

/// What to do about a complete message, in this order.
#[derive(Clone, Copy, Debug, PartialEq, Eq)]
pub struct SysexResponse {
    pub job: SysexJob,
    /// The command and the error of the status message to send.
    pub status: Option<(u8, Option<u8>)>,
    /// The preset in use must be loaded again.
    pub reload: bool,
}

/// A write is done if the payload is exactly a bank of this version; otherwise it is refused with
/// the reason. A dump is given on request. Other commands are passed over.
pub open spec fn response(m: SysexMessage, image: Seq<u8>) -> SysexResponse {
    if m.command == CMD_DUMP_REQ {
        let len = if image.len() < STORAGE_IMAGE_SIZE {
            image.len() as usize
        } else {
            STORAGE_IMAGE_SIZE
        };
        SysexResponse { job: SysexJob::Dump { len }, status: None, reload: false }
    } else if m.command == CMD_WRITE_REQ {
        if m.overflow || m.len != STORAGE_IMAGE_SIZE {
            SysexResponse {
                job: SysexJob::Nothing,
                status: Some((CMD_WRITE_ERROR, Some(ERR_BAD_LENGTH))),
                reload: false,
            }
        } else if is_current(image) {
            SysexResponse {
                job: SysexJob::Write { len: m.len },
                status: Some((CMD_WRITE_SUCCESS, None)),
                reload: true,
            }
        } else {
            SysexResponse {
                job: SysexJob::Nothing,
                status: Some((CMD_WRITE_ERROR, Some(ERR_BAD_MAGIC))),
                reload: false,
            }
        }
    } else {
        SysexResponse { job: SysexJob::Nothing, status: None, reload: false }
    }
}

/// Decides what to do about the message `m`, whose payload is the front of `image`.
pub fn handle_sysex(m: SysexMessage, image: &[u8]) -> (r: SysexResponse)
    requires
        m.len <= image@.len(),
    ensures
        r == response(m, image@),
{
    match m.command {
        CMD_DUMP_REQ => {
            let len: usize = if image.len() < STORAGE_IMAGE_SIZE {
                image.len()
            } else {
                STORAGE_IMAGE_SIZE
            };
            SysexResponse { job: SysexJob::Dump { len }, status: None, reload: false }
        },
        CMD_WRITE_REQ => {
            if m.overflow || m.len != STORAGE_IMAGE_SIZE {
                return SysexResponse {
                    job: SysexJob::Nothing,
                    status: Some((CMD_WRITE_ERROR, Some(ERR_BAD_LENGTH))),
                    reload: false,
                };
            }
            if Storage::init(image) {
                SysexResponse {
                    job: SysexJob::Nothing,
                    status: Some((CMD_WRITE_ERROR, Some(ERR_BAD_MAGIC))),
                    reload: false,
                }
            } else {
                SysexResponse {
                    job: SysexJob::Write { len: m.len },
                    status: Some((CMD_WRITE_SUCCESS, None)),
                    reload: true,
                }
            }
        },
        _ => SysexResponse { job: SysexJob::Nothing, status: None, reload: false },
    }
}

/// A bank that was dumped can be sent back as it is: it arrives unchanged, is written over the
/// bank, and the write is reported as done. An image of any other size is refused for its length,
/// and one with another mark or version is refused for that; in both cases nothing is written.
pub proof fn dump_is_written_back(image: Seq<u8>, s: Reception)
    ensures
        ({
            let room = STORAGE_IMAGE_SIZE as nat;
            let bytes = joined(usb_packets(dump_message(image)));
            let after = receive_all(s, bytes, room);
            let m = SysexMessage {
                command: CMD_WRITE_REQ,
                len: after.data.len() as usize,
                overflow: after.overflow,
            };
            &&& completes(receive_all(s, bytes.drop_last(), room), bytes.last())
            &&& image.len() == STORAGE_IMAGE_SIZE && is_current(image) ==> after.data == image
                && response(m, after.data).job == SysexJob::Write { len: STORAGE_IMAGE_SIZE }
                && response(m, after.data).status == Some((CMD_WRITE_SUCCESS, None::<u8>))
            &&& image.len() != STORAGE_IMAGE_SIZE ==> response(m, after.data).job
                == SysexJob::Nothing && response(m, after.data).status == Some(
                (CMD_WRITE_ERROR, Some(ERR_BAD_LENGTH)),
            )
            &&& image.len() == STORAGE_IMAGE_SIZE && !is_current(image) ==> response(
                m,
                after.data,
            ).job == SysexJob::Nothing && response(m, after.data).status == Some(
                (CMD_WRITE_ERROR, Some(ERR_BAD_MAGIC)),
            )
        }),
{
    dump_is_received(image, s, STORAGE_IMAGE_SIZE as nat);
}

/// A bank that one device dumps and another takes in and writes over its own is the same bank:
/// whatever preset is then read from place `i` is the first device's preset `i`.
pub proof fn transferred_bank_is_loaded(
    presets: Seq<Preset>,
    s: Reception,
    flash: Seq<u8>,
    i: int,
    loaded: Preset,
)
    requires
        presets.len() == 128,
        flash.len() == FLASH_SIZE,
        0 <= i < 128,
        ({
            let bytes = joined(usb_packets(dump_message(bank_image(presets))));
            let data = receive_all(s, bytes, STORAGE_IMAGE_SIZE as nat).data;
            let after = flash_after(flash, write_steps(data.len() as int), data);
            preset_bytes(loaded) == record(after.skip(ADDR_OFFSET as int), i)
        }),
    ensures
        loaded == presets[i],
        ({
            let bytes = joined(usb_packets(dump_message(bank_image(presets))));
            let after = receive_all(s, bytes, STORAGE_IMAGE_SIZE as nat);
            let m = SysexMessage {
                command: CMD_WRITE_REQ,
                len: after.data.len() as usize,
                overflow: after.overflow,
            };
            response(m, after.data).job == SysexJob::Write { len: STORAGE_IMAGE_SIZE }
        }),
{
    bank_is_read_back(presets);
    full_bank_size(presets);
    dump_is_received(bank_image(presets), s, STORAGE_IMAGE_SIZE as nat);
    write_then_load(flash, presets, i, loaded);
}

/// Dumping a device's bank and sending it straight back changes nothing: the write is carried out
/// and leaves the whole flash as it was.
pub proof fn writeback_changes_nothing(flash: Seq<u8>, s: Reception)
    requires
        flash.len() == FLASH_SIZE,
        is_current(flash.skip(ADDR_OFFSET as int)),
    ensures
        ({
            let image = flash.subrange(ADDR_OFFSET as int, ADDR_OFFSET + STORAGE_IMAGE_SIZE);
            let bytes = joined(usb_packets(dump_message(image)));
            let after = receive_all(s, bytes, STORAGE_IMAGE_SIZE as nat);
            let m = SysexMessage {
                command: CMD_WRITE_REQ,
                len: after.data.len() as usize,
                overflow: after.overflow,
            };
            &&& response(m, after.data).job == SysexJob::Write { len: STORAGE_IMAGE_SIZE }
            &&& flash_after(flash, write_steps(after.data.len() as int), after.data) == flash
        }),
{
    let image = flash.subrange(ADDR_OFFSET as int, ADDR_OFFSET + STORAGE_IMAGE_SIZE);
    let bank = flash.skip(ADDR_OFFSET as int);
    assert(forall|k: int| 0 <= k < 16 ==> #[trigger] image[k] == bank[k]);
    dump_is_received(image, s, STORAGE_IMAGE_SIZE as nat);
    write_replaces_the_bank(flash, image);
    let written = flash_after(flash, write_steps(image.len() as int), image);
    assert forall|i: int| 0 <= i < flash.len() implies written[i] == flash[i] by {
        if ADDR_OFFSET <= i < ADDR_OFFSET + STORAGE_IMAGE_SIZE {
            assert(written.subrange(
                ADDR_OFFSET as int,
                ADDR_OFFSET + image.len(),
            )[i - ADDR_OFFSET] == image[i - ADDR_OFFSET]);
        }
    }
    assert(written =~= flash);
}

/// Receiving `payload` behind a complete header: every two bytes make one, as far as there is room.
proof fn payload_is_counted(s: Reception, payload: Seq<u8>, room: nat)
    requires
        s.open,
        s.header.len() == 4,
        s.high is None,
        s.data.len() == 0,
        !s.overflow,
        forall|i: int|
            0 <= i < payload.len() ==> #[trigger] payload[i] != SYSEX_START && payload[i]
                != SYSEX_END,
    ensures
        ({
            let after = receive_all(s, payload, room);
            &&& after.open
            &&& after.header == s.header
            &&& after.high is Some <==> payload.len() % 2 == 1
            &&& after.data.len() == if payload.len() / 2 < room {
                payload.len() / 2
            } else {
                room
            }
            &&& after.overflow <==> payload.len() / 2 > room
        }),
    decreases payload.len(),
{
    if payload.len() > 0 {
        payload_is_counted(s, payload.drop_last(), room);
    }
}

/// A write request is carried out only if its payload is exactly two half bytes for each byte of a
/// bank: with any other number of bytes, an odd one included, it is refused for its length.
pub proof fn write_needs_exact_size(s: Reception, payload: Seq<u8>)
    requires
        payload.len() != 2 * STORAGE_IMAGE_SIZE,
        forall|i: int|
            0 <= i < payload.len() ==> #[trigger] payload[i] != SYSEX_START && payload[i]
                != SYSEX_END,
    ensures
        ({
            let after = receive_all(
                s,
                write_header() + payload + seq![SYSEX_END],
                STORAGE_IMAGE_SIZE as nat,
            );
            let m = SysexMessage {
                command: CMD_WRITE_REQ,
                len: after.data.len() as usize,
                overflow: after.overflow,
            };
            &&& response(m, after.data).job == SysexJob::Nothing
            &&& response(m, after.data).status == Some((CMD_WRITE_ERROR, Some(ERR_BAD_LENGTH)))
        }),
{
    let room = STORAGE_IMAGE_SIZE as nat;
    let body = write_header() + payload;
    let all = body + seq![SYSEX_END];
    receive_header(s, room);
    receive_all_parts(s, write_header(), payload, room);
    payload_is_counted(receive_all(s, write_header(), room), payload, room);
    assert(all.drop_last() =~= body);
    assert(all.last() == SYSEX_END);
    assert(receive_all(s, all, room) == receive(receive_all(s, body, room), SYSEX_END, room));
}

/// A start byte makes the receiver forget: what comes from it on is taken in alike, whatever came
/// before.
pub proof fn start_byte_forgets(s1: Reception, s2: Reception, bytes: Seq<u8>, room: nat)
    ensures
        receive_all(s1, seq![0xF0u8] + bytes, room) == receive_all(
            s2,
            seq![0xF0u8] + bytes,
            room,
        ),
        receive_all(s1, seq![0xF0u8], room).open,
        receive_all(s1, seq![0xF0u8], room).header == seq![0xF0u8],
        receive_all(s1, seq![0xF0u8], room).data.len() == 0,
        receive_all(s1, seq![0xF0u8], room).high is None,
        !receive_all(s1, seq![0xF0u8], room).overflow,
{
    let start = seq![0xF0u8];
    receive_all_parts(s1, start, bytes, room);
    receive_all_parts(s2, start, bytes, room);
    assert(start.drop_last() =~= Seq::empty());
    assert(receive_all(s1, start.drop_last(), room) == s1);
    assert(receive_all(s2, start.drop_last(), room) == s2);
}

/// Outside a message every byte but a start byte is passed over.
pub proof fn stray_bytes_are_passed_over(s: Reception, bytes: Seq<u8>, room: nat)
    requires
        !s.open,
        forall|i: int| 0 <= i < bytes.len() ==> #[trigger] bytes[i] != 0xF0,
    ensures
        receive_all(s, bytes, room) == s,
    decreases bytes.len(),
{
    if bytes.len() > 0 {
        stray_bytes_are_passed_over(s, bytes.drop_last(), room);
    }
}

/// The three bytes behind the start byte are the manufacturer, the model and the command, whatever
/// they are; nothing is put into the image meanwhile.
pub proof fn header_is_four_bytes(s: Reception, id: u8, model: u8, command: u8, room: nat)
    requires
        id != 0xF0,
        model != 0xF0,
        command != 0xF0,
    ensures
        receive_all(s, seq![0xF0u8, id, model, command], room) == (Reception {
            open: true,
            header: seq![0xF0u8, id, model, command],
            data: Seq::empty(),
            high: None,
            overflow: false,
        }),
{
    let h4 = seq![0xF0u8, id, model, command];
    let h3 = h4.drop_last();
    let h2 = h3.drop_last();
    let h1 = h2.drop_last();
    assert(h1.drop_last() =~= Seq::empty());
    let s1 = receive(s, 0xF0, room);
    let s2 = receive(s1, id, room);
    let s3 = receive(s2, model, room);
    assert(receive_all(s, h1.drop_last(), room) == s);
    assert(receive_all(s, h1, room) == s1);
    assert(receive_all(s, h2, room) == s2);
    assert(receive_all(s, h3, room) == s3);
    assert(receive_all(s, h4, room).header =~= h4);
}

/// The payload's bytes in pairs make the image's bytes: the lower half of the first is the upper
/// half of the byte, the lower half of the second its lower half; their own upper halves do not
/// matter.
pub proof fn pairs_make_bytes(s: Reception, payload: Seq<u8>, room: nat)
    requires
        s.open,
        s.header.len() == 4,
        s.high is None,
        s.data.len() == 0,
        payload.len() % 2 == 0,
        payload.len() <= 2 * room,
        forall|i: int|
            0 <= i < payload.len() ==> #[trigger] payload[i] != 0xF0 && payload[i] != 0xF7,
    ensures
        ({
            let after = receive_all(s, payload, room);
            &&& after.data.len() == payload.len() / 2
            &&& forall|i: int|
                0 <= i < payload.len() / 2 ==> #[trigger] after.data[i] == 16 * (payload[2 * i]
                    % 16) + payload[2 * i + 1] % 16
            &&& after == (Reception { data: after.data, ..s })
        }),
    decreases payload.len(),
{
    if payload.len() > 0 {
        let first = payload.drop_last();
        let front = first.drop_last();
        pairs_make_bytes(s, front, room);
        let mid = receive_all(s, front, room);
        let n = front.len() as int;
        assert(payload[n] != 0xF0 && payload[n + 1] != 0xF0);
        let one = receive(mid, payload[n], room);
        assert(receive_all(s, first, room) == one);
        let after = receive(one, payload[n + 1], room);
        assert(receive_all(s, payload, room) == after);
        assert forall|i: int| 0 <= i < payload.len() / 2 implies #[trigger] after.data[i] == 16 * (
        payload[2 * i] % 16) + payload[2 * i + 1] % 16 by {
            if 2 * i < n {
                assert(mid.data[i] == 16 * (front[2 * i] % 16) + front[2 * i + 1] % 16);
            } else {
                assert(2 * i == n);
            }
        }
    } else {
        assert(receive_all(s, payload, room) == s);
    }
}

/// A bank's message is framed by F0 7D 01 02 and F7, and each of the image's bytes stands in it as
/// two bytes below 16 that make it up; so nothing inside looks like the start or the end.
pub proof fn dump_is_seven_bit(image: Seq<u8>)
    ensures
        dump_message(image).len() == 2 * image.len() + 5,
        dump_message(image)[0] == 0xF0,
        dump_message(image)[1] == 0x7D,
        dump_message(image)[2] == 0x01,
        dump_message(image)[3] == 0x02,
        dump_message(image).last() == 0xF7,
        forall|i: int|
            0 <= i < image.len() ==> #[trigger] image[i] == 16 * dump_message(image)[4 + 2 * i]
                + dump_message(image)[5 + 2 * i],
        forall|i: int|
            4 <= i < 2 * image.len() + 4 ==> #[trigger] dump_message(image)[i] < 16,
{
    let m = dump_message(image);
    assert forall|i: int| 0 <= i < image.len() implies #[trigger] image[i] == 16 * m[4 + 2 * i]
        + m[5 + 2 * i] by {
        assert(m[4 + 2 * i] == nibbles(image)[2 * i]);
        assert(m[5 + 2 * i] == nibbles(image)[2 * i + 1]);
        assert((2 * i) / 2 == i && (2 * i + 1) / 2 == i);
    }
    assert forall|i: int| 4 <= i < 2 * image.len() + 4 implies #[trigger] m[i] < 16 by {
        assert(m[i] == nibbles(image)[i - 4]);
    }
}

/// A message travels in packets of four bytes: each but the last has code 4 and three of its bytes,
/// and the last has code 5, 6 or 7 for one, two or three of them and zeros behind.
pub proof fn packets_have_their_codes(message: Seq<u8>, k: int)
    requires
        message.len() > 0,
        0 <= k < usb_packets(message).len(),
    ensures
        ({
            let p = usb_packets(message)[k];
            let left = message.len() - 3 * k;
            &&& p.len() == 4
            &&& left > 0
            &&& p[0] == if left > 3 {
                4
            } else {
                4 + left
            }
            &&& forall|i: int|
                0 <= i < 3 ==> #[trigger] p[1 + i] == if i < left {
                    message[3 * k + i]
                } else {
                    0
                }
            &&& k == usb_packets(message).len() - 1 <==> left <= 3
        }),
{
}

/// A report on a write is F0 7D 01, the command, the error if there is one, and F7.
pub proof fn status_has_its_bytes(cmd: u8, e: u8)
    ensures
        status_message(cmd, None) == seq![0xF0u8, 0x7Du8, 0x01u8, cmd, 0xF7u8],
        status_message(cmd, Some(e)) == seq![0xF0u8, 0x7Du8, 0x01u8, cmd, e, 0xF7u8],
        usb_packets(status_message(cmd, None)) == seq![
            seq![4u8, 0xF0u8, 0x7Du8, 0x01u8],
            seq![6u8, cmd, 0xF7u8, 0u8],
        ],
        usb_packets(status_message(cmd, Some(e))) == seq![
            seq![4u8, 0xF0u8, 0x7Du8, 0x01u8],
            seq![7u8, cmd, e, 0xF7u8],
        ],
{
    let short = status_message(cmd, None);
    let long = status_message(cmd, Some(e));
    assert(usb_packet(short, 0) =~= seq![4u8, 0xF0u8, 0x7Du8, 0x01u8]);
    assert(usb_packet(short, 1) =~= seq![6u8, cmd, 0xF7u8, 0u8]);
    assert(usb_packet(long, 0) =~= seq![4u8, 0xF0u8, 0x7Du8, 0x01u8]);
    assert(usb_packet(long, 1) =~= seq![7u8, cmd, e, 0xF7u8]);
    assert(usb_packets(short) =~= seq![usb_packet(short, 0), usb_packet(short, 1)]);
    assert(usb_packets(long) =~= seq![usb_packet(long, 0), usb_packet(long, 1)]);
}

/// Command 1 asks for the bank, of which a dump gives as much as a full bank has or the image
/// holds. Command 2 writes the bank if it came in whole and is of this version, and only then;
/// the answer is 3, or 4 with the reason 1 for a wrong length and 2 for a wrong mark or version.
/// Every other command does nothing. The preset in use is loaded again exactly after a write.
pub proof fn commands_are_answered(m: SysexMessage, image: Seq<u8>)
    requires
        image.len() <= usize::MAX,
    ensures
        ({
            let r = response(m, image);
            let whole = m.len == 28_672 && !m.overflow;
            &&& m.command == 1 ==> r.status is None && (r.job matches SysexJob::Dump { len } && len
                <= 28_672 && len <= image.len() && (len == 28_672 || len == image.len()))
            &&& r.job is Dump ==> m.command == 1
            &&& r.job is Write <==> m.command == 2 && whole && is_current(image)
            &&& r.job is Write ==> r.job == (SysexJob::Write { len: 28_672 })
            &&& r.status == Some((3u8, None::<u8>)) <==> r.job is Write
            &&& r.status == Some((4u8, Some(1u8))) <==> m.command == 2 && !whole
            &&& r.status == Some((4u8, Some(2u8))) <==> m.command == 2 && whole && !is_current(
                image,
            )
            &&& r.reload <==> r.job is Write
            &&& m.command != 1 && m.command != 2 ==> r.job is Nothing && r.status is None
        }),
{
}

} // verus!
