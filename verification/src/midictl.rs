//! The host's side: what the command line tool sends and how it reads the answers.

use crate::bytes::le32;
use crate::sysex::{
    dump_message, nibbles, status_message, CMD_DUMP_REQ, CMD_WRITE_ERROR, CMD_WRITE_REQ,
    CMD_WRITE_SUCCESS, SYSEX_END, SYSEX_ID, SYSEX_MODEL, SYSEX_START,
};
use crate::midi::{message_of, Message};
use crate::text::{holds, holds_text, same_text};
use vstd::prelude::*;
use vstd::utf8::encode_utf8;

verus! {

/// What a port's name must hold unless the user says otherwise.
pub const DEFAULT_PORT: &'static str = "picodsp";

/// A bank is sent in pieces of this many bytes.
pub const CHUNK_SIZE: usize = 240;

/// The value of a digit, or 255 if `b` is none.
pub open spec fn digit_value(b: u8) -> int {
    if 48 <= b <= 57 {
        b - 48
    } else if 97 <= b <= 102 {
        b - 87
    } else if 65 <= b <= 70 {
        b - 55
    } else {
        255
    }
}

/// The number that `digits` make up, or none if they are not all digits.
pub open spec fn number(digits: Seq<u8>, radix: int) -> Option<int>
    decreases digits.len(),
{
    if digits.len() == 0 {
        Some(0)
    } else {
        match number(digits.drop_last(), radix) {
            Some(n) => if digit_value(digits.last()) < radix {
                Some(n * radix + digit_value(digits.last()))
            } else {
                None
            },
            None => None,
        }
    }
}

/// A number below 256, with or without a plus sign in front; there must be a digit.
pub open spec fn small_number(text: Seq<u8>, radix: int) -> Option<u8> {
    let digits = if text.len() > 0 && text[0] == 43 {
        text.skip(1)
    } else {
        text
    };
    match number(digits, radix) {
        Some(n) => if digits.len() > 0 && n < 256 {
            Some(n as u8)
        } else {
            None
        },
        None => None,
    }
}

/// The number that `text` stands for: hexadecimal behind `0x` or `0X`, else decimal.
pub open spec fn byte_value(text: Seq<u8>) -> Option<u8> {
    if text.len() >= 2 && text[0] == 48 && (text[1] == 120 || text[1] == 88) {
        small_number(text.skip(2), 16)
    } else {
        small_number(text, 10)
    }
}

fn digit(b: u8) -> (value: u32)
    ensures
        value == digit_value(b),
{
    if 48 <= b && b <= 57 {
        (b - 48) as u32
    } else if 97 <= b && b <= 102 {
        (b - 87) as u32
    } else if 65 <= b && b <= 70 {
        (b - 55) as u32
    } else {
        255
    }
}

proof fn number_grows(digits: Seq<u8>, i: int, radix: int)
    requires
        0 <= i <= digits.len(),
        radix >= 2,
    ensures
        number(digits.take(i), radix) matches Some(n) ==> n >= 0,
        number(digits, radix) matches Some(n) ==> number(digits.take(i), radix) is Some
            && number(digits.take(i), radix)->0 <= n,
    decreases digits.len(),
{
    if i == digits.len() {
        assert(digits.take(i) =~= digits);
        if digits.len() > 0 {
            let front = digits.drop_last();
            number_grows(front, front.len() as int, radix);
            assert(front.take(front.len() as int) =~= front);
            if number(front, radix) is Some {
                let n = number(front, radix)->0;
                assert(n * radix >= 0) by (nonlinear_arith)
                    requires
                        n >= 0,
                        radix >= 2,
                ;
            }
        }
    } else {
        let front = digits.drop_last();
        number_grows(front, i, radix);
        assert(front.take(i) =~= digits.take(i));
        number_grows(front, front.len() as int, radix);
        assert(front.take(front.len() as int) =~= front);
        if number(front, radix) is Some {
            let n = number(front, radix)->0;
            assert(n * radix >= n) by (nonlinear_arith)
                requires
                    n >= 0,
                    radix >= 2,
            ;
        }
    }
}

/// The number below 256 that the bytes of `text` from `from` on stand for.
fn parse_small(text: &[u8], from: usize, radix: u32) -> (value: Option<u8>)
    requires
        from <= text@.len(),
        radix == 10 || radix == 16,
    ensures
        value == small_number(text@.skip(from as int), radix as int),
{
    let total: usize = text.len();
    let start: usize = if from < total && text[from] == 43 {
        from + 1
    } else {
        from
    };
    let ghost rest = text@.skip(from as int);
    let ghost digits = if rest.len() > 0 && rest[0] == 43 {
        rest.skip(1)
    } else {
        rest
    };
    assert(digits =~= text@.skip(start as int));
    if start == total {
        return None;
    }
    let mut value: u32 = 0;
    let mut i: usize = start;
    assert(digits.take(0) =~= Seq::empty());
    while i < total
        invariant
            start <= i <= total,
            total == text@.len(),
            digits == text@.skip(start as int),
            digits.len() > 0,
            radix == 10 || radix == 16,
            value < 256,
            number(digits.take(i - start), radix as int) == Some(value as int),
            small_number(rest, radix as int) == match number(digits, radix as int) {
                Some(n) => if n < 256 {
                    Some(n as u8)
                } else {
                    None
                },
                None => None,
            },
            rest == text@.skip(from as int),
        decreases total - i,
    {
        let d: u32 = digit(text[i]);
        let ghost upto = digits.take(i - start + 1);
        proof {
            assert(upto.drop_last() =~= digits.take(i - start));
            assert(upto.last() == text@[i as int]);
            number_grows(digits, i - start + 1, radix as int);
        }
        if d >= radix {
            return None;
        }
        assert(value * radix <= 255 * 16) by (nonlinear_arith)
            requires
                value < 256,
                radix == 10 || radix == 16,
        ;
        value = value * radix + d;
        if value > 255 {
            return None;
        }
        i += 1;
    }
    assert(digits.take(total - start) =~= digits);
    Some(value as u8)
}

/// The number below 256 that `s` stands for.
pub fn parse_byte(s: &str) -> (value: Option<u8>)
    ensures
        value == byte_value(encode_utf8(s@)),
{
    let text = s.as_bytes();
    assert(text@.skip(0) =~= text@);
    if text.len() >= 2 && text[0] == 48 && (text[1] == 120 || text[1] == 88) {
        parse_small(text, 2, 16)
    } else {
        parse_small(text, 0, 10)
    }
}

/// The lower-case form of a text.
pub uninterp spec fn lowercase(text: Seq<char>) -> Seq<char>;

/// `str::to_lowercase`: the lower-case form of `s`, which depends on `s` alone. What it is, is not
/// said here: it goes by the tables of the Unicode standard.
#[verifier::external_body]
fn to_lowercase(s: &str) -> (lower: String)
    ensures
        lower@ == lowercase(s@),
{
    s.to_lowercase()
}

/// A port with this name is the one that is looked for: the name holds the text, whatever the case.
pub open spec fn port_matches(name: Option<String>, needle: Seq<char>) -> bool {
    name matches Some(n) && holds(encode_utf8(lowercase(n@)), encode_utf8(lowercase(needle)))
}

/// The first port whose name holds `needle`, whatever the case. A port whose name could not be read
/// is passed over.
pub fn find_port(names: &Vec<Option<String>>, needle: &str) -> (found: Option<usize>)
    ensures
        match found {
            Some(i) => {
                &&& i < names@.len()
                &&& port_matches(names@[i as int], needle@)
                &&& forall|j: int| 0 <= j < i ==> !port_matches(#[trigger] names@[j], needle@)
            },
            None => forall|j: int|
                0 <= j < names@.len() ==> !port_matches(#[trigger] names@[j], needle@),
        },
{
    let wanted = to_lowercase(needle);
    let mut i: usize = 0;
    while i < names.len()
        invariant
            i <= names@.len(),
            wanted@ == lowercase(needle@),
            forall|j: int| 0 <= j < i ==> !port_matches(#[trigger] names@[j], needle@),
        decreases names@.len() - i,
    {
        match &names[i] {
            Some(name) => {
                let lower = to_lowercase(name.as_str());
                if holds_text(lower.as_str(), wanted.as_str()) {
                    return Some(i);
                }
            },
            None => {},
        }
        i += 1;
    }
    None
}

/// What the user asks for.
#[derive(Clone, Copy, Debug, PartialEq, Eq, Structural)]
pub enum Request {
    /// No command was given: the ports are listed and the usage is shown.
    Usage,
    List,
    Program { program: u8 },
    /// The note is held for a time that the second argument gives.
    Note { note: u8, velocity: u8 },
    Control { controller: u8, value: u8 },
    /// The arguments are the bytes.
    Raw,
    Dump,
    Writeback,
    /// A number that the command needs is missing.
    Missing,
    Unknown,
}

/// The number that argument `i` stands for.
pub open spec fn byte_arg(args: Seq<String>, i: int) -> Option<u8> {
    if i < args.len() {
        byte_value(encode_utf8(args[i]@))
    } else {
        None
    }
}

/// The number that argument `i` stands for, or `default`.
pub open spec fn byte_arg_or(args: Seq<String>, i: int, default: u8) -> u8 {
    match byte_arg(args, i) {
        Some(b) => b,
        None => default,
    }
}

/// What the arguments ask for. A note has velocity 100 unless a number says otherwise.
pub open spec fn request_of(args: Seq<String>) -> Request {
    if args.len() == 0 || args[0]@.len() == 0 {
        Request::Usage
    } else if args[0]@ == "list"@ {
        Request::List
    } else if args[0]@ == "pc"@ {
        match byte_arg(args, 1) {
            Some(program) => Request::Program { program },
            None => Request::Missing,
        }
    } else if args[0]@ == "note"@ {
        match byte_arg(args, 1) {
            Some(note) => Request::Note { note, velocity: byte_arg_or(args, 3, 100) },
            None => Request::Missing,
        }
    } else if args[0]@ == "cc"@ {
        match (byte_arg(args, 1), byte_arg(args, 2)) {
            (Some(controller), Some(value)) => Request::Control { controller, value },
            _ => Request::Missing,
        }
    } else if args[0]@ == "raw"@ {
        Request::Raw
    } else if args[0]@ == "dump"@ {
        Request::Dump
    } else if args[0]@ == "writeback"@ {
        Request::Writeback
    } else {
        Request::Unknown
    }
}

fn arg(args: &Vec<String>, i: usize) -> (value: Option<u8>)
    ensures
        value == byte_arg(args@, i as int),
{
    if i < args.len() {
        parse_byte(args[i].as_str())
    } else {
        None
    }
}

/// What the arguments ask for.
pub fn parse_request(args: &Vec<String>) -> (request: Request)
    ensures
        request == request_of(args@),
{
    if args.len() == 0 {
        return Request::Usage;
    }
    let cmd = args[0].as_str();
    if cmd.is_empty() {
        Request::Usage
    } else if same_text(cmd, "list") {
        Request::List
    } else if same_text(cmd, "pc") {
        match arg(args, 1) {
            Some(program) => Request::Program { program },
            None => Request::Missing,
        }
    } else if same_text(cmd, "note") {
        match arg(args, 1) {
            Some(note) => {
                let velocity: u8 = match arg(args, 3) {
                    Some(v) => v,
                    None => 100,
                };
                Request::Note { note, velocity }
            },
            None => Request::Missing,
        }
    } else if same_text(cmd, "cc") {
        match arg(args, 1) {
            Some(controller) => match arg(args, 2) {
                Some(value) => Request::Control { controller, value },
                None => Request::Missing,
            },
            None => Request::Missing,
        }
    } else if same_text(cmd, "raw") {
        Request::Raw
    } else if same_text(cmd, "dump") {
        Request::Dump
    } else if same_text(cmd, "writeback") {
        Request::Writeback
    } else {
        Request::Unknown
    }
}

/// The bytes that the arguments behind the command stand for; what is no number is left out.
pub open spec fn raw_bytes(args: Seq<String>) -> Seq<u8>
    decreases args.len(),
{
    if args.len() <= 1 {
        Seq::empty()
    } else {
        let front = raw_bytes(args.drop_last());
        match byte_value(encode_utf8(args.last()@)) {
            Some(b) => front.push(b),
            None => front,
        }
    }
}

/// The bytes of a raw message.
pub fn parse_raw(args: &Vec<String>) -> (bytes: Vec<u8>)
    ensures
        bytes@ == raw_bytes(args@),
{
    let mut bytes: Vec<u8> = Vec::new();
    if args.len() == 0 {
        return bytes;
    }
    let mut i: usize = 1;
    while i < args.len()
        invariant
            1 <= i <= args@.len(),
            bytes@ == raw_bytes(args@.take(i as int)),
        decreases args@.len() - i,
    {
        assert(args@.take(i + 1).drop_last() =~= args@.take(i as int));
        match parse_byte(args[i].as_str()) {
            Some(b) => {
                bytes.push(b);
            },
            None => {},
        }
        i += 1;
    }
    assert(args@.take(i as int) =~= args@);
    bytes
}

/// The bytes of a program change.
pub open spec fn program_bytes(program: u8) -> Seq<u8> {
    seq![0xC0u8, (program % 128) as u8]
}

/// The bytes that start a note.
pub open spec fn note_on_bytes(note: u8, velocity: u8) -> Seq<u8> {
    seq![0x90u8, (note % 128) as u8, (velocity % 128) as u8]
}

/// The bytes that end a note.
pub open spec fn note_off_bytes(note: u8) -> Seq<u8> {
    seq![0x80u8, (note % 128) as u8, 0u8]
}

/// The bytes of a control change.
pub open spec fn control_bytes(controller: u8, value: u8) -> Seq<u8> {
    seq![0xB0u8, (controller % 128) as u8, (value % 128) as u8]
}

/// The bytes that ask for a dump.
pub open spec fn dump_request_bytes() -> Seq<u8> {
    seq![SYSEX_START, SYSEX_ID, SYSEX_MODEL, CMD_DUMP_REQ, SYSEX_END]
}

/// What the tool sends the device understands: a program change selects that preset, a note starts
/// and ends, and a controller takes that value. Numbers from 128 on are taken modulo 128, so that
/// no data byte has its top bit set.
pub proof fn device_understands_the_tool(a: u8, b: u8)
    ensures
        ({
            let m = program_bytes(a);
            m.len() == 2 && m[1] < 128 && message_of(m[0], m[1], 0) == (Message::Program {
                index: (a % 128) as u8,
            })
        }),
        b % 128 > 0 ==> ({
            let m = note_on_bytes(a, b);
            m.len() == 3 && message_of(m[0], m[1], m[2]) == (Message::NoteOn {
                note: (a % 128) as u8,
                velocity: (b % 128) as u8,
            })
        }),
        ({
            let m = note_off_bytes(a);
            m.len() == 3 && message_of(m[0], m[1], m[2]) == (Message::NoteOff {
                note: (a % 128) as u8,
            })
        }),
        ({
            let m = control_bytes(a, b);
            m.len() == 3 && message_of(m[0], m[1], m[2]) == (Message::Control {
                cc: (a % 128) as u8,
                value: (b % 128) as u8,
            })
        }),
        dump_request_bytes() == seq![0xF0u8, 0x7Du8, 0x01u8, 0x01u8, 0xF7u8],
{
}

/// A program change; numbers are taken modulo 128.
pub fn program_change(program: u8) -> (bytes: [u8; 2])
    ensures
        bytes@ == seq![0xC0u8, (program % 128) as u8],
        bytes@ == program_bytes(program),
{
    [0xC0, program % 128]
}

/// The messages that start and end a note.
pub fn note_messages(note: u8, velocity: u8) -> (messages: ([u8; 3], [u8; 3]))
    ensures
        messages.0@ == seq![0x90u8, (note % 128) as u8, (velocity % 128) as u8],
        messages.1@ == seq![0x80u8, (note % 128) as u8, 0u8],
        messages.0@ == note_on_bytes(note, velocity),
        messages.1@ == note_off_bytes(note),
{
    ([0x90, note % 128, velocity % 128], [0x80, note % 128, 0])
}

/// A control change.
pub fn control_change(controller: u8, value: u8) -> (bytes: [u8; 3])
    ensures
        bytes@ == seq![0xB0u8, (controller % 128) as u8, (value % 128) as u8],
        bytes@ == control_bytes(controller, value),
{
    [0xB0, controller % 128, value % 128]
}

/// The message that asks for a dump.
pub fn dump_request() -> (bytes: [u8; 5])
    ensures
        bytes@ == seq![SYSEX_START, SYSEX_ID, SYSEX_MODEL, CMD_DUMP_REQ, SYSEX_END],
        bytes@ == dump_request_bytes(),
{
    [SYSEX_START, SYSEX_ID, SYSEX_MODEL, CMD_DUMP_REQ, SYSEX_END]
}

/// Collects a system-exclusive message out of what comes in.
pub struct Collector {
    pub bytes: Vec<u8>,
    /// A message came to its end.
    pub done: bool,
}

/// What was collected after byte `x`: a start byte starts over, and nothing counts before one.
pub open spec fn collected_after(bytes: Seq<u8>, x: u8) -> Seq<u8> {
    if x == SYSEX_START {
        seq![x]
    } else if bytes.len() > 0 {
        bytes.push(x)
    } else {
        bytes
    }
}

/// Whether a message came to its end, after byte `x`.
pub open spec fn done_after(done: bool, bytes: Seq<u8>, x: u8) -> bool {
    done || (x == SYSEX_END && bytes.len() > 0)
}

/// Whether a message came to its end, after all of `message`.
pub open spec fn done_all(done: bool, bytes: Seq<u8>, message: Seq<u8>) -> bool
    decreases message.len(),
{
    if message.len() == 0 {
        done
    } else {
        done_after(
            done_all(done, bytes, message.drop_last()),
            collected_all(bytes, message.drop_last()),
            message.last(),
        )
    }
}

/// A collector is done with the end byte of the first message that starts, and not before.
pub proof fn done_with_the_end(message: Seq<u8>)
    requires
        message.len() > 0,
        message[0] == 0xF0,
        forall|i: int|
            0 < i < message.len() ==> #[trigger] message[i] != 0xF0 && message[i] != 0xF7,
    ensures
        !done_all(false, Seq::empty(), message),
        done_all(false, Seq::empty(), message.push(0xF7)),
        collected_all(Seq::empty(), message.push(0xF7)) == message.push(0xF7),
    decreases message.len(),
{
    let all = message.push(0xF7);
    let none = Seq::<u8>::empty();
    assert(all.drop_last() =~= message);
    if message.len() > 1 {
        let front = message.drop_last();
        assert(message[message.len() - 1] != 0xF7);
        done_with_the_end(front);
    } else {
        assert(message.drop_last() =~= none);
        assert(!done_all(false, none, message.drop_last()));
    }
    message_is_collected(none, message);
    assert forall|i: int| 0 < i < all.len() implies #[trigger] all[i] != SYSEX_START by {
        if i < message.len() {
            assert(all[i] == message[i]);
        }
    }
    message_is_collected(none, all);
}

/// Bytes before any start byte are not collected and end nothing.
pub proof fn nothing_before_a_start(bytes: Seq<u8>)
    requires
        forall|i: int| 0 <= i < bytes.len() ==> #[trigger] bytes[i] != 0xF0,
    ensures
        collected_all(Seq::empty(), bytes).len() == 0,
        !done_all(false, Seq::empty(), bytes),
    decreases bytes.len(),
{
    if bytes.len() > 0 {
        nothing_before_a_start(bytes.drop_last());
    }
}

impl Collector {
    pub fn new() -> (c: Self)
        ensures
            c.bytes@ == Seq::<u8>::empty(),
            !c.done,
    {
        Collector { bytes: Vec::new(), done: false }
    }

    pub fn feed(&mut self, x: u8)
        ensures
            final(self).bytes@ == collected_after(old(self).bytes@, x),
            final(self).done == (old(self).done || (x == SYSEX_END && old(self).bytes@.len() > 0)),
            final(self).done == done_after(old(self).done, old(self).bytes@, x),
    {
        if x == SYSEX_START {
            self.bytes.clear();
            self.bytes.push(x);
            assert(self.bytes@ =~= seq![x]);
        } else if self.bytes.len() > 0 {
            self.bytes.push(x);
            if x == SYSEX_END {
                self.done = true;
            }
        }
    }
}

/// What was collected after all of `message`.
pub open spec fn collected_all(bytes: Seq<u8>, message: Seq<u8>) -> Seq<u8>
    decreases message.len(),
{
    if message.len() == 0 {
        bytes
    } else {
        collected_after(collected_all(bytes, message.drop_last()), message.last())
    }
}

/// A message that comes in whole is collected whole, whatever came before it.
pub proof fn message_is_collected(before: Seq<u8>, message: Seq<u8>)
    requires
        message.len() > 0,
        message[0] == SYSEX_START,
        forall|i: int| 0 < i < message.len() ==> #[trigger] message[i] != SYSEX_START,
    ensures
        collected_all(before, message) == message,
    decreases message.len(),
{
    if message.len() == 1 {
        assert(message =~= seq![SYSEX_START]);
    } else {
        message_is_collected(before, message.drop_last());
        assert(message =~= message.drop_last().push(message.last()));
    }
}

/// The bytes are a bank as the device dumps it, by their frame.
pub open spec fn is_dump(bytes: Seq<u8>) -> bool {
    &&& bytes.len() >= 6
    &&& bytes[0] == SYSEX_START
    &&& bytes[1] == SYSEX_ID
    &&& bytes[2] == SYSEX_MODEL
    &&& bytes[3] == CMD_WRITE_REQ
    &&& bytes.last() == SYSEX_END
}

/// Whether the bytes are a bank as the device dumps it, by their frame.
pub fn check_dump(bytes: &[u8]) -> (ok: bool)
    ensures
        ok == is_dump(bytes@),
{
    bytes.len() >= 6 && bytes[0] == SYSEX_START && bytes[1] == SYSEX_ID && bytes[2] == SYSEX_MODEL
        && bytes[3] == CMD_WRITE_REQ && bytes[bytes.len() - 1] == SYSEX_END
}

/// Byte `i` of a dump's payload, put together from its two half bytes.
pub open spec fn payload_byte(bytes: Seq<u8>, i: int) -> u8 {
    ((bytes[4 + 2 * i] % 16) * 16 + bytes[5 + 2 * i] % 16) as u8
}

/// The first `n` bytes of a dump's payload.
pub open spec fn payload(bytes: Seq<u8>, n: nat) -> Seq<u8> {
    Seq::new(n, |i: int| payload_byte(bytes, i))
}

/// What a dump says of its bank.
#[derive(Clone, Copy, Debug, PartialEq, Eq, Structural)]
pub struct DumpInfo {
    /// How many half bytes the payload has.
    pub nibbles: usize,
    pub magic: u32,
    pub version: u32,
    pub num_presets: u32,
}

fn payload_word(bytes: &[u8], at: usize) -> (word: u32)
    requires
        at <= 8,
        bytes@.len() >= 29,
    ensures
        word == le32(payload(bytes@, 12), at as int),
{
    let b0: u32 = ((bytes[4 + 2 * at] % 16) * 16 + bytes[5 + 2 * at] % 16) as u32;
    let b1: u32 = ((bytes[6 + 2 * at] % 16) * 16 + bytes[7 + 2 * at] % 16) as u32;
    let b2: u32 = ((bytes[8 + 2 * at] % 16) * 16 + bytes[9 + 2 * at] % 16) as u32;
    let b3: u32 = ((bytes[10 + 2 * at] % 16) * 16 + bytes[11 + 2 * at] % 16) as u32;
    b0 + 0x100 * b1 + 0x1_0000 * b2 + 0x100_0000 * b3
}

/// Reads the front of a dumped bank.
pub fn dump_info(bytes: &[u8]) -> (info: DumpInfo)
    requires
        is_dump(bytes@),
        bytes@.len() >= 29,
    ensures
        info == (DumpInfo {
            nibbles: (bytes@.len() - 5) as usize,
            magic: le32(payload(bytes@, 12), 0),
            version: le32(payload(bytes@, 12), 4),
            num_presets: le32(payload(bytes@, 12), 8),
        }),
{
    DumpInfo {
        nibbles: bytes.len() - 5,
        magic: payload_word(bytes, 0),
        version: payload_word(bytes, 4),
        num_presets: payload_word(bytes, 8),
    }
}

/// The dump that is to be written back came in whole.
pub open spec fn can_write_back(bytes: Seq<u8>) -> bool {
    bytes.len() > 6 && bytes[3] == CMD_WRITE_REQ && bytes.last() == SYSEX_END
}

/// Whether the dump that is to be written back came in whole.
pub fn check_writeback(bytes: &[u8]) -> (ok: bool)
    ensures
        ok == can_write_back(bytes@),
{
    bytes.len() > 6 && bytes[3] == CMD_WRITE_REQ && bytes[bytes.len() - 1] == SYSEX_END
}

/// The device's answer to a write.
#[derive(Clone, Copy, Debug, PartialEq, Eq, Structural)]
pub enum Reply {
    Success,
    Error { code: u8 },
    Unexpected,
}

/// What the device's answer says.
pub open spec fn reply_of(bytes: Seq<u8>) -> Reply {
    if bytes == status_message(CMD_WRITE_SUCCESS, None) {
        Reply::Success
    } else if bytes.len() == 6 && bytes == status_message(CMD_WRITE_ERROR, Some(bytes[4])) {
        Reply::Error { code: bytes[4] }
    } else {
        Reply::Unexpected
    }
}

/// What the device's answer says.
pub fn read_reply(bytes: &[u8]) -> (reply: Reply)
    ensures
        reply == reply_of(bytes@),
{
    let n: usize = bytes.len();
    if n < 5 || bytes[0] != SYSEX_START || bytes[1] != SYSEX_ID || bytes[2] != SYSEX_MODEL
        || bytes[n - 1] != SYSEX_END {
        return Reply::Unexpected;
    }
    if n == 5 && bytes[3] == CMD_WRITE_SUCCESS {
        assert(bytes@ =~= status_message(CMD_WRITE_SUCCESS, None));
        Reply::Success
    } else if n == 6 && bytes[3] == CMD_WRITE_ERROR {
        assert(bytes@ =~= status_message(CMD_WRITE_ERROR, Some(bytes@[4])));
        Reply::Error { code: bytes[4] }
    } else {
        Reply::Unexpected
    }
}

/// The tool reads a device's dump as the bank that it is: the frame is accepted, and the words at
/// its front are those of the bank.
pub proof fn dump_is_understood(image: Seq<u8>)
    requires
        image.len() >= 12,
    ensures
        is_dump(dump_message(image)),
        can_write_back(dump_message(image)),
        dump_message(image).len() == 2 * image.len() + 5,
        payload(dump_message(image), 12) == image.take(12),
        le32(payload(dump_message(image), 12), 0) == le32(image, 0),
        le32(payload(dump_message(image), 12), 4) == le32(image, 4),
        le32(payload(dump_message(image), 12), 8) == le32(image, 8),
{
    let bytes = dump_message(image);
    assert forall|i: int| 0 <= i < 12 implies payload_byte(bytes, i) == image[i] by {
        assert(bytes[4 + 2 * i] == nibbles(image)[2 * i]);
        assert(bytes[5 + 2 * i] == nibbles(image)[2 * i + 1]);
        assert((2 * i) / 2 == i && (2 * i + 1) / 2 == i);
    }
    assert(payload(bytes, 12) =~= image.take(12));
}

/// The tool understands each of the device's answers.
pub proof fn status_is_understood(error: u8)
    ensures
        reply_of(status_message(CMD_WRITE_SUCCESS, None)) == Reply::Success,
        reply_of(status_message(CMD_WRITE_ERROR, Some(error))) == (Reply::Error { code: error }),
{
    assert(status_message(CMD_WRITE_ERROR, Some(error)).len() == 6);
    assert(status_message(CMD_WRITE_SUCCESS, None).len() == 5);
}

/// A digit behind a number multiplies it by the base and adds itself; anything that is no digit of
/// that base makes it no number.
pub proof fn digits_are_positional(digits: Seq<u8>, b: u8)
    ensures
        number(Seq::empty(), 10) == Some(0int),
        number(digits, 10) is Some && 0x30 <= b <= 0x39 ==> number(digits.push(b), 10) == Some(
            10 * number(digits, 10)->0 + (b - 0x30),
        ),
        b < 0x30 || b > 0x39 ==> number(digits.push(b), 10) is None,
        number(digits, 16) is Some && 0x30 <= b <= 0x39 ==> number(digits.push(b), 16) == Some(
            16 * number(digits, 16)->0 + (b - 0x30),
        ),
        number(digits, 16) is Some && 0x61 <= b <= 0x66 ==> number(digits.push(b), 16) == Some(
            16 * number(digits, 16)->0 + (b - 0x61) + 10,
        ),
        number(digits, 16) is Some && 0x41 <= b <= 0x46 ==> number(digits.push(b), 16) == Some(
            16 * number(digits, 16)->0 + (b - 0x41) + 10,
        ),
        b < 0x30 || 0x39 < b < 0x41 || 0x46 < b < 0x61 || b > 0x66 ==> number(digits.push(b), 16)
            is None,
        number(digits, 10) is None ==> number(digits.push(b), 10) is None,
        number(digits, 16) is None ==> number(digits.push(b), 16) is None,
{
    assert(digits.push(b).drop_last() =~= digits);
}

/// A byte is read from decimal digits, or behind 0x or 0X from hexadecimal ones, with a plus sign
/// in front of the digits or without; there must be a digit, and the number must be below 256.
pub proof fn bytes_are_read(digits: Seq<u8>)
    requires
        digits.len() == 0 || digits[0] != 0x2B,
    ensures
        ({
            let dec = number(digits, 10);
            let decimal = if digits.len() > 0 && dec is Some && dec->0 < 256 {
                Some(dec->0 as u8)
            } else {
                None
            };
            let hex = number(digits, 16);
            let hexadecimal = if digits.len() > 0 && hex is Some && hex->0 < 256 {
                Some(hex->0 as u8)
            } else {
                None
            };
            &&& digits.len() < 2 || digits[0] != 0x30 || (digits[1] != 0x78 && digits[1] != 0x58)
                ==> byte_value(digits) == decimal
            &&& byte_value(seq![0x2Bu8] + digits) == decimal
            &&& byte_value(seq![0x30u8, 0x78u8] + digits) == hexadecimal
            &&& byte_value(seq![0x30u8, 0x58u8] + digits) == hexadecimal
            &&& byte_value(seq![0x30u8, 0x78u8, 0x2Bu8] + digits) == hexadecimal
        }),
{
    assert((seq![0x2Bu8] + digits)[0] == 0x2B);
    assert((seq![0x2Bu8] + digits).skip(1) =~= digits);
    let small = seq![0x30u8, 0x78u8] + digits;
    let large = seq![0x30u8, 0x58u8] + digits;
    let plus = seq![0x30u8, 0x78u8, 0x2Bu8] + digits;
    assert(small[0] == 0x30 && small[1] == 0x78 && large[0] == 0x30 && large[1] == 0x58);
    assert(plus[0] == 0x30 && plus[1] == 0x78);
    assert(small.skip(2) =~= digits);
    assert(large.skip(2) =~= digits);
    assert(plus.skip(2) =~= seq![0x2Bu8] + digits);
}

/// What the commands ask for. A command that lacks a number that it needs is missing something, and
/// one that is none of these is unknown.
pub proof fn commands_ask(args: Seq<String>)
    requires
        args.len() > 0,
    ensures
        args[0]@ == "list"@ ==> request_of(args) == Request::List,
        args[0]@ == "dump"@ ==> request_of(args) == Request::Dump,
        args[0]@ == "writeback"@ ==> request_of(args) == Request::Writeback,
        args[0]@ == "raw"@ ==> request_of(args) == Request::Raw,
        args[0]@ == "pc"@ ==> request_of(args) == match byte_arg(args, 1) {
            Some(n) => Request::Program { program: n },
            None => Request::Missing,
        },
        args[0]@ == "note"@ && byte_arg(args, 1) is None ==> request_of(args) == Request::Missing,
        args[0]@ == "note"@ && byte_arg(args, 1) is Some && byte_arg(args, 3) is Some
            ==> request_of(args) == (Request::Note {
            note: byte_arg(args, 1)->0,
            velocity: byte_arg(args, 3)->0,
        }),
        args[0]@ == "note"@ && byte_arg(args, 1) is Some && byte_arg(args, 3) is None
            ==> request_of(args) == (Request::Note { note: byte_arg(args, 1)->0, velocity: 100 }),
        args[0]@ == "cc"@ && byte_arg(args, 1) is Some && byte_arg(args, 2) is Some ==> request_of(
            args,
        ) == (Request::Control {
            controller: byte_arg(args, 1)->0,
            value: byte_arg(args, 2)->0,
        }),
        args[0]@ == "cc"@ && (byte_arg(args, 1) is None || byte_arg(args, 2) is None)
            ==> request_of(args) == Request::Missing,
        args[0]@.len() == 0 ==> request_of(args) == Request::Usage,
        args[0]@.len() > 0 && args[0]@ != "list"@ && args[0]@ != "pc"@ && args[0]@ != "note"@
            && args[0]@ != "cc"@ && args[0]@ != "raw"@ && args[0]@ != "dump"@ && args[0]@
            != "writeback"@ ==> request_of(args) == Request::Unknown,
        forall|i: int|
            0 <= i < args.len() ==> #[trigger] byte_arg(args, i) == byte_value(
                encode_utf8(args[i]@),
            ),
        forall|i: int| i >= args.len() ==> #[trigger] byte_arg(args, i) is None,
{
    reveal_strlit("list");
    reveal_strlit("pc");
    reveal_strlit("note");
    reveal_strlit("cc");
    reveal_strlit("raw");
    reveal_strlit("dump");
    reveal_strlit("writeback");
    assert("list"@[0] == 'l' && "pc"@[0] == 'p' && "note"@[0] == 'n' && "cc"@[0] == 'c' && "raw"@[0]
        == 'r' && "dump"@[0] == 'd' && "writeback"@[0] == 'w');
    assert("list"@.len() > 0 && "pc"@.len() > 0 && "note"@.len() > 0 && "cc"@.len() > 0
        && "raw"@.len() > 0 && "dump"@.len() > 0 && "writeback"@.len() > 0);
}

/// A raw message is the numbers behind the command, in order; what is no number is left out.
pub proof fn raw_is_the_numbers(args: Seq<String>, more: String)
    requires
        args.len() > 0,
    ensures
        args.len() == 1 ==> raw_bytes(args).len() == 0,
        raw_bytes(args.push(more)) == match byte_value(encode_utf8(more@)) {
            Some(b) => raw_bytes(args) + seq![b],
            None => raw_bytes(args),
        },
{
    assert(args.push(more).drop_last() =~= args);
    match byte_value(encode_utf8(more@)) {
        Some(b) => {
            assert(raw_bytes(args).push(b) =~= raw_bytes(args) + seq![b]);
        },
        None => {},
    }
}

/// A reply is a success exactly if it is F0 7D 01 03 F7, and an error exactly if it is F0 7D 01 04,
/// the error, F7.
pub proof fn replies_are_read(bytes: Seq<u8>, code: u8)
    ensures
        reply_of(bytes) == Reply::Success <==> bytes == seq![
            0xF0u8,
            0x7Du8,
            0x01u8,
            0x03u8,
            0xF7u8,
        ],
        reply_of(bytes) == (Reply::Error { code }) <==> bytes == seq![
            0xF0u8,
            0x7Du8,
            0x01u8,
            0x04u8,
            code,
            0xF7u8,
        ],
{
    let success = seq![0xF0u8, 0x7Du8, 0x01u8, 0x03u8, 0xF7u8];
    let error = seq![0xF0u8, 0x7Du8, 0x01u8, 0x04u8, code, 0xF7u8];
    assert(status_message(CMD_WRITE_SUCCESS, None) =~= success);
    assert(status_message(CMD_WRITE_ERROR, Some(code)) =~= error);
    assert(success.len() == 5 && error.len() == 6);
    if bytes == error {
        assert(bytes[4] == code);
    }
}

/// The frame of a dump: F0 7D 01 02 in front and F7 behind at least one byte; to be written back it
/// must have two.
pub proof fn dumps_are_framed(bytes: Seq<u8>)
    ensures
        is_dump(bytes) <==> bytes.len() >= 6 && bytes.take(4) == seq![
            0xF0u8,
            0x7Du8,
            0x01u8,
            0x02u8,
        ] && bytes[bytes.len() - 1] == 0xF7,
        is_dump(bytes) && bytes.len() > 6 ==> can_write_back(bytes),
        can_write_back(bytes) ==> bytes.len() > 6 && bytes[3] == 0x02 && bytes[bytes.len() - 1]
            == 0xF7,
{
    let front = bytes.take(4);
    let mark = seq![0xF0u8, 0x7Du8, 0x01u8, 0x02u8];
    if bytes.len() >= 6 {
        assert(front[0] == bytes[0] && front[1] == bytes[1] && front[2] == bytes[2] && front[3]
            == bytes[3]);
        if is_dump(bytes) {
            assert(front =~= mark);
        }
        if front == mark {
            assert(bytes[0] == mark[0] && bytes[1] == mark[1] && bytes[2] == mark[2] && bytes[3]
                == mark[3]);
        }
    }
}

} // verus!
