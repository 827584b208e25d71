//! Commands typed on the serial line.

use crate::text::{all_white, is_tight, same_text, trim, trimmed, white_space_is_trimmed};
use vstd::prelude::*;
use vstd::utf8::encode_utf8;

verus! {

/// `heapless::String`: text of at most `N` bytes that is stored in place.
#[verifier::external_type_specification]
#[verifier::external_body]
pub struct ExHeaplessString<const N: usize>(heapless::String<N>);

/// The characters of a line.
pub uninterp spec fn line_text(line: heapless::String<32>) -> Seq<char>;

/// `heapless::String::new`: text without characters.
#[verifier::external_body]
fn line_new() -> (line: heapless::String<32>)
    ensures
        line_text(line) == Seq::<char>::empty(),
{
    heapless::String::new()
}

/// `heapless::String::push`: adds `c` at the end if its bytes fit behind those that are there, 32
/// in all; otherwise nothing changes.
#[verifier::external_body]
fn line_push(line: &mut heapless::String<32>, c: char) -> (r: Result<(), ()>)
    ensures
        r is Ok <==> encode_utf8(line_text(*old(line))).len() + encode_utf8(seq![c]).len() <= 32,
        line_text(*final(line)) == if r is Ok {
            line_text(*old(line)).push(c)
        } else {
            line_text(*old(line))
        },
{
    line.push(c)
}

/// `heapless::String::as_str`: the text.
#[verifier::external_body]
fn line_as_str(line: &heapless::String<32>) -> (text: &str)
    ensures
        text@ == line_text(*line),
{
    line.as_str()
}

/// `heapless::String::clear`: takes all characters out.
#[verifier::external_body]
fn line_clear(line: &mut heapless::String<32>)
    ensures
        line_text(*final(line)) == Seq::<char>::empty(),
{
    line.clear()
}

/// What the rest of the device can be asked to do.
#[derive(Clone, Copy, Debug, PartialEq, Eq, Structural)]
pub enum SystemCommand {
    /// Write the factory bank over the stored one.
    ResetStorage,
}

/// What a typed line asks for.
#[derive(Clone, Copy, Debug, PartialEq, Eq, Structural)]
pub enum ShellAction {
    Nothing,
    /// Start the boot loader, for new firmware.
    Reboot,
    /// Start the device anew.
    Restart,
    Send { command: SystemCommand },
}

/// What a line asks for: white space around the command does not matter.
pub open spec fn line_action(line: Seq<char>) -> ShellAction {
    let command = trimmed(line);
    if command == "reboot"@ {
        ShellAction::Reboot
    } else if command == "restart"@ {
        ShellAction::Restart
    } else if command == "reset"@ {
        ShellAction::Send { command: SystemCommand::ResetStorage }
    } else {
        ShellAction::Nothing
    }
}

pub open spec fn ends_line(b: u8) -> bool {
    b == 13 || b == 10
}

/// The line after byte `b`: it starts anew after an end of line, and a character that does not fit
/// is dropped.
pub open spec fn line_after(line: Seq<char>, b: u8) -> Seq<char> {
    if ends_line(b) {
        Seq::empty()
    } else if encode_utf8(line).len() + encode_utf8(seq![b as char]).len() <= 32 {
        line.push(b as char)
    } else {
        line
    }
}

/// Collects typed bytes into lines.
pub struct Shell {
    line: heapless::String<32>,
}

impl View for Shell {
    type V = Seq<char>;

    closed spec fn view(&self) -> Seq<char> {
        line_text(self.line)
    }
}

impl Shell {
    pub fn new() -> (shell: Self)
        ensures
            shell@ == Seq::<char>::empty(),
    {
        Shell { line: line_new() }
    }

    /// Takes in one byte. The end of a line gives what the line asks for.
    pub fn feed(&mut self, b: u8) -> (action: ShellAction)
        ensures
            final(self)@ == line_after(old(self)@, b),
            action == if ends_line(b) {
                line_action(old(self)@)
            } else {
                ShellAction::Nothing
            },
    {
        if b == 13 || b == 10 {
            let action = command_of(line_as_str(&self.line));
            line_clear(&mut self.line);
            action
        } else {
            let _ = line_push(&mut self.line, b as char);
            ShellAction::Nothing
        }
    }
}

/// What a line asks for.
fn command_of(line: &str) -> (action: ShellAction)
    ensures
        action == line_action(line@),
{
    let command = trim(line);
    if same_text(command, "reboot") {
        ShellAction::Reboot
    } else if same_text(command, "restart") {
        ShellAction::Restart
    } else if same_text(command, "reset") {
        ShellAction::Send { command: SystemCommand::ResetStorage }
    } else {
        ShellAction::Nothing
    }
}

/// The line after all of `bytes`.
pub open spec fn line_after_all(line: Seq<char>, bytes: Seq<u8>) -> Seq<char>
    decreases bytes.len(),
{
    if bytes.len() == 0 {
        line
    } else {
        line_after(line_after_all(line, bytes.drop_last()), bytes.last())
    }
}

/// A command of at most 32 plain characters, typed on a fresh line, is what the end of the line
/// carries out.
pub proof fn typed_line_is_kept(bytes: Seq<u8>)
    requires
        bytes.len() <= 32,
        forall|i: int| 0 <= i < bytes.len() ==> #[trigger] bytes[i] < 128 && !ends_line(bytes[i]),
    ensures
        line_after_all(Seq::empty(), bytes) == bytes.map_values(|b: u8| b as char),
    decreases bytes.len(),
{
    let text = bytes.map_values(|b: u8| b as char);
    if bytes.len() == 0 {
        assert(text =~= Seq::empty());
    } else {
        let front = bytes.drop_last();
        let typed = front.map_values(|b: u8| b as char);
        let c = bytes.last() as char;
        typed_line_is_kept(front);
        assert(typed =~= Seq::new(front.len(), |i: int| front[i] as char));
        vstd::utf8::is_ascii_chars_encode_utf8(typed);
        vstd::utf8::is_ascii_chars_encode_utf8(seq![c]);
        assert(text =~= typed.push(c));
    }
}

/// The three commands are understood with any white space around them, and do different things; any
/// other text without white space at its ends does nothing.
pub proof fn commands_are_understood(before: Seq<char>, after: Seq<char>, other: Seq<char>)
    requires
        all_white(before),
        all_white(after),
        is_tight(other),
        other.len() > 0,
        other != "reboot"@,
        other != "restart"@,
        other != "reset"@,
    ensures
        line_action(before + "reboot"@ + after) == ShellAction::Reboot,
        line_action(before + "restart"@ + after) == ShellAction::Restart,
        line_action(before + "reset"@ + after) == (ShellAction::Send {
            command: SystemCommand::ResetStorage,
        }),
        line_action(before + other + after) == ShellAction::Nothing,
{
    reveal_strlit("reboot");
    reveal_strlit("restart");
    reveal_strlit("reset");
    assert("restart"@[3] != "reset"@[3] && "reboot"@[2] != "reset"@[2]);
    white_space_is_trimmed(before, "reboot"@, after);
    white_space_is_trimmed(before, "restart"@, after);
    white_space_is_trimmed(before, "reset"@, after);
    white_space_is_trimmed(before, other, after);
    assert("reboot"@.len() == 6 && "restart"@.len() == 7 && "reset"@.len() == 5);
}

/// Both line ends end a line and start a fresh one; no other byte does. A line never holds more
/// than 32 bytes, and a character that does not fit leaves it as it was.
pub proof fn lines_end_and_fit(line: Seq<char>, b: u8)
    requires
        encode_utf8(line).len() <= 32,
    ensures
        ends_line(b) <==> b == 0x0D || b == 0x0A,
        ends_line(b) ==> line_after(line, b).len() == 0,
        !ends_line(b) ==> line_after(line, b) == line || line_after(line, b) == line.push(
            b as char,
        ),
        !ends_line(b) && b < 128 && encode_utf8(line).len() < 32 ==> line_after(line, b)
            == line.push(b as char),
        !ends_line(b) && encode_utf8(line).len() == 32 && b < 128 ==> line_after(line, b) == line,
{
    if b < 128 {
        vstd::utf8::is_ascii_chars_encode_utf8(seq![b as char]);
    }
}

} // verus!
