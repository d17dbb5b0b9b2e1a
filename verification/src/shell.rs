//! The console's line editor: how each received byte edits the command
//! line, what is echoed, and when a line is handed to the command parser.
use vstd::prelude::*;
use vstd::string::StringSliceAdditionalSpecFns;
use vstd::utf8::{valid_utf8, decode_utf8};
use crate::commands::{Action, command_action, command_of, command_output, process_command};
use crate::uart::Uart;

verus! {

/// Size of the command buffer; one byte is kept free.
pub const CMD_BUFFER_SIZE: usize = 128;
/// Longest command line.
pub const CMD_LINE_MAX: usize = 127;
/// The byte a terminal sends for the erase key.
pub const KEY_ERASE: u8 = 0x7F;

/// Carriage return or line feed: the end of a command line.
pub open spec fn is_line_end(b: u8) -> bool {
    b == 13 || b == 10
}

/// A byte that is typed into the line (neither erase nor line end).
pub open spec fn is_typed(b: u8) -> bool {
    b != KEY_ERASE && !is_line_end(b)
}

/// The command line after receiving `b`.
pub open spec fn edited_line(line: Seq<u8>, b: u8) -> Seq<u8> {
    if b == KEY_ERASE {
        if line.len() > 0 {
            line.drop_last()
        } else {
            line
        }
    } else if is_line_end(b) {
        Seq::empty()
    } else if line.len() < CMD_LINE_MAX {
        line.push(b)
    } else {
        line
    }
}

/// What the shell prints on receiving `b` with `line` typed so far.
pub open spec fn key_echo(line: Seq<u8>, b: u8) -> Seq<u8> {
    if b == KEY_ERASE {
        if line.len() > 0 {
            "\x08 \x08".spec_bytes()
        } else {
            Seq::empty()
        }
    } else if is_line_end(b) {
        "\n".spec_bytes() + if valid_utf8(line) {
            command_output(command_of(decode_utf8(line)))
        } else {
            "Invalid UTF-8 input.\n".spec_bytes()
        }
    } else if line.len() < CMD_LINE_MAX {
        seq![b]
    } else {
        Seq::empty()
    }
}

/// What receiving a byte leaves for the caller to do.
#[derive(Clone, Copy, Debug, PartialEq, Eq, Structural)]
pub enum KeyOutcome {
    /// The line is still being edited.
    Editing,
    /// A command was answered; perform the action, then print the prompt.
    Submitted(Action),
    /// The line was not UTF-8 and was dropped.
    InvalidUtf8,
}

/// The outcome of receiving `b` with `line` typed so far.
pub open spec fn key_outcome(line: Seq<u8>, b: u8) -> KeyOutcome {
    if is_line_end(b) {
        if valid_utf8(line) {
            KeyOutcome::Submitted(command_action(command_of(decode_utf8(line))))
        } else {
            KeyOutcome::InvalidUtf8
        }
    } else {
        KeyOutcome::Editing
    }
}

/// Trusted wrapper of `core::str::from_utf8`. Its contract claims what the
/// standard library documents: the call succeeds exactly when the bytes are
/// valid UTF-8 (vstd's `valid_utf8`), and the string slice it returns has
/// exactly those bytes. Nothing of the error value is used or stated.
#[verifier::external_body]
fn decode_line(bytes: &[u8]) -> (r: Option<&str>)
    ensures
        r is Some <==> valid_utf8(bytes@),
        r matches Some(s) ==> s.spec_bytes() == bytes@,
{
    match core::str::from_utf8(bytes) {
        Ok(s) => Some(s),
        Err(_) => None,
    }
}

/// The command line being typed.
pub struct Shell {
    line: Vec<u8>,
}

impl View for Shell {
    type V = Seq<u8>;

    closed spec fn view(&self) -> Seq<u8> {
        self.line@
    }
}

impl Shell {
    #[verifier::type_invariant]
    spec fn fits(&self) -> bool {
        self.line@.len() <= CMD_LINE_MAX
    }

    /// Length of the line, which never exceeds `CMD_LINE_MAX`.
    pub fn len(&self) -> (n: usize)
        ensures
            n == self@.len(),
            n <= CMD_LINE_MAX,
    {
        proof {
            use_type_invariant(self);
        }
        self.line.len()
    }

    /// An empty line.
    pub fn new() -> (s: Shell)
        ensures
            s@ == Seq::<u8>::empty(),
    {
        Shell { line: Vec::new() }
    }

    /// The bytes typed so far.
    pub fn line(&self) -> (l: &[u8])
        ensures
            l@ == self@,
    {
        self.line.as_slice()
    }

    /// Handles one received byte: edits the line, echoes, and on a line end
    /// answers the command (when the line is UTF-8) and empties the line.
    pub fn feed(&mut self, b: u8, uart: &mut Uart) -> (out: KeyOutcome)
        ensures
            final(self)@ == edited_line(old(self)@, b),
            final(self)@.len() <= CMD_LINE_MAX,
            final(uart)@ == old(uart)@ + key_echo(old(self)@, b),
            out == key_outcome(old(self)@, b),
    {
        proof {
            use_type_invariant(&*self);
        }
        if b == KEY_ERASE {
            if self.line.len() > 0 {
                let mut line = Vec::new();
                std::mem::swap(&mut line, &mut self.line);
                line.pop();
                self.line = line;
                uart.write_str("\x08 \x08");
            }
            KeyOutcome::Editing
        } else if b == 13 || b == 10 {
            uart.write_str("\n");
            let mut line = Vec::new();
            std::mem::swap(&mut line, &mut self.line);
            let out = match decode_line(line.as_slice()) {
                Some(s) => {
                    proof {
                        vstd::utf8::encode_utf8_decode_utf8(s@);
                    }
                    let a = process_command(s, uart);
                    KeyOutcome::Submitted(a)
                },
                None => {
                    uart.write_str("Invalid UTF-8 input.\n");
                    KeyOutcome::InvalidUtf8
                },
            };
            out
        } else {
            if self.line.len() < CMD_LINE_MAX {
                let mut line = Vec::new();
                std::mem::swap(&mut line, &mut self.line);
                line.push(b);
                self.line = line;
                crate::uart::uart_send(uart, b);
            }
            KeyOutcome::Editing
        }
    }
}

/// Prints the prompt that follows an answered command.
pub fn prompt(uart: &mut Uart)
    ensures
        final(uart)@ == old(uart)@ + ">>".spec_bytes(),
{
    uart.write_str(">>");
}

/// The line after receiving the bytes `keys` one by one.
pub open spec fn edited_by(line: Seq<u8>, keys: Seq<u8>) -> Seq<u8>
    decreases keys.len(),
{
    if keys.len() == 0 {
        line
    } else {
        edited_line(edited_by(line, keys.drop_last()), keys.last())
    }
}

/// The first `n` bytes of `s` (all of `s` when it is shorter).
pub open spec fn truncated(s: Seq<u8>, n: nat) -> Seq<u8> {
    if s.len() <= n {
        s
    } else {
        s.subrange(0, n as int)
    }
}

/// Erasing right after typing a byte into a line with room for it gives the
/// line back, and the typed byte was echoed.
pub proof fn lemma_erase_undoes_typing(line: Seq<u8>, b: u8)
    requires
        line.len() < CMD_LINE_MAX,
        is_typed(b),
    ensures
        edited_line(edited_line(line, b), KEY_ERASE) == line,
        key_echo(line, b) == seq![b],
{
    assert(line.push(b).drop_last() =~= line);
}

/// Typed bytes are appended to the line and kept up to `CMD_LINE_MAX`
/// bytes; the rest are dropped.
pub proof fn lemma_typing_appends(line: Seq<u8>, keys: Seq<u8>)
    requires
        line.len() <= CMD_LINE_MAX,
        forall|i: int| 0 <= i < keys.len() ==> is_typed(#[trigger] keys[i]),
    ensures
        edited_by(line, keys) == truncated(line + keys, CMD_LINE_MAX as nat),
    decreases keys.len(),
{
    if keys.len() > 0 {
        let init = keys.drop_last();
        assert forall|i: int| 0 <= i < init.len() implies is_typed(#[trigger] init[i]) by {
            assert(init[i] == keys[i]);
        }
        lemma_typing_appends(line, init);
        assert(is_typed(keys[keys.len() - 1]));
        let prev = truncated(line + init, CMD_LINE_MAX as nat);
        if (line + init).len() < CMD_LINE_MAX {
            assert(prev.push(keys.last()) =~= line + keys);
        } else {
            assert(prev.len() == CMD_LINE_MAX);
            assert((line + keys).subrange(0, CMD_LINE_MAX as int) =~= prev);
        }
    }
}

/// A line end always leaves an empty line, whatever was typed.
pub proof fn lemma_line_end_clears(line: Seq<u8>, b: u8)
    requires
        is_line_end(b),
    ensures
        edited_line(line, b) == Seq::<u8>::empty(),
        key_outcome(line, b) != KeyOutcome::Editing,
{
}

/// How the shell answers each kind of byte: erase removes the last typed
/// byte and rubs it out on the terminal (nothing when the line is empty); a
/// typed byte is echoed and appended while fewer than 127 are typed; a line
/// end prints a newline and then either answers the UTF-8 line as a command
/// or says it is not UTF-8.
pub proof fn lemma_key_answers(line: Seq<u8>, b: u8)
    ensures
        b == 0x7F && line.len() > 0 ==> edited_line(line, b) == line.subrange(0, line.len() - 1)
            && key_echo(line, b) == "\x08 \x08".spec_bytes() && key_outcome(line, b)
            == KeyOutcome::Editing,
        b == 0x7F && line.len() == 0 ==> edited_line(line, b) == line && key_echo(line, b)
            == Seq::<u8>::empty(),
        b != 0x7F && b != 10 && b != 13 && line.len() < 127 ==> edited_line(line, b) == line
            + seq![b] && key_echo(line, b) == seq![b] && key_outcome(line, b)
            == KeyOutcome::Editing,
        b != 0x7F && b != 10 && b != 13 && line.len() >= 127 ==> edited_line(line, b) == line
            && key_echo(line, b) == Seq::<u8>::empty(),
        (b == 10 || b == 13) && valid_utf8(line) ==> key_echo(line, b) == "\n".spec_bytes()
            + command_output(command_of(decode_utf8(line))) && key_outcome(line, b)
            == KeyOutcome::Submitted(command_action(command_of(decode_utf8(line)))),
        (b == 10 || b == 13) && !valid_utf8(line) ==> key_echo(line, b) == "\n".spec_bytes()
            + "Invalid UTF-8 input.\n".spec_bytes() && key_outcome(line, b)
            == KeyOutcome::InvalidUtf8,
        b == 10 || b == 13 ==> edited_line(line, b).len() == 0,
{
    assert(line.drop_last() =~= line.subrange(0, line.len() - 1));
    assert(line.push(b) =~= line + seq![b]);
}

} // verus!
