//! The interactive shell's control logic: translating key input to the
//! byte sequences a terminal expects, and the dumb-mode pump that forwards
//! local input and drains the remote channel's two output streams in
//! alternation. The channel itself is driven by the caller.

use vstd::prelude::*;

verus! {

/// One piece of local key input, as the front end reports it.
pub enum KeyInput {
    Backspace,
    Enter,
    Left,
    Right,
    Up,
    Down,
    Home,
    End,
    PageUp,
    PageDown,
    Tab,
    BackTab,
    Delete,
    Insert,
    /// A function key by number.
    F(u8),
    /// A plain character.
    Char(char),
    /// A character with the control modifier held.
    Ctrl(char),
    /// A character with the alt modifier held.
    Alt(char),
    Null,
    Esc,
    /// Anything else: ignored.
    Other,
}

/// The bytes one key sends to the remote side: the xterm sequences for
/// navigation and function keys, control characters for modified letters,
/// and plain characters as themselves.
pub open spec fn key_bytes(k: KeyInput) -> Seq<u8> {
    match k {
        KeyInput::Backspace => seq![0x08u8, 0x20u8, 0x08u8],
        KeyInput::Enter => seq![0x0du8],
        KeyInput::Left => seq![0x1bu8, 0x5bu8, 0x44u8],
        KeyInput::Right => seq![0x1bu8, 0x5bu8, 0x43u8],
        KeyInput::Up => seq![0x1bu8, 0x5bu8, 0x41u8],
        KeyInput::Down => seq![0x1bu8, 0x5bu8, 0x42u8],
        KeyInput::Home => seq![0x1bu8, 0x5bu8, 0x48u8],
        KeyInput::End => seq![0x1bu8, 0x5bu8, 0x46u8],
        KeyInput::PageUp => seq![0x1bu8, 0x5bu8, 0x35u8, 0x7eu8],
        KeyInput::PageDown => seq![0x1bu8, 0x5bu8, 0x36u8, 0x7eu8],
        KeyInput::Tab => seq![0x09u8],
        KeyInput::BackTab => seq![0x1bu8, 0x5bu8, 0x5au8],
        KeyInput::Delete => seq![0x1bu8, 0x5bu8, 0x33u8, 0x7eu8],
        KeyInput::Insert => seq![0x1bu8, 0x5bu8, 0x32u8, 0x7eu8],
        KeyInput::F(n) => seq![0x1bu8, 0x5bu8, 0x4fu8, (0x30 + n) as u8],
        KeyInput::Char(c) => seq![c as u8],
        KeyInput::Ctrl(c) => seq![(c as u8 - 0x60) as u8],
        KeyInput::Alt(c) => seq![0x1bu8, c as u8],
        KeyInput::Null => seq![0x00u8],
        KeyInput::Esc => seq![0x1bu8],
        KeyInput::Other => Seq::empty(),
    }
}

/// Whether a key is one this encoding covers without truncation.
pub open spec fn key_encodable(k: KeyInput) -> bool {
    match k {
        KeyInput::F(n) => n <= 12,
        KeyInput::Char(c) => (c as u32) < 128,
        KeyInput::Ctrl(c) => 0x60 < (c as u32) <= 0x7a,
        KeyInput::Alt(c) => (c as u32) < 128,
        _ => true,
    }
}

/// Encodes one key as the bytes to write to the channel's stdin.
pub fn encode_key(k: &KeyInput) -> (r: Vec<u8>)
    requires
        key_encodable(*k),
    ensures
        r@ == key_bytes(*k),
{
    let mut out: Vec<u8> = Vec::new();
    match k {
        KeyInput::Backspace => {
            out.push(0x08);
            out.push(0x20);
            out.push(0x08);
        },
        KeyInput::Enter => {
            out.push(0x0d);
        },
        KeyInput::Left => {
            out.push(0x1b);
            out.push(0x5b);
            out.push(0x44);
        },
        KeyInput::Right => {
            out.push(0x1b);
            out.push(0x5b);
            out.push(0x43);
        },
        KeyInput::Up => {
            out.push(0x1b);
            out.push(0x5b);
            out.push(0x41);
        },
        KeyInput::Down => {
            out.push(0x1b);
            out.push(0x5b);
            out.push(0x42);
        },
        KeyInput::Home => {
            out.push(0x1b);
            out.push(0x5b);
            out.push(0x48);
        },
        KeyInput::End => {
            out.push(0x1b);
            out.push(0x5b);
            out.push(0x46);
        },
        KeyInput::PageUp => {
            out.push(0x1b);
            out.push(0x5b);
            out.push(0x35);
            out.push(0x7e);
        },
        KeyInput::PageDown => {
            out.push(0x1b);
            out.push(0x5b);
            out.push(0x36);
            out.push(0x7e);
        },
        KeyInput::Tab => {
            out.push(0x09);
        },
        KeyInput::BackTab => {
            out.push(0x1b);
            out.push(0x5b);
            out.push(0x5a);
        },
        KeyInput::Delete => {
            out.push(0x1b);
            out.push(0x5b);
            out.push(0x33);
            out.push(0x7e);
        },
        KeyInput::Insert => {
            out.push(0x1b);
            out.push(0x5b);
            out.push(0x32);
            out.push(0x7e);
        },
        KeyInput::F(n) => {
            out.push(0x1b);
            out.push(0x5b);
            out.push(0x4f);
            out.push(0x30 + n);
        },
        KeyInput::Char(c) => {
            out.push(*c as u8);
        },
        KeyInput::Ctrl(c) => {
            out.push(*c as u8 - 0x60);
        },
        KeyInput::Alt(c) => {
            out.push(0x1b);
            out.push(*c as u8);
        },
        KeyInput::Null => {
            out.push(0x00);
        },
        KeyInput::Esc => {
            out.push(0x1b);
        },
        KeyInput::Other => {},
    }
    proof {
        assert(out@ =~= key_bytes(*k));
    }
    out
}

/// What the dumb-mode pump observes in one iteration.
pub enum ShellEvent {
    /// A chunk of local input arrived.
    Input(Vec<u8>),
    /// The local input queue closed.
    InputClosed,
    /// A non-blocking read of the polled stream returned these bytes.
    Read(Vec<u8>),
    /// The read would block or returned nothing, and the channel is still
    /// open.
    NothingYet,
    /// The read would block or returned nothing, and the channel is closed.
    ClosedNow,
    /// The channel reported end of stream.
    Eof,
    /// The read failed.
    ReadError(String),
}

/// What the dumb-mode pump must do next.
pub enum ShellAction {
    /// Write these bytes to the channel's stdin and flush.
    WriteRemote(Vec<u8>),
    /// Write these bytes to the local stream the poll was for: stderr when
    /// the flag is set, stdout otherwise.
    WriteLocal { stderr: bool, data: Vec<u8> },
    /// Back off briefly, then poll again.
    Sleep,
    /// Leave the loop and collect the exit status.
    Exit,
    /// Fail with this message.
    Fail(String),
}

/// The dumb-mode shell pump: no PTY, so the remote's stdout and stderr are
/// polled in strict alternation — the flag flips after every poll — while
/// local input is forwarded verbatim to the remote stdin.
pub struct DumbShell {
    /// Which stream the next poll reads: stderr when set, stdout otherwise.
    pub poll_stderr: bool,
}

impl DumbShell {
    /// A pump that polls stdout first.
    pub fn new() -> (r: DumbShell)
        ensures
            !r.poll_stderr,
    {
        DumbShell { poll_stderr: false }
    }

    /// Which stream to poll now.
    pub fn poll_target(&self) -> (r: bool)
        ensures
            r == self.poll_stderr,
    {
        self.poll_stderr
    }

    /// Reacts to one event. Local input goes to the remote unchanged and
    /// does not flip the poll flag; every poll outcome flips it, so both
    /// output streams make progress; read bytes go verbatim to the local
    /// stream they were polled from.
    pub fn on_event(&mut self, event: ShellEvent) -> (r: ShellAction)
        ensures
            match event {
                ShellEvent::Input(data) => (r matches ShellAction::WriteRemote(d) && d@ == data@)
                    && final(self).poll_stderr == old(self).poll_stderr,
                ShellEvent::InputClosed => r is Exit && final(self).poll_stderr == old(self).poll_stderr,
                ShellEvent::Read(data) => (r matches ShellAction::WriteLocal { stderr, data: d }
                    && stderr == old(self).poll_stderr && d@ == data@) && final(self).poll_stderr
                    == !old(self).poll_stderr,
                ShellEvent::NothingYet => r is Sleep && final(self).poll_stderr == !old(self).poll_stderr,
                ShellEvent::ClosedNow => r is Exit && final(self).poll_stderr == !old(self).poll_stderr,
                ShellEvent::Eof => r is Exit && final(self).poll_stderr == old(self).poll_stderr,
                ShellEvent::ReadError(m) => (r matches ShellAction::Fail(f) && f@ == m@) && final(self).poll_stderr == !old(self).poll_stderr,
            },
    {
        match event {
            ShellEvent::Input(data) => ShellAction::WriteRemote(data),
            ShellEvent::InputClosed => ShellAction::Exit,
            ShellEvent::Read(data) => {
                let was = self.poll_stderr;
                self.poll_stderr = !self.poll_stderr;
                ShellAction::WriteLocal { stderr: was, data }
            },
            ShellEvent::NothingYet => {
                self.poll_stderr = !self.poll_stderr;
                ShellAction::Sleep
            },
            ShellEvent::ClosedNow => {
                self.poll_stderr = !self.poll_stderr;
                ShellAction::Exit
            },
            ShellEvent::Eof => ShellAction::Exit,
            ShellEvent::ReadError(m) => {
                self.poll_stderr = !self.poll_stderr;
                ShellAction::Fail(m)
            },
        }
    }
}

/// The exit code the shell reports: the channel's exit status, or -1 when
/// the channel never reported one.
pub fn shell_exit_code(status: Option<i32>) -> (r: i32)
    ensures
        r == (match status {
            Some(s) => s,
            None => -1i32,
        }),
{
    match status {
        Some(s) => s,
        None => -1,
    }
}

} // verus!
