use vstd::prelude::*;

use std::io::Write;
use crossterm::QueueableCommand;

use crate::text::{cut_text, cut_to, push_str};

verus! {

/// Why running the terminal interface failed.
#[derive(Debug)]
pub enum AppError {
    TerminalInit(std::io::Error),
    TerminalRestore(String),
    EventLoop(String),
    Render(String),
    Panic(String),
}

/// The text of an I/O error (`Display` of `std::io::Error`). What it says
/// depends on the system and is not stated.
#[verifier::external_body]
fn io_error_text(e: &std::io::Error) -> String {
    e.to_string()
}

impl AppError {
    /// The human-readable text of the error.
    pub fn message(&self) -> (r: String)
        ensures
            match self {
                AppError::TerminalInit(_) => r@.len() >= 32 && r@.take(32) == "Terminal initialization failed: "@,
                AppError::TerminalRestore(m) => r@ == "Terminal restore failed: "@ + m@,
                AppError::EventLoop(m) => r@ == "Event loop error: "@ + m@,
                AppError::Render(m) => r@ == "Render error: "@ + m@,
                AppError::Panic(m) => r@ == "Panic: "@ + m@,
            },
    {
        let mut out = String::new();
        match self {
            AppError::TerminalInit(e) => {
                push_str(&mut out, "Terminal initialization failed: ");
                proof { reveal_strlit("Terminal initialization failed: "); }
                let ghost head = out@;
                let t = io_error_text(e);
                push_str(&mut out, t.as_str());
                proof { assert(out@.take(32) =~= head); }
            },
            AppError::TerminalRestore(m) => {
                push_str(&mut out, "Terminal restore failed: ");
                push_str(&mut out, m.as_str());
            },
            AppError::EventLoop(m) => {
                push_str(&mut out, "Event loop error: ");
                push_str(&mut out, m.as_str());
            },
            AppError::Render(m) => {
                push_str(&mut out, "Render error: ");
                push_str(&mut out, m.as_str());
            },
            AppError::Panic(m) => {
                push_str(&mut out, "Panic: ");
                push_str(&mut out, m.as_str());
            },
        }
        out
    }
}

/// `crossterm::terminal::enable_raw_mode`; the error as text. Whether the
/// terminal allows it is not stated.
#[verifier::external_body]
fn raw_mode_on() -> Result<(), String> {
    crossterm::terminal::enable_raw_mode().map_err(|e| e.to_string())
}

/// `crossterm::terminal::disable_raw_mode`; the error as text.
#[verifier::external_body]
fn raw_mode_off() -> Result<(), String> {
    crossterm::terminal::disable_raw_mode().map_err(|e| e.to_string())
}

/// Writes `crossterm::cursor::Hide` to standard output (`QueueableCommand::queue`)
/// and flushes; the error as text.
#[verifier::external_body]
fn cursor_hide() -> Result<(), String> {
    let mut out = std::io::stdout();
    out.queue(crossterm::cursor::Hide).map(|_| ()).and_then(|_| out.flush()).map_err(|e| e.to_string())
}

/// Writes `crossterm::cursor::Show` to standard output and flushes; the
/// error as text.
#[verifier::external_body]
fn cursor_show() -> Result<(), String> {
    let mut out = std::io::stdout();
    out.queue(crossterm::cursor::Show).map(|_| ()).and_then(|_| out.flush()).map_err(|e| e.to_string())
}

/// Writes `EnterAlternateScreen` and `EnableBracketedPaste` to standard
/// output and flushes; the error as text.
#[verifier::external_body]
fn screen_enter() -> Result<(), String> {
    let mut out = std::io::stdout();
    out.queue(crossterm::terminal::EnterAlternateScreen)
        .and_then(|o| o.queue(crossterm::event::EnableBracketedPaste))
        .map(|_| ())
        .and_then(|_| out.flush())
        .map_err(|e| e.to_string())
}

/// Writes `LeaveAlternateScreen` and `DisableBracketedPaste` to standard
/// output and flushes; the error as text.
#[verifier::external_body]
fn screen_leave() -> Result<(), String> {
    let mut out = std::io::stdout();
    out.queue(crossterm::terminal::LeaveAlternateScreen)
        .and_then(|o| o.queue(crossterm::event::DisableBracketedPaste))
        .map(|_| ())
        .and_then(|_| out.flush())
        .map_err(|e| e.to_string())
}

fn restore_error(r: Result<(), String>) -> (e: Result<(), AppError>)
    ensures
        r is Ok <==> e is Ok,
        e is Err ==> e matches Err(AppError::TerminalRestore(_)),
{
    match r {
        Ok(()) => Ok(()),
        Err(t) => Err(AppError::TerminalRestore(t)),
    }
}

/// Whether the terminal is in raw mode on the alternate screen.
pub struct TerminalGuard {
    pub raw_mode: bool,
}

impl TerminalGuard {
    fn enter_steps() -> (r: Result<(), AppError>)
        ensures
            r is Err ==> r matches Err(AppError::TerminalRestore(_)),
    {
        restore_error(raw_mode_on())?;
        restore_error(cursor_hide())?;
        restore_error(screen_enter())
    }

    /// Puts the terminal in raw mode with a hidden cursor on the alternate
    /// screen.
    pub fn enter_raw_mode() -> (r: Result<Self, AppError>)
        ensures
            r matches Ok(g) ==> g.raw_mode,
            r is Err ==> r matches Err(AppError::TerminalRestore(_)),
    {
        Self::enter_steps()?;
        Ok(TerminalGuard { raw_mode: true })
    }

    /// Leaves the alternate screen, raw mode and the hidden cursor.
    pub fn exit_raw_mode() -> (r: Result<(), AppError>)
        ensures
            r is Err ==> r matches Err(AppError::TerminalRestore(_)),
    {
        let _ = screen_leave();
        restore_error(raw_mode_off())?;
        restore_error(cursor_show())
    }

    /// Gives the terminal back, for instance to an external editor; nothing
    /// to do when it is not in raw mode.
    pub fn suspend(&mut self) -> (r: Result<(), AppError>)
        ensures
            !old(self).raw_mode ==> r is Ok && !final(self).raw_mode,
            old(self).raw_mode && r is Ok ==> !final(self).raw_mode,
            r is Err ==> final(self).raw_mode && (r matches Err(AppError::TerminalRestore(_))),
    {
        if self.raw_mode {
            Self::exit_raw_mode()?;
            self.raw_mode = false;
        }
        Ok(())
    }

    /// Takes the terminal back into raw mode; nothing to do when it is.
    pub fn resume(&mut self) -> (r: Result<(), AppError>)
        ensures
            old(self).raw_mode ==> r is Ok && final(self).raw_mode,
            !old(self).raw_mode && r is Ok ==> final(self).raw_mode,
            r is Err ==> !final(self).raw_mode && (r matches Err(AppError::TerminalRestore(_))),
    {
        if !self.raw_mode {
            Self::enter_steps()?;
            self.raw_mode = true;
        }
        Ok(())
    }
}

/// The status line text cut to its first `max_chars` characters, with
/// `...` after it where it was cut.
pub fn truncate_status_text(value: &str, max_chars: usize) -> (r: String)
    ensures
        r@ == cut_text(value@, max_chars as nat),
{
    cut_to(value, max_chars)
}

} // verus!
