//! The host terminal a client shell runs in: whether it is a terminal at
//! all and how large it is.

use vstd::prelude::*;

verus! {

/// Whether standard input is a terminal, and its size as columns and rows.
pub struct TerminalMode {
    is_tty: bool,
    size: Option<(u16, u16)>,
}

/// A window size as reported by the terminal; zero columns or rows mean
/// the size is unknown.
pub open spec fn known_size(cols: u16, rows: u16) -> Option<(u16, u16)> {
    if cols == 0 || rows == 0 {
        None
    } else {
        Some((cols, rows))
    }
}

pub fn window_size(cols: u16, rows: u16) -> (r: Option<(u16, u16)>)
    ensures
        r == known_size(cols, rows),
{
    if cols == 0 || rows == 0 {
        None
    } else {
        Some((cols, rows))
    }
}

impl TerminalMode {
    pub closed spec fn tty(&self) -> bool {
        self.is_tty
    }

    pub closed spec fn dims(&self) -> Option<(u16, u16)> {
        self.size
    }

    /// The mode from what the host reported: the size of the controlling
    /// terminal if it has one; otherwise whether standard input is a
    /// terminal, and then its size.
    pub fn from_probes(controlling_size: Option<(u16, u16)>, stdin_is_tty: bool, stdin_size: Option<(u16, u16)>) -> (m: TerminalMode)
        ensures
            controlling_size is Some ==> m.tty() && m.dims() == controlling_size,
            controlling_size is None && !stdin_is_tty ==> !m.tty() && m.dims() is None,
            controlling_size is None && stdin_is_tty ==> m.tty() && m.dims() == stdin_size,
    {
        if let Some(size) = controlling_size {
            return TerminalMode { is_tty: true, size: Some(size) };
        }
        if !stdin_is_tty {
            return TerminalMode { is_tty: false, size: None };
        }
        TerminalMode { is_tty: true, size: stdin_size }
    }

    /// No terminal, no size.
    pub fn detached() -> (m: TerminalMode)
        ensures
            !m.tty(),
            m.dims() is None,
    {
        TerminalMode { is_tty: false, size: None }
    }

    pub fn is_tty(&self) -> (r: bool)
        ensures
            r == self.tty(),
    {
        self.is_tty
    }

    pub fn size(&self) -> (r: Option<(u16, u16)>)
        ensures
            r == self.dims(),
    {
        self.size
    }

    /// Raw mode is only entered on a terminal.
    pub fn wants_raw_mode(&self) -> (r: bool)
        ensures
            r == self.tty(),
    {
        self.is_tty
    }
}

} // verus!
