//! Tray-facing state: unread count, notification mute, and focus mode.
//!
//! The desktop shell keeps these as one explicit state value with read and
//! write accessors; the host layer owns a single instance and mirrors it
//! into the tray menu and tooltip.

use vstd::prelude::*;
use vstd::string::StringExecFns;

verus! {

/// One decimal digit as a character.
pub open spec fn digit_char(d: nat) -> char {
    if d == 0 {
        '0'
    } else if d == 1 {
        '1'
    } else if d == 2 {
        '2'
    } else if d == 3 {
        '3'
    } else if d == 4 {
        '4'
    } else if d == 5 {
        '5'
    } else if d == 6 {
        '6'
    } else if d == 7 {
        '7'
    } else if d == 8 {
        '8'
    } else {
        '9'
    }
}

/// The decimal digits of `n`, most significant first, no leading zeros.
pub open spec fn dec_str(n: nat) -> Seq<char>
    decreases n,
{
    if n < 10 {
        seq![digit_char(n)]
    } else {
        dec_str(n / 10).push(digit_char(n % 10))
    }
}

fn digit_str(d: u32) -> (r: &'static str)
    requires
        d < 10,
    ensures
        r@ == seq![digit_char(d as nat)],
{
    proof {
        reveal_strlit("0");
        reveal_strlit("1");
        reveal_strlit("2");
        reveal_strlit("3");
        reveal_strlit("4");
        reveal_strlit("5");
        reveal_strlit("6");
        reveal_strlit("7");
        reveal_strlit("8");
        reveal_strlit("9");
    }
    let r = if d == 0 {
        "0"
    } else if d == 1 {
        "1"
    } else if d == 2 {
        "2"
    } else if d == 3 {
        "3"
    } else if d == 4 {
        "4"
    } else if d == 5 {
        "5"
    } else if d == 6 {
        "6"
    } else if d == 7 {
        "7"
    } else if d == 8 {
        "8"
    } else {
        "9"
    };
    proof {
        assert(r@ =~= seq![digit_char(d as nat)]);
    }
    r
}

/// `n` written in decimal.
pub fn u32_dec(n: u32) -> (s: String)
    ensures
        s@ == dec_str(n as nat),
    decreases n,
{
    if n < 10 {
        digit_str(n).to_owned()
    } else {
        let mut s = u32_dec(n / 10);
        s.append(digit_str(n % 10));
        proof {
            assert(s@ =~= dec_str((n / 10) as nat).push(digit_char((n % 10) as nat)));
        }
        s
    }
}

/// The tray tooltip: the application name, with the unread count when any.
pub open spec fn tooltip_model(count: nat) -> Seq<char> {
    if count == 0 {
        "Hearth"@
    } else {
        "Hearth ("@ + dec_str(count) + " unread)"@
    }
}

/// Render the tooltip text for an unread count.
pub fn tray_tooltip(count: u32) -> (s: String)
    ensures
        s@ == tooltip_model(count as nat),
{
    if count == 0 {
        "Hearth".to_owned()
    } else {
        let mut s = "Hearth (".to_owned();
        let digits = u32_dec(count);
        s.append(digits.as_str());
        s.append(" unread)");
        proof {
            assert(s@ =~= tooltip_model(count as nat));
        }
        s
    }
}

/// The shell-wide flags the tray reflects, as one explicit state value.
#[derive(Debug, Clone, Copy, PartialEq, Eq, Structural)]
pub struct TrayState {
    /// Unread message count shown on the badge and tooltip.
    pub unread: u32,
    /// Whether notifications are muted.
    pub muted: bool,
    /// Whether focus mode (mentions and DMs only) is active.
    pub focus_mode: bool,
}

impl TrayState {
    /// Fresh state: nothing unread, notifications on, focus mode off.
    pub fn new() -> (r: TrayState)
        ensures
            r.unread == 0,
            !r.muted,
            !r.focus_mode,
    {
        TrayState { unread: 0, muted: false, focus_mode: false }
    }

    /// Current unread message count.
    pub fn get_unread_count(&self) -> (r: u32)
        ensures
            r == self.unread,
    {
        self.unread
    }

    /// Record a new unread message count.
    pub fn set_unread_count(&mut self, count: u32)
        ensures
            *final(self) == (TrayState { unread: count, ..*old(self) }),
    {
        self.unread = count;
    }

    /// Whether notifications are muted.
    pub fn is_muted(&self) -> (r: bool)
        ensures
            r == self.muted,
    {
        self.muted
    }

    /// Flip the mute flag; the new state is returned.
    pub fn toggle_mute(&mut self) -> (r: bool)
        ensures
            *final(self) == (TrayState { muted: !old(self).muted, ..*old(self) }),
            r == !old(self).muted,
    {
        self.muted = !self.muted;
        self.muted
    }

    /// Set the mute flag outright; the new state is returned.
    pub fn set_mute(&mut self, muted: bool) -> (r: bool)
        ensures
            *final(self) == (TrayState { muted, ..*old(self) }),
            r == muted,
    {
        self.muted = muted;
        muted
    }

    /// Whether focus mode is active.
    pub fn is_focus_mode_enabled(&self) -> (r: bool)
        ensures
            r == self.focus_mode,
    {
        self.focus_mode
    }

    /// Flip the focus-mode flag; the new state is returned.
    pub fn toggle_focus_mode(&mut self) -> (r: bool)
        ensures
            *final(self) == (TrayState { focus_mode: !old(self).focus_mode, ..*old(self) }),
            r == !old(self).focus_mode,
    {
        self.focus_mode = !self.focus_mode;
        self.focus_mode
    }

    /// Set the focus-mode flag outright; the new state is returned.
    pub fn set_focus_mode(&mut self, active: bool) -> (r: bool)
        ensures
            *final(self) == (TrayState { focus_mode: active, ..*old(self) }),
            r == active,
    {
        self.focus_mode = active;
        active
    }

    /// The tooltip text this state asks the tray to show.
    pub fn tooltip(&self) -> (s: String)
        ensures
            s@ == tooltip_model(self.unread as nat),
    {
        tray_tooltip(self.unread)
    }
}

impl Default for TrayState {
    /// Same as [`TrayState::new`].
    fn default() -> (r: TrayState)
        ensures
            r.unread == 0,
            !r.muted,
            !r.focus_mode,
    {
        TrayState::new()
    }
}

} // verus!
