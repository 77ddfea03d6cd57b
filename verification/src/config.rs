//! Timing, dimension and burst constants, and the icon sets.
use vstd::prelude::*;

verus! {

pub const MAIN_WINDOW_HEIGHT: u16 = 32;

pub const MAIN_WINDOW_WIDTH: u16 = 77;

/// How long a connection attempt may run before it is abandoned.
pub const CONNECTION_TIMEOUT_SECS: u64 = 60;

/// Settle delay between installing a secured profile and connecting: the two
/// operations are acknowledged independently, and immediate connects are
/// observed to fail without it.
pub const PROFILE_REGISTRATION_DELAY_MS: u64 = 1500;

/// Settle delay between installing an open profile and connecting.
pub const OPEN_PROFILE_REGISTRATION_DELAY_MS: u64 = 1000;

/// Settle delay between requesting a scan and reading its results: scan
/// completion is not observable.
pub const SCAN_DELAY_MS: u64 = 2000;

pub const AUTO_REFRESH_INTERVAL_SECS: u64 = 10;

pub const SEARCHING_REFRESH_INTERVAL_SECS: u64 = 15;

pub const BURST_REFRESH_INTERVAL_SECS: u64 = 1;

pub const INTERACTION_COOLDOWN_SECS: u64 = 1;

pub const EVENT_POLL_MS: u64 = 100;

pub const MANUAL_REFRESH_DEBOUNCE_MS: u64 = 500;

pub const AUTO_CONNECT_DELAY_SECS: u64 = 5;

pub const STARTUP_REFRESH_BURST: u8 = 5;

pub const CONNECTION_REFRESH_BURST: u8 = 15;

pub const DISCONNECT_REFRESH_BURST: u8 = 5;

/// One frame of the loading animation.
pub fn loading_char(frame: usize) -> (r: &'static str)
    ensures
        r@ == loading_char_at(frame),
{
    match frame % 10 {
        0 => "\u{280b}",
        1 => "\u{2819}",
        2 => "\u{2839}",
        3 => "\u{2838}",
        4 => "\u{283c}",
        5 => "\u{2834}",
        6 => "\u{2826}",
        7 => "\u{2827}",
        8 => "\u{2807}",
        _ => "\u{280f}",
    }
}

/// The animation frame shown for a tick counter.
pub open spec fn loading_char_at(frame: usize) -> Seq<char> {
    match frame % 10 {
        0 => "\u{280b}"@,
        1 => "\u{2819}"@,
        2 => "\u{2839}"@,
        3 => "\u{2838}"@,
        4 => "\u{283c}"@,
        5 => "\u{2834}"@,
        6 => "\u{2826}"@,
        7 => "\u{2827}"@,
        8 => "\u{2807}"@,
        _ => "\u{280f}"@,
    }
}

/// The two icon families: one for terminals with patched glyph fonts, one
/// plain.
#[derive(Debug, Clone, Copy, PartialEq, Eq, Structural)]
pub enum IconSet {
    Nerd,
    Ascii,
}

impl Default for IconSet {
    fn default() -> (r: Self)
        ensures
            r == IconSet::Nerd,
    {
        IconSet::Nerd
    }
}

impl IconSet {
    pub fn saved(&self) -> (r: &'static str)
        ensures
            r@ == (match self {
                IconSet::Nerd => "\u{f0193} "@,
                IconSet::Ascii => "[S] "@,
            }),
    {
        match self {
            IconSet::Nerd => "\u{f0193} ",
            IconSet::Ascii => "[S] ",
        }
    }

    pub fn open(&self) -> (r: &'static str)
        ensures
            r@ == (match self {
                IconSet::Nerd => "\u{f09e} "@,
                IconSet::Ascii => "[O] "@,
            }),
    {
        match self {
            IconSet::Nerd => "\u{f09e} ",
            IconSet::Ascii => "[O] ",
        }
    }

    pub fn locked(&self) -> (r: &'static str)
        ensures
            r@ == (match self {
                IconSet::Nerd => "\u{f023} "@,
                IconSet::Ascii => "[*] "@,
            }),
    {
        match self {
            IconSet::Nerd => "\u{f023} ",
            IconSet::Ascii => "[*] ",
        }
    }

    pub fn connected(&self) -> (r: &'static str)
        ensures
            r@ == (match self {
                IconSet::Nerd => " \u{f05a9}"@,
                IconSet::Ascii => " <-"@,
            }),
    {
        match self {
            IconSet::Nerd => " \u{f05a9}",
            IconSet::Ascii => " <-",
        }
    }

    pub fn auto_on(&self) -> (r: &'static str)
        ensures
            r@ == (match self {
                IconSet::Nerd => "\u{f006a}"@,
                IconSet::Ascii => "(A)"@,
            }),
    {
        match self {
            IconSet::Nerd => "\u{f006a}",
            IconSet::Ascii => "(A)",
        }
    }

    pub fn auto_off(&self) -> (r: &'static str)
        ensures
            r@ == (match self {
                IconSet::Nerd => "\u{f19e7}"@,
                IconSet::Ascii => "(M)"@,
            }),
    {
        match self {
            IconSet::Nerd => "\u{f19e7}",
            IconSet::Ascii => "(M)",
        }
    }

    pub fn highlight(&self) -> (r: &'static str)
        ensures
            r@ == (match self {
                IconSet::Nerd => "  "@,
                IconSet::Ascii => "> "@,
            }),
    {
        match self {
            IconSet::Nerd => "  ",
            IconSet::Ascii => "> ",
        }
    }

    pub fn enter(&self) -> (r: &'static str)
        ensures
            r@ == (match self {
                IconSet::Nerd => "\u{f0311}"@,
                IconSet::Ascii => "Enter"@,
            }),
    {
        match self {
            IconSet::Nerd => "\u{f0311}",
            IconSet::Ascii => "Enter",
        }
    }

    pub fn tab_next(&self) -> (r: &'static str)
        ensures
            r@ == (match self {
                IconSet::Nerd => "\u{21e5} / \u{2193}"@,
                IconSet::Ascii => "Tab/Down"@,
            }),
    {
        match self {
            IconSet::Nerd => "\u{21e5} / \u{2193}",
            IconSet::Ascii => "Tab/Down",
        }
    }

    pub fn tab_prev(&self) -> (r: &'static str)
        ensures
            r@ == (match self {
                IconSet::Nerd => "\u{21e4} / \u{2191}"@,
                IconSet::Ascii => "S-Tab/Up"@,
            }),
    {
        match self {
            IconSet::Nerd => "\u{21e4} / \u{2191}",
            IconSet::Ascii => "S-Tab/Up",
        }
    }

    pub fn space(&self) -> (r: &'static str)
        ensures
            r@ == (match self {
                IconSet::Nerd => "\u{f1050}"@,
                IconSet::Ascii => "Space"@,
            }),
    {
        match self {
            IconSet::Nerd => "\u{f1050}",
            IconSet::Ascii => "Space",
        }
    }

    pub fn checkbox(&self, checked: bool) -> (r: &'static str)
        ensures
            r@ == (match self {
                IconSet::Nerd => if checked {
                    "\u{f046} "@
                } else {
                    "\u{f096} "@
                },
                IconSet::Ascii => if checked {
                    "[x]"@
                } else {
                    "[ ]"@
                },
            }),
    {
        match self {
            IconSet::Nerd => if checked {
                "\u{f046} "
            } else {
                "\u{f096} "
            },
            IconSet::Ascii => if checked {
                "[x]"
            } else {
                "[ ]"
            },
        }
    }

    pub fn btn_left(&self) -> (r: &'static str)
        ensures
            r@ == (match self {
                IconSet::Nerd => "\u{e0b6}"@,
                IconSet::Ascii => "["@,
            }),
    {
        match self {
            IconSet::Nerd => "\u{e0b6}",
            IconSet::Ascii => "[",
        }
    }

    pub fn btn_right(&self) -> (r: &'static str)
        ensures
            r@ == (match self {
                IconSet::Nerd => "\u{e0b4}"@,
                IconSet::Ascii => "]"@,
            }),
    {
        match self {
            IconSet::Nerd => "\u{e0b4}",
            IconSet::Ascii => "]",
        }
    }

    pub fn arrow_left(&self) -> (r: &'static str)
        ensures
            r@ == (match self {
                IconSet::Nerd => "\u{25c0}"@,
                IconSet::Ascii => "<"@,
            }),
    {
        match self {
            IconSet::Nerd => "\u{25c0}",
            IconSet::Ascii => "<",
        }
    }

    pub fn arrow_right(&self) -> (r: &'static str)
        ensures
            r@ == (match self {
                IconSet::Nerd => "\u{25b6}"@,
                IconSet::Ascii => ">"@,
            }),
    {
        match self {
            IconSet::Nerd => "\u{25b6}",
            IconSet::Ascii => ">",
        }
    }
}

} // verus!
