//! Measuring the width a string occupies on a terminal: characters inside
//! ANSI escape sequences contribute nothing, every other character one cell.

use vstd::prelude::*;

verus! {

/// The measurement state: plain text, just after an escape character, or
/// inside a control sequence awaiting its terminator.
pub enum WidthState {
    Plain,
    Escaped,
    Control,
}

/// The visible width of `s[i..]` starting in state `st`. An escape character
/// contributes nothing and leads to the escaped state; there a `[` opens a
/// control sequence, whose characters count for nothing until a terminator
/// in `@` through `~` returns to plain text.
pub open spec fn width_from(s: Seq<char>, i: int, st: WidthState) -> nat
    decreases s.len() - i,
{
    if i < 0 || i >= s.len() {
        0
    } else {
        let c = s[i] as u32;
        match st {
            WidthState::Plain => {
                if c == 0x1b {
                    width_from(s, i + 1, WidthState::Escaped)
                } else {
                    1 + width_from(s, i + 1, WidthState::Plain)
                }
            },
            WidthState::Escaped => {
                if c == 0x5b {
                    width_from(s, i + 1, WidthState::Control)
                } else {
                    1 + width_from(s, i + 1, WidthState::Escaped)
                }
            },
            WidthState::Control => {
                if 0x40 <= c && c <= 0x7e {
                    width_from(s, i + 1, WidthState::Plain)
                } else {
                    width_from(s, i + 1, WidthState::Control)
                }
            },
        }
    }
}

/// The number of terminal cells `s` occupies, escape sequences excluded.
pub open spec fn visible_width_spec(s: Seq<char>) -> nat {
    width_from(s, 0, WidthState::Plain)
}

/// Determine the number of characters in an ANSI string that are visible in
/// the terminal.
pub fn visible_width(s: &str) -> (w: usize)
    ensures
        w == visible_width_spec(s@),
{
    let n = s.unicode_len();
    let mut w: usize = 0;
    let mut in_escape = false;
    let mut in_control = false;
    let ghost mut st = WidthState::Plain;
    let mut i: usize = 0;
    while i < n
        invariant
            n == s@.len(),
            0 <= i <= n,
            w <= i,
            in_control ==> in_escape,
            st == (if in_control {
                WidthState::Control
            } else if in_escape {
                WidthState::Escaped
            } else {
                WidthState::Plain
            }),
            visible_width_spec(s@) == w + width_from(s@, i as int, st),
        decreases n - i,
    {
        let c = s.get_char(i) as u32;
        if in_control {
            if 0x40 <= c && c <= 0x7e {
                in_escape = false;
                in_control = false;
                proof {
                    st = WidthState::Plain;
                }
            }
        } else if in_escape {
            if c == 0x5b {
                in_control = true;
                proof {
                    st = WidthState::Control;
                }
            } else {
                w = w + 1;
            }
        } else {
            if c == 0x1b {
                in_escape = true;
                proof {
                    st = WidthState::Escaped;
                }
            } else {
                w = w + 1;
            }
        }
        i = i + 1;
    }
    w
}

} // verus!
