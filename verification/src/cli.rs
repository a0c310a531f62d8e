//! The client's command line: its parsed shape, and the reading of the
//! user id that the `id -u` query prints.  The querying itself, like all
//! process spawning, is the shell's work.

use vstd::prelude::*;

use crate::codec::parse_u32;

verus! {

/// Global options every subcommand shares.
pub struct Globals {
    /// User id, from an explicit override or from the OS query.
    pub user_id: u32,
}

/// The top-level subcommand.
pub enum Command {
    /// Handle servers.
    Server(crate::server::App),
}

/// The whole parsed command line.
pub struct Args {
    pub globals: Globals,
    pub command: Command,
}

/// ASCII whitespace, as the id query's output carries it (a trailing
/// newline, at most).
pub open spec fn is_space(c: char) -> bool {
    c == ' ' || c == '\n' || c == '\t' || c == '\r'
}

/// First position at or after `i` that holds no whitespace, or the end.
pub open spec fn skip_spaces(s: Seq<char>, i: int) -> int
    decreases s.len() - i,
    when 0 <= i <= s.len()
{
    if i >= s.len() {
        s.len() as int
    } else if is_space(s[i]) {
        skip_spaces(s, i + 1)
    } else {
        i
    }
}

/// Position after the last character of `s[..i]` that holds no whitespace,
/// or zero.
pub open spec fn rskip_spaces(s: Seq<char>, i: int) -> int
    decreases i,
    when 0 <= i <= s.len()
{
    if i <= 0 {
        0
    } else if is_space(s[i - 1]) {
        rskip_spaces(s, i - 1)
    } else {
        i
    }
}

/// The user id a query output names: the text with surrounding whitespace
/// trimmed must be one decimal number that fits in 32 bits; anything else
/// falls back to user id zero.
pub open spec fn spec_user_id(s: Seq<char>) -> u32 {
    let a = skip_spaces(s, 0);
    let b = rskip_spaces(s, s.len() as int);
    if a >= b {
        0
    } else {
        let t = s.subrange(a, b);
        match parse_u32(t, 0) {
            Option::Some((v, j)) => if j == t.len() {
                v as u32
            } else {
                0
            },
            Option::None => 0,
        }
    }
}

/// Reads the user id out of what the OS query printed, zero when the text
/// is not one well-formed number.
pub fn parse_user_id(output: &str) -> (uid: u32)
    ensures
        uid == spec_user_id(output@),
{
    let n = output.unicode_len();
    let mut a: usize = 0;
    loop
        invariant_except_break
            0 <= a <= n,
            n == output@.len(),
            skip_spaces(output@, 0) == skip_spaces(output@, a as int),
        ensures
            0 <= a <= n,
            n == output@.len(),
            skip_spaces(output@, 0) == a as int,
        decreases n - a,
    {
        if a >= n {
            break ;
        }
        let c = output.get_char(a);
        if !(c == ' ' || c == '\n' || c == '\t' || c == '\r') {
            break ;
        }
        a = a + 1;
    }
    let mut b: usize = n;
    loop
        invariant_except_break
            0 <= b <= n,
            n == output@.len(),
            rskip_spaces(output@, n as int) == rskip_spaces(output@, b as int),
        ensures
            0 <= b <= n,
            n == output@.len(),
            rskip_spaces(output@, n as int) == b as int,
        decreases b,
    {
        if b == 0 {
            break ;
        }
        let c = output.get_char(b - 1);
        if !(c == ' ' || c == '\n' || c == '\t' || c == '\r') {
            break ;
        }
        b = b - 1;
    }
    if a >= b {
        return 0;
    }
    let t = output.substring_char(a, b);
    match crate::codec::read_u32(t, 0) {
        Option::Some((v, j)) => {
            if j == t.unicode_len() {
                v
            } else {
                0
            }
        },
        Option::None => 0,
    }
}

} // verus!
