use vstd::prelude::*;

pub mod client;
pub mod config;
pub mod coordinator;
mod errors;
pub mod hotkey;
pub mod orchestrator;
pub mod prompt;
pub mod text;

pub use errors::HotkeyError;
pub use errors::NotifyKind;
pub use errors::TranslateError;

use crate::text::chars_to_string;
use crate::text::str_chars;

verus! {

/// The immutable settings a translation run works from. A run snapshots this
/// value when it is accepted, so later edits to the shared copy cannot reach a
/// request already in flight.
#[derive(Clone, Debug)]
pub struct Config {
    pub api_key: String,
    pub model: String,
    pub target_language: String,
    pub reasoning_enabled: bool,
    pub hotkey: String,
}

impl Default for Config {
    fn default() -> (c: Config)
        ensures
            c.api_key@ == Seq::<char>::empty(),
            c.model@ == "google/gemini-3-flash-preview"@,
            c.target_language@ == "English"@,
            c.reasoning_enabled == true,
            c.hotkey@ == "Ctrl+Alt+T"@,
    {
        Config {
            api_key: String::new(),
            model: "google/gemini-3-flash-preview".to_owned(),
            target_language: "English".to_owned(),
            reasoning_enabled: true,
            hotkey: "Ctrl+Alt+T".to_owned(),
        }
    }
}

pub open spec fn spec_upper_hex_digit(n: int) -> char {
    if n < 10 {
        (48 + n) as char
    } else {
        (55 + n) as char
    }
}

/// How one character is percent-encoded in a URL query value: unreserved
/// characters stand as themselves, a space is `%20`, anything else is `%`
/// and two upper-case hex digits of its low byte.
pub open spec fn spec_urlencode_char(c: char) -> Seq<char> {
    let n = c as u32;
    if (97 <= n && n <= 122) || (65 <= n && n <= 90) || (48 <= n && n <= 57) || n == 45 || n == 95
        || n == 46 || n == 126 {
        seq![c]
    } else if n == 32 {
        seq!['%', '2', '0']
    } else {
        seq![
            '%',
            spec_upper_hex_digit(((n % 256) / 16) as int),
            spec_upper_hex_digit((n % 16) as int),
        ]
    }
}

pub open spec fn spec_urlencode(s: Seq<char>) -> Seq<char>
    decreases s.len(),
{
    if s.len() == 0 {
        Seq::empty()
    } else {
        spec_urlencode_char(s[0]) + spec_urlencode(s.subrange(1, s.len() as int))
    }
}

fn upper_hex_digit(n: u32) -> (r: char)
    requires
        n < 16,
    ensures
        r == spec_upper_hex_digit(n as int),
{
    if n < 10 {
        ((48 + n) as u8) as char
    } else {
        ((55 + n) as u8) as char
    }
}

/// Percent-encode a string for use in a URL query value.
pub fn urlencoding(s: &str) -> (r: String)
    ensures
        r@ == spec_urlencode(s@),
{
    let v = str_chars(s);
    let n = v.len();
    let mut out: Vec<char> = Vec::new();
    let mut i: usize = 0;
    proof {
        assert(v@.subrange(0, n as int) =~= v@);
    }
    while i < n
        invariant
            i <= n,
            n == v@.len(),
            spec_urlencode(v@) == out@ + spec_urlencode(v@.subrange(i as int, n as int)),
        decreases n - i,
    {
        let ghost rem = v@.subrange(i as int, n as int);
        proof {
            assert(rem[0] == v@[i as int]);
            assert(rem.subrange(1, rem.len() as int) =~= v@.subrange(i + 1, n as int));
        }
        let ghost pre = out@;
        let c = v[i];
        let code = c as u32;
        if (97 <= code && code <= 122) || (65 <= code && code <= 90) || (48 <= code && code <= 57)
            || code == 45 || code == 95 || code == 46 || code == 126 {
            out.push(c);
        } else if code == 32 {
            out.push('%');
            out.push('2');
            out.push('0');
        } else {
            let b = code % 256;
            out.push('%');
            out.push(upper_hex_digit(b / 16));
            out.push(upper_hex_digit(b % 16));
            proof {
                assert((code % 256) % 16 == code % 16) by (nonlinear_arith);
            }
        }
        proof {
            assert(out@ =~= pre + spec_urlencode_char(v@[i as int]));
            assert(pre + (spec_urlencode_char(v@[i as int]) + spec_urlencode(
                v@.subrange(i + 1, n as int),
            )) =~= (pre + spec_urlencode_char(v@[i as int])) + spec_urlencode(
                v@.subrange(i + 1, n as int),
            ));
        }
        i = i + 1;
    }
    proof {
        assert(v@.subrange(n as int, n as int) =~= Seq::<char>::empty());
    }
    chars_to_string(&out)
}

} // verus!
