use vstd::prelude::*;

use crate::errors::HotkeyError;
use crate::text::case_eq;
use crate::text::lemma_lower_case_eq;
use crate::text::lemma_lower_char_classes;
use crate::text::lemma_trim_case;
use crate::text::lower_char;
use crate::text::spec_lower;
use crate::text::spec_trim;
use crate::text::str_chars;
use crate::text::to_lower;
use crate::text::trim_range;

verus! {

// The hotkey spec grammar: tokens joined by `+`, case-insensitive, any order,
// modifiers from a fixed alias table, exactly one key token from
// letters / digits / function keys / named keys.

/// The modifier keys a shortcut can require.
#[derive(Clone, Copy, Debug, PartialEq, Eq, Structural)]
pub struct ModifierSet {
    pub ctrl: bool,
    pub alt: bool,
    pub shift: bool,
    pub super_key: bool,
}

impl ModifierSet {
    /// No modifier held.
    pub fn empty() -> (r: ModifierSet)
        ensures
            r == spec_no_modifiers(),
    {
        ModifierSet { ctrl: false, alt: false, shift: false, super_key: false }
    }
}

pub open spec fn spec_no_modifiers() -> ModifierSet {
    ModifierSet { ctrl: false, alt: false, shift: false, super_key: false }
}

/// The non-modifier key of a shortcut. `Letter` holds the lower-case ASCII
/// code (97..=122), `Digit` the digit's value (0..=9), `Function` the function
/// key's number (1..=12).
#[derive(Clone, Copy, Debug, PartialEq, Eq, Structural)]
pub enum KeyCode {
    Letter(u8),
    Digit(u8),
    Function(u8),
    Space,
    Enter,
    Tab,
    Escape,
    Backspace,
    Delete,
    Insert,
    Home,
    End,
    PageUp,
    PageDown,
    ArrowUp,
    ArrowDown,
    ArrowLeft,
    ArrowRight,
}

/// A parsed shortcut: a set of modifiers plus exactly one key.
#[derive(Clone, Copy, Debug, PartialEq, Eq, Structural)]
pub struct ParsedShortcut {
    pub modifiers: ModifierSet,
    pub key: KeyCode,
}

/// Spec-level counterpart of `HotkeyError`; `Unknown` carries the offending
/// normalized token.
pub enum HotkeyFailure {
    NoKey,
    MultipleKeys,
    Unknown(Seq<char>),
}

/// The executable error reports exactly the spec-level failure.
pub open spec fn err_corresponds(e: HotkeyError, f: HotkeyFailure) -> bool {
    match (e, f) {
        (HotkeyError::NoKeySpecified, HotkeyFailure::NoKey) => true,
        (HotkeyError::MultipleKeysSpecified, HotkeyFailure::MultipleKeys) => true,
        (HotkeyError::UnknownKey(s), HotkeyFailure::Unknown(t)) => s@ == t,
        _ => false,
    }
}

/// Does the normalized token name a modifier?
pub open spec fn is_modifier_tok(t: Seq<char>) -> bool {
    ||| t == "ctrl"@
    ||| t == "control"@
    ||| t == "alt"@
    ||| t == "option"@
    ||| t == "shift"@
    ||| t == "win"@
    ||| t == "super"@
    ||| t == "meta"@
    ||| t == "cmd"@
    ||| t == "command"@
}

/// The modifier set after absorbing one modifier token.
pub open spec fn apply_modifier(m: ModifierSet, t: Seq<char>) -> ModifierSet {
    if t == "ctrl"@ || t == "control"@ {
        ModifierSet { ctrl: true, alt: m.alt, shift: m.shift, super_key: m.super_key }
    } else if t == "alt"@ || t == "option"@ {
        ModifierSet { ctrl: m.ctrl, alt: true, shift: m.shift, super_key: m.super_key }
    } else if t == "shift"@ {
        ModifierSet { ctrl: m.ctrl, alt: m.alt, shift: true, super_key: m.super_key }
    } else {
        ModifierSet { ctrl: m.ctrl, alt: m.alt, shift: m.shift, super_key: true }
    }
}

pub open spec fn is_digit_char(c: char) -> bool {
    48 <= c as u32 && c as u32 <= 57
}

pub open spec fn all_digit_chars(s: Seq<char>) -> bool {
    forall|i: int| 0 <= i < s.len() ==> is_digit_char(s[i])
}

/// Numeric value of a digit string (most significant digit first).
pub open spec fn spec_digits_val(s: Seq<char>) -> int
    decreases s.len(),
{
    if s.len() == 0 {
        0
    } else {
        spec_digits_val(s.subrange(0, s.len() - 1)) * 10 + (s[s.len() - 1] as u32 - 48)
    }
}

/// The key named by a normalized (trimmed, lower-cased) token, if any:
/// a single letter or digit, `f1`..`f12` (leading zeros tolerated), or one of
/// the named keys with their accepted synonyms.
pub open spec fn spec_key_of(t: Seq<char>) -> Option<KeyCode> {
    if t.len() == 1 && 97 <= t[0] as u32 && t[0] as u32 <= 122 {
        Some(KeyCode::Letter((t[0] as u32) as u8))
    } else if t.len() == 1 && is_digit_char(t[0]) {
        Some(KeyCode::Digit((t[0] as u32 - 48) as u8))
    } else if t.len() >= 2 && t[0] == 'f' && all_digit_chars(t.subrange(1, t.len() as int)) && 1
        <= spec_digits_val(t.subrange(1, t.len() as int)) && spec_digits_val(
        t.subrange(1, t.len() as int),
    ) <= 12 {
        Some(KeyCode::Function(spec_digits_val(t.subrange(1, t.len() as int)) as u8))
    } else if t == "space"@ || t == "spacebar"@ {
        Some(KeyCode::Space)
    } else if t == "enter"@ || t == "return"@ {
        Some(KeyCode::Enter)
    } else if t == "tab"@ {
        Some(KeyCode::Tab)
    } else if t == "esc"@ || t == "escape"@ {
        Some(KeyCode::Escape)
    } else if t == "backspace"@ {
        Some(KeyCode::Backspace)
    } else if t == "delete"@ || t == "del"@ {
        Some(KeyCode::Delete)
    } else if t == "insert"@ || t == "ins"@ {
        Some(KeyCode::Insert)
    } else if t == "home"@ {
        Some(KeyCode::Home)
    } else if t == "end"@ {
        Some(KeyCode::End)
    } else if t == "pageup"@ || t == "pgup"@ {
        Some(KeyCode::PageUp)
    } else if t == "pagedown"@ || t == "pgdn"@ {
        Some(KeyCode::PageDown)
    } else if t == "up"@ || t == "arrowup"@ {
        Some(KeyCode::ArrowUp)
    } else if t == "down"@ || t == "arrowdown"@ {
        Some(KeyCode::ArrowDown)
    } else if t == "left"@ || t == "arrowleft"@ {
        Some(KeyCode::ArrowLeft)
    } else if t == "right"@ || t == "arrowright"@ {
        Some(KeyCode::ArrowRight)
    } else {
        None
    }
}

/// Character-for-character equality of a token and a literal.
fn tok_eq(t: &Vec<char>, lit: &str) -> (b: bool)
    ensures
        b == (t@ == lit@),
{
    let l = str_chars(lit);
    let tlen = t.len();
    if tlen != l.len() {
        proof {
            if t@ == l@ {
                assert(t@.len() == l@.len());
            }
        }
        return false;
    }
    let mut i: usize = 0;
    while i < tlen
        invariant
            i <= tlen,
            tlen == t@.len(),
            tlen == l@.len(),
            l@ == lit@,
            forall|j: int| 0 <= j < i ==> t@[j] == l@[j],
        decreases tlen - i,
    {
        if t[i] != l[i] {
            proof {
                if t@ == l@ {
                    assert(t@[i as int] == l@[i as int]);
                }
            }
            return false;
        }
        i = i + 1;
    }
    proof {
        assert(t@ =~= l@);
    }
    true
}

/// The key named by a normalized token, mirroring `spec_key_of`.
fn key_of_chars(t: &Vec<char>) -> (r: Option<KeyCode>)
    ensures
        r == spec_key_of(t@),
{
    let tlen = t.len();
    if tlen == 1 {
        let n = t[0] as u32;
        if 97 <= n && n <= 122 {
            return Some(KeyCode::Letter(n as u8));
        }
        if 48 <= n && n <= 57 {
            return Some(KeyCode::Digit((n - 48) as u8));
        }
    }
    if tlen >= 2 && t[0] == 'f' {
        let ghost d = t@.subrange(1, tlen as int);
        let mut i: usize = 1;
        let mut acc: u32 = 0;
        let mut ok: bool = true;
        while i < tlen && ok
            invariant
                1 <= i && i <= tlen,
                tlen == t@.len(),
                ok ==> all_digit_chars(t@.subrange(1, i as int)),
                ok ==> {
                    let v = spec_digits_val(t@.subrange(1, i as int));
                    if v <= 12 {
                        acc == v
                    } else {
                        acc == 13
                    }
                },
                ok ==> acc <= 13,
                !ok ==> !all_digit_chars(t@.subrange(1, tlen as int)),
            decreases tlen - i,
        {
            let n = t[i] as u32;
            if n < 48 || n > 57 {
                proof {
                    assert(!is_digit_char(t@.subrange(1, tlen as int)[i - 1]));
                }
                ok = false;
                i = tlen;
            } else {
                proof {
                    let p = t@.subrange(1, i as int);
                    let q = t@.subrange(1, i + 1);
                    assert(q.subrange(0, q.len() - 1) =~= p);
                    assert(q[q.len() - 1] == t@[i as int]);
                    assert forall|j: int| 0 <= j < q.len() implies is_digit_char(q[j]) by {
                        if j < p.len() {
                            assert(q[j] == p[j]);
                        }
                    }
                }
                let d0 = n - 48;
                if acc <= 12 {
                    let na = acc * 10 + d0;
                    acc = if na <= 12 {
                        na
                    } else {
                        13
                    };
                }
                i = i + 1;
            }
        }
        if ok {
            proof {
                assert(t@.subrange(1, i as int) =~= d);
            }
            if 1 <= acc && acc <= 12 {
                return Some(KeyCode::Function(acc as u8));
            }
        }
    }
    if tok_eq(t, "space") || tok_eq(t, "spacebar") {
        return Some(KeyCode::Space);
    }
    if tok_eq(t, "enter") || tok_eq(t, "return") {
        return Some(KeyCode::Enter);
    }
    if tok_eq(t, "tab") {
        return Some(KeyCode::Tab);
    }
    if tok_eq(t, "esc") || tok_eq(t, "escape") {
        return Some(KeyCode::Escape);
    }
    if tok_eq(t, "backspace") {
        return Some(KeyCode::Backspace);
    }
    if tok_eq(t, "delete") || tok_eq(t, "del") {
        return Some(KeyCode::Delete);
    }
    if tok_eq(t, "insert") || tok_eq(t, "ins") {
        return Some(KeyCode::Insert);
    }
    if tok_eq(t, "home") {
        return Some(KeyCode::Home);
    }
    if tok_eq(t, "end") {
        return Some(KeyCode::End);
    }
    if tok_eq(t, "pageup") || tok_eq(t, "pgup") {
        return Some(KeyCode::PageUp);
    }
    if tok_eq(t, "pagedown") || tok_eq(t, "pgdn") {
        return Some(KeyCode::PageDown);
    }
    if tok_eq(t, "up") || tok_eq(t, "arrowup") {
        return Some(KeyCode::ArrowUp);
    }
    if tok_eq(t, "down") || tok_eq(t, "arrowdown") {
        return Some(KeyCode::ArrowDown);
    }
    if tok_eq(t, "left") || tok_eq(t, "arrowleft") {
        return Some(KeyCode::ArrowLeft);
    }
    if tok_eq(t, "right") || tok_eq(t, "arrowright") {
        return Some(KeyCode::ArrowRight);
    }
    None
}

/// The key named by a normalized token; `None` for anything unmatched.
pub fn parse_key_code(key: &str) -> (r: Option<KeyCode>)
    ensures
        r == spec_key_of(key@),
{
    let v = str_chars(key);
    key_of_chars(&v)
}

/// The raw segments of `s` split on `+`, with `cur` the segment accumulated
/// so far.
pub open spec fn spec_split_acc(s: Seq<char>, cur: Seq<char>) -> Seq<Seq<char>>
    decreases s.len(),
{
    if s.len() == 0 {
        seq![cur]
    } else if s[0] == '+' {
        seq![cur] + spec_split_acc(s.subrange(1, s.len() as int), Seq::empty())
    } else {
        spec_split_acc(s.subrange(1, s.len() as int), cur.push(s[0]))
    }
}

/// Raw segments normalized: trimmed, lower-cased, empty ones dropped.
pub open spec fn spec_norm_tokens(raw: Seq<Seq<char>>) -> Seq<Seq<char>>
    decreases raw.len(),
{
    if raw.len() == 0 {
        Seq::empty()
    } else {
        let tt = spec_trim(raw[0]);
        let rest = spec_norm_tokens(raw.subrange(1, raw.len() as int));
        if tt.len() == 0 {
            rest
        } else {
            seq![spec_lower(tt)] + rest
        }
    }
}

/// The normalized token stream of a hotkey spec string.
pub open spec fn spec_tokenize(s: Seq<char>) -> Seq<Seq<char>> {
    spec_norm_tokens(spec_split_acc(s, Seq::empty()))
}

/// What parsing decides after the tokens seen so far accumulated `mods` and
/// `key`: modifiers fold in, the first key token binds the key, a second key
/// token is ambiguous, an unclassifiable token is unknown.
pub open spec fn spec_parse_tokens_loop(
    toks: Seq<Seq<char>>,
    mods: ModifierSet,
    key: Option<KeyCode>,
) -> Result<ParsedShortcut, HotkeyFailure>
    decreases toks.len(),
{
    if toks.len() == 0 {
        match key {
            Some(k) => Ok(ParsedShortcut { modifiers: mods, key: k }),
            None => Err(HotkeyFailure::NoKey),
        }
    } else {
        let t = toks[0];
        let rest = toks.subrange(1, toks.len() as int);
        if is_modifier_tok(t) {
            spec_parse_tokens_loop(rest, apply_modifier(mods, t), key)
        } else if key is Some {
            Err(HotkeyFailure::MultipleKeys)
        } else {
            match spec_key_of(t) {
                Some(k) => spec_parse_tokens_loop(rest, mods, Some(k)),
                None => Err(HotkeyFailure::Unknown(t)),
            }
        }
    }
}

pub open spec fn spec_parse_tokens(toks: Seq<Seq<char>>) -> Result<ParsedShortcut, HotkeyFailure> {
    spec_parse_tokens_loop(toks, spec_no_modifiers(), None)
}

/// What `parse_shortcut` returns on a given spec string.
pub open spec fn spec_parse(s: Seq<char>) -> Result<ParsedShortcut, HotkeyFailure> {
    spec_parse_tokens(spec_tokenize(s))
}

proof fn lemma_norm_single_concat(t: Seq<char>, rest: Seq<Seq<char>>)
    ensures
        spec_norm_tokens(seq![t] + rest) == spec_norm_tokens(seq![t]) + spec_norm_tokens(rest),
{
    let raw = seq![t] + rest;
    let one = seq![t];
    assert(raw[0] == t);
    assert(raw.subrange(1, raw.len() as int) =~= rest);
    assert(one.subrange(1, 1) =~= Seq::<Seq<char>>::empty());
    assert(spec_norm_tokens(Seq::<Seq<char>>::empty()) == Seq::<Seq<char>>::empty());
    let tt = spec_trim(t);
    if tt.len() == 0 {
        assert(spec_norm_tokens(one) + spec_norm_tokens(rest) =~= spec_norm_tokens(rest));
    } else {
        assert(spec_norm_tokens(one) =~= seq![spec_lower(tt)]);
        assert(spec_norm_tokens(one) + spec_norm_tokens(rest) =~= seq![spec_lower(tt)]
            + spec_norm_tokens(rest));
    }
}

/// Trim, lower-case and append the segment `v[lo..hi]` to the token list,
/// unless it trims to nothing.
fn push_token(toks: &mut Vec<Vec<char>>, v: &Vec<char>, lo: usize, hi: usize)
    requires
        lo <= hi,
        hi <= v@.len(),
    ensures
        final(toks).deep_view() == old(toks).deep_view() + spec_norm_tokens(
            seq![v@.subrange(lo as int, hi as int)],
        ),
{
    let ghost seg = v@.subrange(lo as int, hi as int);
    let ghost pre = toks.deep_view();
    let (a, b) = trim_range(v, lo, hi);
    proof {
        assert(seq![seg].subrange(1, 1) =~= Seq::<Seq<char>>::empty());
        assert(spec_norm_tokens(Seq::<Seq<char>>::empty()) == Seq::<Seq<char>>::empty());
    }
    if a == b {
        proof {
            assert(spec_trim(seg).len() == 0);
            assert(pre + spec_norm_tokens(seq![seg]) =~= pre);
        }
    } else {
        let mut tok: Vec<char> = Vec::new();
        let mut j: usize = a;
        while j < b
            invariant
                a <= j && j <= b,
                b <= v@.len(),
                tok@ == spec_lower(v@.subrange(a as int, j as int)),
            decreases b - j,
        {
            tok.push(to_lower(v[j]));
            j = j + 1;
            proof {
                assert(tok@ =~= spec_lower(v@.subrange(a as int, j as int)));
            }
        }
        let ghost tv = tok@;
        toks.push(tok);
        proof {
            assert(tv == spec_lower(spec_trim(seg)));
            assert(spec_norm_tokens(seq![seg]) =~= seq![spec_lower(spec_trim(seg))]);
            assert(tok.deep_view() =~= tv);
            assert(toks.deep_view() =~= pre + seq![tv]);
        }
    }
}

/// Split a spec string into its normalized tokens.
fn tokenize(v: &Vec<char>) -> (toks: Vec<Vec<char>>)
    ensures
        toks.deep_view() == spec_tokenize(v@),
{
    let len = v.len();
    let mut toks: Vec<Vec<char>> = Vec::new();
    let mut seg_start: usize = 0;
    let mut i: usize = 0;
    proof {
        assert(v@.subrange(0, 0) =~= Seq::<char>::empty());
        assert(v@.subrange(0, len as int) =~= v@);
    }
    while i < len
        invariant
            seg_start <= i && i <= len,
            len == v@.len(),
            spec_tokenize(v@) == toks.deep_view() + spec_norm_tokens(
                spec_split_acc(
                    v@.subrange(i as int, len as int),
                    v@.subrange(seg_start as int, i as int),
                ),
            ),
        decreases len - i,
    {
        let ghost rem = v@.subrange(i as int, len as int);
        let ghost cur = v@.subrange(seg_start as int, i as int);
        proof {
            assert(rem[0] == v@[i as int]);
            assert(rem.subrange(1, rem.len() as int) =~= v@.subrange(i + 1, len as int));
        }
        if v[i] == '+' {
            let ghost pre = toks.deep_view();
            push_token(&mut toks, v, seg_start, i);
            proof {
                let tail = spec_split_acc(v@.subrange(i + 1, len as int), Seq::empty());
                assert(spec_split_acc(rem, cur) == seq![cur] + tail);
                lemma_norm_single_concat(cur, tail);
                assert(v@.subrange(i + 1, i + 1) =~= Seq::<char>::empty());
                assert(pre + (spec_norm_tokens(seq![cur]) + spec_norm_tokens(tail)) =~= (pre
                    + spec_norm_tokens(seq![cur])) + spec_norm_tokens(tail));
            }
            seg_start = i + 1;
        } else {
            proof {
                assert(cur.push(v@[i as int]) =~= v@.subrange(seg_start as int, i + 1));
            }
        }
        i = i + 1;
    }
    let ghost cur = v@.subrange(seg_start as int, len as int);
    let ghost pre = toks.deep_view();
    proof {
        assert(v@.subrange(len as int, len as int) =~= Seq::<char>::empty());
        assert(spec_split_acc(v@.subrange(len as int, len as int), cur) == seq![cur]);
    }
    push_token(&mut toks, v, seg_start, len);
    toks
}

/// Parse a human-readable shortcut spec: tokens joined by `+`, trimmed and
/// lower-cased; modifier aliases fold into the modifier set and exactly one
/// remaining token must name a key.
pub fn parse_shortcut(input: &str) -> (r: Result<ParsedShortcut, HotkeyError>)
    ensures
        r matches Ok(ps) ==> spec_parse(input@) == Ok::<ParsedShortcut, HotkeyFailure>(ps),
        r matches Err(e) ==> spec_parse(input@) matches Err(f) && err_corresponds(e, f),
{
    let v = str_chars(input);
    let toks = tokenize(&v);
    let ghost gtoks = toks.deep_view();
    let n = toks.len();
    let mut mods = ModifierSet::empty();
    let mut key: Option<KeyCode> = None;
    let mut i: usize = 0;
    proof {
        assert(gtoks.subrange(0, n as int) =~= gtoks);
    }
    while i < n
        invariant
            i <= n,
            n == toks@.len(),
            gtoks == toks.deep_view(),
            gtoks.len() == n,
            spec_parse(input@) == spec_parse_tokens_loop(
                gtoks.subrange(i as int, n as int),
                mods,
                key,
            ),
        decreases n - i,
    {
        let t = &toks[i];
        let ghost rem = gtoks.subrange(i as int, n as int);
        let ghost m0 = mods;
        let ghost k0 = key;
        proof {
            assert(t.deep_view() =~= t@);
            assert(rem[0] == gtoks[i as int]);
            assert(rem[0] == t@);
            assert(rem.subrange(1, rem.len() as int) =~= gtoks.subrange(i + 1, n as int));
        }
        if tok_eq(t, "ctrl") || tok_eq(t, "control") {
            mods =
            ModifierSet { ctrl: true, alt: mods.alt, shift: mods.shift, super_key: mods.super_key };
            proof {
                assert(is_modifier_tok(t@));
                assert(mods == apply_modifier(m0, t@));
            }
        } else if tok_eq(t, "alt") || tok_eq(t, "option") {
            mods =
            ModifierSet { ctrl: mods.ctrl, alt: true, shift: mods.shift, super_key: mods.super_key };
            proof {
                assert(is_modifier_tok(t@));
                assert(mods == apply_modifier(m0, t@));
            }
        } else if tok_eq(t, "shift") {
            mods =
            ModifierSet { ctrl: mods.ctrl, alt: mods.alt, shift: true, super_key: mods.super_key };
            proof {
                assert(is_modifier_tok(t@));
                assert(mods == apply_modifier(m0, t@));
            }
        } else if tok_eq(t, "win") || tok_eq(t, "super") || tok_eq(t, "meta") || tok_eq(t, "cmd")
            || tok_eq(t, "command") {
            mods =
            ModifierSet { ctrl: mods.ctrl, alt: mods.alt, shift: mods.shift, super_key: true };
            proof {
                assert(is_modifier_tok(t@));
                assert(mods == apply_modifier(m0, t@));
            }
        } else {
            proof {
                assert(!is_modifier_tok(t@));
            }
            if key.is_some() {
                return Err(HotkeyError::MultipleKeysSpecified);
            }
            match key_of_chars(t) {
                Some(k) => {
                    key = Some(k);
                },
                None => {
                    let s = crate::text::chars_to_string(t);
                    return Err(HotkeyError::UnknownKey(s));
                },
            }
        }
        i = i + 1;
    }
    proof {
        assert(gtoks.subrange(n as int, n as int) =~= Seq::<Seq<char>>::empty());
    }
    match key {
        Some(k) => Ok(ParsedShortcut { modifiers: mods, key: k }),
        None => Err(HotkeyError::NoKeySpecified),
    }
}

/// The non-modifier tokens of a stream, in order.
pub open spec fn spec_nonmod_tokens(toks: Seq<Seq<char>>) -> Seq<Seq<char>>
    decreases toks.len(),
{
    if toks.len() == 0 {
        Seq::empty()
    } else {
        let rest = spec_nonmod_tokens(toks.subrange(1, toks.len() as int));
        if is_modifier_tok(toks[0]) {
            rest
        } else {
            seq![toks[0]] + rest
        }
    }
}

/// The modifier set after folding every modifier token of the stream into
/// `m`.
pub open spec fn spec_mods_of(toks: Seq<Seq<char>>, m: ModifierSet) -> ModifierSet
    decreases toks.len(),
{
    if toks.len() == 0 {
        m
    } else {
        let m1 = if is_modifier_tok(toks[0]) {
            apply_modifier(m, toks[0])
        } else {
            m
        };
        spec_mods_of(toks.subrange(1, toks.len() as int), m1)
    }
}

/// Parsing once the modifier set is settled: only the key tokens decide.
pub open spec fn spec_parse_keys(
    keys: Seq<Seq<char>>,
    m: ModifierSet,
    key: Option<KeyCode>,
) -> Result<ParsedShortcut, HotkeyFailure>
    decreases keys.len(),
{
    if keys.len() == 0 {
        match key {
            Some(k) => Ok(ParsedShortcut { modifiers: m, key: k }),
            None => Err(HotkeyFailure::NoKey),
        }
    } else if key is Some {
        Err(HotkeyFailure::MultipleKeys)
    } else {
        match spec_key_of(keys[0]) {
            Some(k) => spec_parse_keys(keys.subrange(1, keys.len() as int), m, Some(k)),
            None => Err(HotkeyFailure::Unknown(keys[0])),
        }
    }
}

proof fn lemma_parse_factor(toks: Seq<Seq<char>>, m: ModifierSet, key: Option<KeyCode>)
    ensures
        spec_parse_tokens_loop(toks, m, key) == spec_parse_keys(
            spec_nonmod_tokens(toks),
            spec_mods_of(toks, m),
            key,
        ),
    decreases toks.len(),
{
    if toks.len() == 0 {
    } else {
        let t = toks[0];
        let rest = toks.subrange(1, toks.len() as int);
        if is_modifier_tok(t) {
            lemma_parse_factor(rest, apply_modifier(m, t), key);
        } else {
            let keys = seq![t] + spec_nonmod_tokens(rest);
            assert(keys[0] == t);
            assert(keys.subrange(1, keys.len() as int) =~= spec_nonmod_tokens(rest));
            if key is Some {
            } else {
                match spec_key_of(t) {
                    Some(k) => {
                        lemma_parse_factor(rest, m, Some(k));
                    },
                    None => {},
                }
            }
        }
    }
}

proof fn lemma_norm_single_case(t1: Seq<char>, t2: Seq<char>)
    requires
        case_eq(t1, t2),
    ensures
        spec_norm_tokens(seq![t1]) == spec_norm_tokens(seq![t2]),
{
    lemma_trim_case(t1, t2);
    lemma_lower_case_eq(spec_trim(t1), spec_trim(t2));
    assert(seq![t1].subrange(1, 1) =~= Seq::<Seq<char>>::empty());
    assert(seq![t2].subrange(1, 1) =~= Seq::<Seq<char>>::empty());
    assert(spec_norm_tokens(Seq::<Seq<char>>::empty()) == Seq::<Seq<char>>::empty());
    if spec_trim(t1).len() > 0 {
        assert(spec_norm_tokens(seq![t1]) =~= spec_norm_tokens(seq![t2]));
    }
}

proof fn lemma_split_case(s1: Seq<char>, s2: Seq<char>, cur1: Seq<char>, cur2: Seq<char>)
    requires
        case_eq(s1, s2),
        case_eq(cur1, cur2),
    ensures
        spec_norm_tokens(spec_split_acc(s1, cur1)) == spec_norm_tokens(spec_split_acc(s2, cur2)),
    decreases s1.len(),
{
    if s1.len() == 0 {
        lemma_norm_single_case(cur1, cur2);
    } else {
        lemma_lower_char_classes(s1[0], s2[0]);
        let r1 = s1.subrange(1, s1.len() as int);
        let r2 = s2.subrange(1, s2.len() as int);
        assert forall|i: int| 0 <= i < r1.len() implies lower_char(r1[i]) == lower_char(r2[i]) by {
            assert(r1[i] == s1[i + 1]);
            assert(r2[i] == s2[i + 1]);
        }
        if s1[0] == '+' {
            lemma_norm_single_concat(cur1, spec_split_acc(r1, Seq::empty()));
            lemma_norm_single_concat(cur2, spec_split_acc(r2, Seq::empty()));
            lemma_norm_single_case(cur1, cur2);
            lemma_split_case(r1, r2, Seq::empty(), Seq::empty());
        } else {
            let c1 = cur1.push(s1[0]);
            let c2 = cur2.push(s2[0]);
            assert forall|i: int| 0 <= i < c1.len() implies lower_char(c1[i]) == lower_char(
                c2[i],
            ) by {
                if i < cur1.len() {
                    assert(c1[i] == cur1[i]);
                    assert(c2[i] == cur2[i]);
                } else {
                    assert(c1[i] == s1[0]);
                    assert(c2[i] == s2[0]);
                }
            }
            lemma_split_case(r1, r2, c1, c2);
        }
    }
}

/// Parsing is case-insensitive: spec strings that differ only in ASCII
/// letter case parse to the same result, down to the token reported for an
/// unknown key.
pub proof fn lemma_parse_case_insensitive(s1: Seq<char>, s2: Seq<char>)
    requires
        case_eq(s1, s2),
    ensures
        spec_parse(s1) == spec_parse(s2),
{
    lemma_split_case(s1, s2, Seq::empty(), Seq::empty());
}

/// Parsing is order-insensitive among modifier tokens: two token streams
/// with the same key tokens, in the same order, and the same folded modifier
/// set parse to the same result.
pub proof fn lemma_modifier_order_insensitive(t1: Seq<Seq<char>>, t2: Seq<Seq<char>>)
    requires
        spec_nonmod_tokens(t1) == spec_nonmod_tokens(t2),
        spec_mods_of(t1, spec_no_modifiers()) == spec_mods_of(t2, spec_no_modifiers()),
    ensures
        spec_parse_tokens(t1) == spec_parse_tokens(t2),
{
    lemma_parse_factor(t1, spec_no_modifiers(), None);
    lemma_parse_factor(t2, spec_no_modifiers(), None);
}

} // verus!
