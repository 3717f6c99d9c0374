use vstd::prelude::*;

use crate::errors::TranslateError;
use crate::hotkey::parse_shortcut;
use crate::hotkey::spec_parse;
use crate::hotkey::err_corresponds;
use crate::hotkey::HotkeyFailure;
use crate::hotkey::ParsedShortcut;

verus! {

// The shortcut coordinator owns the one OS-level hotkey binding. The OS calls
// themselves happen outside; each operation here either names the binding to
// (un)register or records the reported outcome, and the slot always mirrors
// what the OS holds — except between a pause and its resume, where the OS
// binding is gone but the parsed value is retained.

/// The coordinator's state: the retained parsed shortcut and whether an
/// OS-level binding for it currently exists.
#[derive(Debug)]
pub struct ShortcutCoordinator {
    /// The shortcut this coordinator manages, if any.
    pub slot: Option<ParsedShortcut>,
    /// True while an OS-level registration of `slot`'s value exists.
    pub bound: bool,
}

impl ShortcutCoordinator {
    /// At most one OS registration can exist, and only of the slot's value.
    pub open spec fn wf(self) -> bool {
        self.bound ==> self.slot is Some
    }

    /// A fresh coordinator: nothing retained, nothing registered.
    pub fn new() -> (r: ShortcutCoordinator)
        ensures
            r.slot is None,
            !r.bound,
            r.wf(),
    {
        ShortcutCoordinator { slot: None, bound: false }
    }

    /// Begin replacing the binding: drop the retained value and hand out the
    /// old one for a best-effort OS unregister (whose failure is ignored —
    /// the OS binding may already be gone). Until `commit_register`
    /// succeeds, the coordinator has no active binding.
    pub fn swap_begin(&mut self) -> (r: Option<ParsedShortcut>)
        ensures
            r == old(self).slot,
            final(self).slot is None,
            !final(self).bound,
            final(self).wf(),
    {
        self.bound = false;
        let r = self.slot;
        self.slot = None;
        r
    }

    /// Record the OS's answer to registering `sc`: on success the slot holds
    /// `sc` and mirrors the new binding; on failure nothing changes and the
    /// caller sees an explicit error, never a silent fallback.
    pub fn commit_register(&mut self, sc: ParsedShortcut, os_ok: bool) -> (r: Result<
        (),
        TranslateError,
    >)
        ensures
            os_ok ==> r is Ok && final(self).slot == Some(sc) && final(self).bound,
            !os_ok ==> (r matches Err(e) && e == TranslateError::HotkeyRegisterFailed)
                && *final(self) == *old(self),
            old(self).wf() ==> final(self).wf(),
    {
        if os_ok {
            self.slot = Some(sc);
            self.bound = true;
            Ok(())
        } else {
            Err(TranslateError::HotkeyRegisterFailed)
        }
    }

    /// The binding to remove from the OS while a capture UI records a new
    /// combination; the slot keeps its value so `resume` can restore it.
    pub fn pause_target(&self) -> (r: Option<ParsedShortcut>)
        ensures
            r == self.slot,
    {
        self.slot
    }

    /// Record that the OS binding was removed for a pause: the value stays
    /// retained, only the registration is gone.
    pub fn note_paused(&mut self)
        ensures
            final(self).slot == old(self).slot,
            !final(self).bound,
            final(self).wf(),
    {
        self.bound = false;
    }

    /// The retained binding to register again after a pause.
    pub fn resume_target(&self) -> (r: Option<ParsedShortcut>)
        ensures
            r == self.slot,
    {
        self.slot
    }

    /// Record that the retained binding is registered with the OS again.
    pub fn note_resumed(&mut self)
        requires
            old(self).slot is Some,
        ensures
            final(self).slot == old(self).slot,
            final(self).bound,
            final(self).wf(),
    {
        self.bound = true;
    }
}

/// Parse a spec string for a register or swap, folding a parse failure into
/// the run-level error taxonomy.
pub fn parse_spec(input: &str) -> (r: Result<ParsedShortcut, TranslateError>)
    ensures
        r matches Ok(ps) ==> spec_parse(input@) == Ok::<ParsedShortcut, HotkeyFailure>(ps),
        r matches Err(e) ==> (e matches TranslateError::HotkeyParseError(h) && spec_parse(input@)
            matches Err(f) && err_corresponds(h, f)),
{
    match parse_shortcut(input) {
        Ok(ps) => Ok(ps),
        Err(e) => Err(TranslateError::HotkeyParseError(e)),
    }
}

/// What a recorded resume leaves behind.
pub open spec fn resumed(pre: ShortcutCoordinator, post: ShortcutCoordinator) -> bool {
    post.slot == pre.slot && post.bound
}

/// Resuming is idempotent: a second resume without an intervening pause
/// changes nothing beyond the re-registration the first already recorded.
pub proof fn lemma_resume_idempotent(
    s0: ShortcutCoordinator,
    s1: ShortcutCoordinator,
    s2: ShortcutCoordinator,
)
    requires
        resumed(s0, s1),
        resumed(s1, s2),
    ensures
        s2 == s1,
{
}

} // verus!
