use vstd::prelude::*;
use vstd::string::StrSliceExecFns;

use crate::client::spec_chat_request;
use crate::errors::NotifyKind;
use crate::errors::TranslateError;
use crate::prompt::spec_build_prompt;
use crate::text::spec_trim;
use crate::text::is_blank;
use crate::Config;

verus! {

// The per-trigger state machine: claim the single-flight slot, validate the
// clipboard text and the config snapshot, allocate a request id, and always
// release the slot once the remote outcome is known. The remote call itself
// happens between `start` and `settle`, outside this module, so the
// event-dispatch side never blocks in here.

/// What reading the clipboard produced.
#[derive(Debug)]
pub enum ClipboardRead {
    /// The clipboard could not be read at all.
    Failed,
    /// The clipboard's text, possibly blank.
    Text(String),
}

/// The orchestrator's own state: the single-flight flag and the monotonic
/// request counter. Both are mutated only by the operations below.
#[derive(Debug)]
pub struct Orchestrator {
    /// True exactly while one accepted run is between `claim` and its
    /// release (an early rejection in `start`, or `settle`).
    pub in_flight: bool,
    /// The id the next accepted run will get; starts at 1, never reused.
    pub request_seq: u64,
}

/// Everything a run carries once accepted: its trace identity and the config
/// snapshot that insulates it from later settings changes.
#[derive(Debug)]
pub struct RunTicket {
    /// This run's id from the monotonic sequence.
    pub id: u64,
    /// The config value at the moment the run was accepted.
    pub snapshot: Config,
    /// Length in characters of the clipboard text, for the trace.
    pub input_len: usize,
}

/// How `claim` relates the state before and after to its result.
pub open spec fn claim_transition(
    pre: Orchestrator,
    post: Orchestrator,
    r: Result<(), TranslateError>,
) -> bool {
    if pre.in_flight {
        post == pre && (r matches Err(e) && e == TranslateError::Busy)
    } else {
        post == (Orchestrator { in_flight: true, request_seq: pre.request_seq }) && r is Ok
    }
}

/// How `start` relates the state before and after to its inputs and result.
pub open spec fn start_transition(
    pre: Orchestrator,
    post: Orchestrator,
    clipboard: ClipboardRead,
    config: Config,
    r: Result<RunTicket, TranslateError>,
) -> bool {
    match clipboard {
        ClipboardRead::Failed => post == (Orchestrator {
            in_flight: false,
            request_seq: pre.request_seq,
        }) && (r matches Err(e) && e == TranslateError::ClipboardReadFailed),
        ClipboardRead::Text(t) => {
            if spec_trim(t@).len() == 0 {
                post == (Orchestrator { in_flight: false, request_seq: pre.request_seq }) && (
                r matches Err(e) && e == TranslateError::ClipboardEmpty)
            } else if spec_trim(config.target_language@).len() == 0 {
                post == (Orchestrator { in_flight: false, request_seq: pre.request_seq }) && (
                r matches Err(e) && e == TranslateError::ConfigInvalid)
            } else {
                post == (Orchestrator {
                    in_flight: true,
                    request_seq: (pre.request_seq + 1) as u64,
                }) && (r matches Ok(tk) && tk.id == pre.request_seq && tk.snapshot == config
                    && tk.input_len == t@.len())
            }
        },
    }
}

/// How `settle` relates the state before and after to the remote outcome.
pub open spec fn settle_transition(
    pre: Orchestrator,
    post: Orchestrator,
    outcome: Result<String, TranslateError>,
    r: Result<String, TranslateError>,
) -> bool {
    post == (Orchestrator { in_flight: false, request_seq: pre.request_seq }) && r == outcome
}

impl Orchestrator {
    /// A fresh orchestrator: idle, with request ids starting at 1.
    pub fn new() -> (r: Orchestrator)
        ensures
            !r.in_flight,
            r.request_seq == 1,
    {
        Orchestrator { in_flight: false, request_seq: 1 }
    }

    /// The busy check and the claim: reject with `Busy` while a run is in
    /// flight, otherwise take the single-flight slot. The caller shows a
    /// `processing` notification on success and an `error` one on rejection.
    pub fn claim(&mut self) -> (r: Result<(), TranslateError>)
        ensures
            claim_transition(*old(self), *final(self), r),
    {
        if self.in_flight {
            return Err(TranslateError::Busy);
        }
        self.in_flight = true;
        Ok(())
    }

    /// Validate the clipboard text and the config, snapshot the config and
    /// allocate the run's id. Every rejection releases the single-flight
    /// slot; acceptance keeps it held until `settle`.
    pub fn start(&mut self, clipboard: &ClipboardRead, config: &Config) -> (r: Result<
        RunTicket,
        TranslateError,
    >)
        requires
            old(self).in_flight,
            old(self).request_seq < u64::MAX,
        ensures
            start_transition(*old(self), *final(self), *clipboard, *config, r),
    {
        let text = match clipboard {
            ClipboardRead::Failed => {
                self.in_flight = false;
                return Err(TranslateError::ClipboardReadFailed);
            },
            ClipboardRead::Text(t) => t,
        };
        if is_blank(text.as_str()) {
            self.in_flight = false;
            return Err(TranslateError::ClipboardEmpty);
        }
        if is_blank(config.target_language.as_str()) {
            self.in_flight = false;
            return Err(TranslateError::ConfigInvalid);
        }
        let id = self.request_seq;
        self.request_seq = self.request_seq + 1;
        let snapshot = Config {
            api_key: config.api_key.clone(),
            model: config.model.clone(),
            target_language: config.target_language.clone(),
            reasoning_enabled: config.reasoning_enabled,
            hotkey: config.hotkey.clone(),
        };
        let input_len = text.as_str().unicode_len();
        Ok(RunTicket { id, snapshot, input_len })
    }

    /// Release the single-flight slot, strictly after the remote outcome is
    /// known and before the result reaches the caller, and hand the outcome
    /// back: a trigger issued right after completion is never rejected.
    pub fn settle(&mut self, outcome: Result<String, TranslateError>) -> (r: Result<
        String,
        TranslateError,
    >)
        requires
            old(self).in_flight,
        ensures
            settle_transition(*old(self), *final(self), outcome, r),
    {
        self.in_flight = false;
        outcome
    }
}

/// The write-back outcome of a successful run: a failed clipboard write is
/// still a run failure, even though the remote call succeeded.
pub fn finish_write(write_ok: bool) -> (r: Result<(), TranslateError>)
    ensures
        write_ok ==> r is Ok,
        !write_ok ==> (r matches Err(e) && e == TranslateError::ClipboardWriteFailed),
{
    if write_ok {
        Ok(())
    } else {
        Err(TranslateError::ClipboardWriteFailed)
    }
}

/// The notification owed for a finished run.
pub fn notify_for(result: &Result<(), TranslateError>) -> (k: NotifyKind)
    ensures
        result is Ok ==> k == NotifyKind::Success,
        result is Err ==> k == NotifyKind::Error,
{
    match result {
        Ok(_) => NotifyKind::Success,
        Err(_) => NotifyKind::Error,
    }
}

/// While one run is in flight, every further claim is rejected as `Busy` and
/// changes nothing, so each accepted claim admits exactly one remote call
/// until it settles.
pub proof fn lemma_single_flight(
    s0: Orchestrator,
    s1: Orchestrator,
    r1: Result<(), TranslateError>,
    s2: Orchestrator,
    r2: Result<(), TranslateError>,
)
    requires
        !s0.in_flight,
        claim_transition(s0, s1, r1),
        claim_transition(s1, s2, r2),
    ensures
        r1 is Ok,
        r2 matches Err(e) && e == TranslateError::Busy,
        s2 == s1,
{
}

/// The in-flight flag is clear when a trigger resolves, on every branch: each
/// rejection in `start` releases it, and an accepted run releases it in
/// `settle` whatever the remote outcome was.
pub proof fn lemma_no_in_flight_leak(
    s1: Orchestrator,
    s2: Orchestrator,
    clipboard: ClipboardRead,
    config: Config,
    r: Result<RunTicket, TranslateError>,
    s3: Orchestrator,
    outcome: Result<String, TranslateError>,
    rr: Result<String, TranslateError>,
)
    requires
        start_transition(s1, s2, clipboard, config, r),
        r is Ok ==> settle_transition(s2, s3, outcome, rr),
    ensures
        r is Err ==> !s2.in_flight,
        r is Ok ==> !s3.in_flight,
{
}

/// Request ids are monotonic: an accepted run takes the current id and moves
/// the sequence past it, so no id is ever reused.
pub proof fn lemma_request_ids_monotonic(
    s1: Orchestrator,
    s2: Orchestrator,
    clipboard: ClipboardRead,
    config: Config,
    tk: RunTicket,
)
    requires
        s1.request_seq < u64::MAX,
        start_transition(s1, s2, clipboard, config, Ok(tk)),
    ensures
        tk.id == s1.request_seq,
        s2.request_seq == s1.request_seq + 1,
{
}

/// A run's outbound request is fixed by the snapshot taken when it was
/// accepted: the body it sends and the language it traces come from the
/// ticket alone, so mutating the shared config after acceptance cannot reach
/// a run already in flight.
pub proof fn lemma_snapshot_isolation(
    s1: Orchestrator,
    s2: Orchestrator,
    t: String,
    config: Config,
    tk: RunTicket,
)
    requires
        start_transition(s1, s2, ClipboardRead::Text(t), config, Ok(tk)),
    ensures
        tk.snapshot == config,
        spec_chat_request(
            tk.snapshot.model@,
            spec_build_prompt(t@, tk.snapshot.target_language@),
            tk.snapshot.reasoning_enabled,
        ) == spec_chat_request(
            config.model@,
            spec_build_prompt(t@, config.target_language@),
            config.reasoning_enabled,
        ),
{
}

} // verus!
