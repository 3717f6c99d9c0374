use vstd::prelude::*;

verus! {

/// Why a hotkey spec string failed to parse.
#[derive(Clone, Debug, PartialEq, Eq)]
pub enum HotkeyError {
    /// No token of the spec named a key.
    NoKeySpecified,
    /// Two or more tokens named a key; the offending spec is ambiguous.
    MultipleKeysSpecified,
    /// A token matched neither a modifier alias nor any known key; carries
    /// the trimmed, lower-cased token.
    UnknownKey(String),
}

/// Every failure the translation core can report.
#[derive(Clone, Debug, PartialEq, Eq)]
pub enum TranslateError {
    /// A run was already in flight when the trigger arrived.
    Busy,
    /// The clipboard could not be read at all.
    ClipboardReadFailed,
    /// The clipboard held nothing but whitespace.
    ClipboardEmpty,
    /// The translated text could not be written back to the clipboard.
    ClipboardWriteFailed,
    /// The configured target language is blank.
    ConfigInvalid,
    /// The API key is blank; no request was issued.
    AuthMissingKey,
    /// The HTTP exchange itself failed (send or body read).
    NetworkError,
    /// The endpoint answered with a non-2xx status; carries the status and a
    /// length-bounded preview of the response body.
    RemoteStatusError { status: u16, body_preview: String },
    /// The response body was not the expected JSON shape.
    ResponseParseError,
    /// The response parsed but held zero choices.
    EmptyChoices,
    /// The first choice's content carried no marker-delimited translation.
    MarkerExtractionFailed,
    /// The hotkey spec string did not parse.
    HotkeyParseError(HotkeyError),
    /// The OS refused to bind the parsed shortcut.
    HotkeyRegisterFailed,
}

/// The kind of transient notification shown to the user.
#[derive(Clone, Copy, Debug, PartialEq, Eq, Structural)]
pub enum NotifyKind {
    Processing,
    Success,
    Error,
}

} // verus!
