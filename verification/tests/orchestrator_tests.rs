use thirdspace::client::prepare_request;
use thirdspace::client::resolve_exchange;
use thirdspace::client::HttpOutcome;
use thirdspace::orchestrator::finish_write;
use thirdspace::orchestrator::notify_for;
use thirdspace::orchestrator::ClipboardRead;
use thirdspace::orchestrator::Orchestrator;
use thirdspace::Config;
use thirdspace::NotifyKind;
use thirdspace::TranslateError;

fn config(api_key: &str, lang: &str) -> Config {
    Config {
        api_key: api_key.to_string(),
        model: "test/model".to_string(),
        target_language: lang.to_string(),
        reasoning_enabled: false,
        hotkey: "Ctrl+Alt+T".to_string(),
    }
}

#[test]
fn fresh_orchestrator_is_idle_and_starts_ids_at_one() {
    let o = Orchestrator::new();
    assert!(!o.in_flight);
    assert_eq!(o.request_seq, 1);
}

#[test]
fn successful_run_returns_translation_and_releases_the_slot() {
    let mut o = Orchestrator::new();
    o.claim().unwrap();
    let cfg = config("sk", "Spanish");
    let tk = o
        .start(&ClipboardRead::Text("Hello world".to_string()), &cfg)
        .unwrap();
    assert_eq!(tk.id, 1);
    assert_eq!(tk.input_len, 11);
    assert!(o.in_flight);
    let prepared = prepare_request(&tk.snapshot, "Hello world").unwrap();
    assert!(prepared.body.contains("Spanish"));
    let body = "{\"choices\":[{\"message\":{\"role\":\"assistant\",\"content\":\"<<<TRANSLATION>>>Hola mundo<<<END_TRANSLATION>>>\"}}]}";
    let outcome = resolve_exchange(HttpOutcome::Response { status: 200, body: body.to_string() });
    let r = o.settle(outcome);
    assert!(!o.in_flight);
    assert_eq!(r, Ok("Hola mundo".to_string()));
    let done = finish_write(true);
    assert_eq!(notify_for(&done), NotifyKind::Success);
}

#[test]
fn blank_clipboard_is_rejected_before_any_remote_work() {
    let mut o = Orchestrator::new();
    o.claim().unwrap();
    let r = o.start(&ClipboardRead::Text("   ".to_string()), &config("sk", "Spanish"));
    assert_eq!(r.unwrap_err(), TranslateError::ClipboardEmpty);
    assert!(!o.in_flight);
    assert_eq!(o.request_seq, 1);
}

#[test]
fn clipboard_read_failure_is_rejected_and_releases_the_slot() {
    let mut o = Orchestrator::new();
    o.claim().unwrap();
    let r = o.start(&ClipboardRead::Failed, &config("sk", "Spanish"));
    assert_eq!(r.unwrap_err(), TranslateError::ClipboardReadFailed);
    assert!(!o.in_flight);
}

#[test]
fn blank_target_language_is_rejected() {
    let mut o = Orchestrator::new();
    o.claim().unwrap();
    let r = o.start(&ClipboardRead::Text("text".to_string()), &config("sk", " "));
    assert_eq!(r.unwrap_err(), TranslateError::ConfigInvalid);
    assert!(!o.in_flight);
}

#[test]
fn second_trigger_while_in_flight_is_busy() {
    let mut o = Orchestrator::new();
    o.claim().unwrap();
    let tk = o
        .start(&ClipboardRead::Text("text".to_string()), &config("sk", "Spanish"))
        .unwrap();
    assert_eq!(tk.id, 1);
    // A second trigger arrives while the first is mid-flight.
    assert_eq!(o.claim(), Err(TranslateError::Busy));
    assert!(o.in_flight);
    assert_eq!(o.request_seq, 2);
    // The first run settles; the next trigger is accepted with a fresh id.
    let _ = o.settle(Err(TranslateError::NetworkError));
    assert!(!o.in_flight);
    o.claim().unwrap();
    let tk2 = o
        .start(&ClipboardRead::Text("more".to_string()), &config("sk", "Spanish"))
        .unwrap();
    assert_eq!(tk2.id, 2);
}

#[test]
fn remote_status_error_settles_without_touching_the_clipboard_text() {
    let mut o = Orchestrator::new();
    o.claim().unwrap();
    let _tk = o
        .start(&ClipboardRead::Text("Hello".to_string()), &config("sk", "Spanish"))
        .unwrap();
    let outcome =
        resolve_exchange(HttpOutcome::Response { status: 401, body: "no auth".to_string() });
    let r = o.settle(outcome);
    assert!(!o.in_flight);
    match r {
        Err(TranslateError::RemoteStatusError { status, body_preview }) => {
            assert_eq!(status, 401);
            assert_eq!(body_preview, "no auth");
        }
        other => panic!("unexpected result: {:?}", other),
    }
    // No write happens on failure; the run reports the error.
    assert_eq!(notify_for(&Err(TranslateError::NetworkError)), NotifyKind::Error);
}

#[test]
fn missing_end_marker_settles_as_marker_extraction_failure() {
    let mut o = Orchestrator::new();
    o.claim().unwrap();
    let _tk = o
        .start(&ClipboardRead::Text("Hello".to_string()), &config("sk", "Spanish"))
        .unwrap();
    let body =
        "{\"choices\":[{\"message\":{\"role\":\"a\",\"content\":\"<<<TRANSLATION>>>Hola\"}}]}";
    let outcome = resolve_exchange(HttpOutcome::Response { status: 200, body: body.to_string() });
    let r = o.settle(outcome);
    assert!(!o.in_flight);
    assert_eq!(r, Err(TranslateError::MarkerExtractionFailed));
}

#[test]
fn config_snapshot_isolates_a_run_from_later_edits() {
    let mut o = Orchestrator::new();
    o.claim().unwrap();
    let mut shared = config("sk", "Spanish");
    let tk = o
        .start(&ClipboardRead::Text("Hello".to_string()), &shared)
        .unwrap();
    // A concurrent settings save changes the shared config mid-run.
    shared.target_language = "German".to_string();
    shared.model = "other/model".to_string();
    assert_eq!(tk.snapshot.target_language, "Spanish");
    assert_eq!(tk.snapshot.model, "test/model");
    let prepared = prepare_request(&tk.snapshot, "Hello").unwrap();
    assert!(prepared.body.contains("Spanish native translator"));
    assert!(!prepared.body.contains("German"));
}

#[test]
fn clipboard_write_failure_is_still_a_run_failure() {
    let r = finish_write(false);
    assert_eq!(r, Err(TranslateError::ClipboardWriteFailed));
    assert_eq!(notify_for(&r), NotifyKind::Error);
    assert_eq!(finish_write(true), Ok(()));
}
