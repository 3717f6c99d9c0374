use thirdspace::client::build_chat_request;
use thirdspace::client::chat_completions_url;
use thirdspace::client::handle_models_response;
use thirdspace::client::handle_response;
use thirdspace::client::json_escape;
use thirdspace::client::models_url;
use thirdspace::client::prepare_request;
use thirdspace::client::preview;
use thirdspace::client::resolve_exchange;
use thirdspace::client::HttpOutcome;
use thirdspace::Config;
use thirdspace::TranslateError;

fn config(api_key: &str, lang: &str) -> Config {
    Config {
        api_key: api_key.to_string(),
        model: "test/model".to_string(),
        target_language: lang.to_string(),
        reasoning_enabled: true,
        hotkey: "Ctrl+Alt+T".to_string(),
    }
}

#[test]
fn urls_point_at_the_endpoints() {
    assert_eq!(chat_completions_url(), "https://openrouter.ai/api/v1/chat/completions");
    assert_eq!(models_url(), "https://openrouter.ai/api/v1/models");
}

#[test]
fn preview_passes_short_text_through() {
    assert_eq!(preview("hello", 200), "hello");
}

#[test]
fn preview_normalizes_line_breaks() {
    assert_eq!(preview("a\nb\rc", 200), "a b c");
}

#[test]
fn preview_truncates_with_ellipsis() {
    assert_eq!(preview("abcdefgh", 5), "abcde...");
    assert_eq!(preview("abcde", 5), "abcde");
}

#[test]
fn json_escape_handles_quotes_backslashes_and_controls() {
    assert_eq!(json_escape("plain"), "plain");
    assert_eq!(json_escape("say \"hi\""), "say \\\"hi\\\"");
    assert_eq!(json_escape("a\\b"), "a\\\\b");
    assert_eq!(json_escape("a\nb\rc\td"), "a\\nb\\rc\\td");
    assert_eq!(json_escape("\u{01}\u{1f}"), "\\u0001\\u001f");
}

#[test]
fn chat_request_body_is_exact_json() {
    let body = build_chat_request("m/1", "translate \"x\"", true);
    assert_eq!(
        body,
        "{\"model\":\"m/1\",\"messages\":[{\"role\":\"user\",\"content\":\"translate \\\"x\\\"\"}],\"reasoning\":{\"enabled\":true}}"
    );
    let body2 = build_chat_request("m", "p", false);
    assert!(body2.ends_with("\"reasoning\":{\"enabled\":false}}"));
}

#[test]
fn chat_request_body_round_trips_through_json() {
    let prompt = "line one\nline \"two\" with \\ and \ttab";
    let body = build_chat_request("some/model", prompt, true);
    let v: serde_json::Value = serde_json::from_str(&body).expect("body must be valid JSON");
    assert_eq!(v["model"], "some/model");
    assert_eq!(v["messages"][0]["role"], "user");
    assert_eq!(v["messages"][0]["content"], prompt);
    assert_eq!(v["reasoning"]["enabled"], true);
}

#[test]
fn prepare_request_rejects_blank_api_key() {
    let r = prepare_request(&config("", "Spanish"), "hello");
    assert_eq!(r.unwrap_err(), TranslateError::AuthMissingKey);
    let r = prepare_request(&config("   ", "Spanish"), "hello");
    assert_eq!(r.unwrap_err(), TranslateError::AuthMissingKey);
}

#[test]
fn prepare_request_builds_the_prompted_body() {
    let p = prepare_request(&config("sk-key", "Spanish"), "Hello world").unwrap();
    assert_eq!(p.api_key, "sk-key");
    assert!(p.body.starts_with("{\"model\":\"test/model\","));
    assert!(p.body.contains("You are a professional Spanish native translator"));
    assert!(p.body.contains("### Input\\nHello world"));
}

#[test]
fn handle_response_extracts_the_translation() {
    let body = "{\"choices\":[{\"message\":{\"role\":\"assistant\",\"content\":\"<<<TRANSLATION>>>Hola mundo<<<END_TRANSLATION>>>\"}}]}";
    assert_eq!(handle_response(200, body), Ok("Hola mundo".to_string()));
}

#[test]
fn handle_response_reports_non_2xx_with_preview() {
    let r = handle_response(401, "unauthorized");
    match r {
        Err(TranslateError::RemoteStatusError { status, body_preview }) => {
            assert_eq!(status, 401);
            assert_eq!(body_preview, "unauthorized");
        }
        other => panic!("unexpected result: {:?}", other),
    }
}

#[test]
fn handle_response_rejects_malformed_bodies() {
    assert_eq!(
        handle_response(200, "not json"),
        Err(TranslateError::ResponseParseError)
    );
    assert_eq!(
        handle_response(200, "{\"nochoices\":1}"),
        Err(TranslateError::ResponseParseError)
    );
    assert_eq!(
        handle_response(200, "{\"choices\":[{\"message\":{\"role\":\"assistant\"}}]}"),
        Err(TranslateError::ResponseParseError)
    );
}

#[test]
fn handle_response_rejects_empty_choices() {
    assert_eq!(
        handle_response(200, "{\"choices\":[]}"),
        Err(TranslateError::EmptyChoices)
    );
}

#[test]
fn handle_response_rejects_missing_markers() {
    let body = "{\"choices\":[{\"message\":{\"role\":\"assistant\",\"content\":\"<<<TRANSLATION>>>no end marker\"}}]}";
    assert_eq!(handle_response(200, body), Err(TranslateError::MarkerExtractionFailed));
    let body2 = "{\"choices\":[{\"message\":{\"role\":\"assistant\",\"content\":\"bare text\"}}]}";
    assert_eq!(handle_response(200, body2), Err(TranslateError::MarkerExtractionFailed));
}

#[test]
fn resolve_exchange_maps_transport_failure_to_network_error() {
    assert_eq!(
        resolve_exchange(HttpOutcome::TransportFailed),
        Err(TranslateError::NetworkError)
    );
}

#[test]
fn resolve_exchange_classifies_answered_requests() {
    let body = "{\"choices\":[{\"message\":{\"role\":\"a\",\"content\":\"<<<TRANSLATION>>>ok<<<END_TRANSLATION>>>\"}}]}";
    assert_eq!(
        resolve_exchange(HttpOutcome::Response { status: 200, body: body.to_string() }),
        Ok("ok".to_string())
    );
    assert!(matches!(
        resolve_exchange(HttpOutcome::Response { status: 500, body: "boom".to_string() }),
        Err(TranslateError::RemoteStatusError { status: 500, .. })
    ));
}

#[test]
fn models_response_parses_ids_and_names() {
    let body = "{\"data\":[{\"id\":\"a/1\",\"name\":\"Model A\"},{\"id\":\"b/2\",\"name\":\"Model B\"}]}";
    let ms = handle_models_response(200, body).unwrap();
    assert_eq!(ms.len(), 2);
    assert_eq!(ms[0].id, "a/1");
    assert_eq!(ms[0].name, "Model A");
    assert_eq!(ms[1].id, "b/2");
    assert_eq!(ms[1].name, "Model B");
}

#[test]
fn models_response_propagates_status_and_shape_errors() {
    assert!(matches!(
        handle_models_response(403, "denied"),
        Err(TranslateError::RemoteStatusError { status: 403, .. })
    ));
    assert_eq!(
        handle_models_response(200, "[]"),
        Err(TranslateError::ResponseParseError)
    );
    assert_eq!(
        handle_models_response(200, "{\"data\":[{\"id\":\"a\"}]}"),
        Err(TranslateError::ResponseParseError)
    );
}
