use thirdspace::prompt::build_prompt;
use thirdspace::prompt::extract_translation;
use thirdspace::prompt::marker_end;
use thirdspace::prompt::marker_start;

#[test]
fn markers_are_the_wire_sentinels() {
    assert_eq!(marker_start(), "<<<TRANSLATION>>>");
    assert_eq!(marker_end(), "<<<END_TRANSLATION>>>");
}

#[test]
fn build_prompt_embeds_language_markers_and_input() {
    let p = build_prompt("Hello world", "Spanish");
    assert!(p.starts_with(
        "You are a professional Spanish native translator who needs to fluently translate text into Spanish.\n\n## Translation Rules\n"
    ));
    assert!(p.contains("<<<TRANSLATION>>>"));
    assert!(p.contains("<<<END_TRANSLATION>>>"));
    assert!(p.ends_with("\n\n### Input\nHello world"));
}

#[test]
fn build_prompt_keeps_input_verbatim() {
    let p = build_prompt("a\n%%\nb", "French");
    assert!(p.ends_with("\n\n### Input\na\n%%\nb"));
}

#[test]
fn extract_takes_trimmed_content_between_markers() {
    let out = extract_translation("<<<TRANSLATION>>>  Hola mundo \n<<<END_TRANSLATION>>>");
    assert_eq!(out, Some("Hola mundo".to_string()));
}

#[test]
fn extract_ignores_preamble_and_postamble() {
    let out = extract_translation(
        "Sure! Here is the translation:\n<<<TRANSLATION>>>Hola<<<END_TRANSLATION>>>\nLet me know if you need more.",
    );
    assert_eq!(out, Some("Hola".to_string()));
}

#[test]
fn extract_honors_only_the_first_pair() {
    let out = extract_translation(
        "<<<TRANSLATION>>>first<<<END_TRANSLATION>>><<<TRANSLATION>>>second<<<END_TRANSLATION>>>",
    );
    assert_eq!(out, Some("first".to_string()));
}

#[test]
fn extract_fails_without_start_marker() {
    assert_eq!(extract_translation("Hola<<<END_TRANSLATION>>>"), None);
}

#[test]
fn extract_fails_without_end_marker_after_start() {
    assert_eq!(extract_translation("<<<TRANSLATION>>>Hola"), None);
}

#[test]
fn extract_fails_when_end_marker_only_precedes_start() {
    assert_eq!(
        extract_translation("<<<END_TRANSLATION>>><<<TRANSLATION>>>Hola"),
        None
    );
}

#[test]
fn extract_fails_on_blank_content() {
    assert_eq!(
        extract_translation("<<<TRANSLATION>>> \n\t <<<END_TRANSLATION>>>"),
        None
    );
    assert_eq!(
        extract_translation("<<<TRANSLATION>>><<<END_TRANSLATION>>>"),
        None
    );
}

#[test]
fn extract_of_empty_input_fails() {
    assert_eq!(extract_translation(""), None);
}
