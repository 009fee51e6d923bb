use nextcall::say::{SayPlan, say, say_fallback, speech_request_body};

#[test]
fn without_a_key_the_builtin_voice_speaks() {
    match say("hello there", None) {
        SayPlan::Builtin(t) => assert_eq!(t, "hello there"),
        SayPlan::ElevenLabs(_) => panic!("no key, no request"),
    }
}

#[test]
fn with_a_key_a_hosted_request_is_built() {
    match say("hello", Some("key-123")) {
        SayPlan::ElevenLabs(q) => {
            assert_eq!(
                q.url,
                "https://api.elevenlabs.io/v1/text-to-speech/JBFqnCBsd6RMkjVDRZzb?output_format=mp3_44100_128"
            );
            assert_eq!(q.api_key, "key-123");
            assert_eq!(
                q.body,
                "{\"text\":\"hello\",\"model_id\":\"eleven_multilingual_v2\"}"
            );
        }
        SayPlan::Builtin(_) => panic!("key given, request owed"),
    }
}

#[test]
fn body_escapes_quotes_and_backslashes() {
    let body = speech_request_body("say \"hi\" \\ bye");
    assert_eq!(
        body,
        "{\"text\":\"say \\\"hi\\\" \\\\ bye\",\"model_id\":\"eleven_multilingual_v2\"}"
    );
}

#[test]
fn body_escapes_control_characters() {
    let body = speech_request_body("a\nb\tc\r\u{1}");
    assert_eq!(
        body,
        "{\"text\":\"a\\nb\\tc\\r\\u0001\",\"model_id\":\"eleven_multilingual_v2\"}"
    );
}

#[test]
fn body_round_trips_through_a_json_reader() {
    let text = "Your call \"Standup\"\nstarted moments ago\t\u{1f}";
    let body = speech_request_body(text);
    let v: serde_json::Value = serde_json::from_str(&body).expect("well-formed JSON");
    assert_eq!(v["text"].as_str(), Some(text));
    assert_eq!(v["model_id"].as_str(), Some("eleven_multilingual_v2"));
}

#[test]
fn failed_hosted_request_falls_back_to_builtin() {
    match say_fallback("hello there", false) {
        Some(SayPlan::Builtin(t)) => assert_eq!(t, "hello there"),
        other => panic!("expected the built-in fallback, got {:?}", other),
    }
}

#[test]
fn successful_hosted_request_needs_no_fallback() {
    assert!(say_fallback("hello there", true).is_none());
}
