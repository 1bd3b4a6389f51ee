//! The voice: what is asked of the provider, and how its refusals read.

use opus_api::config::VoiceConfig;
use opus_api::json::Json;
use opus_api::upstream::fish_audio::{
    provider_error, read_transcription, transcription, transcription_error, FishAudio,
};
use opus_api::v1::voice::{info, one_of, speak, transcribe, Speak};

const FISH_KEY: &str = "sk-fish-test";

fn voice() -> FishAudio {
    FishAudio::with_base_url(
        VoiceConfig {
            fish_audio_api_key: FISH_KEY.to_owned(),
            voice_id: "voice_test".to_owned(),
            model: Some("s2.1-pro-free".to_owned()),
        },
        "http://fish",
    )
}

fn say(text: &str, format: Option<&str>, latency: Option<&str>) -> Speak {
    Speak {
        text: text.to_owned(),
        format: format.map(str::to_owned),
        latency: latency.map(str::to_owned),
    }
}

#[test]
fn speech_is_asked_of_the_provider() {
    let v = voice();
    let r = speak(Some(&v), Ok(say("Good morning", None, None))).ok().unwrap();
    assert_eq!(r.url, "http://fish/v1/tts");
    assert_eq!(r.bearer, FISH_KEY);
    assert_eq!(r.model.as_deref(), Some("s2.1-pro-free"));
    let body = r.body.to_value();
    assert_eq!(body["text"], "Good morning");
    assert_eq!(body["reference_id"], "voice_test");
    assert_eq!(body["format"], "mp3");
    let r = speak(Some(&v), Ok(say("x", Some("wav"), Some("balanced")))).ok().unwrap();
    assert_eq!(r.body.to_value()["format"], "wav");
    assert_eq!(r.body.to_value()["latency"], "balanced");
}

#[test]
fn what_cannot_be_said_is_refused_here() {
    let v = voice();
    assert_eq!(speak(None, Ok(say("x", None, None))).err().unwrap().status(), 404);
    for body in [say("", None, None), say("  ", None, None), say("x", Some("flac"), None)] {
        assert_eq!(speak(Some(&v), Ok(body)).err().unwrap().status(), 400);
    }
    assert!(speak(Some(&v), Ok(say("x", None, Some("slow")))).is_err());
    assert!(speak(Some(&v), Ok(say(&"é".repeat(2_000), None, None))).is_ok());
    assert!(speak(Some(&v), Ok(say(&"é".repeat(2_001), None, None))).is_err());
    assert!(speak(Some(&v), Err("bad".to_owned())).is_err());
    let allowed = vec!["a".to_owned(), "b".to_owned()];
    assert_eq!(one_of(None, &allowed, "a", "letter").ok(), Some("a"));
    assert_eq!(one_of(Some("b"), &allowed, "a", "letter").ok(), Some("b"));
    let e = one_of(Some("c"), &allowed, "a", "letter").err().unwrap();
    assert_eq!(e.text(), "invalid request: letter `c` is not one of a, b");
}

#[test]
fn a_recording_is_sent_where_it_can_be_decoded() {
    let v = voice();
    let r = transcribe(Some(&v), Some("audio/wav; rate=16000"), 10, None).ok().unwrap();
    assert_eq!(r.url, "http://fish/v1/asr");
    assert_eq!((r.bearer.as_str(), r.mime.as_str(), r.language.as_str()), (FISH_KEY, "audio/wav", "en"));
    let r = transcribe(Some(&v), Some("audio/wav"), 10, Some("fr")).ok().unwrap();
    assert_eq!(r.language, "fr");
    assert_eq!(transcribe(None, Some("audio/wav"), 10, None).err().unwrap().status(), 404);
    assert_eq!(transcribe(Some(&v), Some("text/plain"), 10, None).err().unwrap().status(), 400);
    assert_eq!(transcribe(Some(&v), None, 10, None).err().unwrap().status(), 400);
    assert!(transcribe(Some(&v), Some("audio/wav"), 1_048_576, None).is_ok());
    assert!(transcribe(Some(&v), Some("audio/wav"), 1_048_577, None).is_err());
}

#[test]
fn the_providers_refusals_are_ours() {
    let e = provider_error(402, None, r#"{"status":402,"message":"Insufficient API credit."}"#);
    assert_eq!(e.kind(), "upstream");
    assert_eq!(e.public_message(), "voice credits are exhausted");
    let e = provider_error(401, None, r#"{"status":401,"message":"Unauthorized"}"#);
    assert_eq!((e.status(), e.kind()), (502, "upstream"));
    let e = provider_error(503, Some("3"), r#"{"status":503,"message":"overloaded"}"#);
    assert_eq!((e.status(), e.retry_after()), (503, Some(3)));
    let e = provider_error(500, None, " boom ");
    assert_eq!(e.public_message(), "voice provider answered 500: boom");
    let e = transcription_error(
        400,
        None,
        r#"{"status":400,"message":"Invalid audio input: the audio could not be decoded (format not recognised)."}"#,
    );
    assert_eq!((e.status(), e.kind()), (400, "invalid_request"));
}

#[test]
fn a_transcription_is_text_and_duration() {
    let body = Json::parse(
        r#"{"text":"Jarvis, what is the weather in Calabasas today?","duration":3.2,"segments":[],"language":"en"}"#,
    )
    .unwrap();
    let wire = transcription(&body).ok().unwrap().to_value();
    assert_eq!(wire["text"], "Jarvis, what is the weather in Calabasas today?");
    assert_eq!(wire["duration"], 3.2);
    assert!(wire.get("segments").is_none());
    let read = |text: &str| transcription(&Json::parse(text).unwrap());
    assert_eq!(read("{}").ok().unwrap().to_text(), r#"{"duration":null,"text":""}"#);
    for bad in ["[]", r#"{"text":3}"#, r#"{"text":"x","duration":"long"}"#] {
        assert_eq!(read(bad).err().unwrap().kind(), "upstream", "{bad}");
    }
}

#[test]
fn the_voice_describes_itself() {
    let v = voice();
    let wire = info(Some(&v)).ok().unwrap().to_json().to_value();
    assert_eq!(wire["configured"], true);
    assert_eq!(wire["voice_id"], "voice_test");
    assert_eq!(wire["model"], "s2.1-pro-free");
    assert!(!wire.to_string().contains(FISH_KEY));
    assert!(info(None).is_err());
    assert_eq!((v.voice_id(), v.model()), ("voice_test", Some("s2.1-pro-free")));
}

#[test]
fn an_answer_to_a_recording_is_read_or_refused() {
    let said = read_transcription(200, None, r#"{"text":"lights on","duration":1.5,"segments":[]}"#);
    let wire = said.ok().unwrap().to_value();
    assert_eq!(wire["text"], "lights on");
    assert_eq!(wire.as_object().unwrap().len(), 2);
    let garbled = read_transcription(200, None, "not json").err().unwrap();
    assert_eq!(garbled.status(), 502);
    let undecodable = read_transcription(400, None, r#"{"message":"bad wav"}"#).err().unwrap();
    assert_eq!(undecodable.status(), 400);
    assert!(undecodable.envelope().message.contains("bad wav"));
    let busy = read_transcription(503, Some("7"), "").err().unwrap();
    assert_eq!(busy.status(), 503);
}
