//! Fish Audio, both directions: text-to-speech (`POST /v1/tts`) is Jarvis's voice,
//! speech-to-text (`POST /v1/asr`) is his ears for browsers without a speech
//! service of their own. The key, the voice (`reference_id`) and the model header
//! are server configuration; a client sends text and gets audio, or sends audio
//! and gets text.

use crate::config::{VoiceConfig, VoiceConfigView};
use crate::error::{outcome, Error, ErrorView, Result, Transport};
use crate::json::{field, has_just, or_null, parsed_json, text_field, text_or_empty, Json, JsonView, Object};
use crate::text::{cat2, cat4, decimal, number, trim, trim_end_of, trimmed, without_trailing};
use crate::upstream::control_plane::{retry_after_secs, seconds_of};
use vstd::prelude::*;

verus! {

pub struct FishAudio {
    base_url: String,
    cfg: VoiceConfig,
}

/// A request for speech: the provider's key, the model where one is configured,
/// and what to say.
pub struct SpeechRequest {
    pub url: String,
    pub bearer: String,
    pub model: Option<String>,
    pub body: Json,
}

/// A request for a transcription; the recording goes with it.
pub struct TranscriptionRequest {
    pub url: String,
    pub bearer: String,
    pub mime: String,
    pub language: String,
}

/// What the provider is asked to say, and how.
pub open spec fn speech_document(
    text: Seq<char>,
    voice_id: Seq<char>,
    format: Seq<char>,
    latency: Seq<char>,
) -> JsonView {
    JsonView::Object(
        map![
            "text"@ => JsonView::Text(text),
            "reference_id"@ => JsonView::Text(voice_id),
            "format"@ => JsonView::Text(format),
            "latency"@ => JsonView::Text(latency),
        ],
    )
}

/// Where the provider is.
pub open spec fn provider_address() -> Seq<char> {
    "https://api.fish.audio"@
}

impl FishAudio {
    /// The address without a trailing `/`.
    pub closed spec fn address(self) -> Seq<char> {
        self.base_url@
    }

    pub closed spec fn config(self) -> VoiceConfigView {
        self.cfg@
    }

    pub fn new(cfg: VoiceConfig) -> (r: FishAudio)
        ensures
            r.config() == cfg@,
            r.address() == without_trailing(provider_address(), '/'),
    {
        Self::with_base_url(cfg, "https://api.fish.audio")
    }

    pub fn with_base_url(cfg: VoiceConfig, base_url: &str) -> (r: FishAudio)
        ensures
            r.config() == cfg@,
            r.address() == without_trailing(base_url@, '/'),
    {
        FishAudio { base_url: trim_end_of(base_url, '/').to_owned(), cfg }
    }

    pub fn voice_id(&self) -> (r: &str)
        ensures
            r@ == self.config().voice_id,
    {
        self.cfg.voice_id.as_str()
    }

    pub fn model(&self) -> (r: Option<&str>)
        ensures
            r.deep_view() == self.config().model,
    {
        match &self.cfg.model {
            Some(model) => Some(model.as_str()),
            None => None,
        }
    }

    /// The request for speech. Which voice speaks is not the caller's choice.
    pub fn speak(&self, text: &str, format: &str, latency: &str) -> (r: SpeechRequest)
        ensures
            r.url@ == self.address() + "/v1/tts"@,
            r.bearer@ == self.config().fish_audio_api_key,
            r.model.deep_view() == self.config().model,
            r.body@ == speech_document(text@, self.config().voice_id, format@, latency@),
    {
        let mut o = Object::new();
        o.put_text("text", text);
        o.put_text("reference_id", self.cfg.voice_id.as_str());
        o.put_text("format", format);
        o.put_text("latency", latency);
        assert(o@ =~= speech_document(
            text@,
            self.config().voice_id,
            format@,
            latency@,
        )->Object_0);
        SpeechRequest {
            url: cat2(self.base_url.as_str(), "/v1/tts"),
            bearer: self.cfg.fish_audio_api_key.clone(),
            model: crate::db::copy_text(&self.cfg.model),
            body: Json::Object(o),
        }
    }

    /// The request for a transcription of a whole recording (WAV, MP3 or M4A).
    pub fn transcribe(&self, mime: &str, language: &str) -> (r: TranscriptionRequest)
        ensures
            r.url@ == self.address() + "/v1/asr"@,
            r.bearer@ == self.config().fish_audio_api_key,
            r.mime@ == mime@,
            r.language@ == language@,
    {
        TranscriptionRequest {
            url: cat2(self.base_url.as_str(), "/v1/asr"),
            bearer: self.cfg.fish_audio_api_key.clone(),
            mime: mime.to_owned(),
            language: language.to_owned(),
        }
    }
}

/// A non-2xx from the provider, in our error vocabulary (`kind: voice`).
pub open spec fn provider_failure(
    status: u16,
    retry_after: Option<Seq<char>>,
    body: Seq<char>,
) -> ErrorView {
    ErrorView::Upstream {
        status,
        kind: "voice"@,
        message: if status == 401 {
            "the voice provider rejected the API key"@
        } else if status == 402 {
            "voice credits are exhausted"@
        } else if status == 503 {
            "the voice provider is overloaded"@
        } else {
            "voice provider answered "@ + decimal(status as nat) + ": "@ + trimmed(body)
        },
        retry_after: seconds_of(retry_after),
    }
}

/// A non-2xx from the provider, in our error vocabulary (`kind: voice`).
pub fn provider_error(status: u16, retry_after: Option<&str>, body: &str) -> (r: Error)
    ensures
        r@ == provider_failure(status, retry_after.deep_view(), body@),
{
    let message = if status == 401 {
        "the voice provider rejected the API key".to_owned()
    } else if status == 402 {
        "voice credits are exhausted".to_owned()
    } else if status == 503 {
        "the voice provider is overloaded".to_owned()
    } else {
        cat4("voice provider answered ", number(status as u128).as_str(), ": ", trim(body))
    };
    Error::Upstream {
        status,
        kind: "voice".to_owned(),
        message,
        retry_after: retry_after_secs(retry_after),
    }
}

/// A transcription that was refused. A recording that cannot be decoded is the
/// caller's problem; anything else is the provider's.
pub open spec fn transcription_failure(
    status: u16,
    retry_after: Option<Seq<char>>,
    text: Seq<char>,
    body: JsonView,
) -> ErrorView {
    if status == 400 {
        ErrorView::InvalidRequest(
            match text_field(body, "message"@) {
                Some(message) => message,
                None => "the audio could not be decoded"@,
            },
        )
    } else {
        provider_failure(status, retry_after, text)
    }
}

/// A transcription that was refused, from the text of the answer.
pub fn transcription_error(status: u16, retry_after: Option<&str>, text: &str) -> (r: Error)
    ensures
        r@ == transcription_failure(
            status,
            retry_after.deep_view(),
            text@,
            or_null(parsed_json(text@)),
        ),
{
    transcription_error_of(status, retry_after, text, &Json::parse_or_null(text))
}

/// The same, given what the text reads as.
pub fn transcription_error_of(
    status: u16,
    retry_after: Option<&str>,
    text: &str,
    body: &Json,
) -> (r: Error)
    ensures
        r@ == transcription_failure(status, retry_after.deep_view(), text@, body@),
{
    if status == 400 {
        let message = match body.text_at("message") {
            Some(message) => message,
            None => "the audio could not be decoded",
        };
        Error::InvalidRequest(message.to_owned())
    } else {
        provider_error(status, retry_after, text)
    }
}

/// What a caller gets of a transcription: what was said, empty when nothing
/// intelligible was, and how long the recording is, where the provider says so.
/// An answer whose parts are of other types is no usable one.
pub open spec fn transcribed(body: JsonView) -> std::result::Result<JsonView, ErrorView> {
    let usable = body is Object && (match field(body, "text"@) {
        Some(text) => text is Text,
        None => true,
    }) && (match field(body, "duration"@) {
        Some(secs) => secs is Number || secs is Null,
        None => true,
    });
    if usable {
        Ok(
            JsonView::Object(
                map![
                    "text"@ => JsonView::Text(text_or_empty(body, "text"@)),
                    "duration"@ => match field(body, "duration"@) {
                        Some(secs) => secs,
                        None => JsonView::Null,
                    },
                ],
            ),
        )
    } else {
        Err(
            ErrorView::UpstreamTransport {
                timed_out: false,
                connecting: false,
                text: "the transcription could not be read"@,
            },
        )
    }
}

/// What a caller gets of a transcription.
pub fn transcription(body: &Json) -> (r: Result<Json>)
    ensures
        outcome(r) == transcribed(body@),
{
    let text_ok = match body.get("text") {
        Some(text) => text.is_text(),
        None => true,
    };
    let duration_ok = match body.get("duration") {
        Some(secs) => match secs {
            Json::Number(_) => true,
            Json::Null => true,
            _ => false,
        },
        None => true,
    };
    if !(body.is_object() && text_ok && duration_ok) {
        return Err(
            Error::UpstreamTransport(
                Transport {
                    timed_out: false,
                    connecting: false,
                    text: "the transcription could not be read".to_owned(),
                },
            ),
        );
    }
    let mut o = Object::new();
    o.put_text("text", body.text_or_empty("text"));
    match body.get("duration") {
        Some(secs) => {
            o.put("duration", secs.copy());
        },
        None => {
            o.put("duration", Json::Null);
        },
    }
    assert(o@ =~= transcribed(body@)->Ok_0->Object_0);
    Ok(Json::Object(o))
}

/// What the provider's answer to a recording comes to: a 2xx is read, and one that
/// is not JSON is no usable answer; anything else is refused.
pub open spec fn heard(
    status: u16,
    retry_after: Option<Seq<char>>,
    text: Seq<char>,
    body: std::result::Result<JsonView, Seq<char>>,
) -> std::result::Result<JsonView, ErrorView> {
    if 200 <= status < 300 {
        match body {
            Ok(body) => transcribed(body),
            Err(text) => Err(
                ErrorView::UpstreamTransport { timed_out: false, connecting: false, text },
            ),
        }
    } else {
        Err(transcription_failure(status, retry_after, text, or_null(body)))
    }
}

/// What the provider's answer to a recording comes to, from its text.
pub fn read_transcription(status: u16, retry_after: Option<&str>, text: &str) -> (r: Result<Json>)
    ensures
        outcome(r) == heard(status, retry_after.deep_view(), text@, parsed_json(text@)),
{
    if 200 <= status && status < 300 {
        match Json::parse(text) {
            Ok(body) => transcription(&body),
            Err(text) => Err(
                Error::UpstreamTransport(Transport { timed_out: false, connecting: false, text }),
            ),
        }
    } else {
        Err(transcription_error(status, retry_after, text))
    }
}

// ---- laws ---------------------------------------------------------------------------

/// The provider is at its own address, and what follows it follows at once.
pub proof fn the_provider_is_at_its_address(path: Seq<char>)
    ensures
        without_trailing(provider_address(), '/') + path == "https://api.fish.audio"@ + path,
{
    reveal_strlit("https://api.fish.audio");
}

/// A failure of the provider keeps its status, is of the kind `voice`, and asks to
/// wait as long as the provider asks.
pub proof fn a_provider_failure_keeps_its_status(
    status: u16,
    retry_after: Option<Seq<char>>,
    body: Seq<char>,
)
    ensures
        provider_failure(status, retry_after, body) matches ErrorView::Upstream {
            status: told,
            kind,
            message: _,
            retry_after: wait,
        } && told == status && kind == "voice"@ && wait == seconds_of(retry_after),
{
}

/// A failure of the provider is told in words of our own where they are known: a
/// refused key, no credits left, too much to do. Any other is told by its status and
/// in the words of the answer.
pub proof fn a_provider_failure_is_told(
    status: u16,
    retry_after: Option<Seq<char>>,
    body: Seq<char>,
)
    ensures
        ({
            let message = provider_failure(status, retry_after, body)->message;
            &&& status == 401 ==> message == "the voice provider rejected the API key"@
            &&& status == 402 ==> message == "voice credits are exhausted"@
            &&& status == 503 ==> message == "the voice provider is overloaded"@
            &&& status != 401 && status != 402 && status != 503 ==> message
                == "voice provider answered "@ + decimal(status as nat) + ": "@ + trimmed(body)
        }),
{
}

/// A recording is heard where the provider answers with success and what it says can
/// be read. One that cannot be decoded is the caller's to mend, by what the provider
/// says of it; every other failure is the provider's.
pub proof fn a_recording_is_heard_or_told_why_not(
    status: u16,
    retry_after: Option<Seq<char>>,
    text: Seq<char>,
    body: std::result::Result<JsonView, Seq<char>>,
)
    ensures
        heard(status, retry_after, text, body) is Ok <==> 200 <= status <= 299 && (body matches Ok(
            said,
        ) && transcribed(said) is Ok),
        200 <= status <= 299 && (body matches Ok(said) && transcribed(said) is Ok) ==> heard(
            status,
            retry_after,
            text,
            body,
        ) == transcribed(body->Ok_0),
        status == 400 ==> (heard(status, retry_after, text, body) matches Err(
            ErrorView::InvalidRequest(message),
        ) && message == (if body matches Ok(said) && text_field(said, "message"@) is Some {
            text_field(body->Ok_0, "message"@)->Some_0
        } else {
            "the audio could not be decoded"@
        })),
        !(200 <= status <= 299) && status != 400 ==> heard(status, retry_after, text, body) == Err::<
            JsonView,
            ErrorView,
        >(provider_failure(status, retry_after, text)),
        200 <= status <= 299 && heard(status, retry_after, text, body) is Err ==> heard(
            status,
            retry_after,
            text,
            body,
        ) == Err::<JsonView, ErrorView>(
            ErrorView::UpstreamTransport {
                timed_out: false,
                connecting: false,
                text: match body {
                    Ok(_) => "the transcription could not be read"@,
                    Err(why) => why,
                },
            },
        ),
{
}

/// What was said, and how long the recording is, are handed on as the provider gives
/// them, under the same names, and nothing else is. Where nothing was said the text
/// is empty; where no length is given it is null.
pub proof fn what_was_said_is_handed_on(body: JsonView)
    ensures
        transcribed(body) is Ok <==> {
            &&& body is Object
            &&& field(body, "text"@) matches Some(said) ==> said is Text
            &&& field(body, "duration"@) matches Some(secs) ==> secs is Number || secs is Null
        },
        transcribed(body) matches Ok(answer) ==> {
            &&& has_just(answer, set!["text"@, "duration"@])
            &&& field(body, "text"@) matches Some(said) ==> field(answer, "text"@) == Some(said)
            &&& field(body, "text"@) is None ==> text_field(answer, "text"@) == Some(
                Seq::<char>::empty(),
            )
            &&& field(body, "duration"@) matches Some(secs) ==> field(answer, "duration"@) == Some(
                secs,
            )
            &&& field(body, "duration"@) is None ==> field(answer, "duration"@) == Some(
                JsonView::Null,
            )
        },
{
    reveal_strlit("text");
    reveal_strlit("duration");
    assert("text"@.len() == 4 && "duration"@.len() == 8);
    reveal_strlit("");
    if let Ok(answer) = transcribed(body) {
        assert(answer->Object_0.dom() =~= set!["text"@, "duration"@]);
    }
}

} // verus!
