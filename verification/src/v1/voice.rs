//! `/v1/voice`: Jarvis's voice. Only there when the provider's key is configured.
//! A client sends text and gets audio bytes; which voice speaks is server
//! configuration, so every client sounds the same.

use crate::error::{Error, ErrorView, Result};
use crate::json::{bool_field, field, has_just, text_field, text_or_null, Json, JsonView, Object};
use crate::text::{before_first, cat4, cat5, join, joined, same, split_once, trim, trimmed};
use crate::upstream::fish_audio::{speech_document, FishAudio, SpeechRequest, TranscriptionRequest};
use crate::v1::sessions::bad;
use vstd::prelude::*;

verus! {

/// The longest text to speak, in characters.
pub const TEXT_MAX_CHARS: usize = 2_000;

/// The largest recording to transcribe, in bytes: 1 MiB.
pub const AUDIO_MAX_BYTES: usize = 1_048_576;

pub struct Speak {
    /// What to say. 1 to 2000 characters; plain text, no markdown.
    pub text: String,
    /// `mp3` (default), `wav`, `pcm`, `opus`.
    pub format: Option<String>,
    /// `low` (default: replies are spoken as they arrive), `normal`, `balanced`.
    pub latency: Option<String>,
}

pub struct VoiceInfo {
    pub configured: bool,
    /// The provider's reference id of the voice Jarvis speaks with.
    pub voice_id: String,
    pub model: Option<String>,
}

/// The value, where it is one of those allowed, or the default.
pub open spec fn chosen(
    value: Option<Seq<char>>,
    allowed: Seq<Seq<char>>,
    default: Seq<char>,
    name: Seq<char>,
) -> std::result::Result<Seq<char>, ErrorView> {
    match value {
        None => Ok(default),
        Some(v) => if allowed.contains(v) {
            Ok(v)
        } else {
            bad(name + " `"@ + v + "` is not one of "@ + joined(allowed, ", "@))
        },
    }
}

/// The value, where it is one of those allowed, or the default.
pub fn one_of<'a>(
    value: Option<&'a str>,
    allowed: &Vec<String>,
    default: &'a str,
    name: &str,
) -> (r: Result<&'a str>)
    ensures
        match chosen(value.deep_view(), allowed.deep_view(), default@, name@) {
            Ok(v) => r matches Ok(text) && text@ == v,
            Err(e) => r matches Err(error) && error@ == e,
        },
{
    let v = match value {
        None => {
            return Ok(default);
        },
        Some(v) => v,
    };
    let n: usize = allowed.len();
    for i in 0..n
        invariant
            n == allowed@.len(),
            value == Some(v),
            forall|k: int| 0 <= k < i ==> #[trigger] allowed.deep_view()[k] != v@,
    {
        assert(allowed.deep_view()[i as int] == allowed@[i as int]@);
        if same(allowed[i].as_str(), v) {
            assert(allowed.deep_view().contains(v@));
            return Ok(v);
        }
    }
    let list = join(allowed, ", ");
    Err(Error::InvalidRequest(cat5(name, " `", v, "` is not one of ", list.as_str())))
}

pub open spec fn formats() -> Seq<Seq<char>> {
    seq!["mp3"@, "wav"@, "pcm"@, "opus"@]
}

pub open spec fn latencies() -> Seq<Seq<char>> {
    seq!["low"@, "normal"@, "balanced"@]
}

pub open spec fn recording_types() -> Seq<Seq<char>> {
    seq!["audio/wav"@, "audio/mpeg"@, "audio/mp4"@]
}

fn allowed_formats() -> (r: Vec<String>)
    ensures
        r.deep_view() == formats(),
{
    let r = vec!["mp3".to_owned(), "wav".to_owned(), "pcm".to_owned(), "opus".to_owned()];
    assert(r.deep_view() =~= formats());
    r
}

fn allowed_latencies() -> (r: Vec<String>)
    ensures
        r.deep_view() == latencies(),
{
    let r = vec!["low".to_owned(), "normal".to_owned(), "balanced".to_owned()];
    assert(r.deep_view() =~= latencies());
    r
}

fn allowed_recordings() -> (r: Vec<String>)
    ensures
        r.deep_view() == recording_types(),
{
    let r = vec!["audio/wav".to_owned(), "audio/mpeg".to_owned(), "audio/mp4".to_owned()];
    assert(r.deep_view() =~= recording_types());
    r
}

fn as_deref(text: &Option<String>) -> (r: Option<&str>)
    ensures
        r.deep_view() == text.deep_view(),
{
    match text {
        Some(text) => Some(text.as_str()),
        None => None,
    }
}

/// What is to be spoken: the text without white space around it, its format and
/// its latency.
pub open spec fn utterance(body: Speak) -> std::result::Result<
    (Seq<char>, Seq<char>, Seq<char>),
    ErrorView,
> {
    let text = trimmed(body.text@);
    if !(0 < text.len() <= TEXT_MAX_CHARS) {
        bad("text must be 1–2000 characters"@)
    } else {
        match chosen(body.format.deep_view(), formats(), "mp3"@, "format"@) {
            Err(e) => Err(e),
            Ok(format) => match chosen(
                body.latency.deep_view(),
                latencies(),
                "low"@,
                "latency"@,
            ) {
                Err(e) => Err(e),
                Ok(latency) => Ok((text, format, latency)),
            },
        }
    }
}

/// `POST /voice/speak`: what is asked of the provider. Not found, where there is
/// no voice.
pub fn speak(voice: Option<&FishAudio>, body: std::result::Result<Speak, String>) -> (r: Result<
    SpeechRequest,
>)
    ensures
        match (voice, body) {
            (None, _) => r matches Err(e) && e@ == ErrorView::NotFound,
            (Some(_), Err(text)) => r matches Err(e) && e@ == ErrorView::InvalidRequest(text@),
            (Some(voice), Ok(body)) => match utterance(body) {
                Err(e) => r matches Err(error) && error@ == e,
                Ok((text, format, latency)) => r matches Ok(request) && request.url@
                    == voice.address() + "/v1/tts"@ && request.bearer@
                    == voice.config().fish_audio_api_key && request.model.deep_view()
                    == voice.config().model && request.body@ == speech_document(
                    text,
                    voice.config().voice_id,
                    format,
                    latency,
                ),
            },
        },
{
    let voice = match voice {
        Some(voice) => voice,
        None => {
            return Err(Error::NotFound);
        },
    };
    let req = match body {
        Ok(req) => req,
        Err(text) => {
            return Err(Error::InvalidRequest(text));
        },
    };
    let text = trim(req.text.as_str());
    let n: usize = text.unicode_len();
    if n == 0 || n > TEXT_MAX_CHARS {
        return Err(Error::InvalidRequest("text must be 1–2000 characters".to_owned()));
    }
    let format = match one_of(as_deref(&req.format), &allowed_formats(), "mp3", "format") {
        Ok(format) => format,
        Err(e) => {
            return Err(e);
        },
    };
    let latency = match one_of(as_deref(&req.latency), &allowed_latencies(), "low", "latency") {
        Ok(latency) => latency,
        Err(e) => {
            return Err(e);
        },
    };
    Ok(voice.speak(text, format, latency))
}

/// The type of a recording, without the parameters that may follow it.
pub open spec fn bare_type(content_type: Option<Seq<char>>) -> Seq<char> {
    match content_type {
        Some(text) => trimmed(before_first(text, ';')),
        None => Seq::empty(),
    }
}

/// What is listened to: the type of the recording, and the language to listen for.
/// What the provider cannot decode, or is longer than a mebibyte, is refused.
pub open spec fn recording(
    content_type: Option<Seq<char>>,
    size: nat,
    language: Option<Seq<char>>,
) -> std::result::Result<(Seq<char>, Seq<char>), ErrorView> {
    let mime = bare_type(content_type);
    if !recording_types().contains(mime) {
        bad("content-type `"@ + mime + "` is not one of "@ + joined(recording_types(), ", "@))
    } else if size > AUDIO_MAX_BYTES {
        bad("audio is longer than 1 MiB"@)
    } else {
        Ok((mime, language_or_english(language)))
    }
}

/// The language to listen for: the one named, or English.
pub open spec fn language_or_english(language: Option<Seq<char>>) -> Seq<char> {
    match language {
        Some(language) => language,
        None => "en"@,
    }
}

/// `POST /voice/transcribe`: what is asked of the provider for a recording of that
/// type and size. What the provider cannot decode is not sent.
pub fn transcribe(
    voice: Option<&FishAudio>,
    content_type: Option<&str>,
    size: usize,
    language: Option<&str>,
) -> (r: Result<TranscriptionRequest>)
    ensures
        match voice {
            None => r matches Err(e) && e@ == ErrorView::NotFound,
            Some(voice) => match recording(
                content_type.deep_view(),
                size as nat,
                language.deep_view(),
            ) {
                Err(e) => r matches Err(error) && error@ == e,
                Ok((mime, language)) => r matches Ok(request) && request.url@ == voice.address()
                    + "/v1/asr"@ && request.bearer@ == voice.config().fish_audio_api_key
                    && request.mime@ == mime && request.language@ == language,
            },
        },
{
    let voice = match voice {
        Some(voice) => voice,
        None => {
            return Err(Error::NotFound);
        },
    };
    let mime = match content_type {
        Some(text) => match split_once(text, ';') {
            Some((mime, _)) => trim(mime),
            None => {
                proof {
                    no_such_char(text@, ';');
                }
                trim(text)
            },
        },
        None => {
            proof {
                reveal_strlit("");
                assert(""@ =~= Seq::empty());
            }
            ""
        },
    };
    let types = allowed_recordings();
    match one_of(Some(mime), &types, "audio/wav", "content-type") {
        Ok(_) => {},
        Err(_) => {
            let list = join(&types, ", ");
            let complaint = cat4("content-type `", mime, "` is not one of ", list.as_str());
            return Err(Error::InvalidRequest(complaint));
        },
    }
    if size > AUDIO_MAX_BYTES {
        return Err(Error::InvalidRequest("audio is longer than 1 MiB".to_owned()));
    }
    match language {
        Some(language) => Ok(voice.transcribe(mime, language)),
        None => Ok(voice.transcribe(mime, "en")),
    }
}

proof fn no_such_char(s: Seq<char>, c: char)
    requires
        !s.contains(c),
    ensures
        before_first(s, c) == s,
    decreases s.len(),
{
    if s.len() > 0 {
        assert(s[0] != c) by {
            assert(s.contains(s[0]));
        }
        let rest = s.drop_first();
        assert(!rest.contains(c)) by {
            if rest.contains(c) {
                let k = choose|k: int| 0 <= k < rest.len() && rest[k] == c;
                assert(s[k + 1] == c);
            }
        }
        no_such_char(rest, c);
        assert(seq![s[0]] + rest =~= s);
    } else {
        assert(s =~= Seq::empty());
    }
}

/// `GET /voice`.
pub fn info(voice: Option<&FishAudio>) -> (r: Result<VoiceInfo>)
    ensures
        match voice {
            None => r matches Err(e) && e@ == ErrorView::NotFound,
            Some(voice) => r matches Ok(info) && info.configured && info.voice_id@
                == voice.config().voice_id && info.model.deep_view() == voice.config().model,
        },
{
    match voice {
        Some(voice) => Ok(
            VoiceInfo {
                configured: true,
                voice_id: voice.voice_id().to_owned(),
                model: match voice.model() {
                    Some(model) => Some(model.to_owned()),
                    None => None,
                },
            },
        ),
        None => Err(Error::NotFound),
    }
}

/// What is told of the voice.
pub open spec fn info_document(
    configured: bool,
    voice_id: Seq<char>,
    model: Option<Seq<char>>,
) -> JsonView {
    JsonView::Object(
        map![
            "configured"@ => JsonView::Bool(configured),
            "voice_id"@ => JsonView::Text(voice_id),
            "model"@ => text_or_null(model),
        ],
    )
}

impl VoiceInfo {
    pub fn to_json(&self) -> (r: Json)
        ensures
            r@ == info_document(self.configured, self.voice_id@, self.model.deep_view()),
    {
        let mut o = Object::new();
        o.put("configured", Json::Bool(self.configured));
        o.put_text("voice_id", self.voice_id.as_str());
        o.put("model", Json::optional_text(as_deref(&self.model)));
        assert(o@ =~= info_document(
            self.configured,
            self.voice_id@,
            self.model.deep_view(),
        )->Object_0);
        Json::Object(o)
    }
}

// ---- laws ---------------------------------------------------------------------------

/// Any text of 1 to 2000 characters is spoken, in each of the formats `mp3`, `wav`,
/// `pcm` and `opus` and at each of the latencies `low`, `normal` and `balanced`, as
/// the client chose; `mp3` and `low` where it did not choose. Nothing else is
/// spoken: another format, another latency, no text or a longer one is a bad
/// request.
pub proof fn each_format_and_latency_is_spoken(body: Speak)
    ensures
        ({
            let text = trimmed(body.text@);
            let format = body.format.deep_view();
            let latency = body.latency.deep_view();
            let good = 1 <= text.len() <= 2000 && (format matches Some(f) ==> f == "mp3"@ || f
                == "wav"@ || f == "pcm"@ || f == "opus"@) && (latency matches Some(l) ==> l
                == "low"@ || l == "normal"@ || l == "balanced"@);
            &&& good ==> (utterance(body) matches Ok(said) && said.0 == text && said.1 == (
            match format {
                Some(f) => f,
                None => "mp3"@,
            }) && said.2 == (match latency {
                Some(l) => l,
                None => "low"@,
            }))
            &&& !good ==> (utterance(body) matches Err(e) && e is InvalidRequest)
        }),
{
    assert(formats()[0] == "mp3"@ && formats()[1] == "wav"@ && formats()[2] == "pcm"@
        && formats()[3] == "opus"@);
    assert(latencies()[0] == "low"@ && latencies()[1] == "normal"@ && latencies()[2]
        == "balanced"@);
    if let Some(f) = body.format.deep_view() {
        if formats().contains(f) {
            let k = choose|k: int| 0 <= k < formats().len() && formats()[k] == f;
            assert(k == 0 || k == 1 || k == 2 || k == 3);
        }
    }
    if let Some(l) = body.latency.deep_view() {
        if latencies().contains(l) {
            let k = choose|k: int| 0 <= k < latencies().len() && latencies()[k] == l;
            assert(k == 0 || k == 1 || k == 2);
        }
    }
}

/// The provider is asked to say the client's text in the client's format and
/// latency, with the voice that is configured; who reads the request finds just
/// these.
pub proof fn a_speech_request_reads_back(
    text: Seq<char>,
    voice_id: Seq<char>,
    format: Seq<char>,
    latency: Seq<char>,
)
    ensures
        ({
            let asked = speech_document(text, voice_id, format, latency);
            &&& has_just(asked, set!["text"@, "reference_id"@, "format"@, "latency"@])
            &&& text_field(asked, "text"@) == Some(text)
            &&& text_field(asked, "reference_id"@) == Some(voice_id)
            &&& text_field(asked, "format"@) == Some(format)
            &&& text_field(asked, "latency"@) == Some(latency)
        }),
{
    reveal_strlit("text");
    reveal_strlit("reference_id");
    reveal_strlit("format");
    reveal_strlit("latency");
    assert("text"@.len() == 4 && "reference_id"@.len() == 12 && "format"@.len() == 6
        && "latency"@.len() == 7);
    assert(speech_document(text, voice_id, format, latency)->Object_0.dom() =~= set![
        "text"@,
        "reference_id"@,
        "format"@,
        "latency"@,
    ]);
}

/// A recording of at most 1 MiB is listened to where it is `audio/wav`,
/// `audio/mpeg` or `audio/mp4`, whatever parameters the type has, for the language
/// that the client named, or for English. Nothing else is.
pub proof fn each_recording_type_is_heard(
    kind: Seq<char>,
    params: Seq<char>,
    size: nat,
    language: Option<Seq<char>>,
)
    requires
        !kind.contains(';'),
        trimmed(kind) == kind,
    ensures
        ({
            let bare = recording(Some(kind), size, language);
            let with_params = recording(Some(kind + ";"@ + params), size, language);
            let good = (kind == "audio/wav"@ || kind == "audio/mpeg"@ || kind == "audio/mp4"@)
                && size <= 1024 * 1024;
            &&& with_params == bare
            &&& good ==> bare == Ok::<(Seq<char>, Seq<char>), ErrorView>(
                (
                    kind,
                    match language {
                        Some(language) => language,
                        None => "en"@,
                    },
                ),
            )
            &&& !good ==> (bare matches Err(e) && e is InvalidRequest)
        }),
        recording(None, size, language) is Err,
{
    reveal_strlit(";");
    reveal_strlit("audio/wav");
    reveal_strlit("audio/mpeg");
    reveal_strlit("audio/mp4");
    no_such_char(kind, ';');
    assert(";"@ =~= seq![';']);
    nothing_before_matters(kind, params);
    let types = recording_types();
    assert(types[0] == "audio/wav"@ && types[1] == "audio/mpeg"@ && types[2] == "audio/mp4"@);
    assert forall|t: Seq<char>| #[trigger] types.contains(t) implies t == "audio/wav"@ || t
        == "audio/mpeg"@ || t == "audio/mp4"@ by {
        let k = choose|k: int| 0 <= k < types.len() && types[k] == t;
        assert(k == 0 || k == 1 || k == 2);
    }
    assert(!types.contains(Seq::<char>::empty()));
}

proof fn nothing_before_matters(kind: Seq<char>, params: Seq<char>)
    requires
        !kind.contains(';'),
    ensures
        before_first(kind + seq![';'] + params, ';') == kind,
    decreases kind.len(),
{
    let whole = kind + seq![';'] + params;
    if kind.len() > 0 {
        assert(kind.contains(kind[0]));
        let rest = kind.drop_first();
        assert(!rest.contains(';')) by {
            if rest.contains(';') {
                let k = choose|k: int| 0 <= k < rest.len() && rest[k] == ';';
                assert(kind[k + 1] == ';');
            }
        }
        nothing_before_matters(rest, params);
        assert(whole.drop_first() =~= rest + seq![';'] + params);
        assert(seq![kind[0]] + rest =~= kind);
    } else {
        assert(whole[0] == ';');
        assert(kind =~= Seq::empty());
    }
}

/// The voice is described by its id and its model, where it has one.
pub proof fn the_voice_is_described_as_configured(
    configured: bool,
    voice_id: Seq<char>,
    model: Option<Seq<char>>,
)
    ensures
        ({
            let told = info_document(configured, voice_id, model);
            &&& has_just(told, set!["configured"@, "voice_id"@, "model"@])
            &&& bool_field(told, "configured"@) == Some(configured)
            &&& text_field(told, "voice_id"@) == Some(voice_id)
            &&& text_field(told, "model"@) == model
            &&& model is None ==> field(told, "model"@) == Some(JsonView::Null)
        }),
{
    reveal_strlit("configured");
    reveal_strlit("voice_id");
    reveal_strlit("model");
    assert("configured"@.len() == 10 && "voice_id"@.len() == 8 && "model"@.len() == 5);
    assert(info_document(configured, voice_id, model)->Object_0.dom() =~= set![
        "configured"@,
        "voice_id"@,
        "model"@,
    ]);
}

/// What is wrong with a request to speak is told: its text first, then its format and
/// its latency, with what each can be.
pub proof fn a_bad_speech_request_is_told(body: Speak, given: Seq<char>)
    ensures
        ({
            let text = trimmed(body.text@);
            let format = body.format.deep_view();
            let latency = body.latency.deep_view();
            let spoken = 1 <= text.len() <= 2000;
            let formed = format matches Some(f) ==> f == "mp3"@ || f == "wav"@ || f == "pcm"@ || f
                == "opus"@;
            let timed = latency matches Some(l) ==> l == "low"@ || l == "normal"@ || l
                == "balanced"@;
            let told = utterance(body);
            &&& !spoken ==> told == Err::<(Seq<char>, Seq<char>, Seq<char>), ErrorView>(
                ErrorView::InvalidRequest("text must be 1–2000 characters"@),
            )
            &&& spoken && !formed && format == Some(given) ==> told == Err::<
                (Seq<char>, Seq<char>, Seq<char>),
                ErrorView,
            >(
                ErrorView::InvalidRequest(
                    "format `"@ + given + "` is not one of mp3, wav, pcm, opus"@,
                ),
            )
            &&& spoken && formed && !timed && latency == Some(given) ==> told == Err::<
                (Seq<char>, Seq<char>, Seq<char>),
                ErrorView,
            >(
                ErrorView::InvalidRequest(
                    "latency `"@ + given + "` is not one of low, normal, balanced"@,
                ),
            )
        }),
{
    each_format_and_latency_is_spoken(body);
    let format = body.format.deep_view();
    reveal_strlit(", ");
    reveal_strlit("mp3");
    reveal_strlit("wav");
    reveal_strlit("pcm");
    reveal_strlit("opus");
    reveal_strlit("low");
    reveal_strlit("normal");
    reveal_strlit("balanced");
    reveal_strlit("format");
    reveal_strlit("latency");
    reveal_strlit(" `");
    reveal_strlit("format `");
    reveal_strlit("latency `");
    reveal_strlit("` is not one of ");
    reveal_strlit("` is not one of mp3, wav, pcm, opus");
    reveal_strlit("` is not one of low, normal, balanced");
    let f = formats();
    let l = latencies();
    assert(f.drop_last() =~= seq!["mp3"@, "wav"@, "pcm"@]);
    assert(f.drop_last().drop_last() =~= seq!["mp3"@, "wav"@]);
    assert(f.drop_last().drop_last().drop_last() =~= seq!["mp3"@]);
    assert(l.drop_last() =~= seq!["low"@, "normal"@]);
    assert(l.drop_last().drop_last() =~= seq!["low"@]);
    reveal_with_fuel(joined, 5);
    assert(joined(f, ", "@) =~= "mp3"@ + ", "@ + "wav"@ + ", "@ + "pcm"@ + ", "@ + "opus"@);
    assert(joined(l, ", "@) =~= "low"@ + ", "@ + "normal"@ + ", "@ + "balanced"@);
    assert("format"@ + " `"@ + given + "` is not one of "@ + joined(f, ", "@) =~= "format `"@ + given
        + "` is not one of mp3, wav, pcm, opus"@);
    assert("latency"@ + " `"@ + given + "` is not one of "@ + joined(l, ", "@) =~= "latency `"@
        + given + "` is not one of low, normal, balanced"@);
    assert(formats()[0] == "mp3"@ && formats()[1] == "wav"@ && formats()[2] == "pcm"@
        && formats()[3] == "opus"@);
    assert(latencies()[0] == "low"@ && latencies()[1] == "normal"@ && latencies()[2]
        == "balanced"@);
    if let Some(g) = format {
        if formats().contains(g) {
            let k = choose|k: int| 0 <= k < formats().len() && formats()[k] == g;
            assert(k == 0 || k == 1 || k == 2 || k == 3);
        }
    }
    if let Some(g) = body.latency.deep_view() {
        if latencies().contains(g) {
            let k = choose|k: int| 0 <= k < latencies().len() && latencies()[k] == g;
            assert(k == 0 || k == 1 || k == 2);
        }
    }
}

/// What is wrong with a recording is told: its type first, with what it can be, then
/// its length.
pub proof fn a_bad_recording_is_told(
    content_type: Option<Seq<char>>,
    size: nat,
    language: Option<Seq<char>>,
)
    ensures
        ({
            let kind = bare_type(content_type);
            let known = kind == "audio/wav"@ || kind == "audio/mpeg"@ || kind == "audio/mp4"@;
            let told = recording(content_type, size, language);
            &&& !known ==> told == Err::<(Seq<char>, Seq<char>), ErrorView>(
                ErrorView::InvalidRequest(
                    "content-type `"@ + kind
                        + "` is not one of audio/wav, audio/mpeg, audio/mp4"@,
                ),
            )
            &&& known && size > 1_048_576 ==> told == Err::<(Seq<char>, Seq<char>), ErrorView>(
                ErrorView::InvalidRequest("audio is longer than 1 MiB"@),
            )
        }),
        bare_type(None).len() == 0,
{
    reveal_strlit(", ");
    reveal_strlit("audio/wav");
    reveal_strlit("audio/mpeg");
    reveal_strlit("audio/mp4");
    reveal_strlit("` is not one of ");
    reveal_strlit("` is not one of audio/wav, audio/mpeg, audio/mp4");
    let types = recording_types();
    let kind = bare_type(content_type);
    assert(types[0] == "audio/wav"@ && types[1] == "audio/mpeg"@ && types[2] == "audio/mp4"@);
    if types.contains(kind) {
        let k = choose|k: int| 0 <= k < types.len() && types[k] == kind;
        assert(k == 0 || k == 1 || k == 2);
    }
    assert(types.drop_last() =~= seq!["audio/wav"@, "audio/mpeg"@]);
    assert(types.drop_last().drop_last() =~= seq!["audio/wav"@]);
    reveal_with_fuel(joined, 4);
    assert(joined(types, ", "@) =~= "audio/wav"@ + ", "@ + "audio/mpeg"@ + ", "@ + "audio/mp4"@);
    assert("content-type `"@ + kind + "` is not one of "@ + joined(types, ", "@)
        =~= "content-type `"@ + kind + "` is not one of audio/wav, audio/mpeg, audio/mp4"@);
}

} // verus!
