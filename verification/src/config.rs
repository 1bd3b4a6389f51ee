//! Environment-driven config. The API reads only what it needs and ignores the
//! rest.

use crate::error::{outcome, Error, ErrorView, Result};
use crate::text::{cat2, parse_number, pieces, same, split, trim, trim_end_of, trimmed, without_trailing, written_number};
use vstd::prelude::*;

verus! {

/// The voice that Jarvis speaks with.
pub struct VoiceConfig {
    pub fish_audio_api_key: String,
    /// The provider's reference id of the voice.
    pub voice_id: String,
    pub model: Option<String>,
}

/// One read token for each of the stack's services; a service without one is not
/// watched.
pub struct OpsConfig {
    pub uptimerobot_api_key: Option<String>,
    pub tailscale_api_key: Option<String>,
    pub tailscale_tailnet: String,
    pub cloudflare_api_token: Option<String>,
    pub digitalocean_token: Option<String>,
    pub github_token: Option<String>,
    pub github_org: String,
    pub docker_socket: Option<String>,
}

pub struct Config {
    pub port: u16,
    pub database_path: String,
    /// The control plane, on the compose network: `http://control-plane:8080`.
    pub control_plane_url: String,
    /// The control plane's bearer: the API's own upstream credential, never
    /// returned to or accepted from a client.
    pub control_plane_token: String,
    /// The sustained rate and the burst of each key; 0 disables the limit.
    pub rate_limit_per_minute: u32,
    /// The exact origins that browsers may call from.
    pub allowed_origins: Vec<String>,
    /// Absent where no provider key is set: then there are no voice routes.
    pub voice: Option<VoiceConfig>,
    pub ops: OpsConfig,
}

#[verifier::ext_equal]
pub struct VoiceConfigView {
    pub fish_audio_api_key: Seq<char>,
    pub voice_id: Seq<char>,
    pub model: Option<Seq<char>>,
}

#[verifier::ext_equal]
pub struct OpsConfigView {
    pub uptimerobot_api_key: Option<Seq<char>>,
    pub tailscale_api_key: Option<Seq<char>>,
    pub tailscale_tailnet: Seq<char>,
    pub cloudflare_api_token: Option<Seq<char>>,
    pub digitalocean_token: Option<Seq<char>>,
    pub github_token: Option<Seq<char>>,
    pub github_org: Seq<char>,
    pub docker_socket: Option<Seq<char>>,
}

#[verifier::ext_equal]
pub struct ConfigView {
    pub port: u16,
    pub database_path: Seq<char>,
    pub control_plane_url: Seq<char>,
    pub control_plane_token: Seq<char>,
    pub rate_limit_per_minute: u32,
    pub allowed_origins: Seq<Seq<char>>,
    pub voice: Option<VoiceConfigView>,
    pub ops: OpsConfigView,
}

impl View for VoiceConfig {
    type V = VoiceConfigView;

    open spec fn view(&self) -> VoiceConfigView {
        VoiceConfigView {
            fish_audio_api_key: self.fish_audio_api_key@,
            voice_id: self.voice_id@,
            model: self.model.deep_view(),
        }
    }
}

impl DeepView for VoiceConfig {
    type V = VoiceConfigView;

    open spec fn deep_view(&self) -> VoiceConfigView {
        self@
    }
}

impl View for OpsConfig {
    type V = OpsConfigView;

    open spec fn view(&self) -> OpsConfigView {
        OpsConfigView {
            uptimerobot_api_key: self.uptimerobot_api_key.deep_view(),
            tailscale_api_key: self.tailscale_api_key.deep_view(),
            tailscale_tailnet: self.tailscale_tailnet@,
            cloudflare_api_token: self.cloudflare_api_token.deep_view(),
            digitalocean_token: self.digitalocean_token.deep_view(),
            github_token: self.github_token.deep_view(),
            github_org: self.github_org@,
            docker_socket: self.docker_socket.deep_view(),
        }
    }
}

impl View for Config {
    type V = ConfigView;

    open spec fn view(&self) -> ConfigView {
        ConfigView {
            port: self.port,
            database_path: self.database_path@,
            control_plane_url: self.control_plane_url@,
            control_plane_token: self.control_plane_token@,
            rate_limit_per_minute: self.rate_limit_per_minute,
            allowed_origins: self.allowed_origins.deep_view(),
            voice: self.voice.deep_view(),
            ops: self.ops@,
        }
    }
}

impl DeepView for Config {
    type V = ConfigView;

    open spec fn deep_view(&self) -> ConfigView {
        self@
    }
}

/// The environment: names and values.
pub type Vars = Seq<(Seq<char>, Seq<char>)>;

/// The value of the variable: the first one, where a name occurs twice.
pub open spec fn var(vars: Vars, name: Seq<char>) -> Option<Seq<char>>
    decreases vars.len(),
{
    if vars.len() == 0 {
        None
    } else if vars[0].0 == name {
        Some(vars[0].1)
    } else {
        var(vars.drop_first(), name)
    }
}

/// The value without white space around it. One that holds nothing else counts
/// as not set.
pub open spec fn setting(vars: Vars, name: Seq<char>) -> Option<Seq<char>> {
    match var(vars, name) {
        Some(value) => if trimmed(value).len() > 0 {
            Some(trimmed(value))
        } else {
            None
        },
        None => None,
    }
}

/// The value, or the default where it is not set.
pub open spec fn setting_or(vars: Vars, name: Seq<char>, default: Seq<char>) -> Seq<char> {
    match setting(vars, name) {
        Some(value) => value,
        None => default,
    }
}

/// What is left of a comma-separated list once white space and empty pieces are
/// dropped.
pub open spec fn entries(parts: Seq<Seq<char>>) -> Seq<Seq<char>>
    decreases parts.len(),
{
    if parts.len() == 0 {
        Seq::empty()
    } else {
        let earlier = entries(parts.drop_last());
        if trimmed(parts.last()).len() > 0 {
            earlier.push(trimmed(parts.last()))
        } else {
            earlier
        }
    }
}

/// `str` by its `Debug`: the text in quotes, with what is special escaped.
pub uninterp spec fn quoted_text(text: Seq<char>) -> Seq<char>;

/// Formats a `str` by its `Debug` impl.
#[verifier::external_body]
fn quoted(text: &str) -> (r: String)
    ensures
        r@ == quoted_text(text@),
{
    format!("{:?}", text)
}

/// A number that is set must be one, and no greater than `max`.
pub open spec fn number_setting(
    vars: Vars,
    name: Seq<char>,
    max: u32,
    default: u32,
    complaint: Seq<char>,
) -> std::result::Result<u32, ErrorView> {
    match setting(vars, name) {
        Some(text) => match written_number(text, max as nat) {
            Some(n) => Ok(n as u32),
            None => Err(ErrorView::Config(complaint + quoted_text(text))),
        },
        None => Ok(default),
    }
}

/// A variable that must be set.
pub open spec fn needed(vars: Vars, name: Seq<char>) -> std::result::Result<Seq<char>, ErrorView> {
    match setting(vars, name) {
        Some(value) => Ok(value),
        None => Err(ErrorView::Config(name + " is not set"@)),
    }
}

/// The voice: none without the provider's key; with it, the voice must be named.
pub open spec fn voice_setting(vars: Vars) -> std::result::Result<
    Option<VoiceConfigView>,
    ErrorView,
> {
    match setting(vars, "FISH_AUDIO_API_KEY"@) {
        Some(fish_audio_api_key) => match needed(vars, "JARVIS_VOICE_ID"@) {
            Ok(voice_id) => Ok(
                Some(
                    VoiceConfigView {
                        fish_audio_api_key,
                        voice_id,
                        model: setting(vars, "FISH_AUDIO_MODEL"@),
                    },
                ),
            ),
            Err(e) => Err(e),
        },
        None => Ok(None),
    }
}

/// The services' tokens.
pub open spec fn ops_setting(vars: Vars) -> OpsConfigView {
    OpsConfigView {
        uptimerobot_api_key: setting(vars, "UPTIMEROBOT_API_KEY"@),
        tailscale_api_key: setting(vars, "TAILSCALE_API_KEY"@),
        tailscale_tailnet: setting_or(vars, "TAILSCALE_TAILNET"@, "-"@),
        cloudflare_api_token: setting(vars, "CLOUDFLARE_API_TOKEN"@),
        digitalocean_token: setting(vars, "DIGITALOCEAN_TOKEN"@),
        github_token: setting(vars, "GITHUB_TOKEN"@),
        github_org: setting_or(vars, "GITHUB_ORG"@, "Opus-Systems-OS"@),
        docker_socket: setting(vars, "DOCKER_SOCKET"@),
    }
}

/// The config that an environment gives, or the first complaint about it.
pub open spec fn configured(vars: Vars) -> std::result::Result<ConfigView, ErrorView> {
    match number_setting(vars, "PORT"@, 65535, 8100, "PORT must be a port number, got "@) {
        Err(e) => Err(e),
        Ok(port) => match needed(vars, "CONTROL_PLANE_URL"@) {
            Err(e) => Err(e),
            Ok(url) => match needed(vars, "CONTROL_PLANE_TOKEN"@) {
                Err(e) => Err(e),
                Ok(control_plane_token) => match number_setting(
                    vars,
                    "RATE_LIMIT_PER_MINUTE"@,
                    u32::MAX,
                    300,
                    "RATE_LIMIT_PER_MINUTE must be a number, got "@,
                ) {
                    Err(e) => Err(e),
                    Ok(rate_limit_per_minute) => match voice_setting(vars) {
                        Err(e) => Err(e),
                        Ok(voice) => Ok(
                            ConfigView {
                                port: port as u16,
                                database_path: setting_or(
                                    vars,
                                    "DATABASE_PATH"@,
                                    "opus-api.db"@,
                                ),
                                control_plane_url: without_trailing(url, '/'),
                                control_plane_token,
                                rate_limit_per_minute,
                                allowed_origins: match setting(vars, "ALLOWED_ORIGINS"@) {
                                    Some(list) => entries(pieces(list, ',')),
                                    None => Seq::empty(),
                                },
                                voice,
                                ops: ops_setting(vars),
                            },
                        ),
                    },
                },
            },
        },
    }
}

fn find(vars: &Vec<(String, String)>, name: &str) -> (r: Option<String>)
    ensures
        r.deep_view() == var(vars.deep_view(), name@),
{
    let n: usize = vars.len();
    let ghost all = vars.deep_view();
    assert(all.skip(0) =~= all);
    for i in 0..n
        invariant
            n == vars@.len(),
            all == vars.deep_view(),
            var(all, name@) == var(all.skip(i as int), name@),
    {
        assert(all.skip(i as int)[0] == (vars@[i as int].0@, vars@[i as int].1@));
        if same(vars[i].0.as_str(), name) {
            return Some(vars[i].1.clone());
        }
        assert(all.skip(i as int).drop_first() =~= all.skip(i + 1));
    }
    None
}

fn optional(vars: &Vec<(String, String)>, name: &str) -> (r: Option<String>)
    ensures
        r.deep_view() == setting(vars.deep_view(), name@),
{
    match find(vars, name) {
        Some(value) => {
            let value = trim(value.as_str());
            if value.is_empty() {
                None
            } else {
                Some(value.to_owned())
            }
        },
        None => None,
    }
}

fn optional_or(vars: &Vec<(String, String)>, name: &str, default: &str) -> (r: String)
    ensures
        r@ == setting_or(vars.deep_view(), name@, default@),
{
    match optional(vars, name) {
        Some(value) => value,
        None => default.to_owned(),
    }
}

fn required(vars: &Vec<(String, String)>, name: &str) -> (r: Result<String>)
    ensures
        outcome(r) == needed(vars.deep_view(), name@),
{
    match optional(vars, name) {
        Some(value) => Ok(value),
        None => Err(Error::Config(cat2(name, " is not set"))),
    }
}

fn optional_number(
    vars: &Vec<(String, String)>,
    name: &str,
    max: u32,
    default: u32,
    complaint: &str,
) -> (r: Result<u32>)
    ensures
        outcome(r) == number_setting(vars.deep_view(), name@, max, default, complaint@),
{
    match optional(vars, name) {
        Some(text) => match parse_number(text.as_str(), max) {
            Some(n) => Ok(n),
            None => Err(Error::Config(cat2(complaint, quoted(text.as_str()).as_str()))),
        },
        None => Ok(default),
    }
}

fn list_of(text: &str) -> (r: Vec<String>)
    ensures
        r.deep_view() == entries(pieces(text@, ',')),
{
    let parts = split(text, ',');
    let mut out: Vec<String> = Vec::new();
    let n: usize = parts.len();
    assert(out.deep_view() =~= entries(parts.deep_view().take(0)));
    for i in 0..n
        invariant
            n == parts@.len(),
            parts.deep_view() == pieces(text@, ','),
            out.deep_view() == entries(parts.deep_view().take(i as int)),
    {
        let ghost seen = parts.deep_view().take(i + 1);
        let ghost earlier = out.deep_view();
        proof {
            assert(seen.drop_last() =~= parts.deep_view().take(i as int));
            assert(seen.last() == parts@[i as int]@);
        }
        let part = trim(parts[i].as_str());
        if !part.is_empty() {
            out.push(part.to_owned());
            assert(out.deep_view() =~= earlier.push(part@));
        }
    }
    assert(parts.deep_view().take(n as int) =~= parts.deep_view());
    out
}

impl Config {
    /// The config that an environment gives.
    pub fn from_env(vars: &Vec<(String, String)>) -> (r: Result<Config>)
        ensures
            outcome(r) == configured(vars.deep_view()),
    {
        let port: u32 = match optional_number(
            vars,
            "PORT",
            65535,
            8100,
            "PORT must be a port number, got ",
        ) {
            Ok(port) => port,
            Err(e) => {
                return Err(e);
            },
        };
        proof {
            port_fits(vars.deep_view());
        }
        let url = match required(vars, "CONTROL_PLANE_URL") {
            Ok(url) => url,
            Err(e) => {
                return Err(e);
            },
        };
        let control_plane_token = match required(vars, "CONTROL_PLANE_TOKEN") {
            Ok(token) => token,
            Err(e) => {
                return Err(e);
            },
        };
        let rate_limit_per_minute: u32 = match optional_number(
            vars,
            "RATE_LIMIT_PER_MINUTE",
            u32::MAX,
            300,
            "RATE_LIMIT_PER_MINUTE must be a number, got ",
        ) {
            Ok(rate) => rate,
            Err(e) => {
                return Err(e);
            },
        };
        let voice = match VoiceConfig::from_env(vars) {
            Ok(voice) => voice,
            Err(e) => {
                return Err(e);
            },
        };
        let none: Vec<String> = Vec::new();
        assert(none.deep_view() =~= Seq::<Seq<char>>::empty());
        let allowed_origins = match optional(vars, "ALLOWED_ORIGINS") {
            Some(list) => list_of(list.as_str()),
            None => none,
        };
        Ok(
            Config {
                port: port as u16,
                database_path: optional_or(vars, "DATABASE_PATH", "opus-api.db"),
                control_plane_url: trim_end_of(url.as_str(), '/').to_owned(),
                control_plane_token,
                rate_limit_per_minute,
                allowed_origins,
                voice,
                ops: OpsConfig::from_env(vars),
            },
        )
    }
}

proof fn port_fits(vars: Vars)
    ensures
        number_setting(vars, "PORT"@, 65535, 8100, "PORT must be a port number, got "@) matches Ok(
            port,
        ) ==> port <= 65535,
{
}

impl VoiceConfig {
    /// The voice that an environment gives, if it gives one.
    pub fn from_env(vars: &Vec<(String, String)>) -> (r: Result<Option<VoiceConfig>>)
        ensures
            outcome(r) == voice_setting(vars.deep_view()),
    {
        match optional(vars, "FISH_AUDIO_API_KEY") {
            Some(fish_audio_api_key) => match required(vars, "JARVIS_VOICE_ID") {
                Ok(voice_id) => Ok(
                    Some(
                        VoiceConfig {
                            fish_audio_api_key,
                            voice_id,
                            model: optional(vars, "FISH_AUDIO_MODEL"),
                        },
                    ),
                ),
                Err(e) => Err(e),
            },
            None => Ok(None),
        }
    }
}

impl OpsConfig {
    /// The services' tokens that an environment gives.
    pub fn from_env(vars: &Vec<(String, String)>) -> (r: OpsConfig)
        ensures
            r@ == ops_setting(vars.deep_view()),
    {
        OpsConfig {
            uptimerobot_api_key: optional(vars, "UPTIMEROBOT_API_KEY"),
            tailscale_api_key: optional(vars, "TAILSCALE_API_KEY"),
            tailscale_tailnet: optional_or(vars, "TAILSCALE_TAILNET", "-"),
            cloudflare_api_token: optional(vars, "CLOUDFLARE_API_TOKEN"),
            digitalocean_token: optional(vars, "DIGITALOCEAN_TOKEN"),
            github_token: optional(vars, "GITHUB_TOKEN"),
            github_org: optional_or(vars, "GITHUB_ORG", "Opus-Systems-OS"),
            docker_socket: optional(vars, "DOCKER_SOCKET"),
        }
    }
}

// ---- laws ---------------------------------------------------------------------------

/// A variable has the value that it is given, without white space around it; one
/// that is not given, or given as white space, is not set.
pub proof fn a_variable_has_its_value(vars: Vars, name: Seq<char>, i: int)
    requires
        forall|k: int| 0 <= k < vars.len() && k != i ==> (#[trigger] vars[k]).0 != name,
    ensures
        0 <= i < vars.len() && vars[i].0 == name && trimmed(vars[i].1).len() > 0 ==> setting(
            vars,
            name,
        ) == Some(trimmed(vars[i].1)),
        0 <= i < vars.len() && vars[i].0 == name && trimmed(vars[i].1).len() == 0 ==> setting(
            vars,
            name,
        ) is None,
        !(0 <= i < vars.len() && vars[i].0 == name) ==> setting(vars, name) is None,
    decreases vars.len(),
{
    if vars.len() > 0 {
        let rest = vars.drop_first();
        assert forall|k: int| 0 <= k < rest.len() && k != i - 1 implies (#[trigger] rest[k]).0
            != name by {
            assert(rest[k] == vars[k + 1]);
        }
        a_variable_has_its_value(rest, name, i - 1);
        if 0 < i < vars.len() {
            assert(rest[i - 1] == vars[i]);
            assert(vars[0].0 != name);
        } else if !(0 <= i < vars.len() && vars[i].0 == name) {
            assert(i == 0 || vars[0].0 != name);
        }
    }
}

/// Each part of the config comes from its own variable, and has its default where
/// that is not set: port 8100, the database `opus-api.db`, 300 requests a minute, no
/// origins. The control plane's address loses its trailing `/`.
pub proof fn each_part_comes_from_its_variable(vars: Vars, cfg: ConfigView)
    requires
        configured(vars) == Ok::<ConfigView, ErrorView>(cfg),
    ensures
        setting(vars, "PORT"@) matches Some(text) ==> written_number(text, 65535) == Some(
            cfg.port as nat,
        ),
        setting(vars, "PORT"@) is None ==> cfg.port == 8100,
        setting(vars, "DATABASE_PATH"@) matches Some(path) ==> cfg.database_path == path,
        setting(vars, "DATABASE_PATH"@) is None ==> cfg.database_path == "opus-api.db"@,
        setting(vars, "CONTROL_PLANE_URL"@) matches Some(url) && cfg.control_plane_url
            == without_trailing(url, '/'),
        setting(vars, "CONTROL_PLANE_TOKEN"@) == Some(cfg.control_plane_token),
        setting(vars, "RATE_LIMIT_PER_MINUTE"@) matches Some(text) ==> written_number(
            text,
            0xffff_ffff,
        ) == Some(cfg.rate_limit_per_minute as nat),
        setting(vars, "RATE_LIMIT_PER_MINUTE"@) is None ==> cfg.rate_limit_per_minute == 300,
        setting(vars, "ALLOWED_ORIGINS"@) is None ==> cfg.allowed_origins.len() == 0,
        forall|origin: Seq<char>| #[trigger]
            cfg.allowed_origins.contains(origin) ==> (setting(vars, "ALLOWED_ORIGINS"@) matches Some(
                list,
            ) && origin.len() > 0 && exists|k: int|
                0 <= k < pieces(list, ',').len() && origin == trimmed(
                    #[trigger] pieces(list, ',')[k],
                )),
        setting(vars, "ALLOWED_ORIGINS"@) matches Some(list) ==> forall|k: int|
            0 <= k < pieces(list, ',').len() && trimmed(#[trigger] pieces(list, ',')[k]).len() > 0
                ==> cfg.allowed_origins.contains(trimmed(pieces(list, ',')[k])),
{
    port_fits(vars);
    if let Some(list) = setting(vars, "ALLOWED_ORIGINS"@) {
        let parts = pieces(list, ',');
        assert forall|origin: Seq<char>| #[trigger]
            cfg.allowed_origins.contains(origin) implies origin.len() > 0 && exists|k: int|
            0 <= k < parts.len() && origin == trimmed(#[trigger] parts[k]) by {
            an_entry_is_a_part(parts, origin);
        }
        assert forall|k: int|
            0 <= k < parts.len() && trimmed(#[trigger] parts[k]).len() > 0 implies entries(
            parts,
        ).contains(trimmed(parts[k])) by {
            an_entry_is_a_part(parts, trimmed(parts[k]));
        }
    }
}

proof fn an_entry_is_a_part(parts: Seq<Seq<char>>, entry: Seq<char>)
    ensures
        entries(parts).contains(entry) <==> entry.len() > 0 && exists|k: int|
            0 <= k < parts.len() && entry == trimmed(#[trigger] parts[k]),
    decreases parts.len(),
{
    if parts.len() > 0 {
        let earlier = parts.drop_last();
        an_entry_is_a_part(earlier, entry);
        let all = entries(parts);
        let before = entries(earlier);
        if all.contains(entry) {
            let k = choose|k: int| 0 <= k < all.len() && all[k] == entry;
            if k < before.len() {
                assert(before[k] == entry);
                assert(before.contains(entry));
                let j = choose|j: int|
                    0 <= j < earlier.len() && entry == trimmed(#[trigger] earlier[j]);
                assert(parts[j] == earlier[j]);
            } else {
                assert(entry == trimmed(parts[parts.len() - 1]));
            }
        }
        if entry.len() > 0 && exists|k: int|
            0 <= k < parts.len() && entry == trimmed(#[trigger] parts[k]) {
            let k = choose|k: int| 0 <= k < parts.len() && entry == trimmed(#[trigger] parts[k]);
            if k < earlier.len() {
                assert(earlier[k] == parts[k]);
                let j = before.index_of(entry);
                assert(all[j] == entry);
            } else {
                assert(all[all.len() - 1] == entry);
            }
        }
    }
}

/// A config needs the control plane's address and its token, numbers where there
/// are to be numbers, and a voice for a provider's key; with these it is complete.
pub proof fn a_config_needs_just_this(vars: Vars)
    ensures
        configured(vars) is Ok <==> {
            &&& setting(vars, "CONTROL_PLANE_URL"@) is Some
            &&& setting(vars, "CONTROL_PLANE_TOKEN"@) is Some
            &&& setting(vars, "PORT"@) matches Some(text) ==> written_number(text, 65535) is Some
            &&& setting(vars, "RATE_LIMIT_PER_MINUTE"@) matches Some(text) ==> written_number(
                text,
                0xffff_ffff,
            ) is Some
            &&& setting(vars, "FISH_AUDIO_API_KEY"@) is Some ==> setting(
                vars,
                "JARVIS_VOICE_ID"@,
            ) is Some
        },
{
}

/// The voice speaks with the provider's key, under the id that is set, by the model
/// that is set; there is none without the key.
pub proof fn the_voice_is_what_is_set(vars: Vars, cfg: ConfigView)
    requires
        configured(vars) == Ok::<ConfigView, ErrorView>(cfg),
    ensures
        cfg.voice is Some <==> setting(vars, "FISH_AUDIO_API_KEY"@) is Some,
        cfg.voice matches Some(voice) ==> {
            &&& setting(vars, "FISH_AUDIO_API_KEY"@) == Some(voice.fish_audio_api_key)
            &&& setting(vars, "JARVIS_VOICE_ID"@) == Some(voice.voice_id)
            &&& setting(vars, "FISH_AUDIO_MODEL"@) == voice.model
        },
{
}

/// Each service has the token that is set for it, and no other.
pub proof fn each_service_has_its_own_token(vars: Vars, cfg: ConfigView)
    requires
        configured(vars) == Ok::<ConfigView, ErrorView>(cfg),
    ensures
        cfg.ops.uptimerobot_api_key == setting(vars, "UPTIMEROBOT_API_KEY"@),
        cfg.ops.tailscale_api_key == setting(vars, "TAILSCALE_API_KEY"@),
        cfg.ops.cloudflare_api_token == setting(vars, "CLOUDFLARE_API_TOKEN"@),
        cfg.ops.digitalocean_token == setting(vars, "DIGITALOCEAN_TOKEN"@),
        cfg.ops.github_token == setting(vars, "GITHUB_TOKEN"@),
        cfg.ops.docker_socket == setting(vars, "DOCKER_SOCKET"@),
        setting(vars, "TAILSCALE_TAILNET"@) matches Some(net) ==> cfg.ops.tailscale_tailnet == net,
        setting(vars, "TAILSCALE_TAILNET"@) is None ==> cfg.ops.tailscale_tailnet == "-"@,
        setting(vars, "GITHUB_ORG"@) matches Some(org) ==> cfg.ops.github_org == org,
        setting(vars, "GITHUB_ORG"@) is None ==> cfg.ops.github_org == "Opus-Systems-OS"@,
{
}

/// What is wrong with an environment is told by the variable: that it is not set, or
/// that it is no number, with what it is. The port comes first, then the control
/// plane, the rate and the voice.
pub proof fn a_complaint_names_its_variable(vars: Vars, text: Seq<char>)
    ensures
        ({
            let port = setting(vars, "PORT"@) matches Some(n) ==> written_number(n, 65535) is Some;
            let url = setting(vars, "CONTROL_PLANE_URL"@) is Some;
            let token = setting(vars, "CONTROL_PLANE_TOKEN"@) is Some;
            let rate = setting(vars, "RATE_LIMIT_PER_MINUTE"@) matches Some(n) ==> written_number(
                n,
                0xffff_ffff,
            ) is Some;
            let told = configured(vars);
            &&& !port && setting(vars, "PORT"@) == Some(text) ==> told == Err::<
                ConfigView,
                ErrorView,
            >(ErrorView::Config("PORT must be a port number, got "@ + quoted_text(text)))
            &&& port && !url ==> told == Err::<ConfigView, ErrorView>(
                ErrorView::Config("CONTROL_PLANE_URL is not set"@),
            )
            &&& port && url && !token ==> told == Err::<ConfigView, ErrorView>(
                ErrorView::Config("CONTROL_PLANE_TOKEN is not set"@),
            )
            &&& port && url && token && !rate && setting(vars, "RATE_LIMIT_PER_MINUTE"@) == Some(
                text,
            ) ==> told == Err::<ConfigView, ErrorView>(
                ErrorView::Config(
                    "RATE_LIMIT_PER_MINUTE must be a number, got "@ + quoted_text(text),
                ),
            )
            &&& port && url && token && rate && told is Err ==> told == Err::<
                ConfigView,
                ErrorView,
            >(ErrorView::Config("JARVIS_VOICE_ID is not set"@))
        }),
{
    reveal_strlit("CONTROL_PLANE_URL");
    reveal_strlit("CONTROL_PLANE_TOKEN");
    reveal_strlit("JARVIS_VOICE_ID");
    reveal_strlit(" is not set");
    reveal_strlit("CONTROL_PLANE_URL is not set");
    reveal_strlit("CONTROL_PLANE_TOKEN is not set");
    reveal_strlit("JARVIS_VOICE_ID is not set");
    assert("CONTROL_PLANE_URL"@ + " is not set"@ =~= "CONTROL_PLANE_URL is not set"@);
    assert("CONTROL_PLANE_TOKEN"@ + " is not set"@ =~= "CONTROL_PLANE_TOKEN is not set"@);
    assert("JARVIS_VOICE_ID"@ + " is not set"@ =~= "JARVIS_VOICE_ID is not set"@);
}

/// The first value of a variable counts, where it is given twice.
pub proof fn the_first_value_counts(vars: Vars, name: Seq<char>, value: Seq<char>)
    requires
        vars.len() > 0,
        vars[0] == (name, value),
    ensures
        trimmed(value).len() > 0 ==> setting(vars, name) == Some(trimmed(value)),
        trimmed(value).len() == 0 ==> setting(vars, name) is None,
{
}

/// The entries of a list stand in its order, each without white space around it; one
/// that is nothing else is left out.
pub proof fn entries_stand_in_order(parts: Seq<Seq<char>>, part: Seq<char>)
    ensures
        entries(Seq::empty()).len() == 0,
        trimmed(part).len() > 0 ==> entries(parts.push(part)) == entries(parts).push(trimmed(part)),
        trimmed(part).len() == 0 ==> entries(parts.push(part)) == entries(parts),
{
    assert(parts.push(part).drop_last() =~= parts);
}

} // verus!
