//! What the environment says.

use opus_api::config::{Config, OpsConfig, VoiceConfig};

fn vars(pairs: &[(&str, &str)]) -> Vec<(String, String)> {
    pairs.iter().map(|(k, v)| (k.to_string(), v.to_string())).collect()
}

const NEEDED: [(&str, &str); 2] =
    [("CONTROL_PLANE_URL", "http://cp:8080"), ("CONTROL_PLANE_TOKEN", "cp-secret")];

fn with(more: &[(&str, &str)]) -> Vec<(String, String)> {
    let mut all = vars(&NEEDED);
    all.extend(vars(more));
    all
}

#[test]
fn defaults_fill_what_is_not_set() {
    let cfg = Config::from_env(&with(&[])).ok().unwrap();
    assert_eq!(cfg.port, 8100);
    assert_eq!(cfg.database_path, "opus-api.db");
    assert_eq!(cfg.control_plane_url, "http://cp:8080");
    assert_eq!(cfg.control_plane_token, "cp-secret");
    assert_eq!(cfg.rate_limit_per_minute, 300);
    assert!(cfg.allowed_origins.is_empty());
    assert!(cfg.voice.is_none());
    assert!(cfg.ops.github_token.is_none());
}

#[test]
fn what_is_set_is_taken() {
    let cfg = Config::from_env(&with(&[
        ("PORT", "9000"),
        ("DATABASE_PATH", "/data/x.db"),
        ("RATE_LIMIT_PER_MINUTE", "5"),
        ("ALLOWED_ORIGINS", "https://a.example, https://b.example"),
    ]))
    .ok()
    .unwrap();
    assert_eq!(cfg.port, 9000);
    assert_eq!(cfg.database_path, "/data/x.db");
    assert_eq!(cfg.rate_limit_per_minute, 5);
    assert_eq!(cfg.allowed_origins, ["https://a.example", "https://b.example"]);
}

#[test]
fn what_is_needed_must_be_there() {
    for (i, (name, _)) in NEEDED.iter().enumerate() {
        let mut some = vars(&NEEDED);
        some.remove(i);
        let e = Config::from_env(&some).err().unwrap();
        assert_eq!(e.text(), format!("config: {name} is not set"));
        let mut blank = some;
        blank.push((name.to_string(), "  ".to_owned()));
        assert!(Config::from_env(&blank).is_err(), "white space is as good as nothing");
    }
}

#[test]
fn numbers_must_read() {
    let said = |name: &str, value: &str| Config::from_env(&with(&[(name, value)])).err().unwrap();
    assert_eq!(said("PORT", "http").text(), "config: PORT must be a port number, got \"http\"");
    assert_eq!(said("PORT", "65536").text(), "config: PORT must be a port number, got \"65536\"");
    assert_eq!(
        said("RATE_LIMIT_PER_MINUTE", "-\"1").text(),
        "config: RATE_LIMIT_PER_MINUTE must be a number, got \"-\\\"1\""
    );
    let cfg = Config::from_env(&with(&[("PORT", " +80 "), ("RATE_LIMIT_PER_MINUTE", "0")]));
    let cfg = cfg.ok().unwrap();
    assert_eq!((cfg.port, cfg.rate_limit_per_minute), (80, 0));
}

#[test]
fn the_address_loses_its_trailing_slashes() {
    let cfg = Config::from_env(&vars(&[
        ("CONTROL_PLANE_URL", "http://cp:8080//"),
        ("CONTROL_PLANE_TOKEN", "t"),
        ("CONTROL_PLANE_TOKEN", "second"),
    ]))
    .ok()
    .unwrap();
    assert_eq!(cfg.control_plane_url, "http://cp:8080");
    assert_eq!(cfg.control_plane_token, "t");
}

#[test]
fn the_voice_needs_a_key_and_a_voice() {
    assert!(VoiceConfig::from_env(&vars(&[])).ok().unwrap().is_none());
    let voice = VoiceConfig::from_env(&vars(&[
        ("FISH_AUDIO_API_KEY", "sk-fish"),
        ("JARVIS_VOICE_ID", "v1"),
    ]))
    .ok()
    .unwrap()
    .unwrap();
    assert_eq!((voice.fish_audio_api_key.as_str(), voice.voice_id.as_str()), ("sk-fish", "v1"));
    assert!(VoiceConfig::from_env(&vars(&[("FISH_AUDIO_API_KEY", "sk-fish")])).is_err());
}

#[test]
fn a_service_is_watched_where_its_token_is_set() {
    let ops = OpsConfig::from_env(&vars(&[
        ("GITHUB_TOKEN", " t "),
        ("DIGITALOCEAN_TOKEN", ""),
        ("DOCKER_SOCKET", "/var/run/docker.sock"),
        ("TAILSCALE_TAILNET", "example.com"),
    ]));
    assert_eq!(ops.github_token.as_deref(), Some("t"));
    assert_eq!(ops.github_org, "Opus-Systems-OS");
    assert!(ops.digitalocean_token.is_none(), "an empty value is as good as none");
    assert!(ops.cloudflare_api_token.is_none());
    assert!(ops.uptimerobot_api_key.is_none());
    assert_eq!(ops.docker_socket.as_deref(), Some("/var/run/docker.sock"));
    assert_eq!(ops.tailscale_tailnet, "example.com");
}
