//! The services behind the hub: what is asked of each, how its answers read, and
//! what the rows say.

use opus_api::auth::keys::Scope;
use opus_api::auth::middleware::AuthState;
use opus_api::auth::rate_limit::RateLimiter;
use opus_api::config::OpsConfig;
use opus_api::db::Db;
use opus_api::error::{Error, Transport};
use opus_api::json::Json;
use opus_api::upstream::ops::digitalocean::{self, Figures, Readings};
use opus_api::upstream::ops::{
    checked_at, docker, plural, read_answer, read_json, reason, tailscale, BaseUrls, Lookup, Ops,
    Report, State, Status, Step, TTL,
};
use opus_api::v1::keys::create_key;
use opus_api::v1::ops::hub;
use opus_api::v1::{enter, is_served, Area};
use serde_json::Value;

const OPS_TOKEN: &str = "ops-read-token";
const NOW: i128 = 1_789_000_000_000_000_000;

fn config() -> OpsConfig {
    OpsConfig {
        uptimerobot_api_key: Some(OPS_TOKEN.to_owned()),
        tailscale_api_key: Some(OPS_TOKEN.to_owned()),
        tailscale_tailnet: "-".to_owned(),
        cloudflare_api_token: Some(OPS_TOKEN.to_owned()),
        digitalocean_token: Some(OPS_TOKEN.to_owned()),
        github_token: Some(OPS_TOKEN.to_owned()),
        github_org: "Opus-Systems-OS".to_owned(),
        docker_socket: Some("/var/run/docker.sock".to_owned()),
    }
}

fn unconfigured() -> OpsConfig {
    OpsConfig {
        uptimerobot_api_key: None,
        tailscale_api_key: None,
        tailscale_tailnet: "-".to_owned(),
        cloudflare_api_token: None,
        digitalocean_token: None,
        github_token: None,
        github_org: "Opus-Systems-OS".to_owned(),
        docker_socket: None,
    }
}

fn ops() -> Ops {
    let base = "http://stub".to_owned();
    Ops::with_base_urls(
        config(),
        BaseUrls {
            uptimerobot: base.clone(),
            tailscale: base.clone(),
            cloudflare: base.clone(),
            digitalocean: base.clone(),
            github: base,
        },
    )
}

/// What the stub services answer.
fn stub(url: &str, rejects: bool) -> (u16, String) {
    let path = url.strip_prefix("http://stub").unwrap_or(url);
    let ok = |text: &str| (200, text.to_owned());
    if path.starts_with("/orgs/Opus-Systems-OS/repos") {
        if rejects {
            return (401, r#"{"message":"Bad credentials"}"#.to_owned());
        }
        ok(r#"[
            {"name":"Iron-Fleet","full_name":"Opus-Systems-OS/Iron-Fleet","private":true,"pushed_at":"2026-09-19T20:00:00Z","default_branch":"main"},
            {"name":"Opus-Systems-OS-API","full_name":"Opus-Systems-OS/Opus-Systems-OS-API","private":true,"pushed_at":"2026-09-19T19:00:00Z","default_branch":"main"}
        ]"#)
    } else if path.starts_with("/repos/Opus-Systems-OS/Iron-Fleet/pulls") {
        ok(r#"[{"number":36,"title":"control-plane: client label on sessions","user":{"login":"jameswalker"},"draft":false,"updated_at":"2026-09-19T20:00:00Z","html_url":"https://github.com/Opus-Systems-OS/Iron-Fleet/pull/36"}]"#)
    } else if path.starts_with("/repos/") && path.contains("/pulls") {
        ok("[]")
    } else if path.starts_with("/repos/") && path.contains("/actions/runs") {
        let conclusion = if path.contains("Iron-Fleet") { "failure" } else { "success" };
        ok(&format!(
            r#"{{"workflow_runs":[{{"name":"images","status":"completed","conclusion":"{conclusion}","head_branch":"main","updated_at":"2026-09-19T20:05:00Z","html_url":"https://github.com/x/y/actions/runs/1"}}]}}"#
        ))
    } else if path.starts_with("/notifications") {
        ok(r#"[{"subject":{"title":"control-plane: client label on sessions","type":"PullRequest"},"repository":{"full_name":"Opus-Systems-OS/Iron-Fleet"},"reason":"review_requested","updated_at":"2026-09-19T20:00:00Z"}]"#)
    } else if path.starts_with("/api/v2/tailnet/-/devices") {
        let seen = checked_at(NOW - 5_000_000_000);
        ok(&format!(
            r#"{{"devices":[
                {{"name":"opus.tail1234.ts.net","hostname":"opus","os":"windows","addresses":["100.79.233.8"],"lastSeen":"2026-09-01T00:00:00Z","updateAvailable":false}},
                {{"name":"opustower.tail1234.ts.net","hostname":"opustower","os":"linux","addresses":["100.108.133.31"],"lastSeen":"{seen}","updateAvailable":true}}
            ]}}"#
        ))
    } else if path.starts_with("/client/v4/zones/z1/dns_records") {
        ok(r#"{"result":[
            {"type":"A","name":"api.opustower.dev","content":"198.199.66.109","proxied":true,"ttl":1},
            {"type":"A","name":"fleet.opustower.dev","content":"198.199.66.109","proxied":true,"ttl":1},
            {"type":"AAAA","name":"mcp.opustower.dev","content":"2604:a880:400:d1:0:4:f807:7001","proxied":false,"ttl":300}
        ],"success":true}"#)
    } else if path.starts_with("/client/v4/zones") {
        ok(r#"{"result":[{"id":"z1","name":"opustower.dev","status":"active","paused":false}],"success":true}"#)
    } else if path.starts_with("/v2/monitoring/metrics/droplet/") {
        let v = if path.contains("load_1") {
            "0.12"
        } else if path.contains("memory_total") {
            "1024000000"
        } else if path.contains("memory_available") {
            "600000000"
        } else {
            "0"
        };
        ok(&format!(
            r#"{{"status":"success","data":{{"result":[{{"metric":{{}},"values":[[1,"0"],[2,"{v}"]]}}]}}}}"#
        ))
    } else if path.starts_with("/v2/droplets") {
        ok(r#"{"droplets":[{"id":4242,"name":"opustower","status":"active","region":{"slug":"nyc1"},"vcpus":1,"memory":1024,"disk":25,"created_at":"2026-09-14T00:00:00Z",
            "networks":{"v4":[{"ip_address":"10.0.0.2","type":"private"},{"ip_address":"198.199.66.109","type":"public"}]}}]}"#)
    } else if path.starts_with("/containers/json") {
        ok(r#"[
            {"Names":["/droplet-api-1"],"Image":"ghcr.io/opus-systems-os/opus-systems-os-api/api:latest","State":"running","Status":"Up 3 hours","Ports":[{"PrivatePort":8100,"Type":"tcp"}]},
            {"Names":["/droplet-caddy-1"],"Image":"caddy:2","State":"running","Status":"Up 3 days","Ports":[{"PrivatePort":443,"PublicPort":443,"Type":"tcp"}]},
            {"Names":["/droplet-old-1"],"Image":"x","State":"exited","Status":"Exited (0) 2 days ago","Ports":[]}
        ]"#)
    } else {
        (404, "{}".to_owned())
    }
}

fn monitors(form: &str) -> (u16, String) {
    if !form.contains(&format!("api_key={OPS_TOKEN}")) {
        return (
            200,
            r#"{"stat":"fail","error":{"type":"invalid_parameter","message":"api_key is invalid"}}"#
                .to_owned(),
        );
    }
    (
        200,
        r#"{"stat":"ok","monitors":[
            {"friendly_name":"api.opustower.dev","url":"https://api.opustower.dev/v1/health","status":2,"custom_uptime_ratio":"100.000-99.987-99.900","response_times":[{"datetime":1,"value":212}]},
            {"friendly_name":"fleet.opustower.dev","url":"https://fleet.opustower.dev/healthz","status":2,"custom_uptime_ratio":"100.000-100.000-100.000","response_times":[{"datetime":1,"value":180}]}
        ]}"#
            .to_owned(),
    )
}

fn figures(readings: &[Readings]) -> Vec<Figures> {
    readings
        .iter()
        .map(|r| {
            let number = |s: &Option<String>| s.as_ref().and_then(|s| s.parse::<f64>().ok());
            let load = number(&r.load);
            let used = match (number(&r.memory_total), number(&r.memory_available)) {
                (Some(t), Some(a)) if t > 0.0 => Some(((t - a) / t * 100.0).round()),
                _ => None,
            };
            let figure = |v: Option<f64>| {
                Json::from_value(v.map(serde_json::Value::from).unwrap_or(Value::Null))
            };
            Figures {
                load_1: figure(load),
                load_text: load.map(|l| format!("{l:.2}")),
                memory_used_pct: figure(used),
                memory_text: used.map(|m| format!("{m:.0}")),
            }
        })
        .collect()
}

/// Runs a poll to its end against the stub, noting what was asked.
fn poll(ops: &Ops, id: &str, rejects: bool, asked: &mut Vec<String>) -> Result<Report, Error> {
    let mut answers: Vec<Json> = vec![];
    for _ in 0..64 {
        match ops.poll(id, &answers, NOW)? {
            Step::Get(url) => {
                asked.push(url.clone());
                let (status, text) = stub(&url, rejects);
                answers.push(read_answer(id, status, &text)?);
            }
            Step::Try(url) => {
                asked.push(url.clone());
                let (status, text) = stub(&url, rejects);
                answers.push(read_answer(id, status, &text).unwrap_or(Json::Null));
            }
            Step::Form(url, form) => {
                assert!(url.starts_with("http://stub/v2/getMonitors"), "{url}");
                let (status, text) = monitors(&form);
                answers.push(read_answer(id, status, &text)?);
            }
            Step::Socket(path) => {
                let (status, text) = stub(&path, rejects);
                answers.push(docker::read_list(status, text.as_bytes())?);
            }
            Step::Measure(readings) => {
                return Ok(digitalocean::report(&answers[0], &figures(&readings)));
            }
            Step::Done(report) => return Ok(report),
        }
    }
    panic!("{id} never ends");
}

fn service(ops: &mut Ops, id: &str, rejects: bool, now: u64) -> Result<Status, Error> {
    match ops.status(id, now)? {
        Lookup::Cached(row) => Ok(row),
        Lookup::Poll => {
            let mut asked = vec![];
            let report = poll(ops, id, rejects, &mut asked);
            ops.record(id, report, checked_at(NOW + now as i128), now)
        }
        Lookup::Wait => panic!("{id} is polled already"),
    }
}

fn hub_of(ops: &mut Ops, rejects: bool) -> Value {
    let mut rows = vec![];
    for id in ops.configured() {
        rows.push(service(ops, id, rejects, 0).ok().unwrap());
    }
    hub(rows).to_json().to_value()
}

#[test]
fn hub_lists_every_configured_service_with_a_headline() {
    let mut ops = ops();
    let json = hub_of(&mut ops, false);
    let services = json["services"].as_array().unwrap();
    let ids: Vec<&str> = services.iter().map(|s| s["id"].as_str().unwrap()).collect();
    assert_eq!(
        ids,
        ["github", "uptimerobot", "droplet", "docker", "tailscale", "cloudflare"],
        "hub order"
    );
    for s in services {
        assert!(s.get("detail").is_none(), "no detail on the hub: {s}");
        assert!(!s["checked_at"].as_str().unwrap().is_empty());
    }
    let by_id = |id: &str| services.iter().find(|s| s["id"] == id).unwrap().clone();

    let gh = by_id("github");
    assert_eq!(gh["state"], "warn", "one repo's CI failed: {gh}");
    assert_eq!(gh["headline"], "1 open PR · CI failing: Iron-Fleet · 1 notification");

    let ur = by_id("uptimerobot");
    assert_eq!(ur["state"], "ok");
    assert_eq!(ur["headline"], "2/2 up");

    let dr = by_id("droplet");
    assert_eq!(dr["state"], "ok");
    assert_eq!(dr["headline"], "opustower nyc1 active · load 0.12 · mem 41%");

    let dk = by_id("docker");
    assert_eq!(dk["state"], "warn", "one exited container");
    assert_eq!(dk["headline"], "2/3 running");

    let ts = by_id("tailscale");
    assert_eq!(ts["state"], "warn", "the rig is off");
    assert_eq!(ts["headline"], "opustower online (1/2)");

    let cf = by_id("cloudflare");
    assert_eq!(cf["state"], "ok");
    assert_eq!(cf["headline"], "opustower.dev active · 3 records");

    // Every upstream call carries the configured bearer (UptimeRobot takes the key
    // in the form body instead: its stub rejects a wrong one).
    for id in ["github", "droplet", "tailscale", "cloudflare"] {
        assert_eq!(ops.bearer(id), OPS_TOKEN);
    }
    assert_eq!(ops.socket(), "/var/run/docker.sock");
}

#[test]
fn service_detail_is_the_document_and_is_cached() {
    let mut ops = ops();
    let gh = service(&mut ops, "github", false, 0).ok().unwrap();
    let wire = gh.to_json().to_value();
    assert_eq!(wire["name"], "GitHub");
    let repos = wire["detail"]["repos"].as_array().unwrap();
    assert_eq!(repos.len(), 2);
    assert_eq!(repos[0]["open_prs"][0]["number"], 36);
    assert_eq!(repos[0]["last_run"]["conclusion"], "failure");
    assert_eq!(repos[1]["open_prs"].as_array().unwrap().len(), 0);
    assert_eq!(wire["detail"]["notifications"][0]["reason"], "review_requested");

    let mut detail = |id: &str| {
        service(&mut ops, id, false, 0).ok().unwrap().to_json().to_value()["detail"].clone()
    };
    let dk = detail("docker");
    let containers = dk["containers"].as_array().unwrap();
    assert_eq!(containers[0]["name"], "droplet-api-1");
    assert_eq!(containers[1]["ports"][0], "443->443/tcp");
    assert_eq!(containers[2]["state"], "exited");

    assert_eq!(detail("cloudflare")["zones"][0]["records"][2]["type"], "AAAA");
    let ts = detail("tailscale");
    assert_eq!(ts["devices"][0]["online"], false);
    assert_eq!(ts["devices"][1]["online"], true);
    assert_eq!(detail("droplet")["droplets"][0]["ipv4"][0], "198.199.66.109");
    let ur = detail("uptimerobot");
    assert_eq!(ur["monitors"][0]["uptime_7d"], "99.987");
    assert_eq!(ur["monitors"][0]["response_ms"], 212);

    // Within the TTL, asking again does not poll again.
    let again = service(&mut ops, "github", true, TTL - 1).ok().unwrap();
    assert_eq!(again.checked_at, gh.checked_at, "served from cache");
    let later = service(&mut ops, "github", false, TTL).ok().unwrap();
    assert_ne!(later.checked_at, gh.checked_at);
}

#[test]
fn a_service_that_rejects_the_token_is_a_down_row_not_a_failed_hub() {
    let mut ops = ops();
    let json = hub_of(&mut ops, true);
    let services = json["services"].as_array().unwrap();
    let gh = services.iter().find(|s| s["id"] == "github").unwrap();
    assert_eq!(gh["state"], "down");
    assert_eq!(gh["headline"], "GitHub: 401 Bad credentials");
    let ok = services.iter().filter(|s| s["state"] == "ok").count();
    assert!(ok >= 2, "the others still report: {json}");
    let detail = service(&mut ops, "github", true, 0).ok().unwrap().to_json().to_value();
    assert_eq!(detail["detail"]["error"], "GitHub: 401 Bad credentials");
}

#[test]
fn unknown_service_is_404_and_scope_is_enforced() {
    let mut ops = ops();
    let e = service(&mut ops, "railway", false, 0).err().unwrap();
    assert_eq!((e.status(), e.kind()), (404, "not_found"));

    let mut auth = AuthState { db: Db::in_memory().unwrap(), limiter: RateLimiter::disabled() };
    let viewer = create_key(&mut auth.db, "viewer", &[Scope::FleetRead]).unwrap().key;
    let e = enter(&mut auth, Area::Ops, Some(&format!("Bearer {viewer}"))).unwrap_err();
    assert_eq!((e.status(), e.kind()), (403, "forbidden"));
}

#[test]
fn ops_routes_absent_when_unconfigured() {
    let mut ops = Ops::new(unconfigured());
    assert!(ops.configured().is_empty());
    assert!(!is_served(Area::Ops, false, ops.configured().len()));
    assert!(ops.status("github", 0).is_err());
    let mut some = unconfigured();
    some.docker_socket = Some("/s".to_owned());
    some.github_token = Some("t".to_owned());
    assert_eq!(Ops::new(some).configured(), ["github", "docker"]);
}

#[test]
fn github_is_asked_for_the_details_of_eight_repositories() {
    let ops = ops();
    let mut asked = vec![];
    poll(&ops, "github", false, &mut asked).ok().unwrap();
    assert_eq!(asked.len(), 1 + 2 * 2 + 1);
    assert!(asked[0].starts_with("http://stub/orgs/Opus-Systems-OS/repos"));
    assert!(asked.last().unwrap().starts_with("http://stub/notifications"));

    let repos: Vec<String> = (0..12)
        .map(|i| format!(r#"{{"name":"r{i}","full_name":"o/r{i}","private":true,"pushed_at":"x"}}"#))
        .collect();
    let mut answers = vec![Json::parse(&format!("[{}]", repos.join(","))).unwrap()];
    let mut calls = 1;
    loop {
        match ops.poll("github", &answers, NOW).ok().unwrap() {
            Step::Get(_) | Step::Try(_) => {
                calls += 1;
                answers.push(Json::Null);
            }
            Step::Done(report) => {
                assert_eq!(report.state, State::Healthy);
                let detail = report.detail.to_value();
                let repos = detail["repos"].as_array().unwrap();
                assert_eq!(repos.len(), 12);
                assert_eq!(repos.iter().filter(|r| r.get("open_prs").is_some()).count(), 8);
                break;
            }
            _ => panic!("not a step of this service"),
        }
    }
    assert_eq!(calls, 18);
}

#[test]
fn a_wrong_monitor_key_is_a_failure() {
    let mut cfg = config();
    cfg.uptimerobot_api_key = Some("wrong".to_owned());
    let mut ops = Ops::with_base_urls(
        cfg,
        BaseUrls { uptimerobot: "http://stub".to_owned(), ..BaseUrls::default() },
    );
    let row = service(&mut ops, "uptimerobot", false, 0).ok().unwrap();
    assert_eq!(row.state, State::Down);
    assert!(row.headline.contains("api_key is invalid"), "{}", row.headline);
}

#[test]
fn the_services_stand_at_their_own_addresses() {
    let urls = BaseUrls::default();
    assert_eq!(urls.github, "https://api.github.com");
    assert_eq!(urls.uptimerobot, "https://api.uptimerobot.com");
    assert_eq!(urls.tailscale, "https://api.tailscale.com");
    assert_eq!(urls.cloudflare, "https://api.cloudflare.com");
    assert_eq!(urls.digitalocean, "https://api.digitalocean.com");
}

#[test]
fn a_poll_that_fails_says_why() {
    let failure = |timed_out: bool, connecting: bool| {
        Error::UpstreamTransport(Transport { timed_out, connecting, text: "boom".to_owned() })
    };
    assert_eq!(reason(&failure(true, false)), "timed out");
    assert_eq!(reason(&failure(false, true)), "could not connect");
    let mut ops = ops();
    let row = ops
        .record("docker", Err(failure(true, true)), "t".to_owned(), 0)
        .ok()
        .unwrap();
    assert_eq!(row.state, State::Down);
    assert_eq!(row.headline, "timed out");
    assert_eq!(row.detail.unwrap().to_value()["error"], "timed out");
}

#[test]
fn an_answer_is_read_by_its_status() {
    assert!(read_json(200, r#"{"a":1}"#, "X").is_ok());
    let said = |status: u16, body: &str| read_json(status, body, "X").err().unwrap();
    assert_eq!(reason(&said(401, r#"{"message":"no"}"#)), "X: 401 no");
    assert_eq!(reason(&said(404, "")), "X: 404 Not Found");
    assert_eq!(said(200, "<html>").kind(), "upstream");
    let of = |id: &str| reason(&read_answer(id, 401, "{}").err().unwrap());
    assert_eq!(of("droplet"), "DigitalOcean: 401 Unauthorized");
    assert_eq!(of("tailscale"), "Tailscale: 401 Unauthorized");
    assert_eq!(reason(&docker::read_list(401, b"{}").err().unwrap()), "Docker: 401 {}");
    assert_eq!(docker::read_list(200, b"[]").ok().unwrap().to_text(), "[]");
    assert!(docker::read_list(500, br#"{"message":"dead"}"#).is_err());
    assert!(docker::read_list(200, b"nope").is_err());
    assert!(docker::read_list(200, b"[\"\xff\"]").is_err());
    let said = docker::read_list(500, b"gone \xff").err().unwrap();
    assert_eq!(reason(&said), "Docker: 500 gone \u{fffd}");
    let e = docker::read_list(200, br#"{"a":1}"#).err().unwrap();
    assert!(reason(&e).starts_with("Docker: bad JSON: invalid type: map"), "{}", reason(&e));
    assert_eq!(reason(&docker::socket_err("/s", "gone")), "Docker: socket /s: gone");
}

#[test]
fn a_device_is_online_for_five_minutes() {
    let device = |hostname: &str| {
        Json::parse(&format!(r#"{{"hostname":"{hostname}","name":"{hostname}.ts.net"}}"#)).unwrap()
    };
    let devices = [device("a"), device("b"), device("c")];
    let report = tailscale::report(&devices, &vec![Some(299), Some(301), None]);
    let detail = report.detail.to_value();
    assert_eq!(detail["devices"][0]["online"], true);
    assert_eq!(detail["devices"][1]["online"], false);
    assert_eq!(detail["devices"][2]["online"], false);
}

#[test]
fn a_device_is_online_when_the_service_says_so_or_it_was_seen_lately() {
    let now = NOW;
    let seen = checked_at(now - 10_000_000_000);
    let device = |online: &str, seen: &str| {
        let text = format!(
            r#"{{"devices":[{{"hostname":"opus","online":{online},"lastSeen":"{seen}"}}]}}"#
        );
        match tailscale::check("b", "-", &vec![Json::parse(&text).unwrap()], now) {
            Step::Done(report) => report,
            _ => panic!("the devices are all there is to ask for"),
        }
    };
    let lately = device("false", &seen);
    assert_eq!(lately.state, State::Healthy);
    assert_eq!(lately.headline, "opus online (1/1)");
    assert_eq!(lately.detail.to_value()["devices"][0]["online"], true);
    assert_eq!(device("true", "2020-01-01T00:00:00Z").state, State::Healthy);
    let gone = device("false", "2020-01-01T00:00:00Z");
    assert_eq!(gone.state, State::Down);
    assert_eq!(gone.headline, "0/1 online");
}

#[test]
fn a_service_is_polled_once_however_many_ask() {
    let mut ops = ops();
    assert!(matches!(ops.status("github", 0), Ok(Lookup::Poll)));
    assert!(matches!(ops.status("github", 0), Ok(Lookup::Wait)));
    assert!(matches!(ops.status("github", TTL - 1), Ok(Lookup::Wait)));
    // Other services are polled on their own.
    assert!(matches!(ops.status("docker", 5), Ok(Lookup::Poll)));
    let failed = Error::UpstreamTransport(Transport {
        timed_out: true,
        connecting: false,
        text: "boom".to_owned(),
    });
    let row = ops.record("github", Err(failed), "t0".to_owned(), 10).ok().unwrap();
    assert_eq!(row.state, State::Down);
    for now in [10, 11, 10 + TTL - 1] {
        match ops.status("github", now) {
            Ok(Lookup::Cached(again)) => {
                assert_eq!(again.checked_at, "t0");
                assert_eq!(again.state, State::Down);
            }
            _ => panic!("the row is fresh"),
        }
    }
    assert!(matches!(ops.status("github", 10 + TTL), Ok(Lookup::Poll)));
    assert!(matches!(ops.status("github", 10 + TTL), Ok(Lookup::Wait)));
    // A poll that never ends is given up in time.
    assert!(matches!(ops.status("docker", 5 + TTL), Ok(Lookup::Poll)));
}

#[test]
fn counts_are_worded() {
    assert_eq!(plural(0, "record", "records"), "0 records");
    assert_eq!(plural(1, "record", "records"), "1 record");
    assert_eq!(plural(21, "record", "records"), "21 records");
}

#[test]
fn the_hub_shows_no_detail() {
    let row = Status {
        id: "docker".to_owned(),
        name: "Docker".to_owned(),
        state: State::Unknown,
        headline: "h".to_owned(),
        checked_at: "t".to_owned(),
        detail: Some(Json::Null),
    };
    assert!(row.to_json().to_value().get("detail").is_some());
    assert!(row.copy().detail.is_some());
    assert!(row.without_detail().to_json().to_value().get("detail").is_none());
}
