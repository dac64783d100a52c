use reel::plex::auth::{
    filter_servers, is_preferred, pick_best, pin_auth_url, pin_token, probe_step, PinResponse,
    PlexConnection, PlexResource, ProbeStep,
};

fn conn(uri: &str, local: bool, relay: bool) -> PlexConnection {
    PlexConnection { uri: uri.to_string(), local, relay }
}

#[test]
fn pick_best_prefers_local_non_relay() {
    let conns = vec![conn("relay", false, true), conn("remote", false, false), conn("local", true, false)];
    let reachable = vec![true, true, true];
    assert_eq!(pick_best(&conns, &reachable), Some(2));
}

#[test]
fn pick_best_prefers_remote_over_relay() {
    let conns = vec![conn("relay", false, true), conn("remote", false, false)];
    let reachable = vec![true, true];
    assert_eq!(pick_best(&conns, &reachable), Some(1));
}

#[test]
fn pick_best_falls_back_to_relay_when_only_one_reachable() {
    let conns = vec![conn("local", true, false), conn("relay", false, true)];
    let reachable = vec![false, true];
    assert_eq!(pick_best(&conns, &reachable), Some(1));
}

#[test]
fn pick_best_none_when_nothing_reachable() {
    let conns = vec![conn("local", true, false), conn("relay", false, true)];
    let reachable = vec![false, false];
    assert_eq!(pick_best(&conns, &reachable), None);
}

#[test]
fn pick_best_takes_the_first_of_equals_and_treats_missing_results_as_unreachable() {
    let conns = vec![conn("a", true, false), conn("b", true, false), conn("c", true, false)];
    assert_eq!(pick_best(&conns, &[false, true, true]), Some(1));
    assert_eq!(pick_best(&conns, &[false]), None);
}

#[test]
fn is_preferred_only_local_non_relay() {
    assert!(is_preferred(&conn("a", true, false)));
    assert!(!is_preferred(&conn("a", true, true)));
    assert!(!is_preferred(&conn("a", false, false)));
    assert!(!is_preferred(&conn("a", false, true)));
}

#[test]
fn probe_retries_once_before_settling_for_relay() {
    let conns = vec![conn("local", true, false), conn("relay", false, true)];
    assert_eq!(probe_step(&conns, &[false, true], 0), ProbeStep::Retry);
    assert_eq!(probe_step(&conns, &[false, true], 1), ProbeStep::Use(1));
    assert_eq!(probe_step(&conns, &[true, true], 0), ProbeStep::Use(0));
}

#[test]
fn probe_takes_remote_at_once_without_local_candidates() {
    let conns = vec![conn("relay", false, true), conn("remote", false, false)];
    assert_eq!(probe_step(&conns, &[true, true], 0), ProbeStep::Use(1));
}

#[test]
fn probe_gives_up_after_the_last_silent_round() {
    let conns = vec![conn("local", true, false)];
    assert_eq!(probe_step(&conns, &[false], 0), ProbeStep::Retry);
    assert_eq!(probe_step(&conns, &[false], 1), ProbeStep::GiveUp);
}

#[test]
fn discover_servers_keeps_only_servers() {
    let resources = vec![
        PlexResource { name: "My Server".to_string(), provides: "server".to_string(), connections: vec![conn("http://192.168.1.100:32400", true, false)] },
        PlexResource { name: "Plex Web".to_string(), provides: "player".to_string(), connections: vec![] },
        PlexResource { name: "Both".to_string(), provides: "client,server".to_string(), connections: vec![] },
    ];
    let servers = filter_servers(resources);
    let names: Vec<&str> = servers.iter().map(|s| s.name.as_str()).collect();
    assert_eq!(names, vec!["My Server", "Both"]);
}

#[test]
fn pin_auth_url_carries_client_and_code() {
    let url = pin_auth_url("cid", "abc123");
    assert!(url.starts_with("https://app.plex.tv/auth#?clientID=cid&code=abc123"));
    assert!(url.ends_with("&context%5Bdevice%5D%5Bplatform%5D=Linux"));
}

#[test]
fn pin_response_with_token() {
    let pin = PinResponse { id: 12345, code: "abc123".to_string(), auth_token: Some("mytoken123".to_string()) };
    assert_eq!(pin_token(&pin), Some("mytoken123".to_string()));
    let pending = PinResponse { id: 1, code: "c".to_string(), auth_token: Some(String::new()) };
    assert_eq!(pin_token(&pending), None);
    let none = PinResponse { id: 1, code: "c".to_string(), auth_token: None };
    assert_eq!(pin_token(&none), None);
}
