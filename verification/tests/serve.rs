//! The command line of the dashboard server.

use aoe_host::daemon::{
    cached_serve_mode_label, daemon_pid, exit_step, ignores_proxy, network_warning, pid_file_is_ours, print_local_status, print_status,
    read_serve_mode_label, read_serve_urls, recall_serve_passphrase, restart_daemon, run, stop_daemon, stop_foreign,
    stop_target, verify_pid_is_aoe, DaemonProbe, ExitStep, ModeCache, RunFacts, RunPlan, ServeUrl, SignalResult,
    StartPlan, StopStep,
};
use aoe_host::hosts::{
    host_is_localhost, is_untrusted_ip_literal, norm_host, validate_allowed_hosts, validate_allowed_origins,
};
use aoe_host::ip::{parse_ip, IpAddr};
use aoe_host::launch_file::{read_serve_launch, write_serve_launch};
use aoe_host::serve::{
    cloudflared_required, launch_needs_passphrase, pid_file_path, resolve_auth_mode, serve_launch_exists, stale_files,
    start_daemon, stdio_redirect_path, validate_auth_combination, validate_behind_proxy_allowlist, AuthMode, ServeArgs,
    ServeLaunch, SERVE_LAUNCH_SCHEMA,
};

#[test]
fn cloudflared_skipped_when_tailscale_available_and_default_flags() {
    assert!(!cloudflared_required(false, false, true));
}

#[test]
fn cloudflared_required_when_no_tailscale_flag_set() {
    assert!(cloudflared_required(true, false, true));
}

#[test]
fn cloudflared_required_when_named_tunnel_pinned() {
    assert!(cloudflared_required(false, true, true));
}

#[test]
fn cloudflared_required_when_tailscale_unavailable() {
    assert!(cloudflared_required(false, false, false));
}

#[test]
fn host_is_localhost_accepts_loopback_forms() {
    assert!(host_is_localhost("localhost"));
    assert!(host_is_localhost("127.0.0.1"));
    assert!(host_is_localhost("::1"));
}

#[test]
fn host_is_localhost_rejects_routable_addresses() {
    assert!(!host_is_localhost("0.0.0.0"));
    assert!(!host_is_localhost("192.168.1.1"));
    assert!(!host_is_localhost("aoe.example.com"));
}

#[test]
fn resolve_auth_mode_defaults_to_token() {
    assert_eq!(resolve_auth_mode(None, false), AuthMode::Token);
}

#[test]
fn resolve_auth_mode_no_auth_alias_maps_to_none() {
    assert_eq!(resolve_auth_mode(None, true), AuthMode::NoAuth);
}

#[test]
fn resolve_auth_mode_explicit_wins() {
    assert_eq!(
        resolve_auth_mode(Some(AuthMode::Passphrase), false),
        AuthMode::Passphrase
    );
    assert_eq!(
        resolve_auth_mode(Some(AuthMode::NoAuth), false),
        AuthMode::NoAuth
    );
}

#[test]
fn validate_token_mode_loopback_ok() {
    assert!(
        validate_auth_combination(AuthMode::Token, false, true, false, false, "127.0.0.1").is_ok()
    );
}

#[test]
fn validate_passphrase_without_passphrase_fails() {
    let err =
        validate_auth_combination(AuthMode::Passphrase, false, true, false, false, "127.0.0.1")
            .unwrap_err();
    assert!(err.to_string().contains("--auth=passphrase requires"));
}

#[test]
fn validate_passphrase_with_passphrase_loopback_ok() {
    assert!(
        validate_auth_combination(AuthMode::Passphrase, true, true, false, false, "127.0.0.1")
            .is_ok()
    );
}

#[test]
fn validate_none_with_passphrase_rejected() {
    let err = validate_auth_combination(AuthMode::NoAuth, true, true, false, false, "127.0.0.1")
        .unwrap_err();
    let msg = err.to_string();
    assert!(msg.contains("--auth=none does not honor --passphrase"));
    assert!(msg.contains("--auth=passphrase"));
}

#[test]
fn validate_passphrase_non_loopback_needs_behind_proxy() {
    let err = validate_auth_combination(AuthMode::Passphrase, true, false, false, false, "0.0.0.0")
        .unwrap_err();
    assert!(err.to_string().contains("--behind-proxy"));
}

#[test]
fn validate_passphrase_non_loopback_with_behind_proxy_ok() {
    assert!(
        validate_auth_combination(AuthMode::Passphrase, true, false, true, false, "0.0.0.0").is_ok()
    );
}

#[test]
fn validate_none_non_loopback_needs_behind_proxy() {
    let err = validate_auth_combination(AuthMode::NoAuth, false, false, false, false, "0.0.0.0")
        .unwrap_err();
    assert!(err.to_string().contains("--behind-proxy"));
}

#[test]
fn validate_none_loopback_ok() {
    assert!(
        validate_auth_combination(AuthMode::NoAuth, false, true, false, false, "127.0.0.1").is_ok()
    );
}

#[test]
fn validate_passphrase_with_remote_rejected() {
    let err = validate_auth_combination(AuthMode::Passphrase, true, true, false, true, "127.0.0.1")
        .unwrap_err();
    assert!(err.to_string().contains("in remote mode"));
}

#[test]
fn validate_none_with_remote_rejected() {
    let err = validate_auth_combination(AuthMode::NoAuth, false, true, false, true, "127.0.0.1")
        .unwrap_err();
    assert!(err.to_string().contains("in remote mode"));
}

#[test]
fn validate_token_with_remote_ok() {
    assert!(
        validate_auth_combination(AuthMode::Token, true, true, false, true, "127.0.0.1").is_ok()
    );
}

/// The name of each mode on the command line names it.
#[test]
fn auth_mode_names_round_trip() {
    for mode in [AuthMode::Token, AuthMode::Passphrase, AuthMode::NoAuth] {
        assert_eq!(AuthMode::from_cli_str(mode.as_cli_str()), Some(mode));
    }
    assert_eq!(AuthMode::NoAuth.as_cli_str(), "none");
    assert_eq!(AuthMode::from_cli_str("Token"), None);
}

fn sample_launch() -> ServeLaunch {
    ServeLaunch {
        schema: SERVE_LAUNCH_SCHEMA,
        pid: 4242,
        profile: "work".to_string(),
        host: "0.0.0.0".to_string(),
        port: 9090,
        auth_mode: AuthMode::Passphrase,
        behind_proxy: true,
        read_only: true,
        remote: false,
        tunnel_name: Some("named".to_string()),
        tunnel_url: Some("aoe.example.com".to_string()),
        no_tailscale: true,
        allowed_host: vec!["aoe.example.com".to_string()],
        allowed_origin: vec!["https://aoe.example.com:8443".to_string()],
    }
}

#[test]
fn serve_launch_json_round_trips() {
    let launch = sample_launch();
    let json = write_serve_launch(&launch);
    let back = read_serve_launch("serve.launch", Ok(json)).expect("deserialize");
    assert_eq!(back.pid, launch.pid);
    assert_eq!(back.profile, launch.profile);
    assert_eq!(back.host, launch.host);
    assert_eq!(back.port, launch.port);
    assert_eq!(back.auth_mode, launch.auth_mode);
    assert_eq!(back.behind_proxy, launch.behind_proxy);
    assert_eq!(back.read_only, launch.read_only);
    assert_eq!(back.remote, launch.remote);
    assert_eq!(back.tunnel_name, launch.tunnel_name);
    assert_eq!(back.tunnel_url, launch.tunnel_url);
    assert_eq!(back.no_tailscale, launch.no_tailscale);
    assert_eq!(back.allowed_host, launch.allowed_host);
    assert_eq!(back.allowed_origin, launch.allowed_origin);
}

/// A launch file spells the mode as the command line does, so that a restart replays the same flag.
#[test]
fn auth_mode_serde_matches_cli_str() {
    for mode in [AuthMode::Token, AuthMode::Passphrase, AuthMode::NoAuth] {
        let mut launch = sample_launch();
        launch.auth_mode = mode;
        let text = write_serve_launch(&launch);
        assert!(text.contains(&format!("\"auth_mode\": \"{}\"", mode.as_cli_str())), "{text}");
        assert_eq!(read_serve_launch("f", Ok(text)).expect("reads").auth_mode, mode);
    }
}

#[test]
fn launch_files_keep_the_order_of_their_members() {
    let mut launch = sample_launch();
    launch.allowed_origin = Vec::new();
    let want = "{\n  \"schema\": 1,\n  \"pid\": 4242,\n  \"profile\": \"work\",\n  \"host\": \"0.0.0.0\",\n  \
        \"port\": 9090,\n  \"auth_mode\": \"passphrase\",\n  \"behind_proxy\": true,\n  \"read_only\": true,\n  \
        \"remote\": false,\n  \"tunnel_name\": \"named\",\n  \"tunnel_url\": \"aoe.example.com\",\n  \
        \"no_tailscale\": true,\n  \"allowed_host\": [\n    \"aoe.example.com\"\n  ],\n  \"allowed_origin\": []\n}";
    assert_eq!(write_serve_launch(&launch), want);
}

#[test]
fn unusable_launch_files_are_named() {
    assert_eq!(
        read_serve_launch("/x/serve.launch", Err("gone".to_string())).unwrap_err(),
        "reading /x/serve.launch"
    );
    assert_eq!(
        read_serve_launch("/x/serve.launch", Ok("{".to_string())).unwrap_err(),
        "parsing /x/serve.launch"
    );
    assert_eq!(
        read_serve_launch("/x/serve.launch", Ok("{\"schema\":1}".to_string())).unwrap_err(),
        "parsing /x/serve.launch"
    );
    // The lists of allowed hosts and origins may be missing.
    let text = "{\"schema\":1,\"pid\":7,\"profile\":\"\",\"host\":\"::1\",\"port\":80,\"auth_mode\":\"none\",\
        \"behind_proxy\":false,\"read_only\":false,\"remote\":false,\"tunnel_name\":null,\"tunnel_url\":null,\
        \"no_tailscale\":false}";
    let l = read_serve_launch("f", Ok(text.to_string())).expect("older file");
    assert_eq!(l.auth_mode, AuthMode::NoAuth);
    assert!(l.allowed_host.is_empty() && l.allowed_origin.is_empty());
    // A port has to fit into sixteen bits.
    assert!(read_serve_launch("f", Ok(text.replace("80,", "70000,"))).is_err());
}

#[test]
fn launch_files_can_be_arrays() {
    let parts = "1,7,\"work\",\"::1\",80,{\"token\":null},true,false,false,null,\"u\",true";
    let read = |text: String| read_serve_launch("f", Ok(text));
    let l = read(format!("[{parts}]")).expect("without the lists");
    assert_eq!((l.schema, l.pid, l.port), (1, 7, 80));
    assert_eq!((l.profile.as_str(), l.host.as_str()), ("work", "::1"));
    assert_eq!(l.auth_mode, AuthMode::Token);
    assert!(l.behind_proxy && !l.read_only && !l.remote && l.no_tailscale);
    assert_eq!((l.tunnel_name, l.tunnel_url.as_deref()), (None, Some("u")));
    assert!(l.allowed_host.is_empty() && l.allowed_origin.is_empty());
    let l = read(format!("[{parts},[\"h\"],[\"o\"]]")).expect("with the lists");
    assert_eq!((l.allowed_host, l.allowed_origin), (vec!["h".to_string()], vec!["o".to_string()]));
    assert!(read(format!("[{parts},[],[],1]")).is_err());
    assert!(read("[1,7,\"work\"]".to_string()).is_err());
}

#[test]
fn to_serve_args_replays_launch_config() {
    let launch = sample_launch();
    let args = launch.to_serve_args(Some("hunter2".to_string()));
    assert_eq!(args.port, Some(9090));
    assert_eq!(args.host, "0.0.0.0");
    assert_eq!(args.auth, Some(AuthMode::Passphrase));
    assert!(!args.no_auth);
    assert!(args.behind_proxy);
    assert!(args.read_only);
    assert_eq!(args.tunnel_name.as_deref(), Some("named"));
    assert_eq!(args.tunnel_url.as_deref(), Some("aoe.example.com"));
    assert!(args.no_tailscale);
    assert!(args.daemon);
    assert!(!args.daemon_child);
    assert!(!args.restart);
    assert!(!args.stop);
    assert_eq!(args.passphrase.as_deref(), Some("hunter2"));
    assert_eq!(args.allowed_host, vec!["aoe.example.com".to_string()]);
    assert_eq!(
        args.allowed_origin,
        vec!["https://aoe.example.com:8443".to_string()]
    );
}

#[test]
fn behind_proxy_without_allowed_host_errors_at_startup() {
    let err = validate_behind_proxy_allowlist(true, false, &[])
        .expect_err("behind-proxy with no allowed host must be rejected");
    assert!(err.to_string().contains("--allowed-host"));
}

#[test]
fn behind_proxy_with_allowed_host_ok() {
    validate_behind_proxy_allowlist(true, false, &["aoe.example.com".to_string()])
        .expect("behind-proxy with an allowed host starts");
}

#[test]
fn behind_proxy_remote_is_exempt_from_allowed_host() {
    validate_behind_proxy_allowlist(true, true, &[])
        .expect("remote auto-injects the tunnel host, so no flag is required");
}

#[test]
fn schemeless_allowed_origin_errors_at_startup() {
    assert!(validate_allowed_origins(&["aoe.example.com:8443".to_string()]).is_err());
    assert!(validate_allowed_origins(&["".to_string()]).is_err());
}

#[test]
fn hostless_allowed_origin_errors_at_startup() {
    assert!(validate_allowed_origins(&["https://".to_string()]).is_err());
    assert!(validate_allowed_origins(&["https:///".to_string()]).is_err());
    assert!(validate_allowed_origins(&["https://:8443".to_string()]).is_err());
}

#[test]
fn malformed_allowed_origin_errors_at_startup() {
    assert!(validate_allowed_origins(&["https://aoe.example.com/app".to_string()]).is_err());
    assert!(validate_allowed_origins(&["https://aoe.example.com?x".to_string()]).is_err());
    assert!(validate_allowed_origins(&["https://user@aoe.example.com".to_string()]).is_err());
}

#[test]
fn scheme_qualified_allowed_origin_ok() {
    validate_allowed_origins(&[
        "https://aoe.example.com:8443".to_string(),
        "http://localhost:3000".to_string(),
        "HTTPS://aoe.example.com".to_string(),
        "https://aoe.example.com/".to_string(),
        "https://[::1]".to_string(),
    ])
    .expect("full scheme://host[:port] origins (incl. IPv6, trailing slash) are accepted");
}

#[test]
fn allowed_hosts_accept_bare_host_and_port() {
    validate_allowed_hosts(&[
        "aoe.example.com".to_string(),
        "aoe.example.com:8443".to_string(),
        "192.168.1.5".to_string(),
        "2001:db8::1".to_string(),
        "[::1]:8080".to_string(),
        "127.0.0.1".to_string(),
        "::1".to_string(),
    ])
    .expect("a bare host or host:port (incl. IPv6 and loopback) is a valid --allowed-host");
}

#[test]
fn allowed_hosts_reject_untrusted_ip_literals() {
    for host in [
        "0.0.0.0",
        "0.0.0.0:8080",
        "::",
        "[::]:8080",
        "169.254.169.254",
        "fe80::1",
        "[fe80::1]:8080",
        "::ffff:169.254.169.254",
        "224.0.0.1",
        "ff02::1",
    ] {
        assert!(
            validate_allowed_hosts(&[host.to_string()]).is_err(),
            "{host} must be rejected as an untrusted IP literal"
        );
    }
}

#[test]
fn allowed_origins_reject_untrusted_ip_literals() {
    for origin in [
        "http://0.0.0.0:8080",
        "https://[::]",
        "http://169.254.169.254",
        "https://[fe80::1]:8443",
        "http://224.0.0.1",
    ] {
        assert!(
            validate_allowed_origins(&[origin.to_string()]).is_err(),
            "{origin} must be rejected as an untrusted IP-literal origin"
        );
    }
    validate_allowed_origins(&[
        "http://127.0.0.1:3000".to_string(),
        "https://[::1]".to_string(),
        "https://192.168.1.5:8443".to_string(),
    ])
    .expect("loopback and routable IP-literal origins stay valid");
}

#[test]
fn allowed_hosts_reject_malformed_authorities() {
    assert!(validate_allowed_hosts(&["https://aoe.example.com".to_string()]).is_err());
    assert!(validate_allowed_hosts(&["aoe.example.com/app".to_string()]).is_err());
    assert!(validate_allowed_hosts(&["aoe.example.com?x".to_string()]).is_err());
    assert!(validate_allowed_hosts(&["user@aoe.example.com".to_string()]).is_err());
    assert!(validate_allowed_hosts(&[":8080".to_string()]).is_err());
    assert!(validate_allowed_hosts(&[":".to_string()]).is_err());
}

#[test]
fn allowed_hosts_reject_empty() {
    assert!(validate_allowed_hosts(&["   ".to_string()]).is_err());
}

#[test]
fn launch_needs_passphrase_for_remote_and_passphrase_auth() {
    let mut launch = sample_launch();
    launch.auth_mode = AuthMode::Passphrase;
    launch.remote = false;
    assert!(launch_needs_passphrase(&launch));

    launch.auth_mode = AuthMode::Token;
    launch.remote = true;
    assert!(launch_needs_passphrase(&launch));

    launch.auth_mode = AuthMode::Token;
    launch.remote = false;
    assert!(!launch_needs_passphrase(&launch));
}

fn groups(text: &str) -> Option<Vec<u16>> {
    match parse_ip(text) {
        Some(IpAddr::V6 { groups }) => Some(groups),
        _ => None,
    }
}

fn octets(text: &str) -> Option<[u8; 4]> {
    match parse_ip(text) {
        Some(IpAddr::V4 { a, b, c, d }) => Some([a, b, c, d]),
        _ => None,
    }
}

#[test]
fn ip_literals_are_read() {
    assert_eq!(octets("1.2.3.4"), Some([1, 2, 3, 4]));
    assert_eq!(octets("255.255.255.255"), Some([255, 255, 255, 255]));
    for text in ["01.2.3.4", "1.2.3", "1.2.3.4.5", "256.1.1.1", "", "1..2.3", "1.2.3.4 ", "a.b.c.d"] {
        assert!(parse_ip(text).is_none(), "{text}");
    }
    assert_eq!(groups("::"), Some(vec![0; 8]));
    assert_eq!(groups("::1"), Some(vec![0, 0, 0, 0, 0, 0, 0, 1]));
    assert_eq!(groups("1::"), Some(vec![1, 0, 0, 0, 0, 0, 0, 0]));
    assert_eq!(groups("1:2:3:4:5:6:7:8"), Some(vec![1, 2, 3, 4, 5, 6, 7, 8]));
    assert_eq!(groups("1:2:3:4:5:6:7::"), Some(vec![1, 2, 3, 4, 5, 6, 7, 0]));
    assert_eq!(groups("::2:3:4:5:6:7:8"), Some(vec![0, 2, 3, 4, 5, 6, 7, 8]));
    assert_eq!(groups("ABCD::ef01"), Some(vec![0xabcd, 0, 0, 0, 0, 0, 0, 0xef01]));
    assert_eq!(groups("::ffff:1.2.3.4"), Some(vec![0, 0, 0, 0, 0, 0xffff, 0x102, 0x304]));
    assert_eq!(groups("1:2:3:4:5:6:1.2.3.4"), Some(vec![1, 2, 3, 4, 5, 6, 0x102, 0x304]));
    for text in [
        "1:2:3:4:5:6:7",
        "1:2:3:4:5:6:7:8::",
        "1::2::3",
        ":::",
        "1:::2",
        "12345::",
        "g::",
        "fe80::1%eth0",
        "1:2:3:4:5:6:7:1.2.3.4",
        "1.2.3.4::",
        "::1.2.3.4:5",
        ":1",
        "1:",
        "[::1]",
    ] {
        assert!(parse_ip(text).is_none(), "{text}");
    }
}

#[test]
fn hosts_are_normalized() {
    assert_eq!(norm_host(" AOE.Example.com:8443 "), "aoe.example.com");
    assert_eq!(norm_host("[FE80::1]:80"), "fe80::1");
    assert_eq!(norm_host("2001:db8::1"), "2001:db8::1");
    assert_eq!(norm_host(":8080"), "");
    assert!(is_untrusted_ip_literal("::ffff:224.0.0.1"));
    assert!(!is_untrusted_ip_literal("::ffff:10.0.0.1"));
    assert!(!is_untrusted_ip_literal("example.com"));
}

#[test]
fn refused_host_is_quoted_in_the_message() {
    let err = validate_allowed_hosts(&["ok.example".to_string(), "a/b".to_string()]).unwrap_err();
    assert!(err.starts_with("--allowed-host \"a/b\" must be a bare hostname"));
}

fn sample_args() -> ServeArgs {
    ServeArgs {
        port: None,
        host: "127.0.0.1".to_string(),
        auth: None,
        no_auth: false,
        behind_proxy: false,
        allowed_host: vec!["a".to_string(), "b".to_string()],
        allowed_origin: Vec::new(),
        read_only: true,
        remote: false,
        tunnel_name: None,
        no_tailscale: false,
        tunnel_url: None,
        daemon: true,
        stop: false,
        status: false,
        passphrase: Some("pw".to_string()),
        open: false,
        daemon_child: false,
        restart: false,
    }
}

fn sample_facts() -> RunFacts {
    RunFacts {
        dashboard_enabled: true,
        running: None,
        own_pid: 7,
        tailscale_available: true,
        cloudflared: Err("no cloudflared".to_string()),
        debug_build: false,
    }
}

#[test]
fn ports_default_by_build() {
    let mut args = sample_args();
    assert_eq!(args.resolved_port(true), 8081);
    assert_eq!(args.resolved_port(false), 8080);
    args.port = Some(1);
    assert_eq!(args.resolved_port(true), 1);
}

#[test]
fn daemon_options_are_replayed() {
    let args = sample_args();
    let order = start_daemon("work", &args, false);
    assert_eq!(
        order.argv,
        vec![
            "serve",
            "--daemon-child",
            "--port",
            "8080",
            "--host",
            "127.0.0.1",
            "--read-only",
            "--allowed-host",
            "a",
            "--allowed-host",
            "b",
            "--profile",
            "work",
        ]
    );
    assert_eq!(order.passphrase.as_deref(), Some("pw"));
    assert!(!order.argv.contains(&"pw".to_string()));

    let launch = ServeLaunch::of("work", &args, 99, false);
    assert_eq!(launch.auth_mode, AuthMode::Token);
    let again = launch.to_serve_args(Some("pw".to_string()));
    let replay = start_daemon(&launch.profile, &again, false);
    assert_eq!(replay.argv[6..8], ["--auth".to_string(), "token".to_string()]);
}

#[test]
fn commands_come_to_plans() {
    let mut args = sample_args();
    args.stop = true;
    assert!(matches!(run("p", &args, sample_facts()), Ok(RunPlan::Stop)));
    args.stop = false;
    args.status = true;
    assert!(matches!(run("p", &args, sample_facts()), Ok(RunPlan::Status)));
    args.status = false;
    args.restart = true;
    assert!(matches!(run("p", &args, sample_facts()), Ok(RunPlan::Restart)));
    args.restart = false;
    assert!(matches!(
        run("p", &args, sample_facts()),
        Ok(RunPlan::Start(StartPlan::Daemon(_)))
    ));

    let mut facts = sample_facts();
    facts.dashboard_enabled = false;
    assert!(run("p", &args, facts).unwrap_err().contains("plugin is disabled"));
    let mut facts = sample_facts();
    facts.running = Some(8);
    assert!(run("p", &args, facts).unwrap_err().contains("already running (PID 8)"));
    let mut facts = sample_facts();
    facts.running = Some(7);
    assert!(run("p", &args, facts).is_ok());

    args.tunnel_name = Some("t".to_string());
    assert!(run("p", &args, sample_facts()).unwrap_err().starts_with("Named tunnels require"));
    args.tunnel_name = None;

    // Behind a tunnel: the client that is needed, then the passphrase.
    args.remote = true;
    args.daemon = false;
    args.no_tailscale = true;
    args.passphrase = None;
    assert_eq!(run("p", &args, sample_facts()).unwrap_err(), "no cloudflared");
    args.no_tailscale = false;
    assert!(run("p", &args, sample_facts()).unwrap_err().starts_with("Refusing to start in remote mode without"));
    args.passphrase = Some("x".to_string());
    args.host = "192.168.0.9".to_string();
    match run("p", &args, sample_facts()) {
        Ok(RunPlan::Start(StartPlan::Foreground(notes, config))) => {
            assert_eq!(config.host, "127.0.0.1");
            assert!(!config.no_auth);
            assert!(!notes.network);
        }
        other => panic!("a tunnel is served in the foreground, got {other:?}"),
    }

    // The note on the proxy is due as soon as the options are valid, though a later check fails.
    args.behind_proxy = true;
    args.tunnel_name = Some("t".to_string());
    args.tunnel_url = None;
    assert!(run("p", &args, sample_facts()).is_err());
    assert!(ignores_proxy(&args, true, None, 7));
    assert!(!ignores_proxy(&args, false, None, 7));
    assert!(!ignores_proxy(&args, true, Some(8), 7));
    args.remote = false;
    assert!(!ignores_proxy(&args, true, None, 7));

    // On the network.
    let mut args = sample_args();
    args.daemon = false;
    args.host = "0.0.0.0".to_string();
    args.allowed_host = Vec::new();
    match run("p", &args, sample_facts()) {
        Ok(RunPlan::Start(StartPlan::Foreground(notes, config))) => {
            assert!(notes.network && notes.wildcard);
            assert_eq!(config.host, "0.0.0.0");
            assert_eq!(config.port, 8080);
        }
        other => panic!("a token server starts on the network, got {other:?}"),
    }
}

#[test]
fn restart_is_refused_before_anything_is_stopped() {
    assert!(restart_daemon(None, Ok(sample_launch()), None).unwrap_err().starts_with("No running aoe serve daemon"));
    assert!(restart_daemon(Some(4242), Err("reading f".to_string()), None)
        .unwrap_err()
        .starts_with("Cannot restart: no usable launch state (reading f)."));
    assert!(restart_daemon(Some(1), Ok(sample_launch()), Some("x".to_string()))
        .unwrap_err()
        .contains("records PID 4242 but the running daemon is PID 1"));
    assert!(restart_daemon(Some(4242), Ok(sample_launch()), None)
        .unwrap_err()
        .contains("uses passphrase auth but no passphrase"));
    let mut bad = sample_launch();
    bad.behind_proxy = false;
    assert!(restart_daemon(Some(4242), Ok(bad), Some("x".to_string()))
        .unwrap_err()
        .contains("require --behind-proxy"));
    let plan = restart_daemon(Some(4242), Ok(sample_launch()), Some("x".to_string())).expect("restarts");
    assert_eq!(plan.profile, "work");
    assert_eq!(plan.args.passphrase.as_deref(), Some("x"));
}

#[test]
fn passphrases_are_recalled() {
    assert_eq!(recall_serve_passphrase(Some(" a \n"), Some("b")).as_deref(), Some("a"));
    assert_eq!(recall_serve_passphrase(Some("  "), Some(" b")).as_deref(), Some(" b"));
    assert_eq!(recall_serve_passphrase(None, Some("")), None);
    assert_eq!(recall_serve_passphrase(None, None), None);
}

#[test]
fn urls_are_read_line_by_line() {
    let urls = read_serve_urls(Some("https://one\r\nlan\thttp://two\n\nhttp://three\n"));
    let got: Vec<(Option<&str>, &str)> = urls.iter().map(|u| (u.label.as_deref(), u.url.as_str())).collect();
    assert_eq!(
        got,
        vec![(None, "https://one"), (Some("lan"), "http://two"), (None, "http://three")]
    );
    assert!(read_serve_urls(None).is_empty());
    assert!(read_serve_urls(Some("")).is_empty());
    // A first line that is blank is skipped, and the next is no longer the first.
    let urls = read_serve_urls(Some("\nx\ty"));
    assert_eq!(urls[0].label.as_deref(), Some("x"));
}

#[test]
fn modes_are_cached_per_process() {
    assert_eq!(read_serve_mode_label(Some(" tunnel\n")), Some("tunnel"));
    assert_eq!(read_serve_mode_label(Some("other")), None);
    let mut cache = ModeCache { entry: None };
    assert_eq!(cached_serve_mode_label(&mut cache, None, Some("local")), None);
    assert!(cache.entry.is_none());
    assert!(cache.needs_read(Some(1)));
    assert_eq!(cached_serve_mode_label(&mut cache, Some(1), Some("local")), Some("local"));
    assert!(!cache.needs_read(Some(1)));
    assert_eq!(cached_serve_mode_label(&mut cache, Some(1), Some("tunnel")), Some("local"));
    assert_eq!(cached_serve_mode_label(&mut cache, Some(2), Some("tailscale")), Some("tailscale"));
}

#[test]
fn daemons_are_probed() {
    assert!(verify_pid_is_aoe(Some("/usr/bin/aoe serve")));
    assert!(verify_pid_is_aoe(Some("agent-of-empires")));
    assert!(!verify_pid_is_aoe(Some("bash")));
    assert!(verify_pid_is_aoe(None));
    assert_eq!(daemon_pid(None, true, None), DaemonProbe::NoDaemon);
    assert_eq!(daemon_pid(Some("x"), true, None), DaemonProbe::NoDaemon);
    assert_eq!(daemon_pid(Some(" 42\n"), true, Some("aoe")), DaemonProbe::Running(42));
    assert_eq!(daemon_pid(Some("42"), true, Some("vim")), DaemonProbe::Stale);
    assert_eq!(daemon_pid(Some("42"), false, None), DaemonProbe::Stale);
    assert_eq!(daemon_pid(Some("-1"), true, None), DaemonProbe::Running(4294967295));
    assert_eq!(daemon_pid(Some("2147483648"), true, None), DaemonProbe::NoDaemon);
    assert_eq!(daemon_pid(Some("-2147483648"), false, None), DaemonProbe::Stale);
    assert_eq!(daemon_pid(Some("-+1"), true, None), DaemonProbe::NoDaemon);
    assert!(pid_file_is_ours(Some("7 "), 7));
    assert!(!pid_file_is_ours(Some("8"), 7));
    assert_eq!(
        stale_files("/d"),
        vec!["/d/serve.pid", "/d/serve.url", "/d/serve.mode", "/d/serve.passphrase", "/d/serve.launch"]
    );
    assert_eq!(pid_file_path("/d/"), "/d/serve.pid");
    assert!(serve_launch_exists(Some(true)));
    assert!(!serve_launch_exists(None));
    assert_eq!(stdio_redirect_path("/d", None), "/d/debug.log");
    assert_eq!(stdio_redirect_path("/d", Some("x.log")), "/d/x.log");
    assert_eq!(stdio_redirect_path("/d", Some("/y/x.log")), "/y/x.log");
}

#[test]
fn daemons_are_stopped() {
    assert_eq!(stop_target(None, "/d/p").unwrap_err(), "No running daemon found (no PID file at /d/p)");
    assert_eq!(stop_target(Some(" abc "), "/d/p").unwrap_err(), "Invalid PID in /d/p: abc");
    assert_eq!(stop_target(Some("12\n"), "/d/p"), Ok(12));
    assert_eq!(
        stop_foreign(12),
        "PID 12 belongs to a different process (stale PID file). Cleaned up."
    );
    assert!(matches!(stop_daemon(1, SignalResult::Sent), Ok(StopStep::AwaitExit)));
    assert!(matches!(stop_daemon(1, SignalResult::NoSuchProcess), Ok(StopStep::CleanUp)));
    assert_eq!(
        stop_daemon(-3, SignalResult::Failed("EPERM".to_string())).unwrap_err(),
        "Failed to stop daemon (PID -3): EPERM"
    );
    assert_eq!(exit_step(true, true), ExitStep::Exited);
    assert_eq!(exit_step(false, true), ExitStep::Kill);
    assert_eq!(exit_step(false, false), ExitStep::Wait);
}

#[test]
fn status_is_reported() {
    let urls = vec![
        ServeUrl { label: None, url: "u0".to_string() },
        ServeUrl { label: Some("lan".to_string()), url: "u1".to_string() },
        ServeUrl { label: None, url: "u2".to_string() },
    ];
    assert_eq!(
        print_local_status(Some(5), Some("local"), &urls, Some("/l")).unwrap(),
        vec![
            "Daemon: running (PID 5)",
            "Mode:   local",
            "URL:    u0",
            "        lan u1",
            "        alt u2",
            "Log:    /l",
        ]
    );
    assert_eq!(
        print_local_status(Some(5), None, &Vec::new(), None).unwrap(),
        vec!["Daemon: running (PID 5)", "Mode:   unknown", "URL:    (serve.url missing)"]
    );
    assert!(print_local_status(None, None, &urls, None).is_err());
    assert_eq!(print_status("http://h", false, Ok(())).unwrap()[2], "Token:  unset");
    assert_eq!(
        print_status("http://h", true, Err("down".to_string())).unwrap_err(),
        "AOE_DAEMON_URL is set but the daemon at http://h is unreachable (down); check the address or unset to use a local daemon"
    );
}

#[test]
fn the_network_is_warned_of() {
    let plain = network_warning("0.0.0.0", false, false, false);
    assert_eq!(plain[1], "  SECURITY WARNING: Binding to 0.0.0.0");
    assert_eq!(plain.len(), 19);
    let full = network_warning("::", true, true, true);
    assert_eq!(full.len(), 28);
    assert_eq!(full[17], "  Read-only mode is ON: terminal input is disabled.");
    assert!(full[19].starts_with("  Wildcard bind: "));
    assert_eq!(full[21], "  CityHall client mode is ON: dashboard is locked to a");
    assert_eq!(full[26], plain[0]);
}
