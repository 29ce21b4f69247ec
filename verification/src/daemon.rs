//! The life of a dashboard daemon: starting, restarting, stopping it, and telling whether and how
//! it runs.

use vstd::prelude::*;

use crate::hosts::{host_is_localhost, localhost};
use crate::serve::{
    cloudflared_required, config_check, needs_passphrase, launch_needs_passphrase, port_of, resolve_auth_mode,
    validate_config, AuthMode, ServeArgs, ServeLaunch,
};
use crate::text::{
    all_digits, chars_of, copy_text, copy_texts, cut, decimal, digits_value, is_empty, join2, join3, lemma_texts_push,
    number, parse_number, pieces, same, show, show_signed, signed_decimal, split, split_once, str_of, string_of,
    text_of, texts, trim, trimmed,
};

verus! {

broadcast use lemma_texts_push;

/// What a command comes to before anything is started.
#[derive(Debug, Clone, Copy, PartialEq, Eq, Structural)]
pub enum RunStep {
    /// The running server is stopped.
    Stop,
    /// The running server is reported on.
    Status,
    /// The running daemon is started again.
    Restart,
    /// The options are in order, and a server is to be started.
    Start,
}

/// The words about a server that already runs.
pub open spec fn already_running_words(pid: u32) -> Seq<char> {
    "aoe serve daemon already running (PID "@ + decimal(pid as nat)
        + ").\n\n  Status:  aoe serve --status\n  Open UI: aoe url\n  Stop:    aoe serve --stop"@
}

/// How the options of a command are checked.
pub open spec fn options_check(args: ServeArgs, dashboard_enabled: bool, running: Option<u32>, own_pid: u32) -> Result<
    RunStep,
    Seq<char>,
> {
    if args.stop {
        Ok(RunStep::Stop)
    } else if args.status {
        Ok(RunStep::Status)
    } else if args.restart {
        Ok(RunStep::Restart)
    } else if !dashboard_enabled {
        Err("the web dashboard plugin is disabled; run `aoe plugin enable aoe.web` first"@)
    } else if running is Some && running->0 != own_pid {
        Err(already_running_words(running->0))
    } else {
        match config_check(
            args.auth_mode(),
            args.passphrase is Some,
            args.behind_proxy,
            args.remote,
            args.host@,
            texts(args.allowed_host@),
            texts(args.allowed_origin@),
        ) {
            Err(e) => Err(e),
            Ok(_) => Ok(RunStep::Start),
        }
    }
}

/// How a command is checked before anything is started.
pub open spec fn run_check(args: ServeArgs, dashboard_enabled: bool, running: Option<u32>, own_pid: u32) -> Result<
    RunStep,
    Seq<char>,
> {
    match options_check(args, dashboard_enabled, running, own_pid) {
        Ok(RunStep::Start) => if args.tunnel_name is Some && args.tunnel_url is None {
            Err(named_tunnel_words())
        } else {
            Ok(RunStep::Start)
        },
        checked => checked,
    }
}

pub open spec fn named_tunnel_words() -> Seq<char> {
    "Named tunnels require --tunnel-url to specify the hostname.\nExample: aoe serve --remote --tunnel-name my-tunnel --tunnel-url aoe.example.com\n\nSetup steps:\n1. cloudflared tunnel create my-tunnel\n2. Add a CNAME record: aoe.example.com -> <tunnel-id>.cfargotunnel.com\n3. aoe serve --remote --tunnel-name my-tunnel --tunnel-url aoe.example.com"@
}

/// Checks the options of a command. `running` is the number of the server that already runs,
/// `own_pid` that of this process.
fn check_options(args: &ServeArgs, dashboard_enabled: bool, running: Option<u32>, own_pid: u32) -> (r: Result<
    RunStep,
    String,
>)
    requires
        args.consistent(),
    ensures
        match r {
            Ok(s) => options_check(*args, dashboard_enabled, running, own_pid) == Ok::<RunStep, Seq<char>>(s),
            Err(e) => options_check(*args, dashboard_enabled, running, own_pid) == Err::<RunStep, Seq<char>>(e@),
        },
{
    if args.stop {
        return Ok(RunStep::Stop);
    }
    if args.status {
        return Ok(RunStep::Status);
    }
    if args.restart {
        return Ok(RunStep::Restart);
    }
    if !dashboard_enabled {
        return Err("the web dashboard plugin is disabled; run `aoe plugin enable aoe.web` first".to_owned());
    }
    if let Some(pid) = running {
        if pid != own_pid {
            return Err(
                join3(
                    "aoe serve daemon already running (PID ",
                    show(pid as u64).as_str(),
                    ").\n\n  Status:  aoe serve --status\n  Open UI: aoe url\n  Stop:    aoe serve --stop",
                ),
            );
        }
    }
    match validate_config(
        resolve_auth_mode(args.auth, args.no_auth),
        args.passphrase.is_some(),
        args.behind_proxy,
        args.remote,
        args.host.as_str(),
        &args.allowed_host,
        &args.allowed_origin,
    ) {
        Ok(_) => Ok(RunStep::Start),
        Err(e) => Err(e),
    }
}

/// Checks a command before anything is started. `running` is the number of the server that already
/// runs, `own_pid` that of this process.
pub fn check_run(args: &ServeArgs, dashboard_enabled: bool, running: Option<u32>, own_pid: u32) -> (r: Result<
    RunStep,
    String,
>)
    requires
        args.consistent(),
    ensures
        match r {
            Ok(s) => run_check(*args, dashboard_enabled, running, own_pid) == Ok::<RunStep, Seq<char>>(s),
            Err(e) => run_check(*args, dashboard_enabled, running, own_pid) == Err::<RunStep, Seq<char>>(e@),
        },
{
    match check_options(args, dashboard_enabled, running, own_pid) {
        Ok(RunStep::Start) => {},
        checked => {
            return checked;
        },
    }
    if args.tunnel_name.is_some() && args.tunnel_url.is_none() {
        return Err(
            "Named tunnels require --tunnel-url to specify the hostname.\nExample: aoe serve --remote --tunnel-name my-tunnel --tunnel-url aoe.example.com\n\nSetup steps:\n1. cloudflared tunnel create my-tunnel\n2. Add a CNAME record: aoe.example.com -> <tunnel-id>.cfargotunnel.com\n3. aoe serve --remote --tunnel-name my-tunnel --tunnel-url aoe.example.com".to_owned(),
        );
    }
    Ok(RunStep::Start)
}

/// Whether the option for a proxy is passed over: beside a tunnel it does nothing. That is said once
/// the options are found valid, before anything else can fail.
pub fn ignores_proxy(args: &ServeArgs, dashboard_enabled: bool, running: Option<u32>, own_pid: u32) -> (r: bool)
    requires
        args.consistent(),
    ensures
        r == (args.behind_proxy && args.remote && options_check(*args, dashboard_enabled, running, own_pid) == Ok::<
            RunStep,
            Seq<char>,
        >(RunStep::Start)),
{
    args.behind_proxy && args.remote && matches!(
        check_options(args, dashboard_enabled, running, own_pid),
        Ok(RunStep::Start),
    )
}

/// Whether the Cloudflare client has to be there before a server is started.
pub fn needs_cloudflared(args: &ServeArgs, tailscale_available: bool) -> (r: bool)
    ensures
        r == (args.remote && (args.no_tailscale || args.tunnel_name is Some || !tailscale_available)),
{
    args.remote && cloudflared_required(args.no_tailscale, args.tunnel_name.is_some(), tailscale_available)
}

/// What a server is started with.
#[derive(Debug)]
pub struct ServerConfig {
    pub profile: String,
    pub host: String,
    pub port: u16,
    pub no_auth: bool,
    pub read_only: bool,
    pub remote: bool,
    pub tunnel_name: Option<String>,
    pub tunnel_url: Option<String>,
    pub no_tailscale: bool,
    pub is_daemon: bool,
    pub passphrase: Option<String>,
    pub behind_proxy: bool,
    pub open_browser: bool,
    pub extra_allowed_hosts: Vec<String>,
    pub extra_allowed_origins: Vec<String>,
}

/// What is said before a server is started.
#[derive(Debug, Clone, Copy, PartialEq, Eq, Structural)]
pub struct Notes {
    /// That the network can reach the server.
    pub network: bool,
    /// That a host name has to be allowed.
    pub wildcard: bool,
}

/// The lines that warn of a server that the network can reach.
pub open spec fn warning_lines(host: Seq<char>, read_only: bool, wildcard: bool, client_mode: bool) -> Seq<Seq<char>> {
    let rule = "=========================================================="@;
    seq![
        rule,
        "  SECURITY WARNING: Binding to "@ + host,
        rule,
        ""@,
        "  This exposes terminal access to your network."@,
        "  Anyone with the auth token can execute commands"@,
        "  as your user on this machine."@,
        ""@,
        "  Traffic is NOT encrypted (HTTP, not HTTPS)."@,
        "  Use a VPN (Tailscale, WireGuard) or SSH tunnel"@,
        "  for remote access. Do NOT expose this to the"@,
        "  public internet without TLS termination."@,
        ""@,
        "  Or use: aoe serve --remote"@,
        "  for automatic HTTPS via Tailscale Funnel"@,
        "  (preferred) or Cloudflare Tunnel."@,
        ""@,
    ] + (if read_only {
        seq!["  Read-only mode is ON: terminal input is disabled."@, ""@]
    } else {
        Seq::empty()
    }) + (if wildcard {
        seq![
            "  Wildcard bind: the LAN/VPN IP URLs above work as-is. To reach this server by a HOSTNAME or mDNS name (e.g. my-box.local), re-run with --allowed-host <name> (repeatable)."@,
            ""@,
        ]
    } else {
        Seq::empty()
    }) + (if client_mode {
        seq![
            "  CityHall client mode is ON: dashboard is locked to a"@,
            "  composer + structured-view end-user client. Requires an"@,
            "  ACP-capable default agent; session creation is rejected"@,
            "  otherwise."@,
            ""@,
        ]
    } else {
        Seq::empty()
    }) + seq![rule, ""@]
}

/// The lines that warn of a server that the network can reach. `wildcard` says that a host name has
/// to be allowed, `client_mode` that the dashboard is locked to the end-user client.
pub fn network_warning(host: &str, read_only: bool, wildcard: bool, client_mode: bool) -> (r: Vec<String>)
    ensures
        texts(r@) == warning_lines(host@, read_only, wildcard, client_mode),
{
    let rule = "==========================================================";
    let mut v: Vec<String> = Vec::new();
    v.push(rule.to_owned());
    v.push(join2("  SECURITY WARNING: Binding to ", host));
    v.push(rule.to_owned());
    v.push("".to_owned());
    v.push("  This exposes terminal access to your network.".to_owned());
    v.push("  Anyone with the auth token can execute commands".to_owned());
    v.push("  as your user on this machine.".to_owned());
    v.push("".to_owned());
    v.push("  Traffic is NOT encrypted (HTTP, not HTTPS).".to_owned());
    v.push("  Use a VPN (Tailscale, WireGuard) or SSH tunnel".to_owned());
    v.push("  for remote access. Do NOT expose this to the".to_owned());
    v.push("  public internet without TLS termination.".to_owned());
    v.push("".to_owned());
    v.push("  Or use: aoe serve --remote".to_owned());
    v.push("  for automatic HTTPS via Tailscale Funnel".to_owned());
    v.push("  (preferred) or Cloudflare Tunnel.".to_owned());
    v.push("".to_owned());
    if read_only {
        v.push("  Read-only mode is ON: terminal input is disabled.".to_owned());
        v.push("".to_owned());
    }
    if wildcard {
        v.push(
            "  Wildcard bind: the LAN/VPN IP URLs above work as-is. To reach this server by a HOSTNAME or mDNS name (e.g. my-box.local), re-run with --allowed-host <name> (repeatable).".to_owned(),
        );
        v.push("".to_owned());
    }
    if client_mode {
        v.push("  CityHall client mode is ON: dashboard is locked to a".to_owned());
        v.push("  composer + structured-view end-user client. Requires an".to_owned());
        v.push("  ACP-capable default agent; session creation is rejected".to_owned());
        v.push("  otherwise.".to_owned());
        v.push("".to_owned());
    }
    v.push(rule.to_owned());
    v.push("".to_owned());
    assert(texts(v@) =~= warning_lines(host@, read_only, wildcard, client_mode));
    v
}

/// How a server is started: as a daemon, or in this process.
#[derive(Debug)]
pub enum StartPlan {
    Daemon(Notes),
    Foreground(Notes, ServerConfig),
}

/// Whether a host stands for every interface.
pub open spec fn wildcard_bind(host: Seq<char>) -> bool {
    host == "0.0.0.0"@ || host == "::"@ || host == "[::]"@
}

/// Whether a host stands for every interface.
pub fn is_wildcard_bind(host: &str) -> (r: bool)
    ensures
        r == wildcard_bind(host@),
{
    same(host, "0.0.0.0") || same(host, "::") || same(host, "[::]")
}

/// What is said before a server with the given options is started.
pub open spec fn notes_for(args: ServeArgs) -> Notes {
    let network = !localhost(args.host@) && !args.remote;
    Notes {
        network,
        wildcard: network && wildcard_bind(args.host@) && args.allowed_host@.len() == 0,
    }
}

/// Whether a server is started with the given options: behind a tunnel it listens only on the
/// machine itself.
pub open spec fn config_for(c: ServerConfig, profile: Seq<char>, args: ServeArgs, debug_build: bool) -> bool {
    &&& c.profile@ == profile
    &&& c.host@ == if args.remote {
        "127.0.0.1"@
    } else {
        args.host@
    }
    &&& c.port == port_of(args.port, debug_build)
    &&& c.no_auth == (args.auth_mode() != AuthMode::Token)
    &&& c.read_only == args.read_only
    &&& c.remote == args.remote
    &&& c.tunnel_name == args.tunnel_name
    &&& c.tunnel_url == args.tunnel_url
    &&& c.no_tailscale == args.no_tailscale
    &&& !c.is_daemon
    &&& c.passphrase == args.passphrase
    &&& c.behind_proxy == args.behind_proxy
    &&& c.open_browser == args.open
    &&& c.extra_allowed_hosts@ == args.allowed_host@
    &&& c.extra_allowed_origins@ == args.allowed_origin@
}

/// What starting a server comes to: a missing tunnel client comes before a missing passphrase.
pub open spec fn start_outcome(
    r: Result<StartPlan, String>,
    profile: Seq<char>,
    args: ServeArgs,
    cloudflared: Result<(), String>,
    debug_build: bool,
) -> bool {
    if args.remote && cloudflared is Err {
        r matches Err(e) && e == cloudflared->Err_0
    } else if args.remote && args.passphrase is None {
        r matches Err(e) && e@
            == "Refusing to start in remote mode without a passphrase.\n--remote exposes terminal access to the internet.\nAdd --passphrase <VALUE> or set AOE_SERVE_PASSPHRASE."@
    } else if args.daemon {
        r matches Ok(StartPlan::Daemon(n)) && n == notes_for(args)
    } else {
        r matches Ok(StartPlan::Foreground(n, c)) && n == notes_for(args) && config_for(c, profile, args, debug_build)
    }
}

/// Decides how a server is started. `cloudflared` is what looking for the Cloudflare client came to;
/// it counts only behind a tunnel.
pub fn plan_start(profile: &str, args: &ServeArgs, cloudflared: Result<(), String>, debug_build: bool) -> (r: Result<
    StartPlan,
    String,
>)
    requires
        args.consistent(),
    ensures
        start_outcome(r, profile@, *args, cloudflared, debug_build),
{
    if args.remote {
        match cloudflared {
            Ok(_) => {},
            Err(e) => {
                return Err(e);
            },
        }
        if args.passphrase.is_none() {
            return Err(
                "Refusing to start in remote mode without a passphrase.\n--remote exposes terminal access to the internet.\nAdd --passphrase <VALUE> or set AOE_SERVE_PASSPHRASE.".to_owned(),
            );
        }
    }
    let network = !host_is_localhost(args.host.as_str()) && !args.remote;
    let notes = Notes {
        network,
        wildcard: network && is_wildcard_bind(args.host.as_str()) && args.allowed_host.len() == 0,
    };
    if args.daemon {
        return Ok(StartPlan::Daemon(notes));
    }
    let host = if args.remote {
        "127.0.0.1".to_owned()
    } else {
        args.host.clone()
    };
    let mode = resolve_auth_mode(args.auth, args.no_auth);
    Ok(
        StartPlan::Foreground(
            notes,
            ServerConfig {
                profile: profile.to_owned(),
                host,
                port: args.resolved_port(debug_build),
                no_auth: !matches!(mode, AuthMode::Token),
                read_only: args.read_only,
                remote: args.remote,
                tunnel_name: copy_text(&args.tunnel_name),
                tunnel_url: copy_text(&args.tunnel_url),
                no_tailscale: args.no_tailscale,
                is_daemon: false,
                passphrase: copy_text(&args.passphrase),
                behind_proxy: args.behind_proxy,
                open_browser: args.open,
                extra_allowed_hosts: copy_texts(&args.allowed_host),
                extra_allowed_origins: copy_texts(&args.allowed_origin),
            },
        ),
    )
}

/// What is known when a command is run: whether the dashboard is enabled, which server already runs,
/// the number of this process, whether Tailscale can be had, what looking for the Cloudflare client
/// came to, and whether this is a debug build.
#[derive(Debug)]
pub struct RunFacts {
    pub dashboard_enabled: bool,
    pub running: Option<u32>,
    pub own_pid: u32,
    pub tailscale_available: bool,
    pub cloudflared: Result<(), String>,
    pub debug_build: bool,
}

/// What a command comes to.
#[derive(Debug)]
pub enum RunPlan {
    Stop,
    Status,
    Restart,
    Start(StartPlan),
}

/// Whether a plan is what a command comes to.
pub open spec fn run_outcome(r: Result<RunPlan, String>, profile: Seq<char>, args: ServeArgs, facts: RunFacts) -> bool {
    match run_check(args, facts.dashboard_enabled, facts.running, facts.own_pid) {
        Err(e) => r matches Err(f) && f@ == e,
        Ok(RunStep::Stop) => r matches Ok(p) && p is Stop,
        Ok(RunStep::Status) => r matches Ok(p) && p is Status,
        Ok(RunStep::Restart) => r matches Ok(p) && p is Restart,
        Ok(RunStep::Start) => match r {
            Ok(RunPlan::Start(p)) => start_outcome(Ok(p), profile, args, needed_client(args, facts), facts.debug_build),
            Ok(_) => false,
            Err(e) => start_outcome(Err(e), profile, args, needed_client(args, facts), facts.debug_build),
        },
    }
}

/// What looking for the Cloudflare client came to, where it is needed.
pub open spec fn needed_client(args: ServeArgs, facts: RunFacts) -> Result<(), String> {
    if args.remote && (args.no_tailscale || args.tunnel_name is Some || !facts.tailscale_available) {
        facts.cloudflared
    } else {
        Ok(())
    }
}

/// Decides what a command comes to.
pub fn run(profile: &str, args: &ServeArgs, facts: RunFacts) -> (r: Result<RunPlan, String>)
    requires
        args.consistent(),
    ensures
        run_outcome(r, profile@, *args, facts),
{
    match check_run(args, facts.dashboard_enabled, facts.running, facts.own_pid) {
        Err(e) => Err(e),
        Ok(RunStep::Stop) => Ok(RunPlan::Stop),
        Ok(RunStep::Status) => Ok(RunPlan::Status),
        Ok(RunStep::Restart) => Ok(RunPlan::Restart),
        Ok(RunStep::Start) => {
            let client = if needs_cloudflared(args, facts.tailscale_available) {
                facts.cloudflared
            } else {
                Ok(())
            };
            match plan_start(profile, args, client, facts.debug_build) {
                Ok(p) => Ok(RunPlan::Start(p)),
                Err(e) => Err(e),
            }
        },
    }
}

/// A server behind a public tunnel is never started without a token, a passphrase, and a bind to
/// the machine itself.
pub proof fn law_public_server_is_guarded(
    profile: Seq<char>,
    args: ServeArgs,
    running: Option<u32>,
    own_pid: u32,
    cloudflared: Result<(), String>,
    debug_build: bool,
    r: Result<StartPlan, String>,
)
    requires
        args.remote,
        run_check(args, true, running, own_pid) == Ok::<RunStep, Seq<char>>(RunStep::Start),
        start_outcome(r, profile, args, cloudflared, debug_build),
        r is Ok,
    ensures
        args.auth_mode() == AuthMode::Token,
        args.passphrase is Some,
        r->Ok_0 matches StartPlan::Foreground(_, c) ==> c.host@ == "127.0.0.1"@ && !c.no_auth,
{
}

/// What a daemon is started again with.
#[derive(Debug)]
pub struct RestartPlan {
    pub pid: u32,
    pub profile: String,
    pub args: ServeArgs,
}

/// The words about a daemon whose launch is not its own.
pub open spec fn stale_launch_words(recorded: u32, running: u32) -> Seq<char> {
    "serve.launch records PID "@ + decimal(recorded as nat) + " but the running daemon is PID "@ + decimal(
        running as nat,
    ) + "; refusing to restart stale state."@
}

/// The words about a daemon whose passphrase is lost.
pub open spec fn lost_passphrase_words(remote: bool) -> Seq<char> {
    "Cannot restart: this daemon uses "@ + (if remote {
        "remote"@
    } else {
        "passphrase"@
    })
        + " auth but no passphrase is recoverable (set AOE_SERVE_PASSPHRASE).\nLeaving the running daemon untouched."@
}

/// The words about a daemon whose launch cannot be read.
pub open spec fn no_launch_words(e: Seq<char>) -> Seq<char> {
    "Cannot restart: no usable launch state ("@ + e
        + ").\nThis daemon was not started by `aoe serve --daemon`; foreground\nor service-supervised daemons must be restarted by their manager."@
}

/// How a launch is checked before the daemon is stopped.
pub open spec fn restart_check(launch: ServeLaunch, running: u32, has_passphrase: bool) -> Result<(), Seq<char>> {
    if launch.pid != running {
        Err(stale_launch_words(launch.pid, running))
    } else if needs_passphrase(launch) && !has_passphrase {
        Err(lost_passphrase_words(launch.remote))
    } else {
        config_check(
            launch.auth_mode,
            has_passphrase,
            launch.behind_proxy,
            launch.remote,
            launch.host@,
            texts(launch.allowed_host@),
            texts(launch.allowed_origin@),
        )
    }
}

/// What starting a daemon again comes to.
pub open spec fn restart_outcome(
    r: Result<RestartPlan, String>,
    running: Option<u32>,
    launch: Result<ServeLaunch, String>,
    passphrase: Option<String>,
) -> bool {
    match running {
        None => r matches Err(e) && e@
            == "No running aoe serve daemon to restart.\nStart one with: aoe serve --daemon"@,
        Some(pid) => match launch {
            Err(e) => r matches Err(f) && f@ == no_launch_words(e@),
            Ok(l) => match restart_check(l, pid, passphrase is Some) {
                Err(e) => r matches Err(f) && f@ == e,
                Ok(_) => r matches Ok(p) && p.pid == pid && p.profile == l.profile && l.replayed_by(
                    p.args,
                    passphrase,
                ),
            },
        },
    }
}

/// Decides whether a daemon can be started again, before it is stopped: whatever is needed for it
/// is at hand, and its configuration still starts.
pub fn restart_daemon(running: Option<u32>, launch: Result<ServeLaunch, String>, passphrase: Option<String>) -> (r:
    Result<RestartPlan, String>)
    ensures
        restart_outcome(r, running, launch, passphrase),
{
    let pid: u32 = match running {
        Some(pid) => pid,
        None => {
            return Err(
                "No running aoe serve daemon to restart.\nStart one with: aoe serve --daemon".to_owned(),
            );
        },
    };
    let launch = match launch {
        Ok(l) => l,
        Err(e) => {
            return Err(
                join3(
                    "Cannot restart: no usable launch state (",
                    e.as_str(),
                    ").\nThis daemon was not started by `aoe serve --daemon`; foreground\nor service-supervised daemons must be restarted by their manager.",
                ),
            );
        },
    };
    if launch.pid != pid {
        return Err(
            "serve.launch records PID ".to_owned().concat(show(launch.pid as u64).as_str()).concat(
                " but the running daemon is PID ",
            ).concat(show(pid as u64).as_str()).concat("; refusing to restart stale state."),
        );
    }
    if launch_needs_passphrase(&launch) && passphrase.is_none() {
        let kind = if launch.remote {
            "remote"
        } else {
            "passphrase"
        };
        return Err(
            join3(
                "Cannot restart: this daemon uses ",
                kind,
                " auth but no passphrase is recoverable (set AOE_SERVE_PASSPHRASE).\nLeaving the running daemon untouched.",
            ),
        );
    }
    match validate_config(
        launch.auth_mode,
        passphrase.is_some(),
        launch.behind_proxy,
        launch.remote,
        launch.host.as_str(),
        &launch.allowed_host,
        &launch.allowed_origin,
    ) {
        Ok(_) => {},
        Err(e) => {
            return Err(e);
        },
    }
    let args = launch.to_serve_args(passphrase);
    Ok(RestartPlan { pid, profile: launch.profile, args })
}

/// A daemon is stopped for a restart only where its options start it again: they name a mode once,
/// and a daemon that needs a passphrase has one.
pub proof fn law_restart_never_strands(
    r: Result<RestartPlan, String>,
    running: Option<u32>,
    launch: ServeLaunch,
    passphrase: Option<String>,
)
    requires
        restart_outcome(r, running, Ok(launch), passphrase),
        r is Ok,
    ensures
        needs_passphrase(launch) ==> r->Ok_0.args.passphrase is Some,
        r->Ok_0.args.consistent(),
        config_check(
            r->Ok_0.args.auth_mode(),
            r->Ok_0.args.passphrase is Some,
            r->Ok_0.args.behind_proxy,
            r->Ok_0.args.remote,
            r->Ok_0.args.host@,
            texts(r->Ok_0.args.allowed_host@),
            texts(r->Ok_0.args.allowed_origin@),
        ) is Ok,
{
}

/// The passphrase of a daemon: from its file, else from the environment, where it is not empty.
pub open spec fn recalled(file: Option<Seq<char>>, env: Option<Seq<char>>) -> Option<Seq<char>> {
    if file is Some && trimmed(file->0).len() > 0 {
        Some(trimmed(file->0))
    } else if env is Some && env->0.len() > 0 {
        env
    } else {
        None
    }
}

/// The passphrase of a daemon. `file` is what its file holds, `env` what the environment says.
pub fn recall_serve_passphrase(file: Option<&str>, env: Option<&str>) -> (r: Option<String>)
    ensures
        text_of(r) == recalled(str_of(file), str_of(env)),
{
    if let Some(raw) = file {
        let t = trim(raw);
        if !is_empty(t.as_str()) {
            return Some(t);
        }
    }
    if let Some(p) = env {
        if !is_empty(p) {
            return Some(p.to_owned());
        }
    }
    None
}

/// An address under which the dashboard is reached.
#[derive(Debug, Clone)]
pub struct ServeUrl {
    /// What it is called; the first one has no name.
    pub label: Option<String>,
    pub url: String,
}

/// A text without the carriage returns at its end.
pub open spec fn without_returns(s: Seq<char>) -> Seq<char>
    decreases s.len(),
{
    if s.len() > 0 && s.last() == '\r' {
        without_returns(s.drop_last())
    } else {
        s
    }
}

fn trim_returns(s: &str) -> (r: String)
    ensures
        r@ == without_returns(s@),
{
    let v = chars_of(s);
    let mut n: usize = v.len();
    assert(v@.subrange(0, n as int) =~= s@);
    while n > 0 && v[n - 1] == '\r'
        invariant
            v@ == s@,
            n <= v@.len(),
            without_returns(v@.subrange(0, n as int)) == without_returns(s@),
        decreases n,
    {
        assert(v@.subrange(0, n as int).drop_last() =~= v@.subrange(0, n - 1));
        n = n - 1;
    }
    string_of(&v, 0, n)
}

/// The address that a line writes; none in an empty line. The first line is an address alone, any
/// other may have a name and a tab before it.
pub open spec fn url_of(line: Seq<char>, first: bool) -> Option<(Option<Seq<char>>, Seq<char>)> {
    let t = without_returns(line);
    if t.len() == 0 {
        None
    } else if first {
        Some((None, t))
    } else {
        match cut(t, '\t') {
            Some((label, url)) => Some((Some(label), url)),
            None => Some((None, t)),
        }
    }
}

/// The addresses that the first `n` lines write.
pub open spec fn urls_of(lines: Seq<Seq<char>>, n: nat) -> Seq<(Option<Seq<char>>, Seq<char>)>
    decreases n,
{
    if n == 0 {
        Seq::empty()
    } else {
        let before = urls_of(lines, (n - 1) as nat);
        match url_of(lines[n - 1], n == 1) {
            Some(u) => before.push(u),
            None => before,
        }
    }
}

/// The names and addresses of a list.
pub open spec fn url_views(v: Seq<ServeUrl>) -> Seq<(Option<Seq<char>>, Seq<char>)> {
    Seq::new(v.len(), |i: int| (text_of(v[i].label), v[i].url@))
}

/// The addresses that a file holds; none where there is no file.
pub fn read_serve_urls(raw: Option<&str>) -> (r: Vec<ServeUrl>)
    ensures
        url_views(r@) == match raw {
            Some(s) => urls_of(pieces(s@, '\n'), pieces(s@, '\n').len()),
            None => Seq::empty(),
        },
{
    let mut out: Vec<ServeUrl> = Vec::new();
    let text = match raw {
        Some(s) => s,
        None => {
            assert(url_views(out@) =~= Seq::<(Option<Seq<char>>, Seq<char>)>::empty());
            return out;
        },
    };
    let lines = split(text, '\n');
    let ghost all = pieces(text@, '\n');
    let mut i: usize = 0;
    assert(url_views(out@) =~= urls_of(all, 0));
    while i < lines.len()
        invariant
            i <= lines@.len(),
            all == texts(lines@),
            url_views(out@) == urls_of(all, i as nat),
        decreases lines@.len() - i,
    {
        assert(all[i as int] == lines@[i as int]@);
        let ghost before = out@;
        let line = trim_returns(lines[i].as_str());
        if !is_empty(line.as_str()) {
            let u = if i == 0 {
                ServeUrl { label: None, url: line }
            } else {
                match split_once(line.as_str(), '\t') {
                    Some((label, url)) => ServeUrl { label: Some(label), url },
                    None => ServeUrl { label: None, url: line },
                }
            };
            let ghost view = (text_of(u.label), u.url@);
            out.push(u);
            assert(url_views(out@) =~= url_views(before).push(view));
        }
        i = i + 1;
    }
    out
}

/// The mode of a server that its file names.
pub open spec fn mode_label(raw: Option<Seq<char>>) -> Option<Seq<char>> {
    match raw {
        Some(s) => {
            let t = trimmed(s);
            if t == "local"@ || t == "tunnel"@ || t == "tailscale"@ {
                Some(t)
            } else {
                None
            }
        },
        None => None,
    }
}

/// The mode of a server that its file names; none where there is no file or it names none.
pub fn read_serve_mode_label(raw: Option<&str>) -> (r: Option<&'static str>)
    ensures
        str_of(r) == mode_label(str_of(raw)),
{
    match raw {
        Some(s) => {
            let t = trim(s);
            if same(t.as_str(), "local") {
                Some("local")
            } else if same(t.as_str(), "tunnel") {
                Some("tunnel")
            } else if same(t.as_str(), "tailscale") {
                Some("tailscale")
            } else {
                None
            }
        },
        None => None,
    }
}

/// The mode of the server that was last read, and which server that was.
#[derive(Debug)]
pub struct ModeCache {
    pub entry: Option<(u32, Option<&'static str>)>,
}

impl ModeCache {
    /// Whether the mode of a server is kept.
    pub open spec fn knows(&self, pid: u32) -> bool {
        self.entry matches Some(e) && e.0 == pid
    }

    /// Whether the file has to be read for the mode of a server.
    pub fn needs_read(&self, pid: Option<u32>) -> (r: bool)
        ensures
            r == (pid is Some && !self.knows(pid->0)),
    {
        match pid {
            Some(p) => match self.entry {
                Some((q, _)) => q != p,
                None => true,
            },
            None => false,
        }
    }
}

/// The mode of the running server, read once for each. `raw` is what its file holds, and counts only
/// where the mode is not kept yet.
pub fn cached_serve_mode_label(cache: &mut ModeCache, pid: Option<u32>, raw: Option<&str>) -> (r: Option<
    &'static str,
>)
    ensures
        match pid {
            None => r is None && *final(cache) == *old(cache),
            Some(p) => if old(cache).knows(p) {
                r == (old(cache).entry->0).1 && *final(cache) == *old(cache)
            } else {
                str_of(r) == mode_label(str_of(raw)) && final(cache).entry == Some((p, r))
            },
        },
{
    let p: u32 = match pid {
        Some(p) => p,
        None => {
            return None;
        },
    };
    if let Some((q, label)) = cache.entry {
        if q == p {
            return label;
        }
    }
    let label = read_serve_mode_label(raw);
    cache.entry = Some((p, label));
    label
}

/// Whether a text stands in another.
pub open spec fn holds_text(s: Seq<char>, x: Seq<char>) -> bool {
    exists|i: int| 0 <= i && i + x.len() <= s.len() && #[trigger] s.subrange(i, i + x.len()) == x
}

fn contains_text(s: &str, x: &str) -> (r: bool)
    ensures
        r == holds_text(s@, x@),
{
    let v = chars_of(s);
    let w = chars_of(x);
    let n: usize = v.len();
    let m: usize = w.len();
    if m > n {
        return false;
    }
    let mut i: usize = 0;
    while i <= n - m
        invariant
            v@ == s@,
            w@ == x@,
            n == v@.len(),
            m == w@.len(),
            m <= n,
            i <= n - m + 1,
            forall|k: int| 0 <= k < i ==> #[trigger] s@.subrange(k, k + m) != x@,
        decreases n - m + 1 - i,
    {
        let mut j: usize = 0;
        while j < m && v[i + j] == w[j]
            invariant
                v@ == s@,
                w@ == x@,
                n == v@.len(),
                m == w@.len(),
                i + m <= n,
                j <= m,
                forall|k: int| 0 <= k < j ==> v@[i + k] == w@[k],
            decreases m - j,
        {
            j = j + 1;
        }
        if j == m {
            assert(s@.subrange(i as int, i + m) =~= x@);
            return true;
        }
        assert(s@.subrange(i as int, i + m)[j as int] != x@[j as int]);
        if i == n - m {
            assert forall|k: int| 0 <= k && k + x@.len() <= s@.len() implies #[trigger] s@.subrange(k, k + x@.len())
                != x@ by {
                if k < i {
                    assert(s@.subrange(k, k + m) != x@);
                }
            }
            return false;
        }
        i = i + 1;
    }
    false
}

/// Whether a command line is one of this program.
pub open spec fn aoe_command(cmdline: Option<Seq<char>>) -> bool {
    match cmdline {
        Some(c) => holds_text(c, "aoe"@) || holds_text(c, "agent-of-empires"@),
        None => true,
    }
}

/// Whether a process is one of this program, by its command line. Where that cannot be had, the
/// process is taken to be.
pub fn verify_pid_is_aoe(cmdline: Option<&str>) -> (r: bool)
    ensures
        r == aoe_command(str_of(cmdline)),
{
    match cmdline {
        Some(c) => contains_text(c, "aoe") || contains_text(c, "agent-of-empires"),
        None => true,
    }
}

/// The integer that a text writes: an optional sign, then one or more digits.
pub open spec fn integer_of(s: Seq<char>) -> Option<int> {
    if s.len() > 0 && s[0] == '-' {
        let body = s.skip(1);
        if body.len() > 0 && all_digits(body) {
            Some(-(digits_value(body) as int))
        } else {
            None
        }
    } else {
        match number(s) {
            Some(n) => Some(n as int),
            None => None,
        }
    }
}

/// The process number that a text writes.
pub open spec fn pid_of(s: Seq<char>) -> Option<int> {
    match integer_of(s) {
        Some(n) => if i32::MIN <= n <= i32::MAX {
            Some(n)
        } else {
            None
        },
        None => None,
    }
}

fn parse_pid(s: &str) -> (r: Option<i32>)
    ensures
        match r {
            Some(n) => pid_of(s@) == Some(n as int),
            None => pid_of(s@) is None,
        },
{
    let v = chars_of(s);
    let n: usize = v.len();
    if n > 0 && v[0] == '-' {
        let body = string_of(&v, 1, n);
        assert(body@ =~= s@.skip(1));
        if n > 1 && v[1] == '+' {
            assert(body@[0] == '+');
            assert(!crate::text::is_digit(body@[0]));
            return None;
        }
        proof {
            if body@.len() > 0 {
                assert(body@[0] == v@[1]);
            }
        }
        return match parse_number(body.as_str()) {
            Some(m) => if m <= 0x8000_0000 {
                Some((-(m as i64)) as i32)
            } else {
                None
            },
            None => None,
        };
    }
    match parse_number(s) {
        Some(m) => if m <= 0x7FFF_FFFF {
            Some(m as i32)
        } else {
            None
        },
        None => None,
    }
}

/// A process number as an unsigned one.
pub open spec fn unsigned_pid(n: int) -> u32 {
    if n >= 0 {
        n as u32
    } else {
        (n + 0x1_0000_0000) as u32
    }
}

fn to_unsigned(n: i32) -> (r: u32)
    ensures
        r == unsigned_pid(n as int),
{
    if n >= 0 {
        n as u32
    } else {
        (n as i64 + 0x1_0000_0000) as u32
    }
}

/// Whether a daemon runs.
#[derive(Debug, Clone, Copy, PartialEq, Eq, Structural)]
pub enum DaemonProbe {
    /// No number is kept.
    NoDaemon,
    /// It runs.
    Running(u32),
    /// The number kept is that of no process, or of another program: its files are to be removed.
    Stale,
}

/// The process number that the file of the server holds.
pub fn recorded_pid(pid_file: Option<&str>) -> (r: Option<i32>)
    ensures
        match r {
            Some(n) => pid_file is Some && pid_of(trimmed(pid_file->0@)) == Some(n as int),
            None => pid_file is None || pid_of(trimmed(pid_file->0@)) is None,
        },
{
    match pid_file {
        Some(s) => parse_pid(trim(s).as_str()),
        None => None,
    }
}

/// Tells whether a daemon runs: a number is kept for it, a process has the number (`alive`), and it
/// is one of this program (`cmdline` is its command line).
pub fn daemon_pid(pid_file: Option<&str>, alive: bool, cmdline: Option<&str>) -> (r: DaemonProbe)
    ensures
        r == match str_of(pid_file) {
            None => DaemonProbe::NoDaemon,
            Some(s) => match pid_of(trimmed(s)) {
                None => DaemonProbe::NoDaemon,
                Some(n) => if alive && aoe_command(str_of(cmdline)) {
                    DaemonProbe::Running(unsigned_pid(n))
                } else {
                    DaemonProbe::Stale
                },
            },
        },
{
    match recorded_pid(pid_file) {
        None => DaemonProbe::NoDaemon,
        Some(n) => if alive && verify_pid_is_aoe(cmdline) {
            DaemonProbe::Running(to_unsigned(n))
        } else {
            DaemonProbe::Stale
        },
    }
}

/// Whether the file of the server is that of this process: only then are the files removed when
/// the server ends.
pub fn pid_file_is_ours(pid_file: Option<&str>, own_pid: u32) -> (r: bool)
    ensures
        r == (pid_file is Some && number(trimmed(pid_file->0@)) == Some(own_pid as nat)),
{
    match pid_file {
        Some(s) => match parse_number(trim(s).as_str()) {
            Some(n) => n == own_pid as u64,
            None => false,
        },
        None => false,
    }
}

/// Which process is to be stopped; an error where no number is kept, or none that can be read.
pub fn stop_target(pid_file: Option<&str>, path: &str) -> (r: Result<i32, String>)
    ensures
        match str_of(pid_file) {
            None => r matches Err(e) && e@ == "No running daemon found (no PID file at "@ + path@ + ")"@,
            Some(s) => match pid_of(trimmed(s)) {
                Some(n) => r matches Ok(m) && m as int == n,
                None => r matches Err(e) && e@ == "Invalid PID in "@ + path@ + ": "@ + trimmed(s),
            },
        },
{
    match pid_file {
        None => Err(join3("No running daemon found (no PID file at ", path, ")")),
        Some(s) => {
            let t = trim(s);
            match parse_pid(t.as_str()) {
                Some(n) => Ok(n),
                None => Err("Invalid PID in ".to_owned().concat(path).concat(": ").concat(t.as_str())),
            }
        },
    }
}

/// The error of a process that is another program's: only the file of the number is removed.
pub fn stop_foreign(pid: i32) -> (r: String)
    ensures
        r@ == "PID "@ + signed_decimal(pid as int)
            + " belongs to a different process (stale PID file). Cleaned up."@,
{
    join3(
        "PID ",
        show_signed(pid as i64).as_str(),
        " belongs to a different process (stale PID file). Cleaned up.",
    )
}

/// What asking a process to end came to.
#[derive(Debug)]
pub enum SignalResult {
    Sent,
    NoSuchProcess,
    Failed(String),
}

/// What follows asking a process to end.
#[derive(Debug)]
pub enum StopStep {
    /// Wait until it is gone, then remove its files.
    AwaitExit,
    /// It was gone: remove its files.
    CleanUp,
}

/// Decides what follows asking a process to end.
pub fn stop_daemon(pid: i32, result: SignalResult) -> (r: Result<StopStep, String>)
    ensures
        match result {
            SignalResult::Sent => r matches Ok(s) && s is AwaitExit,
            SignalResult::NoSuchProcess => r matches Ok(s) && s is CleanUp,
            SignalResult::Failed(w) => r matches Err(e) && e@ == "Failed to stop daemon (PID "@ + signed_decimal(
                pid as int,
            ) + "): "@ + w@,
        },
{
    match result {
        SignalResult::Sent => Ok(StopStep::AwaitExit),
        SignalResult::NoSuchProcess => Ok(StopStep::CleanUp),
        SignalResult::Failed(w) => Err(
            "Failed to stop daemon (PID ".to_owned().concat(show_signed(pid as i64).as_str()).concat("): ").concat(
                w.as_str(),
            ),
        ),
    }
}

/// What follows a look at a process that was asked to end.
#[derive(Debug, Clone, Copy, PartialEq, Eq, Structural)]
pub enum ExitStep {
    /// It is gone.
    Exited,
    /// It had its time, and is killed.
    Kill,
    /// It has time left.
    Wait,
}

/// Decides what follows a look at a process that was asked to end.
pub fn exit_step(gone: bool, past_deadline: bool) -> (r: ExitStep)
    ensures
        r == if gone {
            ExitStep::Exited
        } else if past_deadline {
            ExitStep::Kill
        } else {
            ExitStep::Wait
        },
{
    if gone {
        ExitStep::Exited
    } else if past_deadline {
        ExitStep::Kill
    } else {
        ExitStep::Wait
    }
}

/// The line about one more address.
pub open spec fn extra_line(u: (Option<Seq<char>>, Seq<char>)) -> Seq<char> {
    "        "@ + (match u.0 {
        Some(l) => l,
        None => "alt"@,
    }) + " "@ + u.1
}

/// The lines of a report on a running daemon.
pub open spec fn report(
    pid: u32,
    mode: Option<Seq<char>>,
    urls: Seq<(Option<Seq<char>>, Seq<char>)>,
    log: Option<Seq<char>>,
) -> Seq<Seq<char>> {
    let head = seq![
        "Daemon: running (PID "@ + decimal(pid as nat) + ")"@,
        "Mode:   "@ + (match mode {
            Some(m) => m,
            None => "unknown"@,
        }),
    ];
    let first = if urls.len() == 0 {
        seq!["URL:    (serve.url missing)"@]
    } else {
        seq!["URL:    "@ + urls[0].1]
    };
    let more = if urls.len() == 0 {
        Seq::empty()
    } else {
        Seq::new((urls.len() - 1) as nat, |i: int| extra_line(urls[i + 1]))
    };
    let last = match log {
        Some(p) => seq!["Log:    "@ + p],
        None => Seq::empty(),
    };
    head + first + more + last
}

/// Reports on the running daemon; an error where none runs.
pub fn print_local_status(pid: Option<u32>, mode: Option<&str>, urls: &Vec<ServeUrl>, log: Option<&str>) -> (r: Result<
    Vec<String>,
    String,
>)
    ensures
        match pid {
            None => r matches Err(e) && e@ == "Daemon: not running\nStart one with: aoe serve --daemon"@,
            Some(p) => r matches Ok(lines) && texts(lines@) == report(p, str_of(mode), url_views(urls@), str_of(log)),
        },
{
    let p: u32 = match pid {
        Some(p) => p,
        None => {
            return Err("Daemon: not running\nStart one with: aoe serve --daemon".to_owned());
        },
    };
    let ghost views = url_views(urls@);
    let mut out: Vec<String> = Vec::new();
    out.push(join3("Daemon: running (PID ", show(p as u64).as_str(), ")"));
    let mode_name = match mode {
        Some(m) => m,
        None => "unknown",
    };
    out.push(join2("Mode:   ", mode_name));
    let ghost head = texts(out@);
    if urls.len() == 0 {
        out.push("URL:    (serve.url missing)".to_owned());
    } else {
        out.push(join2("URL:    ", urls[0].url.as_str()));
        let ghost upto = texts(out@);
        let mut i: usize = 1;
        let ghost more = Seq::new((views.len() - 1) as nat, |i: int| extra_line(views[i + 1]));
        assert(upto + more.take(0) =~= upto);
        while i < urls.len()
            invariant
                1 <= i <= urls@.len(),
                views == url_views(urls@),
                more == Seq::new((views.len() - 1) as nat, |i: int| extra_line(views[i + 1])),
                texts(out@) == upto + more.take(i - 1),
            decreases urls@.len() - i,
        {
            let label = match &urls[i].label {
                Some(l) => l.as_str(),
                None => "alt",
            };
            let ghost before = texts(out@);
            out.push("        ".to_owned().concat(label).concat(" ").concat(urls[i].url.as_str()));
            i = i + 1;
            proof {
                assert(views[i - 1] == (text_of(urls@[i - 1].label), urls@[i - 1].url@));
                assert(more[i - 2] == extra_line(views[i - 1]));
                assert(texts(out@) =~= before.push(more[i - 2]));
                assert(upto + more.take(i - 1) =~= (upto + more.take(i - 2)).push(more[i - 2]));
            }
        }
        assert(more.take(i - 1) =~= more);
    }
    if let Some(l) = log {
        out.push(join2("Log:    ", l));
    }
    assert(texts(out@) =~= report(p, str_of(mode), views, str_of(log)));
    Ok(out)
}

/// The report on a daemon elsewhere: where it is, and whether a token for it is at hand; an error
/// where it cannot be reached.
pub fn print_status(base_url: &str, has_token: bool, health: Result<(), String>) -> (r: Result<Vec<String>, String>)
    ensures
        match health {
            Ok(_) => r matches Ok(lines) && texts(lines@) == seq![
                "Daemon: reachable (remote via AOE_DAEMON_URL)"@,
                "URL:    "@ + base_url@,
                "Token:  "@ + (if has_token {
                    "set"@
                } else {
                    "unset"@
                }),
            ],
            Err(w) => r matches Err(e) && e@ == "AOE_DAEMON_URL is set but the daemon at "@ + base_url@
                + " is unreachable ("@ + w@ + "); check the address or unset to use a local daemon"@,
        },
{
    match health {
        Ok(_) => {
            let mut out: Vec<String> = Vec::new();
            out.push("Daemon: reachable (remote via AOE_DAEMON_URL)".to_owned());
            out.push(join2("URL:    ", base_url));
            let token = if has_token {
                "set"
            } else {
                "unset"
            };
            out.push(join2("Token:  ", token));
            assert(texts(out@) =~= seq![
                "Daemon: reachable (remote via AOE_DAEMON_URL)"@,
                "URL:    "@ + base_url@,
                "Token:  "@ + token@,
            ]);
            Ok(out)
        },
        Err(w) => Err(
            "AOE_DAEMON_URL is set but the daemon at ".to_owned().concat(base_url).concat(" is unreachable (").concat(
                w.as_str(),
            ).concat("); check the address or unset to use a local daemon"),
        ),
    }
}

} // verus!
