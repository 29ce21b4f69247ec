//! The rules of the dashboard server's command line: which combinations of options start, how a
//! daemon is launched, and how its launch is replayed.

use vstd::prelude::*;

use crate::hosts::{
    host_checks, host_is_localhost, localhost, origin_checks, validate_allowed_hosts, validate_allowed_origins,
};
use crate::profile_config::outcome;
use crate::settings::validate::first_error;
use crate::text::{
    chars_of, copy_text, copy_texts, decimal, is_empty, join3, join_path, lemma_texts_push, path_in, same, show,
    str_of, text_of, texts,
};

verus! {

broadcast use lemma_texts_push;

/// How the dashboard authenticates requests.
#[derive(Debug, Clone, Copy, PartialEq, Eq, Structural)]
pub enum AuthMode {
    /// A random token in the URL.
    Token,
    /// A passphrase, and no token.
    Passphrase,
    /// Nothing.
    NoAuth,
}

impl AuthMode {
    /// The name of a mode on the command line.
    pub open spec fn cli_name(&self) -> Seq<char> {
        match *self {
            AuthMode::Token => "token"@,
            AuthMode::Passphrase => "passphrase"@,
            AuthMode::NoAuth => "none"@,
        }
    }

    /// The name of the mode on the command line.
    pub fn as_cli_str(self) -> (r: &'static str)
        ensures
            r@ == self.cli_name(),
    {
        match self {
            AuthMode::Token => "token",
            AuthMode::Passphrase => "passphrase",
            AuthMode::NoAuth => "none",
        }
    }

    /// The mode with a name.
    pub open spec fn named(s: Seq<char>) -> Option<AuthMode> {
        if s == "token"@ {
            Some(AuthMode::Token)
        } else if s == "passphrase"@ {
            Some(AuthMode::Passphrase)
        } else if s == "none"@ {
            Some(AuthMode::NoAuth)
        } else {
            None
        }
    }

    /// The mode with a name.
    pub fn from_cli_str(s: &str) -> (r: Option<AuthMode>)
        ensures
            r == AuthMode::named(s@),
    {
        if same(s, "token") {
            Some(AuthMode::Token)
        } else if same(s, "passphrase") {
            Some(AuthMode::Passphrase)
        } else if same(s, "none") {
            Some(AuthMode::NoAuth)
        } else {
            None
        }
    }
}

/// The name of a mode names that mode.
pub proof fn law_auth_mode_name_round_trips(m: AuthMode)
    ensures
        AuthMode::named(m.cli_name()) == Some(m),
{
    reveal_strlit("token");
    reveal_strlit("passphrase");
    reveal_strlit("none");
    assert("token"@.len() == 5 && "passphrase"@.len() == 10 && "none"@.len() == 4);
}

/// The options of the command.
#[derive(Debug)]
pub struct ServeArgs {
    pub port: Option<u16>,
    pub host: String,
    pub auth: Option<AuthMode>,
    pub no_auth: bool,
    pub behind_proxy: bool,
    pub allowed_host: Vec<String>,
    pub allowed_origin: Vec<String>,
    pub read_only: bool,
    pub remote: bool,
    pub tunnel_name: Option<String>,
    pub no_tailscale: bool,
    pub tunnel_url: Option<String>,
    pub daemon: bool,
    pub stop: bool,
    pub status: bool,
    pub passphrase: Option<String>,
    pub open: bool,
    pub daemon_child: bool,
    pub restart: bool,
}

/// The port to listen on: the given one, else one for debug builds and one for release builds.
pub open spec fn port_of(port: Option<u16>, debug_build: bool) -> u16 {
    match port {
        Some(p) => p,
        None => if debug_build {
            8081
        } else {
            8080
        },
    }
}

impl ServeArgs {
    /// The port to listen on. A debug build has a default of its own, so that it can run beside an
    /// installed release.
    pub fn resolved_port(&self, debug_build: bool) -> (r: u16)
        ensures
            r == port_of(self.port, debug_build),
    {
        match self.port {
            Some(p) => p,
            None => if debug_build {
                8081
            } else {
                8080
            },
        }
    }

    /// Whether the options name the mode at most once, as the command line makes sure.
    pub open spec fn consistent(&self) -> bool {
        !(self.auth is Some && self.no_auth)
    }

    /// The mode in effect.
    pub open spec fn auth_mode(&self) -> AuthMode {
        effective_mode(self.auth, self.no_auth)
    }
}

/// The mode in effect: the given one, none where that is asked for, else a token.
pub open spec fn effective_mode(auth: Option<AuthMode>, no_auth: bool) -> AuthMode {
    match auth {
        Some(m) => m,
        None => if no_auth {
            AuthMode::NoAuth
        } else {
            AuthMode::Token
        },
    }
}

/// The mode in effect. The two ways to give one exclude each other.
pub fn resolve_auth_mode(auth: Option<AuthMode>, no_auth: bool) -> (r: AuthMode)
    requires
        !(auth is Some && no_auth),
    ensures
        r == effective_mode(auth, no_auth),
{
    match auth {
        Some(m) => m,
        None => if no_auth {
            AuthMode::NoAuth
        } else {
            AuthMode::Token
        },
    }
}

/// How a combination of mode and options is checked.
pub open spec fn auth_check(
    mode: AuthMode,
    has_passphrase: bool,
    is_localhost: bool,
    behind_proxy: bool,
    remote: bool,
    host: Seq<char>,
) -> Result<(), Seq<char>> {
    if mode == AuthMode::Passphrase && !has_passphrase {
        Err(
            "--auth=passphrase requires --passphrase <VALUE> or AOE_SERVE_PASSPHRASE.\nWithout a passphrase there is no gate. Use --auth=none if that is intended."@,
        )
    } else if mode == AuthMode::NoAuth && has_passphrase {
        Err("--auth=none does not honor --passphrase; use --auth=passphrase instead."@)
    } else if mode != AuthMode::Token && !is_localhost && !behind_proxy {
        Err(
            "Refusing to start with --auth="@ + mode.cli_name() + " on "@ + host
                + ".\nReduced-auth modes on a non-loopback bind require --behind-proxy,\nwhich signals that an upstream reverse proxy terminates TLS and\nforwards the client IP via X-Forwarded-For / cf-connecting-ip."@,
        )
    } else if mode != AuthMode::Token && remote {
        Err(
            "Refusing to start with --auth="@ + mode.cli_name()
                + " in remote mode.\n--remote exposes the dashboard to the public internet and requires\nboth token auth and a passphrase. If you have an external reverse\nproxy, use --behind-proxy instead of --remote."@,
        )
    } else {
        Ok(())
    }
}

/// Refuses the combinations of mode and options that the server does not start with.
pub fn validate_auth_combination(
    auth_mode: AuthMode,
    has_passphrase: bool,
    is_localhost: bool,
    behind_proxy: bool,
    remote: bool,
    host: &str,
) -> (r: Result<(), String>)
    ensures
        outcome(r) == auth_check(auth_mode, has_passphrase, is_localhost, behind_proxy, remote, host@),
{
    if matches!(auth_mode, AuthMode::Passphrase) && !has_passphrase {
        return Err(
            "--auth=passphrase requires --passphrase <VALUE> or AOE_SERVE_PASSPHRASE.\nWithout a passphrase there is no gate. Use --auth=none if that is intended.".to_owned(),
        );
    }
    if matches!(auth_mode, AuthMode::NoAuth) && has_passphrase {
        return Err("--auth=none does not honor --passphrase; use --auth=passphrase instead.".to_owned());
    }
    let reduced = !matches!(auth_mode, AuthMode::Token);
    if reduced && !is_localhost && !behind_proxy {
        return Err(
            "Refusing to start with --auth=".to_owned().concat(auth_mode.as_cli_str()).concat(" on ").concat(host).concat(
                ".\nReduced-auth modes on a non-loopback bind require --behind-proxy,\nwhich signals that an upstream reverse proxy terminates TLS and\nforwards the client IP via X-Forwarded-For / cf-connecting-ip.",
            ),
        );
    }
    if reduced && remote {
        return Err(
            join3(
                "Refusing to start with --auth=",
                auth_mode.as_cli_str(),
                " in remote mode.\n--remote exposes the dashboard to the public internet and requires\nboth token auth and a passphrase. If you have an external reverse\nproxy, use --behind-proxy instead of --remote.",
            ),
        );
    }
    Ok(())
}

/// A combination that starts without a token has a passphrase or nothing by choice, is reached
/// only from the machine itself or through a proxy, and never through a public tunnel.
pub proof fn law_reduced_auth_is_contained(
    mode: AuthMode,
    has_passphrase: bool,
    is_localhost: bool,
    behind_proxy: bool,
    remote: bool,
    host: Seq<char>,
)
    requires
        auth_check(mode, has_passphrase, is_localhost, behind_proxy, remote, host) is Ok,
    ensures
        mode == AuthMode::Passphrase ==> has_passphrase,
        mode == AuthMode::NoAuth ==> !has_passphrase,
        mode != AuthMode::Token ==> (is_localhost || behind_proxy) && !remote,
{
}

/// How the need for an allowed host is checked.
pub open spec fn proxy_check(behind_proxy: bool, remote: bool, hosts: nat) -> Result<(), Seq<char>> {
    if behind_proxy && !remote && hosts == 0 {
        Err(
            "--behind-proxy requires --allowed-host <public-hostname>.\nThe reverse proxy forwards requests carrying your public Host header,\nwhich aoe cannot infer. Without it the DNS-rebinding gate would reject\nevery proxied request. Example:\n  aoe serve --host 127.0.0.1 --behind-proxy --allowed-host aoe.example.com"@,
        )
    } else {
        Ok(())
    }
}

/// Refuses a server behind a proxy of which the public host is not given. A tunnel gives its own.
pub fn validate_behind_proxy_allowlist(behind_proxy: bool, remote: bool, allowed_hosts: &[String]) -> (r: Result<
    (),
    String,
>)
    ensures
        outcome(r) == proxy_check(behind_proxy, remote, allowed_hosts@.len()),
{
    if behind_proxy && !remote && allowed_hosts.len() == 0 {
        return Err(
            "--behind-proxy requires --allowed-host <public-hostname>.\nThe reverse proxy forwards requests carrying your public Host header,\nwhich aoe cannot infer. Without it the DNS-rebinding gate would reject\nevery proxied request. Example:\n  aoe serve --host 127.0.0.1 --behind-proxy --allowed-host aoe.example.com".to_owned(),
        );
    }
    Ok(())
}

/// Whether a tunnel of Cloudflare is needed: it is asked for, by name or by leaving out Tailscale,
/// or Tailscale cannot be had.
pub fn cloudflared_required(no_tailscale: bool, has_tunnel_name: bool, tailscale_available: bool) -> (r: bool)
    ensures
        r == (no_tailscale || has_tunnel_name || !tailscale_available),
{
    no_tailscale || has_tunnel_name || !tailscale_available
}

/// The outcome of the first check that fails.
pub open spec fn and_check(a: Result<(), Seq<char>>, b: Result<(), Seq<char>>) -> Result<(), Seq<char>> {
    match a {
        Ok(_) => b,
        Err(e) => Err(e),
    }
}

/// How the configuration of a server is checked.
pub open spec fn config_check(
    mode: AuthMode,
    has_passphrase: bool,
    behind_proxy: bool,
    remote: bool,
    host: Seq<char>,
    hosts: Seq<Seq<char>>,
    origins: Seq<Seq<char>>,
) -> Result<(), Seq<char>> {
    and_check(
        auth_check(mode, has_passphrase, localhost(host), behind_proxy, remote, host),
        and_check(
            proxy_check(behind_proxy, remote, hosts.len()),
            and_check(
                first_error(hosts.len(), host_checks(hosts)),
                first_error(origins.len(), origin_checks(origins)),
            ),
        ),
    )
}

/// Checks the configuration of a server.
pub fn validate_config(
    mode: AuthMode,
    has_passphrase: bool,
    behind_proxy: bool,
    remote: bool,
    host: &str,
    hosts: &Vec<String>,
    origins: &Vec<String>,
) -> (r: Result<(), String>)
    ensures
        outcome(r) == config_check(
            mode,
            has_passphrase,
            behind_proxy,
            remote,
            host@,
            texts(hosts@),
            texts(origins@),
        ),
{
    let local = host_is_localhost(host);
    match validate_auth_combination(mode, has_passphrase, local, behind_proxy, remote, host) {
        Ok(_) => {},
        Err(e) => {
            return Err(e);
        },
    }
    match validate_behind_proxy_allowlist(behind_proxy, remote, hosts.as_slice()) {
        Ok(_) => {},
        Err(e) => {
            return Err(e);
        },
    }
    match validate_allowed_hosts(hosts.as_slice()) {
        Ok(_) => {},
        Err(e) => {
            return Err(e);
        },
    }
    validate_allowed_origins(origins.as_slice())
}

/// Where the number of the running server is kept.
pub fn pid_file_path(app_dir: &str) -> (r: String)
    ensures
        r@ == path_in(app_dir@, "serve.pid"@),
{
    join_path(app_dir, "serve.pid")
}

/// Where the launch of the running daemon is kept.
pub fn serve_launch_path(app_dir: &str) -> (r: String)
    ensures
        r@ == path_in(app_dir@, "serve.launch"@),
{
    join_path(app_dir, "serve.launch")
}

/// Whether the launch of a daemon is kept. `present` says whether the file is there; it is missing
/// where the directory could not be had.
pub fn serve_launch_exists(present: Option<bool>) -> (r: bool)
    ensures
        r == (present == Some(true)),
{
    match present {
        Some(p) => p,
        None => false,
    }
}

/// Where the output of a daemon goes: the configured file, within the directory where it is given
/// without one, else a default.
pub open spec fn log_path(app_dir: Seq<char>, configured: Option<Seq<char>>) -> Seq<char> {
    match configured {
        Some(p) => if p.len() > 0 && p[0] == '/' {
            p
        } else if p.len() > 0 {
            path_in(app_dir, p)
        } else {
            path_in(app_dir, "debug.log"@)
        },
        None => path_in(app_dir, "debug.log"@),
    }
}

/// Where the output of a daemon goes.
pub fn stdio_redirect_path(app_dir: &str, configured: Option<&str>) -> (r: String)
    ensures
        r@ == log_path(app_dir@, str_of(configured)),
{
    match configured {
        Some(p) => {
            let v = chars_of(p);
            if v.len() > 0 && v[0] == '/' {
                p.to_owned()
            } else if v.len() > 0 {
                join_path(app_dir, p)
            } else {
                join_path(app_dir, "debug.log")
            }
        },
        None => join_path(app_dir, "debug.log"),
    }
}

/// The files of a server that is gone.
pub open spec fn server_files(app_dir: Seq<char>) -> Seq<Seq<char>> {
    seq![
        path_in(app_dir, "serve.pid"@),
        path_in(app_dir, "serve.url"@),
        path_in(app_dir, "serve.mode"@),
        path_in(app_dir, "serve.passphrase"@),
        path_in(app_dir, "serve.launch"@),
    ]
}

/// The files to remove of a server that is gone.
pub fn stale_files(app_dir: &str) -> (r: Vec<String>)
    ensures
        texts(r@) == server_files(app_dir@),
{
    let mut v: Vec<String> = Vec::new();
    v.push(pid_file_path(app_dir));
    v.push(join_path(app_dir, "serve.url"));
    v.push(join_path(app_dir, "serve.mode"));
    v.push(join_path(app_dir, "serve.passphrase"));
    v.push(serve_launch_path(app_dir));
    assert(texts(v@) =~= server_files(app_dir@));
    v
}

/// The launch of a daemon, so that it can be started again the same way. The passphrase is not in
/// it.
#[derive(Debug, Clone)]
pub struct ServeLaunch {
    pub schema: u32,
    pub pid: u32,
    pub profile: String,
    pub host: String,
    pub port: u16,
    pub auth_mode: AuthMode,
    pub behind_proxy: bool,
    pub read_only: bool,
    pub remote: bool,
    pub tunnel_name: Option<String>,
    pub tunnel_url: Option<String>,
    pub no_tailscale: bool,
    pub allowed_host: Vec<String>,
    pub allowed_origin: Vec<String>,
}

/// The version of the kept launch.
pub const SERVE_LAUNCH_SCHEMA: u32 = 1;

impl ServeLaunch {
    /// Whether options start a daemon as this launch says.
    pub open spec fn replayed_by(&self, args: ServeArgs, passphrase: Option<String>) -> bool {
        &&& args.port == Some(self.port)
        &&& args.host == self.host
        &&& args.auth == Some(self.auth_mode)
        &&& !args.no_auth
        &&& args.behind_proxy == self.behind_proxy
        &&& args.read_only == self.read_only
        &&& args.remote == self.remote
        &&& args.tunnel_name == self.tunnel_name
        &&& args.no_tailscale == self.no_tailscale
        &&& args.tunnel_url == self.tunnel_url
        &&& args.daemon
        &&& !args.stop
        &&& !args.status
        &&& args.passphrase == passphrase
        &&& !args.open
        &&& !args.daemon_child
        &&& !args.restart
        &&& args.allowed_host@ == self.allowed_host@
        &&& args.allowed_origin@ == self.allowed_origin@
    }

    /// The options that start a daemon as this launch says.
    pub fn to_serve_args(&self, passphrase: Option<String>) -> (r: ServeArgs)
        ensures
            self.replayed_by(r, passphrase),
    {
        ServeArgs {
            port: Some(self.port),
            host: self.host.clone(),
            auth: Some(self.auth_mode),
            no_auth: false,
            behind_proxy: self.behind_proxy,
            allowed_host: copy_texts(&self.allowed_host),
            allowed_origin: copy_texts(&self.allowed_origin),
            read_only: self.read_only,
            remote: self.remote,
            tunnel_name: copy_text(&self.tunnel_name),
            no_tailscale: self.no_tailscale,
            tunnel_url: copy_text(&self.tunnel_url),
            daemon: true,
            stop: false,
            status: false,
            passphrase,
            open: false,
            daemon_child: false,
            restart: false,
        }
    }

    /// Whether this is the launch of a daemon with the given options.
    pub open spec fn records(&self, profile: Seq<char>, args: ServeArgs, pid: u32, debug_build: bool) -> bool {
        &&& self.schema == SERVE_LAUNCH_SCHEMA
        &&& self.pid == pid
        &&& self.profile@ == profile
        &&& self.host == args.host
        &&& self.port == port_of(args.port, debug_build)
        &&& self.auth_mode == args.auth_mode()
        &&& self.behind_proxy == args.behind_proxy
        &&& self.read_only == args.read_only
        &&& self.remote == args.remote
        &&& self.tunnel_name == args.tunnel_name
        &&& self.tunnel_url == args.tunnel_url
        &&& self.no_tailscale == args.no_tailscale
        &&& self.allowed_host@ == args.allowed_host@
        &&& self.allowed_origin@ == args.allowed_origin@
    }

    /// The launch of a daemon with the given options.
    pub fn of(profile: &str, args: &ServeArgs, pid: u32, debug_build: bool) -> (r: ServeLaunch)
        requires
            args.consistent(),
        ensures
            r.records(profile@, *args, pid, debug_build),
    {
        ServeLaunch {
            schema: SERVE_LAUNCH_SCHEMA,
            pid,
            profile: profile.to_owned(),
            host: args.host.clone(),
            port: args.resolved_port(debug_build),
            auth_mode: resolve_auth_mode(args.auth, args.no_auth),
            behind_proxy: args.behind_proxy,
            read_only: args.read_only,
            remote: args.remote,
            tunnel_name: copy_text(&args.tunnel_name),
            tunnel_url: copy_text(&args.tunnel_url),
            no_tailscale: args.no_tailscale,
            allowed_host: copy_texts(&args.allowed_host),
            allowed_origin: copy_texts(&args.allowed_origin),
        }
    }
}

/// Whether starting a daemon again takes a passphrase: it is public, or a passphrase is its gate.
pub open spec fn needs_passphrase(l: ServeLaunch) -> bool {
    l.remote || l.auth_mode == AuthMode::Passphrase
}

/// Whether starting a daemon again takes a passphrase.
pub fn launch_needs_passphrase(launch: &ServeLaunch) -> (r: bool)
    ensures
        r == needs_passphrase(*launch),
{
    launch.remote || matches!(launch.auth_mode, AuthMode::Passphrase)
}

/// The options of the child that runs as the daemon.
pub open spec fn argv(profile: Seq<char>, a: ServeArgs, debug_build: bool) -> Seq<Seq<char>> {
    let start = seq![
        "serve"@,
        "--daemon-child"@,
        "--port"@,
        decimal(port_of(a.port, debug_build) as nat),
        "--host"@,
        a.host@,
    ];
    start + flag(a.no_auth, "--no-auth"@) + option("--auth"@, mode_name(a.auth)) + flag(
        a.behind_proxy,
        "--behind-proxy"@,
    ) + flag(a.read_only, "--read-only"@) + flag(a.remote, "--remote"@) + option(
        "--tunnel-name"@,
        text_of(a.tunnel_name),
    ) + option("--tunnel-url"@, text_of(a.tunnel_url)) + flag(a.no_tailscale, "--no-tailscale"@) + repeated(
        "--allowed-host"@,
        texts(a.allowed_host@),
    ) + repeated("--allowed-origin"@, texts(a.allowed_origin@)) + option("--profile"@, nonblank(profile))
}

/// A text; none where it is empty.
pub open spec fn nonblank(s: Seq<char>) -> Option<Seq<char>> {
    if s.len() == 0 {
        None
    } else {
        Some(s)
    }
}

/// The name of a mode, where one is given.
pub open spec fn mode_name(m: Option<AuthMode>) -> Option<Seq<char>> {
    match m {
        Some(m) => Some(m.cli_name()),
        None => None,
    }
}

/// An option without a value.
pub open spec fn flag(set: bool, name: Seq<char>) -> Seq<Seq<char>> {
    if set {
        seq![name]
    } else {
        Seq::empty()
    }
}

/// An option with a value.
pub open spec fn option(name: Seq<char>, value: Option<Seq<char>>) -> Seq<Seq<char>> {
    match value {
        Some(v) => seq![name, v],
        None => Seq::empty(),
    }
}

/// An option that is given once for each of some values.
pub open spec fn repeated(name: Seq<char>, values: Seq<Seq<char>>) -> Seq<Seq<char>>
    decreases values.len(),
{
    if values.len() == 0 {
        Seq::empty()
    } else {
        repeated(name, values.drop_last()) + seq![name, values.last()]
    }
}

fn put_flag(v: &mut Vec<String>, set: bool, name: &str)
    ensures
        texts(final(v)@) == texts(old(v)@) + flag(set, name@),
{
    let ghost before = texts(v@);
    if set {
        v.push(name.to_owned());
    }
    assert(texts(v@) =~= before + flag(set, name@));
}

fn put_option(v: &mut Vec<String>, name: &str, value: Option<&str>)
    ensures
        texts(final(v)@) == texts(old(v)@) + option(name@, str_of(value)),
{
    let ghost before = texts(v@);
    if let Some(x) = value {
        v.push(name.to_owned());
        v.push(x.to_owned());
    }
    assert(texts(v@) =~= before + option(name@, str_of(value)));
}

fn put_repeated(v: &mut Vec<String>, name: &str, values: &Vec<String>)
    ensures
        texts(final(v)@) == texts(old(v)@) + repeated(name@, texts(values@)),
{
    let ghost before = texts(v@);
    let ghost all = texts(values@);
    let mut i: usize = 0;
    assert(texts(v@) =~= before + repeated(name@, all.take(0)));
    while i < values.len()
        invariant
            i <= values@.len(),
            all == texts(values@),
            texts(v@) == before + repeated(name@, all.take(i as int)),
        decreases values@.len() - i,
    {
        assert(all.take(i + 1).drop_last() =~= all.take(i as int));
        assert(all.take(i + 1).last() == values@[i as int]@);
        let ghost mid = texts(v@);
        v.push(name.to_owned());
        v.push(values[i].clone());
        i = i + 1;
        assert(texts(v@) =~= mid + seq![name@, values@[i - 1]@]);
        assert(texts(v@) =~= before + repeated(name@, all.take(i as int)));
    }
    assert(all.take(i as int) =~= all);
}

fn opt_str(o: &Option<String>) -> (r: Option<&str>)
    ensures
        str_of(r) == text_of(*o),
{
    match o {
        Some(s) => Some(s.as_str()),
        None => None,
    }
}

/// The options of the child that runs as the daemon. The passphrase is not among them: it goes
/// through the environment, where other users do not see it.
fn daemon_argv(profile: &str, args: &ServeArgs, debug_build: bool) -> (r: Vec<String>)
    ensures
        texts(r@) == argv(profile@, *args, debug_build),
{
    let mut v: Vec<String> = Vec::new();
    v.push("serve".to_owned());
    v.push("--daemon-child".to_owned());
    v.push("--port".to_owned());
    v.push(show(args.resolved_port(debug_build) as u64));
    v.push("--host".to_owned());
    v.push(args.host.clone());
    proof {
        let start = seq![
            "serve"@,
            "--daemon-child"@,
            "--port"@,
            decimal(port_of(args.port, debug_build) as nat),
            "--host"@,
            args.host@,
        ];
        assert(texts(v@) =~= start);
    }
    put_flag(&mut v, args.no_auth, "--no-auth");
    let mode = match args.auth {
        Some(m) => Some(m.as_cli_str()),
        None => None,
    };
    put_option(&mut v, "--auth", mode);
    put_flag(&mut v, args.behind_proxy, "--behind-proxy");
    put_flag(&mut v, args.read_only, "--read-only");
    put_flag(&mut v, args.remote, "--remote");
    put_option(&mut v, "--tunnel-name", opt_str(&args.tunnel_name));
    put_option(&mut v, "--tunnel-url", opt_str(&args.tunnel_url));
    put_flag(&mut v, args.no_tailscale, "--no-tailscale");
    put_repeated(&mut v, "--allowed-host", &args.allowed_host);
    put_repeated(&mut v, "--allowed-origin", &args.allowed_origin);
    let named = if is_empty(profile) {
        None
    } else {
        Some(profile)
    };
    put_option(&mut v, "--profile", named);
    v
}

/// The child that runs as the daemon: its options, and the passphrase for its environment.
#[derive(Debug)]
pub struct DaemonOrder {
    pub argv: Vec<String>,
    pub passphrase: Option<String>,
}

/// Orders the child that runs as the daemon.
pub fn start_daemon(profile: &str, args: &ServeArgs, debug_build: bool) -> (r: DaemonOrder)
    ensures
        texts(r.argv@) == argv(profile@, *args, debug_build),
        r.passphrase == args.passphrase,
{
    DaemonOrder { argv: daemon_argv(profile, args, debug_build), passphrase: copy_text(&args.passphrase) }
}

/// A daemon that is started again from its launch listens where it did, under the mode that it
/// had, and gets the same options but for how the mode is given.
pub proof fn law_restart_replays_launch(
    profile: Seq<char>,
    args: ServeArgs,
    pid: u32,
    debug_build: bool,
    launch: ServeLaunch,
    passphrase: Option<String>,
    again: ServeArgs,
)
    requires
        args.consistent(),
        launch.records(profile, args, pid, debug_build),
        launch.replayed_by(again, passphrase),
    ensures
        again.consistent(),
        again.auth_mode() == args.auth_mode(),
        port_of(again.port, debug_build) == port_of(args.port, debug_build),
        (args.auth is Some) ==> argv(profile, again, debug_build) == argv(profile, args, debug_build),
{
}

} // verus!
