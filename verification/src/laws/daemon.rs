//! Starting, restarting and finding a daemon.

use vstd::prelude::*;

use crate::daemon::{
    cached_serve_mode_label, daemon_pid, exit_step, holds_text, network_warning, pid_file_is_ours, print_local_status,
    read_serve_urls, recall_serve_passphrase, restart_daemon, run, stop_daemon, stop_target, url_of, url_views,
    urls_of, verify_pid_is_aoe, without_returns, DaemonProbe, ExitStep, ModeCache, RestartPlan, RunFacts, RunPlan,
    ServeUrl, SignalResult, StartPlan, StopStep,
};
use crate::hosts::{host_is_localhost, validate_allowed_hosts, validate_allowed_origins};
use crate::laws::numbers::{digits, lemma_worth, worth};
use crate::laws::serve::chosen_port;
use crate::serve::{validate_config, AuthMode, ServeArgs, ServeLaunch};
use crate::text::{
    all_digits, joined, lemma_find_char_at, lemma_split_joined, lemma_trim_line, number, text_of, texts, trimmed,
};

verus! {

/// Whether a mode and the options around it go together: a passphrase is there where it is asked for and
/// not where there is none, less than a token is reached only from the machine itself or through a proxy
/// and never through a tunnel, and a proxy comes with a host that is allowed.
pub open spec fn go_together(
    mode: AuthMode,
    has_passphrase: bool,
    local: bool,
    behind_proxy: bool,
    remote: bool,
    hosts: nat,
) -> bool {
    &&& mode == AuthMode::Passphrase ==> has_passphrase
    &&& mode == AuthMode::NoAuth ==> !has_passphrase
    &&& mode != AuthMode::Token ==> (local || behind_proxy) && !remote
    &&& behind_proxy && !remote ==> hosts > 0
}

/// A configuration starts exactly where its options go together and every allowed host and origin is
/// valid.
pub proof fn law_configuration_starts(
    mode: AuthMode,
    has_passphrase: bool,
    behind_proxy: bool,
    remote: bool,
    host: &str,
    hosts: &Vec<String>,
    origins: &Vec<String>,
    local: bool,
    hs: &[String],
    os: &[String],
    h: Result<(), String>,
    o: Result<(), String>,
    r: Result<(), String>,
)
    requires
        call_ensures(host_is_localhost, (host,), local),
        hs@ == hosts@,
        os@ == origins@,
        call_ensures(validate_allowed_hosts, (hs,), h),
        call_ensures(validate_allowed_origins, (os,), o),
        call_ensures(validate_config, (mode, has_passphrase, behind_proxy, remote, host, hosts, origins), r),
    ensures
        r is Ok <==> go_together(mode, has_passphrase, local, behind_proxy, remote, hosts@.len()) && h is Ok && o is Ok,
{
}

/// The mode that options give.
pub open spec fn mode_given(a: ServeArgs) -> AuthMode {
    if a.auth is Some {
        a.auth->0
    } else if a.no_auth {
        AuthMode::NoAuth
    } else {
        AuthMode::Token
    }
}

/// A command stops, reports or restarts where that is asked for, in this order. Otherwise it starts a
/// server exactly where the dashboard is enabled, no other server runs, the configuration starts, a named
/// tunnel has its address, and a public server has its tunnel client, where it needs one, and a
/// passphrase.
pub proof fn law_command_is_decided(
    profile: &str,
    a: &ServeArgs,
    facts: RunFacts,
    host: &str,
    config: Result<(), String>,
    r: Result<RunPlan, String>,
)
    requires
        !(a.auth is Some && a.no_auth),
        host@ == a.host@,
        call_ensures(
            validate_config,
            (
                mode_given(*a),
                a.passphrase is Some,
                a.behind_proxy,
                a.remote,
                host,
                &a.allowed_host,
                &a.allowed_origin,
            ),
            config,
        ),
        call_ensures(run, (profile, a, facts), r),
    ensures
        a.stop ==> r is Ok && r->Ok_0 is Stop,
        !a.stop && a.status ==> r is Ok && r->Ok_0 is Status,
        !a.stop && !a.status && a.restart ==> r is Ok && r->Ok_0 is Restart,
        !a.stop && !a.status && !a.restart ==> {
            let free = facts.running is None || facts.running->0 == facts.own_pid;
            let addressed = a.tunnel_name is None || a.tunnel_url is Some;
            let client = !a.remote || (!a.no_tailscale && a.tunnel_name is None && facts.tailscale_available)
                || facts.cloudflared is Ok;
            &&& r is Ok <==> facts.dashboard_enabled && free && config is Ok && addressed && client && (a.remote
                ==> a.passphrase is Some)
            &&& r matches Ok(p) ==> p is Start
            &&& facts.dashboard_enabled && free && config is Err ==> r->Err_0@ == config->Err_0@
        },
{
}

/// A server in this process is started with the options of its command; behind a tunnel it listens only
/// on the machine itself. Whether it is a daemon is what was asked for. What is said before is said where
/// the network can reach it.
pub proof fn law_server_is_as_asked(
    profile: &str,
    a: &ServeArgs,
    facts: RunFacts,
    host: &str,
    local: bool,
    r: Result<RunPlan, String>,
)
    requires
        !(a.auth is Some && a.no_auth),
        host@ == a.host@,
        call_ensures(host_is_localhost, (host,), local),
        call_ensures(run, (profile, a, facts), r),
    ensures
        r matches Ok(RunPlan::Start(StartPlan::Daemon(n))) ==> {
            &&& a.daemon
            &&& n.network <==> !local && !a.remote
            &&& n.wildcard <==> n.network && a.allowed_host@.len() == 0 && (a.host@ == "0.0.0.0"@ || a.host@ == "::"@
                || a.host@ == "[::]"@)
        },
        r matches Ok(RunPlan::Start(StartPlan::Foreground(n, c))) ==> {
            &&& !a.daemon
            &&& n.network <==> !local && !a.remote
            &&& n.wildcard <==> n.network && a.allowed_host@.len() == 0 && (a.host@ == "0.0.0.0"@ || a.host@ == "::"@
                || a.host@ == "[::]"@)
            &&& c.profile@ == profile@
            &&& a.remote ==> c.host@ == "127.0.0.1"@
            &&& !a.remote ==> c.host@ == a.host@
            &&& c.port == chosen_port(*a, facts.debug_build)
            &&& c.no_auth <==> mode_given(*a) != AuthMode::Token
            &&& c.read_only == a.read_only
            &&& c.remote == a.remote
            &&& c.tunnel_name == a.tunnel_name
            &&& c.tunnel_url == a.tunnel_url
            &&& c.no_tailscale == a.no_tailscale
            &&& !c.is_daemon
            &&& c.passphrase == a.passphrase
            &&& c.behind_proxy == a.behind_proxy
            &&& c.open_browser == a.open
            &&& c.extra_allowed_hosts@ == a.allowed_host@
            &&& c.extra_allowed_origins@ == a.allowed_origin@
        },
{
}

/// A daemon is started again exactly where one runs, its launch is kept and its own, a passphrase is at
/// hand where its gate needs one, and its configuration still starts. It then gets the options of its
/// launch.
pub proof fn law_daemon_is_restarted(
    running: Option<u32>,
    launch: Result<ServeLaunch, String>,
    passphrase: Option<String>,
    host: &str,
    config: Result<(), String>,
    r: Result<RestartPlan, String>,
)
    requires
        launch matches Ok(l) ==> host@ == l.host@ && call_ensures(
            validate_config,
            (
                l.auth_mode,
                passphrase is Some,
                l.behind_proxy,
                l.remote,
                host,
                &l.allowed_host,
                &l.allowed_origin,
            ),
            config,
        ),
        call_ensures(restart_daemon, (running, launch, passphrase), r),
    ensures
        r is Ok <==> running is Some && launch is Ok && {
            let l = launch->Ok_0;
            &&& l.pid == running->0
            &&& l.remote || l.auth_mode == AuthMode::Passphrase ==> passphrase is Some
            &&& config is Ok
        },
        r matches Ok(p) ==> {
            let l = launch->Ok_0;
            &&& p.pid == running->0
            &&& p.profile == l.profile
            &&& p.args.port == Some(l.port)
            &&& p.args.host == l.host
            &&& p.args.auth == Some(l.auth_mode)
            &&& !p.args.no_auth
            &&& p.args.behind_proxy == l.behind_proxy
            &&& p.args.read_only == l.read_only
            &&& p.args.remote == l.remote
            &&& p.args.tunnel_name == l.tunnel_name
            &&& p.args.tunnel_url == l.tunnel_url
            &&& p.args.no_tailscale == l.no_tailscale
            &&& p.args.allowed_host@ == l.allowed_host@
            &&& p.args.allowed_origin@ == l.allowed_origin@
            &&& p.args.passphrase == passphrase
            &&& p.args.daemon
            &&& !p.args.stop && !p.args.status && !p.args.restart && !p.args.daemon_child
        },
{
}

/// The passphrase of a daemon is the one in its file, without the blanks around it; where that is none,
/// the one in the environment, as it stands there.
pub proof fn law_passphrase_is_recalled(file: Option<&str>, env: Option<&str>, r: Option<String>)
    requires
        call_ensures(recall_serve_passphrase, (file, env), r),
    ensures
        file is Some && trimmed(file->0@).len() > 0 ==> r is Some && r->0@ == trimmed(file->0@),
        (file is None || trimmed(file->0@).len() == 0) && env is Some && env->0@.len() > 0 ==> r is Some && r->0@
            == env->0@,
        (file is None || trimmed(file->0@).len() == 0) && (env is None || env->0@.len() == 0) ==> r is None,
{
}

/// The line of a further address.
pub open spec fn address_line(label: Seq<char>, url: Seq<char>) -> Seq<char> {
    label + seq!['\t'] + url
}

/// The lines of a file of addresses: the first address, then names and addresses.
pub open spec fn address_lines(first: Seq<char>, more: Seq<(Seq<char>, Seq<char>)>) -> Seq<Seq<char>> {
    seq![first] + Seq::new(more.len(), |i: int| address_line(more[i].0, more[i].1))
}

/// Whether a text can stand in a line of addresses.
pub open spec fn fits_line(s: Seq<char>) -> bool {
    s.len() > 0 && s.last() != '\r' && !s.contains('\n')
}

proof fn lemma_urls(first: Seq<char>, more: Seq<(Seq<char>, Seq<char>)>, n: nat)
    requires
        fits_line(first),
        forall|i: int|
            0 <= i < more.len() ==> fits_line((#[trigger] more[i]).1) && !more[i].0.contains('\n')
                && !more[i].0.contains('\t'),
        1 <= n <= more.len() + 1,
    ensures
        urls_of(address_lines(first, more), n) == seq![(None::<Seq<char>>, first)] + Seq::new(
            (n - 1) as nat,
            |i: int| (Some(more[i].0), more[i].1),
        ),
    decreases n,
{
    let lines = address_lines(first, more);
    if n == 1 {
        assert(lines[0] == first);
        assert(without_returns(first) == first);
        reveal_with_fuel(urls_of, 2);
        assert(urls_of(lines, 1) =~= seq![(None::<Seq<char>>, first)] + Seq::new(
            0nat,
            |i: int| (Some(more[i].0), more[i].1),
        ));
    } else {
        lemma_urls(first, more, (n - 1) as nat);
        let m = more[n - 2];
        let line = address_line(m.0, m.1);
        assert(lines[n - 1] == line);
        assert(line.last() == m.1.last());
        assert(without_returns(line) == line);
        assert forall|j: int| 0 <= j < m.0.len() implies line[j] != '\t' by {
            if line[j] == '\t' {
                assert(m.0[j] == '\t');
            }
        }
        lemma_find_char_at(line, '\t', m.0.len() as int);
        assert(line.take(m.0.len() as int) =~= m.0);
        assert(line.skip(m.0.len() as int + 1) =~= m.1);
        assert(url_of(line, false) == Some((Some(m.0), m.1)));
        assert(urls_of(lines, n) =~= seq![(None::<Seq<char>>, first)] + Seq::new(
            (n - 1) as nat,
            |i: int| (Some(more[i].0), more[i].1),
        ));
    }
}

/// Addresses that are written line by line, the first alone and each further one behind its name and a
/// tab, are read back as they were.
pub proof fn law_addresses_are_read_back(
    raw: &str,
    first: Seq<char>,
    more: Seq<(Seq<char>, Seq<char>)>,
    r: Vec<ServeUrl>,
    i: int,
)
    requires
        fits_line(first),
        forall|i: int|
            0 <= i < more.len() ==> fits_line((#[trigger] more[i]).1) && !more[i].0.contains('\n')
                && !more[i].0.contains('\t'),
        raw@ == joined(address_lines(first, more), seq!['\n']),
        call_ensures(read_serve_urls, (Some(raw),), r),
        0 <= i < more.len(),
    ensures
        r@.len() == more.len() + 1,
        r@[0].label is None,
        r@[0].url@ == first,
        text_of(r@[i + 1].label) == Some(more[i].0),
        r@[i + 1].url@ == more[i].1,
{
    let lines = address_lines(first, more);
    assert forall|j: int| 0 <= j < lines.len() implies !(#[trigger] lines[j]).contains('\n') by {
        if j > 0 {
            let m = more[j - 1];
            let line = address_line(m.0, m.1);
            assert(lines[j] == line);
            if line.contains('\n') {
                let k = choose|k: int| 0 <= k < line.len() && line[k] == '\n';
                if k < m.0.len() {
                    assert(m.0[k] == '\n');
                } else {
                    assert(k > m.0.len());
                    assert(m.1[k - m.0.len() - 1] == '\n');
                }
            }
        }
    }
    lemma_split_joined(lines, '\n');
    lemma_urls(first, more, lines.len());
    let views = url_views(r@);
    assert(views.len() == more.len() + 1);
    assert(views[0] == (None::<Seq<char>>, first));
    assert(views[i + 1] == (Some(more[i].0), more[i].1));
}

/// Where there is no file, there are no addresses.
pub proof fn law_no_file_no_addresses(r: Vec<ServeUrl>)
    requires
        call_ensures(read_serve_urls, (None,), r),
    ensures
        r@.len() == 0,
{
    assert(url_views(r@).len() == 0);
}

proof fn lemma_number_line(d: Seq<char>)
    requires
        digits(d),
    ensures
        trimmed(d.push('\n')) == d,
        number(d) == Some(worth(d) as nat),
        worth(d) >= 0,
        d[0] != '-',
{
    assert('0' <= d[0] <= '9');
    assert('0' <= d[d.len() - 1] <= '9');
    lemma_trim_line(d);
    assert(all_digits(d));
    lemma_worth(d);
}

/// Whether a command line names this program.
pub open spec fn names_program(c: Seq<char>) -> bool {
    exists|a: Seq<char>, b: Seq<char>|
        c == #[trigger] (a + "aoe"@ + b) || c == a + "agent-of-empires"@ + b
}

proof fn lemma_holds_text(c: Seq<char>, x: Seq<char>)
    ensures
        holds_text(c, x) <==> exists|a: Seq<char>, b: Seq<char>| c == #[trigger] (a + x + b),
{
    if holds_text(c, x) {
        let i = choose|i: int| 0 <= i && i + x.len() <= c.len() && #[trigger] c.subrange(i, i + x.len()) == x;
        let a = c.take(i);
        let b = c.skip(i + x.len());
        assert(c =~= a + x + b);
    }
    if exists|a: Seq<char>, b: Seq<char>| c == #[trigger] (a + x + b) {
        let (a, b) = choose|a: Seq<char>, b: Seq<char>| c == #[trigger] (a + x + b);
        let i = a.len() as int;
        assert(c.subrange(i, i + x.len()) =~= x);
    }
}

/// A process is one of this program exactly where its command line names it, or cannot be had.
pub proof fn law_process_is_recognized(cmdline: Option<&str>, r: bool)
    requires
        call_ensures(verify_pid_is_aoe, (cmdline,), r),
    ensures
        r <==> cmdline is None || names_program(cmdline->0@),
{
    if let Some(c) = cmdline {
        lemma_holds_text(c@, "aoe"@);
        lemma_holds_text(c@, "agent-of-empires"@);
        if names_program(c@) {
            let (a, b) = choose|a: Seq<char>, b: Seq<char>|
                c@ == #[trigger] (a + "aoe"@ + b) || c@ == a + "agent-of-empires"@ + b;
            assert(c@ == a + "aoe"@ + b || c@ == a + "agent-of-empires"@ + b);
        }
        if exists|a: Seq<char>, b: Seq<char>| c@ == #[trigger] (a + "agent-of-empires"@ + b) {
            let (a, b) = choose|a: Seq<char>, b: Seq<char>| c@ == #[trigger] (a + "agent-of-empires"@ + b);
            let t = a + "aoe"@ + b;
            assert(names_program(c@));
        }
    }
}

/// A daemon whose number is kept in a file runs exactly where a process has that number and is one of
/// this program; otherwise what is kept of it is stale.
pub proof fn law_daemon_is_found(
    file: &str,
    d: Seq<char>,
    alive: bool,
    cmdline: Option<&str>,
    ours: bool,
    r: DaemonProbe,
)
    requires
        digits(d),
        worth(d) <= 2_147_483_647,
        file@ == d.push('\n'),
        call_ensures(verify_pid_is_aoe, (cmdline,), ours),
        call_ensures(daemon_pid, (Some(file), alive, cmdline), r),
    ensures
        alive && ours ==> r is Running && r->Running_0 == worth(d),
        !(alive && ours) ==> r is Stale,
{
    lemma_number_line(d);
}

/// The files of a server are those of this process exactly where its number is in them.
pub proof fn law_files_are_ours(file: &str, d: Seq<char>, own_pid: u32, r: bool)
    requires
        digits(d),
        file@ == d.push('\n'),
        call_ensures(pid_file_is_ours, (Some(file), own_pid), r),
    ensures
        r <==> worth(d) == own_pid,
{
    lemma_number_line(d);
}

/// The process to stop is the one whose number is kept.
pub proof fn law_kept_process_is_stopped(file: &str, d: Seq<char>, path: &str, r: Result<i32, String>)
    requires
        digits(d),
        file@ == d.push('\n'),
        call_ensures(stop_target, (Some(file), path), r),
    ensures
        r is Ok <==> worth(d) <= 2_147_483_647,
        r is Ok ==> r->Ok_0 == worth(d),
{
    lemma_number_line(d);
}

/// Without a file there is no daemon, none to stop, and no file of ours.
pub proof fn law_no_file_no_daemon(
    alive: bool,
    cmdline: Option<&str>,
    r: DaemonProbe,
    path: &str,
    s: Result<i32, String>,
    own_pid: u32,
    b: bool,
)
    requires
        call_ensures(daemon_pid, (None, alive, cmdline), r),
        call_ensures(stop_target, (None, path), s),
        call_ensures(pid_file_is_ours, (None, own_pid), b),
    ensures
        r is NoDaemon,
        s is Err,
        !b,
{
}

/// A process that was asked to end is waited for; one that was already gone is cleaned up after. While it
/// is not gone it is waited for, and killed when its time is up.
pub proof fn law_process_is_ended(
    pid: i32,
    result: SignalResult,
    r: Result<StopStep, String>,
    gone: bool,
    late: bool,
    e: ExitStep,
)
    requires
        call_ensures(stop_daemon, (pid, result), r),
        call_ensures(exit_step, (gone, late), e),
    ensures
        result is Sent ==> r is Ok && r->Ok_0 is AwaitExit,
        result is NoSuchProcess ==> r is Ok && r->Ok_0 is CleanUp,
        result is Failed ==> r is Err,
        e is Exited <==> gone,
        e is Kill <==> !gone && late,
        e is Wait <==> !gone && !late,
{
}

/// The mode of a server is read once: a second look at the same server gives what the first gave, whatever
/// its file holds then, and a look at another server reads its own.
pub proof fn law_mode_is_read_once(
    cache: &mut ModeCache,
    pid: u32,
    raw: Option<&str>,
    r: Option<&'static str>,
    again: &mut ModeCache,
    later: u32,
    other: Option<&str>,
    q: Option<&'static str>,
)
    requires
        call_ensures(cached_serve_mode_label, (cache, Some(pid), raw), r),
        *old(again) == *final(cache),
        call_ensures(cached_serve_mode_label, (again, Some(later), other), q),
    ensures
        later == pid ==> q == r,
        later != pid ==> (q is Some <==> other is Some && (trimmed(other->0@) == "local"@ || trimmed(other->0@)
            == "tunnel"@ || trimmed(other->0@) == "tailscale"@)),
        later != pid && q is Some ==> q->0@ == trimmed(other->0@),
{
}

/// A report on a daemon has its number, its mode, its addresses and where its output goes, line by line;
/// where none runs there is none.
pub proof fn law_report_has_a_line_each(
    pid: Option<u32>,
    mode: Option<&str>,
    urls: &Vec<ServeUrl>,
    log: Option<&str>,
    r: Result<Vec<String>, String>,
    i: int,
)
    requires
        call_ensures(print_local_status, (pid, mode, urls, log), r),
    ensures
        r is Ok <==> pid is Some,
        r matches Ok(v) ==> {
            let n = if urls@.len() == 0 {
                1
            } else {
                urls@.len() as int
            };
            &&& v@.len() == 2 + n + if log is Some {
                1int
            } else {
                0
            }
            &&& mode is Some ==> v@[1]@ == "Mode:   "@ + mode->0@
            &&& urls@.len() > 0 ==> v@[2]@ == "URL:    "@ + urls@[0].url@
            &&& 0 < i < urls@.len() && urls@[i].label is Some ==> v@[2 + i]@ == "        "@ + urls@[i].label->0@ + " "@
                + urls@[i].url@
            &&& log is Some ==> v@[2 + n]@ == "Log:    "@ + log->0@
        },
{
    if let Ok(v) = r {
        let t = texts(v@);
        assert(t.len() == v@.len());
        assert(t[1] == v@[1]@);
        assert(t[2] == v@[2]@);
        if 0 < i < urls@.len() {
            assert(t[2 + i] == v@[2 + i]@);
            assert(url_views(urls@)[i] == (text_of(urls@[i].label), urls@[i].url@));
        }
        if log is Some {
            assert(t[t.len() - 1] == v@[v@.len() - 1]@);
        }
    }
}

/// A warning names the host, and says more where the server is read-only, needs a host name to be allowed
/// or is locked to the end-user client.
pub proof fn law_warning_names_host(
    host: &str,
    read_only: bool,
    wildcard: bool,
    client_mode: bool,
    r: Vec<String>,
)
    requires
        call_ensures(network_warning, (host, read_only, wildcard, client_mode), r),
    ensures
        r@.len() == 19 + (if read_only {
            2int
        } else {
            0
        }) + (if wildcard {
            2int
        } else {
            0
        }) + (if client_mode {
            5int
        } else {
            0
        }),
        r@[1]@ == "  SECURITY WARNING: Binding to "@ + host@,
        read_only ==> r@[17]@ == "  Read-only mode is ON: terminal input is disabled."@,
{
    let t = texts(r@);
    assert(t.len() == r@.len());
    assert(t[1] == r@[1]@);
    assert(t[17] == r@[17]@);
}

} // verus!
