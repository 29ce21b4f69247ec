//! The server's command line: what a daemon is told is what its parent was told.

use vstd::prelude::*;

use crate::laws::numbers::{digits, lemma_decimal, worth};
use crate::serve::{
    argv, flag, mode_name, nonblank, option, port_of, repeated, start_daemon, AuthMode, DaemonOrder, ServeArgs,
    ServeLaunch,
};
use crate::text::{decimal, text_of, texts};

verus! {

/// The options that a command line gives: each with its values in the order in which they are given.
pub type Given = Map<Seq<char>, Seq<Seq<char>>>;

/// The values given for an option so far.
pub open spec fn values(g: Given, name: Seq<char>) -> Seq<Seq<char>> {
    if g.contains_key(name) {
        g[name]
    } else {
        Seq::empty()
    }
}

/// Whether the word behind an option is its value.
pub open spec fn takes_value(name: Seq<char>) -> bool {
    ||| name == "--port"@
    ||| name == "--host"@
    ||| name == "--auth"@
    ||| name == "--tunnel-name"@
    ||| name == "--tunnel-url"@
    ||| name == "--allowed-host"@
    ||| name == "--allowed-origin"@
    ||| name == "--profile"@
}

/// Whether an option stands alone.
pub open spec fn stands_alone(name: Seq<char>) -> bool {
    ||| name == "--daemon-child"@
    ||| name == "--no-auth"@
    ||| name == "--behind-proxy"@
    ||| name == "--read-only"@
    ||| name == "--remote"@
    ||| name == "--no-tailscale"@
}

/// Reads options from left to right; none where a word is no option, or a value is missing.
pub open spec fn read_options(words: Seq<Seq<char>>, g: Given) -> Option<Given>
    decreases words.len(),
{
    if words.len() == 0 {
        Some(g)
    } else if stands_alone(words[0]) {
        read_options(words.skip(1), g.insert(words[0], Seq::empty()))
    } else if takes_value(words[0]) && words.len() > 1 {
        read_options(words.skip(2), g.insert(words[0], values(g, words[0]).push(words[1])))
    } else {
        None
    }
}

/// Reads the words of a command line: the name of the command, then its options.
pub open spec fn read_command(words: Seq<Seq<char>>) -> Option<Given> {
    if words.len() > 0 && words[0] == "serve"@ {
        read_options(words.skip(1), Map::empty())
    } else {
        None
    }
}

/// The lengths of the names of the options, and the letters by which those of one length differ.
proof fn lemma_names()
    ensures
        "--port"@.len() == 6 && "--port"@[2] == 'p',
        "--host"@.len() == 6 && "--host"@[2] == 'h',
        "--auth"@.len() == 6 && "--auth"@[2] == 'a',
        "--remote"@.len() == 8,
        "--no-auth"@.len() == 9 && "--no-auth"@[2] == 'n',
        "--profile"@.len() == 9 && "--profile"@[2] == 'p',
        "--read-only"@.len() == 11,
        "--tunnel-url"@.len() == 12,
        "--tunnel-name"@.len() == 13,
        "--daemon-child"@.len() == 14 && "--daemon-child"@[2] == 'd',
        "--behind-proxy"@.len() == 14 && "--behind-proxy"@[2] == 'b',
        "--no-tailscale"@.len() == 14 && "--no-tailscale"@[2] == 'n',
        "--allowed-host"@.len() == 14 && "--allowed-host"@[2] == 'a',
        "--allowed-origin"@.len() == 16,
{
    reveal_strlit("--port");
    reveal_strlit("--host");
    reveal_strlit("--auth");
    reveal_strlit("--remote");
    reveal_strlit("--no-auth");
    reveal_strlit("--profile");
    reveal_strlit("--read-only");
    reveal_strlit("--tunnel-url");
    reveal_strlit("--tunnel-name");
    reveal_strlit("--daemon-child");
    reveal_strlit("--behind-proxy");
    reveal_strlit("--no-tailscale");
    reveal_strlit("--allowed-host");
    reveal_strlit("--allowed-origin");
}

/// What is given behind an option that stands alone, where it is set.
pub open spec fn with_flag(g: Given, set: bool, name: Seq<char>) -> Given {
    if set {
        g.insert(name, Seq::empty())
    } else {
        g
    }
}

/// What is given behind options with values.
pub open spec fn with_values(g: Given, name: Seq<char>, more: Seq<Seq<char>>) -> Given {
    if more.len() > 0 {
        g.insert(name, values(g, name) + more)
    } else {
        g
    }
}

/// The list of an optional value.
pub open spec fn listed(o: Option<Seq<char>>) -> Seq<Seq<char>> {
    match o {
        Some(v) => seq![v],
        None => Seq::empty(),
    }
}

proof fn lemma_flag(set: bool, name: Seq<char>, rest: Seq<Seq<char>>, g: Given)
    requires
        stands_alone(name),
    ensures
        read_options(flag(set, name) + rest, g) == read_options(rest, with_flag(g, set, name)),
{
    if set {
        let w = flag(set, name) + rest;
        assert(w[0] == name);
        assert(w.skip(1) =~= rest);
    } else {
        assert(flag(set, name) + rest =~= rest);
    }
}

proof fn lemma_value(name: Seq<char>, v: Seq<char>, rest: Seq<Seq<char>>, g: Given)
    requires
        takes_value(name),
    ensures
        read_options(seq![name, v] + rest, g) == read_options(rest, with_values(g, name, seq![v])),
{
    lemma_names();
    let w = seq![name, v] + rest;
    assert(w[0] == name && w[1] == v);
    assert(w.skip(2) =~= rest);
    assert(values(g, name).push(v) =~= values(g, name) + seq![v]);
}

proof fn lemma_option(name: Seq<char>, value: Option<Seq<char>>, rest: Seq<Seq<char>>, g: Given)
    requires
        takes_value(name),
    ensures
        read_options(option(name, value) + rest, g) == read_options(rest, with_values(g, name, listed(value))),
{
    match value {
        Some(v) => {
            lemma_value(name, v, rest, g);
        },
        None => {
            assert(option(name, value) + rest =~= rest);
        },
    }
}

proof fn lemma_repeated(name: Seq<char>, vs: Seq<Seq<char>>, rest: Seq<Seq<char>>, g: Given)
    requires
        takes_value(name),
    ensures
        read_options(repeated(name, vs) + rest, g) == read_options(rest, with_values(g, name, vs)),
    decreases vs.len(),
{
    if vs.len() == 0 {
        assert(repeated(name, vs) + rest =~= rest);
    } else {
        let front = vs.drop_last();
        let tail = seq![name, vs.last()] + rest;
        assert(repeated(name, vs) + rest =~= repeated(name, front) + tail);
        lemma_repeated(name, front, tail, g);
        let h = with_values(g, name, front);
        lemma_value(name, vs.last(), rest, h);
        if front.len() == 0 {
            assert(vs =~= seq![vs.last()]);
        } else {
            assert(values(h, name) + seq![vs.last()] =~= values(g, name) + vs);
            assert(h.insert(name, values(g, name) + vs) =~= g.insert(name, values(g, name) + vs));
        }
    }
}

/// Whether what is given for an option is one value, where there is one, and nothing else.
pub open spec fn gives(g: Given, name: Seq<char>, value: Option<Seq<char>>) -> bool {
    match value {
        Some(v) => g.contains_key(name) && g[name] == seq![v],
        None => !g.contains_key(name),
    }
}

/// Whether what is given for an option are some values, in their order.
pub open spec fn gives_all(g: Given, name: Seq<char>, vs: Seq<Seq<char>>) -> bool {
    values(g, name) == vs && (g.contains_key(name) <==> vs.len() > 0)
}

proof fn lemma_regroup(a: Seq<Seq<char>>, b: Seq<Seq<char>>, c: Seq<Seq<char>>)
    ensures
        a + b + c == a + (b + c),
{
    assert(a + b + c =~= a + (b + c));
}

/// What the start of a command line gives.
pub open spec fn told_start(a: ServeArgs, port: Seq<char>) -> Given {
    let g = Map::<Seq<char>, Seq<Seq<char>>>::empty();
    let g = with_flag(g, true, "--daemon-child"@);
    let g = with_values(g, "--port"@, seq![port]);
    with_values(g, "--host"@, seq![a.host@])
}

/// What the middle of a command line adds.
pub open spec fn told_middle(a: ServeArgs, g: Given) -> Given {
    let g = with_flag(g, a.no_auth, "--no-auth"@);
    let g = with_values(g, "--auth"@, listed(mode_name(a.auth)));
    let g = with_flag(g, a.behind_proxy, "--behind-proxy"@);
    let g = with_flag(g, a.read_only, "--read-only"@);
    with_flag(g, a.remote, "--remote"@)
}

/// What the end of a command line adds.
pub open spec fn told_end(profile: Seq<char>, a: ServeArgs, g: Given) -> Given {
    let g = with_values(g, "--tunnel-name"@, listed(text_of(a.tunnel_name)));
    let g = with_values(g, "--tunnel-url"@, listed(text_of(a.tunnel_url)));
    let g = with_flag(g, a.no_tailscale, "--no-tailscale"@);
    let g = with_values(g, "--allowed-host"@, texts(a.allowed_host@));
    let g = with_values(g, "--allowed-origin"@, texts(a.allowed_origin@));
    with_values(g, "--profile"@, listed(nonblank(profile)))
}

proof fn lemma_argv_read(profile: Seq<char>, a: ServeArgs, debug_build: bool)
    ensures
        read_command(argv(profile, a, debug_build)) == Some(
            told_end(
                profile,
                a,
                told_middle(a, told_start(a, decimal(port_of(a.port, debug_build) as nat))),
            ),
        ),
{
    let all = argv(profile, a, debug_build);
    let port = decimal(port_of(a.port, debug_build) as nat);
    let e = Seq::<Seq<char>>::empty();
    let start = seq!["serve"@, "--daemon-child"@, "--port"@, port, "--host"@, a.host@];
    let s1 = flag(a.no_auth, "--no-auth"@);
    let s2 = option("--auth"@, mode_name(a.auth));
    let s3 = flag(a.behind_proxy, "--behind-proxy"@);
    let s4 = flag(a.read_only, "--read-only"@);
    let s5 = flag(a.remote, "--remote"@);
    let s6 = option("--tunnel-name"@, text_of(a.tunnel_name));
    let s7 = option("--tunnel-url"@, text_of(a.tunnel_url));
    let s8 = flag(a.no_tailscale, "--no-tailscale"@);
    let s9 = repeated("--allowed-host"@, texts(a.allowed_host@));
    let s10 = repeated("--allowed-origin"@, texts(a.allowed_origin@));
    let s11 = option("--profile"@, nonblank(profile));
    let r11 = s11 + e;
    let r10 = s10 + r11;
    let r9 = s9 + r10;
    let r8 = s8 + r9;
    let r7 = s7 + r8;
    let r6 = s6 + r7;
    let r5 = s5 + r6;
    let r4 = s4 + r5;
    let r3 = s3 + r4;
    let r2 = s2 + r3;
    let r1 = s1 + r2;
    assert(all + e =~= all);
    assert(all + e == start + r1) by {
        let x1 = start + s1;
        let x2 = x1 + s2;
        let x3 = x2 + s3;
        let x4 = x3 + s4;
        let x5 = x4 + s5;
        let x6 = x5 + s6;
        let x7 = x6 + s7;
        let x8 = x7 + s8;
        let x9 = x8 + s9;
        let x10 = x9 + s10;
        lemma_regroup(x10, s11, e);
        lemma_regroup(x9, s10, r11);
        lemma_regroup(x8, s9, r10);
        lemma_regroup(x7, s8, r9);
        lemma_regroup(x6, s7, r8);
        lemma_regroup(x5, s6, r7);
        lemma_regroup(x4, s5, r6);
        lemma_regroup(x3, s4, r5);
        lemma_regroup(x2, s3, r4);
        lemma_regroup(x1, s2, r3);
        lemma_regroup(start, s1, r2);
    }
    let r0 = seq!["--host"@, a.host@] + r1;
    let rp = seq!["--port"@, port] + r0;
    let rd = flag(true, "--daemon-child"@) + rp;
    assert(all[0] == "serve"@);
    assert(all.skip(1) =~= rd);
    let g = Map::<Seq<char>, Seq<Seq<char>>>::empty();
    lemma_flag(true, "--daemon-child"@, rp, g);
    let g = with_flag(g, true, "--daemon-child"@);
    lemma_value("--port"@, port, r0, g);
    let g = with_values(g, "--port"@, seq![port]);
    lemma_value("--host"@, a.host@, r1, g);
    let g = with_values(g, "--host"@, seq![a.host@]);
    lemma_flag(a.no_auth, "--no-auth"@, r2, g);
    let g = with_flag(g, a.no_auth, "--no-auth"@);
    lemma_option("--auth"@, mode_name(a.auth), r3, g);
    let g = with_values(g, "--auth"@, listed(mode_name(a.auth)));
    lemma_flag(a.behind_proxy, "--behind-proxy"@, r4, g);
    let g = with_flag(g, a.behind_proxy, "--behind-proxy"@);
    lemma_flag(a.read_only, "--read-only"@, r5, g);
    let g = with_flag(g, a.read_only, "--read-only"@);
    lemma_flag(a.remote, "--remote"@, r6, g);
    let g = with_flag(g, a.remote, "--remote"@);
    lemma_option("--tunnel-name"@, text_of(a.tunnel_name), r7, g);
    let g = with_values(g, "--tunnel-name"@, listed(text_of(a.tunnel_name)));
    lemma_option("--tunnel-url"@, text_of(a.tunnel_url), r8, g);
    let g = with_values(g, "--tunnel-url"@, listed(text_of(a.tunnel_url)));
    lemma_flag(a.no_tailscale, "--no-tailscale"@, r9, g);
    let g = with_flag(g, a.no_tailscale, "--no-tailscale"@);
    lemma_repeated("--allowed-host"@, texts(a.allowed_host@), r10, g);
    let g = with_values(g, "--allowed-host"@, texts(a.allowed_host@));
    lemma_repeated("--allowed-origin"@, texts(a.allowed_origin@), r11, g);
    let g = with_values(g, "--allowed-origin"@, texts(a.allowed_origin@));
    lemma_option("--profile"@, nonblank(profile), e, g);
}

proof fn lemma_argv(profile: Seq<char>, a: ServeArgs, debug_build: bool)
    ensures
        read_command(argv(profile, a, debug_build)) is Some,
        ({
            let g = read_command(argv(profile, a, debug_build))->0;
            &&& gives(g, "--port"@, Some(decimal(port_of(a.port, debug_build) as nat)))
            &&& gives(g, "--host"@, Some(a.host@))
            &&& gives(g, "--auth"@, mode_name(a.auth))
            &&& g.contains_key("--no-auth"@) <==> a.no_auth
            &&& g.contains_key("--behind-proxy"@) <==> a.behind_proxy
            &&& g.contains_key("--read-only"@) <==> a.read_only
            &&& g.contains_key("--remote"@) <==> a.remote
            &&& gives(g, "--tunnel-name"@, text_of(a.tunnel_name))
            &&& gives(g, "--tunnel-url"@, text_of(a.tunnel_url))
            &&& g.contains_key("--no-tailscale"@) <==> a.no_tailscale
            &&& gives_all(g, "--allowed-host"@, texts(a.allowed_host@))
            &&& gives_all(g, "--allowed-origin"@, texts(a.allowed_origin@))
            &&& gives(g, "--profile"@, nonblank(profile))
            &&& g.contains_key("--daemon-child"@)
        }),
{
    lemma_argv_read(profile, a, debug_build);
    lemma_names();
    let port = decimal(port_of(a.port, debug_build) as nat);
    let e = Seq::<Seq<char>>::empty();
    let g0 = told_start(a, port);
    assert(forall|s: Seq<Seq<char>>| #[trigger] (e + s) =~= s);
    assert(gives(g0, "--port"@, Some(port)) && gives(g0, "--host"@, Some(a.host@)));
    assert(forall|k: Seq<char>| #[trigger]
        g0.contains_key(k) <==> k == "--port"@ || k == "--host"@ || k == "--daemon-child"@);
    let g1 = told_middle(a, g0);
    assert(gives(g1, "--port"@, Some(port)) && gives(g1, "--host"@, Some(a.host@)));
    assert(gives(g1, "--auth"@, mode_name(a.auth)));
    assert(g1.contains_key("--no-auth"@) <==> a.no_auth);
    assert(g1.contains_key("--behind-proxy"@) <==> a.behind_proxy);
    assert(g1.contains_key("--read-only"@) <==> a.read_only);
    assert(g1.contains_key("--remote"@) <==> a.remote);
    assert(g1.contains_key("--daemon-child"@));
    assert(!g1.contains_key("--tunnel-name"@) && !g1.contains_key("--tunnel-url"@));
    assert(!g1.contains_key("--no-tailscale"@) && !g1.contains_key("--profile"@));
    assert(!g1.contains_key("--allowed-host"@) && !g1.contains_key("--allowed-origin"@));
    assert(e + texts(a.allowed_host@) =~= texts(a.allowed_host@));
    assert(e + texts(a.allowed_origin@) =~= texts(a.allowed_origin@));
    assert(texts(a.allowed_host@).len() == 0 ==> texts(a.allowed_host@) =~= e);
    assert(texts(a.allowed_origin@).len() == 0 ==> texts(a.allowed_origin@) =~= e);
}

/// The port that a server is told to use, or the one that its build uses.
pub open spec fn chosen_port(a: ServeArgs, debug_build: bool) -> u16 {
    if a.port is Some {
        a.port->0
    } else if debug_build {
        8081
    } else {
        8080
    }
}

/// The word for a mode.
pub open spec fn mode_word(m: AuthMode) -> Seq<char> {
    match m {
        AuthMode::Token => "token"@,
        AuthMode::Passphrase => "passphrase"@,
        AuthMode::NoAuth => "none"@,
    }
}

/// A daemon's command line, read word by word, gives the options of its parent: the port, the host, how
/// the mode is given, each switch, both names of the tunnel, the allowed hosts and origins in their order
/// and the profile. The passphrase goes beside it.
pub proof fn law_child_is_told_what_parent_was(profile: &str, a: &ServeArgs, debug_build: bool, r: DaemonOrder)
    requires
        call_ensures(start_daemon, (profile, a, debug_build), r),
    ensures
        r.passphrase == a.passphrase,
        read_command(texts(r.argv@)) is Some,
        ({
            let g = read_command(texts(r.argv@))->0;
            &&& g.contains_key("--port"@) && g["--port"@].len() == 1 && digits(g["--port"@][0])
            &&& worth(g["--port"@][0]) == chosen_port(*a, debug_build)
            &&& gives(g, "--host"@, Some(a.host@))
            &&& a.auth is Some ==> gives(g, "--auth"@, Some(mode_word(a.auth->0)))
            &&& a.auth is None ==> gives(g, "--auth"@, None)
            &&& g.contains_key("--no-auth"@) <==> a.no_auth
            &&& g.contains_key("--behind-proxy"@) <==> a.behind_proxy
            &&& g.contains_key("--read-only"@) <==> a.read_only
            &&& g.contains_key("--remote"@) <==> a.remote
            &&& gives(g, "--tunnel-name"@, text_of(a.tunnel_name))
            &&& gives(g, "--tunnel-url"@, text_of(a.tunnel_url))
            &&& g.contains_key("--no-tailscale"@) <==> a.no_tailscale
            &&& gives_all(g, "--allowed-host"@, texts(a.allowed_host@))
            &&& gives_all(g, "--allowed-origin"@, texts(a.allowed_origin@))
            &&& profile@.len() > 0 ==> gives(g, "--profile"@, Some(profile@))
            &&& profile@.len() == 0 ==> gives(g, "--profile"@, None)
            &&& g.contains_key("--daemon-child"@)
        }),
{
    lemma_argv(profile@, *a, debug_build);
    lemma_decimal(port_of(a.port, debug_build) as nat);
}

/// Daemons with the same command line were ordered with the same options.
pub proof fn law_child_tells_parents_apart(
    p: &str,
    a: &ServeArgs,
    r: DaemonOrder,
    q: &str,
    b: &ServeArgs,
    s: DaemonOrder,
    debug_build: bool,
)
    requires
        call_ensures(start_daemon, (p, a, debug_build), r),
        call_ensures(start_daemon, (q, b, debug_build), s),
        texts(r.argv@) == texts(s.argv@),
    ensures
        p@ == q@,
        chosen_port(*a, debug_build) == chosen_port(*b, debug_build),
        a.host@ == b.host@,
        a.auth == b.auth,
        a.no_auth == b.no_auth,
        a.behind_proxy == b.behind_proxy,
        a.read_only == b.read_only,
        a.remote == b.remote,
        text_of(a.tunnel_name) == text_of(b.tunnel_name),
        text_of(a.tunnel_url) == text_of(b.tunnel_url),
        a.no_tailscale == b.no_tailscale,
        texts(a.allowed_host@) == texts(b.allowed_host@),
        texts(a.allowed_origin@) == texts(b.allowed_origin@),
{
    law_child_is_told_what_parent_was(p, a, debug_build, r);
    law_child_is_told_what_parent_was(q, b, debug_build, s);
    let g = read_command(texts(r.argv@))->0;
    assert(p@.len() > 0 ==> g["--profile"@][0] == p@);
    assert(q@.len() > 0 ==> g["--profile"@][0] == q@);
    assert(p@.len() == 0 ==> p@ =~= Seq::<char>::empty());
    assert(q@.len() == 0 ==> q@ =~= Seq::<char>::empty());
    assert(g["--host"@][0] == a.host@);
    assert(g["--host"@][0] == b.host@);
    reveal_strlit("token");
    reveal_strlit("passphrase");
    reveal_strlit("none");
    if a.auth is Some {
        assert(g["--auth"@][0] == mode_word(a.auth->0));
        assert(g["--auth"@][0] == mode_word(b.auth->0));
    }
    if a.tunnel_name is Some {
        assert(g["--tunnel-name"@][0] == a.tunnel_name->0@);
        assert(g["--tunnel-name"@][0] == b.tunnel_name->0@);
    }
    if a.tunnel_url is Some {
        assert(g["--tunnel-url"@][0] == a.tunnel_url->0@);
        assert(g["--tunnel-url"@][0] == b.tunnel_url->0@);
    }
}

/// A daemon that is started again from its kept launch is told what it was told the first time, with the
/// mode in effect spelled out, and gets the passphrase that is given then.
pub proof fn law_restarted_child_is_told_the_same(
    profile: &str,
    a: &ServeArgs,
    pid: u32,
    debug_build: bool,
    launch: ServeLaunch,
    passphrase: Option<String>,
    again: ServeArgs,
    r: DaemonOrder,
)
    requires
        !(a.auth is Some && a.no_auth),
        call_ensures(ServeLaunch::of, (profile, a, pid, debug_build), launch),
        call_ensures(ServeLaunch::to_serve_args, (&launch, passphrase), again),
        call_ensures(start_daemon, (profile, &again, debug_build), r),
    ensures
        launch.schema == 1,
        launch.pid == pid,
        launch.profile@ == profile@,
        again.daemon,
        !again.stop && !again.status && !again.open && !again.daemon_child && !again.restart,
        r.passphrase == passphrase,
        read_command(texts(r.argv@)) is Some,
        ({
            let g = read_command(texts(r.argv@))->0;
            &&& g.contains_key("--port"@) && g["--port"@].len() == 1 && digits(g["--port"@][0])
            &&& worth(g["--port"@][0]) == chosen_port(*a, debug_build)
            &&& gives(g, "--host"@, Some(a.host@))
            &&& a.auth is Some ==> gives(g, "--auth"@, Some(mode_word(a.auth->0)))
            &&& a.no_auth ==> gives(g, "--auth"@, Some("none"@))
            &&& a.auth is None && !a.no_auth ==> gives(g, "--auth"@, Some("token"@))
            &&& !g.contains_key("--no-auth"@)
            &&& g.contains_key("--behind-proxy"@) <==> a.behind_proxy
            &&& g.contains_key("--read-only"@) <==> a.read_only
            &&& g.contains_key("--remote"@) <==> a.remote
            &&& gives(g, "--tunnel-name"@, text_of(a.tunnel_name))
            &&& gives(g, "--tunnel-url"@, text_of(a.tunnel_url))
            &&& g.contains_key("--no-tailscale"@) <==> a.no_tailscale
            &&& gives_all(g, "--allowed-host"@, texts(a.allowed_host@))
            &&& gives_all(g, "--allowed-origin"@, texts(a.allowed_origin@))
        }),
{
    law_child_is_told_what_parent_was(profile, &again, debug_build, r);
    assert(texts(again.allowed_host@) =~= texts(a.allowed_host@));
    assert(texts(again.allowed_origin@) =~= texts(a.allowed_origin@));
}

} // verus!
