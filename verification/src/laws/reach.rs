//! How a server may be signed in to, and from where it is reached.

use vstd::prelude::*;

use crate::daemon::{is_wildcard_bind, needs_cloudflared};
use crate::serve::{
    cloudflared_required, resolve_auth_mode, validate_auth_combination, validate_behind_proxy_allowlist, AuthMode,
    ServeArgs,
};

verus! {

/// The way to sign in is the one asked for, else a token.
pub proof fn law_sign_in_is_as_asked(auth: Option<AuthMode>, no_auth: bool, r: AuthMode)
    requires
        call_ensures(resolve_auth_mode, (auth, no_auth), r),
        !(auth is Some && no_auth),
    ensures
        auth matches Some(m) ==> r == m,
        no_auth ==> r == AuthMode::NoAuth,
        auth is None && !no_auth ==> r == AuthMode::Token,
{
}

/// A server signs in by token anywhere. Without a token it is reached from the machine itself or through a
/// proxy, never through a tunnel, and it has a passphrase exactly where it asks for one.
pub proof fn law_sign_in_is_guarded(
    mode: AuthMode,
    has_passphrase: bool,
    is_localhost: bool,
    behind_proxy: bool,
    remote: bool,
    host: &str,
    r: Result<(), String>,
)
    requires
        call_ensures(
            validate_auth_combination,
            (mode, has_passphrase, is_localhost, behind_proxy, remote, host),
            r,
        ),
    ensures
        r is Ok <==> mode == AuthMode::Token || ((is_localhost || behind_proxy) && !remote && (has_passphrase <==> mode
            == AuthMode::Passphrase)),
{
}

/// A server behind a proxy needs a public host, but for one that a tunnel gives a host.
pub proof fn law_proxy_needs_a_host(
    behind_proxy: bool,
    remote: bool,
    hosts: &[String],
    r: Result<(), String>,
    no_tailscale: bool,
    named: bool,
    available: bool,
    tunnel: bool,
)
    requires
        call_ensures(validate_behind_proxy_allowlist, (behind_proxy, remote, hosts), r),
        call_ensures(cloudflared_required, (no_tailscale, named, available), tunnel),
    ensures
        r is Err <==> behind_proxy && !remote && hosts@.len() == 0,
        !tunnel <==> !no_tailscale && !named && available,
{
}

/// A host that stands for every interface is one of three, and the Cloudflare client is needed only for a
/// tunnel that Tailscale does not give.
pub proof fn law_wildcards_and_tunnels(host: &str, w: bool, a: &ServeArgs, tailscale: bool, c: bool)
    requires
        call_ensures(is_wildcard_bind, (host,), w),
        call_ensures(needs_cloudflared, (a, tailscale), c),
    ensures
        w <==> host@ == seq!['0', '.', '0', '.', '0', '.', '0'] || host@ == seq![':', ':'] || host@ == seq![
            '[',
            ':',
            ':',
            ']',
        ],
        c ==> a.remote,
        a.remote && !c ==> tailscale && !a.no_tailscale && a.tunnel_name is None,
        a.remote && c && tailscale && !a.no_tailscale ==> a.tunnel_name is Some,
{
    reveal_strlit("0.0.0.0");
    reveal_strlit("::");
    reveal_strlit("[::]");
    assert("0.0.0.0"@ =~= seq!['0', '.', '0', '.', '0', '.', '0']);
    assert("::"@ =~= seq![':', ':']);
    assert("[::]"@ =~= seq!['[', ':', ':', ']']);
}

} // verus!
