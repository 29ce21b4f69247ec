//! Host names and origins: how they are normalized, and which may be allowed.

use vstd::prelude::*;

use crate::ip::{ip_of, loopback, parse_ip, untrusted};
use crate::profile_config::outcome;
use crate::settings::validate::{first_error, lemma_first_error_stays};
use crate::text::{
    after_prefix, chars_of, cut, debug, debug_text, has_char, is_empty, join3, lower, same, split_once, string_of,
    strip_prefix, texts, to_lower, trim, trimmed,
};

verus! {

/// Whether a host is the machine itself.
pub open spec fn localhost(host: Seq<char>) -> bool {
    host == "localhost"@ || (ip_of(host) matches Some(ip) && loopback(ip))
}

/// Whether a host is the machine itself: `localhost`, or a loopback address.
pub fn host_is_localhost(host: &str) -> (r: bool)
    ensures
        r == localhost(host@),
{
    if same(host, "localhost") {
        return true;
    }
    match parse_ip(host) {
        Some(ip) => ip.is_loopback(),
        None => false,
    }
}

/// A host without its port: what stands in brackets, or before the only colon; small letters.
pub open spec fn normalized(host: Seq<char>) -> Seq<char> {
    let t = lower(trimmed(host));
    if t.len() > 0 && t[0] == '[' {
        match cut(t.skip(1), ']') {
            Some((inside, _)) => inside,
            None => t,
        }
    } else {
        match cut(t, ':') {
            Some((before, after)) => if after.contains(':') {
                t
            } else {
                before
            },
            None => t,
        }
    }
}

/// A host without its port. An address of groups, which holds more than one colon, stays whole.
pub fn norm_host(host: &str) -> (r: String)
    ensures
        r@ == normalized(host@),
{
    let t = to_lower(trim(host).as_str());
    let v = chars_of(t.as_str());
    let n: usize = v.len();
    if n > 0 && v[0] == '[' {
        let rest = string_of(&v, 1, n);
        assert(rest@ =~= t@.skip(1));
        return match split_once(rest.as_str(), ']') {
            Some((inside, _)) => inside,
            None => t,
        };
    }
    match split_once(t.as_str(), ':') {
        Some((before, after)) => if has_char(after.as_str(), ':') {
            t
        } else {
            before
        },
        None => t,
    }
}

/// Whether a normalized host is an address that is never trusted.
pub open spec fn untrusted_literal(host: Seq<char>) -> bool {
    ip_of(host) matches Some(ip) && untrusted(ip)
}

/// Whether a normalized host is an address that is never trusted: that of no machine, of a link, or
/// of many machines.
pub fn is_untrusted_ip_literal(host: &str) -> (r: bool)
    ensures
        r == untrusted_literal(host@),
{
    match parse_ip(host) {
        Some(ip) => ip.is_untrusted(),
        None => false,
    }
}

/// Whether a text holds a character that no host can hold: it belongs to a path, a query, a
/// fragment or a user.
pub open spec fn has_forbidden(s: Seq<char>) -> bool {
    s.contains('/') || s.contains('?') || s.contains('#') || s.contains('@')
}

fn contains_forbidden(s: &str) -> (r: bool)
    ensures
        r == has_forbidden(s@),
{
    has_char(s, '/') || has_char(s, '?') || has_char(s, '#') || has_char(s, '@')
}

pub open spec fn malformed_host_words(host: Seq<char>) -> Seq<char> {
    "--allowed-host "@ + debug_text(host)
        + " must be a bare hostname or IP (optionally host:port), without a scheme, path, query, or userinfo.\nThe DNS-rebinding gate compares it against the request's Host header, so a value that carries any of those or normalizes to nothing (e.g. \":8080\") can never match and would reject the requests it should allow. Example:\n  aoe serve --host 0.0.0.0 --allowed-host aoe.example.com"@
}

pub open spec fn untrusted_host_words(host: Seq<char>) -> Seq<char> {
    "--allowed-host "@ + debug_text(host)
        + " is an unspecified (0.0.0.0, ::), link-local, or multicast address the DNS-rebinding gate never trusts.\nA wildcard bind means \"all interfaces\", not a name a client sends, and link-local reaches cloud metadata (169.254.169.254), so allowlisting one would reopen the hole this gate closes. Reach a wildcard-bound server by its routable LAN or tailnet IP, which needs no --allowed-host, or allow its hostname. Example:\n  aoe serve --host 0.0.0.0 --allowed-host aoe.example.com"@
}

/// How an allowed host is checked.
pub open spec fn host_check(host: Seq<char>) -> Result<(), Seq<char>> {
    let t = trimmed(host);
    if has_forbidden(t) || normalized(t).len() == 0 {
        Err(malformed_host_words(host))
    } else if untrusted_literal(normalized(t)) {
        Err(untrusted_host_words(host))
    } else {
        Ok(())
    }
}

/// The checks of a list of allowed hosts.
pub open spec fn host_checks(hosts: Seq<Seq<char>>) -> spec_fn(int) -> Result<(), Seq<char>> {
    |i: int| host_check(hosts[i])
}

fn validate_allowed_host(host: &str) -> (r: Result<(), String>)
    ensures
        outcome(r) == host_check(host@),
{
    let t = trim(host);
    let normal = norm_host(t.as_str());
    if contains_forbidden(t.as_str()) || is_empty(normal.as_str()) {
        return Err(
            join3(
                "--allowed-host ",
                debug(host).as_str(),
                " must be a bare hostname or IP (optionally host:port), without a scheme, path, query, or userinfo.\nThe DNS-rebinding gate compares it against the request's Host header, so a value that carries any of those or normalizes to nothing (e.g. \":8080\") can never match and would reject the requests it should allow. Example:\n  aoe serve --host 0.0.0.0 --allowed-host aoe.example.com",
            ),
        );
    }
    if is_untrusted_ip_literal(normal.as_str()) {
        return Err(
            join3(
                "--allowed-host ",
                debug(host).as_str(),
                " is an unspecified (0.0.0.0, ::), link-local, or multicast address the DNS-rebinding gate never trusts.\nA wildcard bind means \"all interfaces\", not a name a client sends, and link-local reaches cloud metadata (169.254.169.254), so allowlisting one would reopen the hole this gate closes. Reach a wildcard-bound server by its routable LAN or tailnet IP, which needs no --allowed-host, or allow its hostname. Example:\n  aoe serve --host 0.0.0.0 --allowed-host aoe.example.com",
            ),
        );
    }
    Ok(())
}

/// Checks the allowed hosts: each a bare host, perhaps with a port, and no address that is never
/// trusted. The first that fails is reported.
pub fn validate_allowed_hosts(allowed_hosts: &[String]) -> (r: Result<(), String>)
    ensures
        outcome(r) == first_error(allowed_hosts@.len(), host_checks(texts(allowed_hosts@))),
{
    let ghost check = host_checks(texts(allowed_hosts@));
    let mut i: usize = 0;
    while i < allowed_hosts.len()
        invariant
            i <= allowed_hosts@.len(),
            check == host_checks(texts(allowed_hosts@)),
            first_error(i as nat, check) == Ok::<(), Seq<char>>(()),
        decreases allowed_hosts@.len() - i,
    {
        assert(texts(allowed_hosts@)[i as int] == allowed_hosts@[i as int]@);
        let checked = validate_allowed_host(allowed_hosts[i].as_str());
        assert(outcome(checked) == check(i as int));
        if checked.is_err() {
            proof {
                lemma_first_error_stays((i + 1) as nat, allowed_hosts@.len(), check);
            }
            return checked;
        }
        i = i + 1;
    }
    Ok(())
}

/// A text without the slashes at its end.
pub open spec fn without_slashes(s: Seq<char>) -> Seq<char>
    decreases s.len(),
{
    if s.len() > 0 && s.last() == '/' {
        without_slashes(s.drop_last())
    } else {
        s
    }
}

fn trim_slashes(s: &str) -> (r: String)
    ensures
        r@ == without_slashes(s@),
{
    let v = chars_of(s);
    let mut n: usize = v.len();
    assert(v@.subrange(0, n as int) =~= s@);
    while n > 0 && v[n - 1] == '/'
        invariant
            v@ == s@,
            n <= v@.len(),
            without_slashes(v@.subrange(0, n as int)) == without_slashes(s@),
        decreases n,
    {
        assert(v@.subrange(0, n as int).drop_last() =~= v@.subrange(0, n - 1));
        n = n - 1;
    }
    string_of(&v, 0, n)
}

/// What follows the scheme of an origin.
pub open spec fn origin_host(origin: Seq<char>) -> Option<Seq<char>> {
    let t = lower(trimmed(origin));
    match after_prefix(t, "https://"@) {
        Some(h) => Some(h),
        None => after_prefix(t, "http://"@),
    }
}

pub open spec fn malformed_origin_words(origin: Seq<char>) -> Seq<char> {
    "--allowed-origin "@ + debug_text(origin)
        + " must be a full origin of the form scheme://host[:port].\nA browser Origin always carries a scheme and a host and no path, query, or userinfo, so any other value can never match and would reject the requests it should allow. Example:\n  aoe serve --allowed-origin https://aoe.example.com:8443"@
}

pub open spec fn untrusted_origin_words(origin: Seq<char>) -> Seq<char> {
    "--allowed-origin "@ + debug_text(origin)
        + " resolves to an unspecified (0.0.0.0, ::), link-local, or multicast host the DNS-rebinding gate never trusts.\nBrowsers can send an IP-literal Origin (e.g. http://0.0.0.0), so allowlisting one would reopen the hole this gate closes. Use the machine's routable hostname or IP instead. Example:\n  aoe serve --allowed-origin https://aoe.example.com:8443"@
}

/// How an allowed origin is checked.
pub open spec fn origin_check(origin: Seq<char>) -> Result<(), Seq<char>> {
    match origin_host(origin) {
        None => Err(malformed_origin_words(origin)),
        Some(h) => {
            let host = without_slashes(h);
            if has_forbidden(host) || normalized(host).len() == 0 {
                Err(malformed_origin_words(origin))
            } else if untrusted_literal(normalized(host)) {
                Err(untrusted_origin_words(origin))
            } else {
                Ok(())
            }
        },
    }
}

/// The checks of a list of allowed origins.
pub open spec fn origin_checks(origins: Seq<Seq<char>>) -> spec_fn(int) -> Result<(), Seq<char>> {
    |i: int| origin_check(origins[i])
}

fn malformed_origin(origin: &str) -> (r: String)
    ensures
        r@ == malformed_origin_words(origin@),
{
    join3(
        "--allowed-origin ",
        debug(origin).as_str(),
        " must be a full origin of the form scheme://host[:port].\nA browser Origin always carries a scheme and a host and no path, query, or userinfo, so any other value can never match and would reject the requests it should allow. Example:\n  aoe serve --allowed-origin https://aoe.example.com:8443",
    )
}

fn validate_allowed_origin(origin: &str) -> (r: Result<(), String>)
    ensures
        outcome(r) == origin_check(origin@),
{
    let t = to_lower(trim(origin).as_str());
    let after = match strip_prefix(t.as_str(), "https://") {
        Some(h) => Some(h),
        None => strip_prefix(t.as_str(), "http://"),
    };
    let host = match after {
        Some(h) => trim_slashes(h),
        None => {
            return Err(malformed_origin(origin));
        },
    };
    let normal = norm_host(host.as_str());
    if contains_forbidden(host.as_str()) || is_empty(normal.as_str()) {
        return Err(malformed_origin(origin));
    }
    if is_untrusted_ip_literal(normal.as_str()) {
        return Err(
            join3(
                "--allowed-origin ",
                debug(origin).as_str(),
                " resolves to an unspecified (0.0.0.0, ::), link-local, or multicast host the DNS-rebinding gate never trusts.\nBrowsers can send an IP-literal Origin (e.g. http://0.0.0.0), so allowlisting one would reopen the hole this gate closes. Use the machine's routable hostname or IP instead. Example:\n  aoe serve --allowed-origin https://aoe.example.com:8443",
            ),
        );
    }
    Ok(())
}

/// Checks the allowed origins: each a scheme and a host, perhaps with a port, and no address that
/// is never trusted. The first that fails is reported.
pub fn validate_allowed_origins(allowed_origins: &[String]) -> (r: Result<(), String>)
    ensures
        outcome(r) == first_error(allowed_origins@.len(), origin_checks(texts(allowed_origins@))),
{
    let ghost check = origin_checks(texts(allowed_origins@));
    let mut i: usize = 0;
    while i < allowed_origins.len()
        invariant
            i <= allowed_origins@.len(),
            check == origin_checks(texts(allowed_origins@)),
            first_error(i as nat, check) == Ok::<(), Seq<char>>(()),
        decreases allowed_origins@.len() - i,
    {
        assert(texts(allowed_origins@)[i as int] == allowed_origins@[i as int]@);
        let checked = validate_allowed_origin(allowed_origins[i].as_str());
        assert(outcome(checked) == check(i as int));
        if checked.is_err() {
            proof {
                lemma_first_error_stays((i + 1) as nat, allowed_origins@.len(), check);
            }
            return checked;
        }
        i = i + 1;
    }
    Ok(())
}

/// No list of allowed hosts that passes holds an address that is never trusted, or a host that
/// comes to nothing.
pub proof fn law_allowed_hosts_are_trustworthy(hosts: Seq<Seq<char>>, i: int)
    requires
        first_error(hosts.len(), host_checks(hosts)) is Ok,
        0 <= i < hosts.len(),
    ensures
        !untrusted_literal(normalized(trimmed(hosts[i]))),
        normalized(trimmed(hosts[i])).len() > 0,
        !has_forbidden(trimmed(hosts[i])),
{
    crate::settings::validate::lemma_first_error_ok(hosts.len(), host_checks(hosts));
    assert(host_checks(hosts)(i) is Ok);
}

/// No list of allowed origins that passes holds an address that is never trusted, or lacks a
/// scheme or a host.
pub proof fn law_allowed_origins_are_trustworthy(origins: Seq<Seq<char>>, i: int)
    requires
        first_error(origins.len(), origin_checks(origins)) is Ok,
        0 <= i < origins.len(),
    ensures
        origin_host(origins[i]) matches Some(h) && !untrusted_literal(normalized(without_slashes(h))) && normalized(
            without_slashes(h),
        ).len() > 0 && !has_forbidden(without_slashes(h)),
{
    crate::settings::validate::lemma_first_error_ok(origins.len(), origin_checks(origins));
    assert(origin_checks(origins)(i) is Ok);
}

} // verus!
