//! Profile configuration: sparse overrides of the global settings, and the formats of single
//! settings.

use vstd::prelude::*;

use crate::json::{member, members, Json, JsonMap, JsonV};
use crate::settings::merge::{laid_over, law_merge_empty, lemma_merge_single, merge_json, merged, nest, single, step};
use crate::text::{is_blank, join_path, path_in, text_of, trimmed};
use crate::text::{is_digit, is_empty, lower, pieces, same_ignoring_case, split, texts};

verus! {

/// The outcome of a check, with the characters of its error.
pub open spec fn outcome(r: Result<(), String>) -> Result<(), Seq<char>> {
    match r {
        Ok(_) => Ok(()),
        Err(e) => Err(e@),
    }
}

/// A letter of the ASCII alphabet.
pub open spec fn is_letter(c: char) -> bool {
    'a' <= c <= 'z' || 'A' <= c <= 'Z'
}

/// Whether a text consists of ASCII characters.
pub open spec fn ascii_only(s: Seq<char>) -> bool {
    forall|i: int| 0 <= i < s.len() ==> (#[trigger] s[i]) as u32 <= 127
}

/// A key of letters, digits and underscores that does not start with a digit.
pub open spec fn env_key(s: Seq<char>) -> bool {
    s.len() > 0 && !is_digit(s[0]) && forall|i: int|
        0 <= i < s.len() ==> is_letter(#[trigger] s[i]) || is_digit(s[i]) || s[i] == '_'
}

/// An environment entry: a key alone, or a key, an equals sign and any value.
pub open spec fn env_entry(s: Seq<char>) -> bool {
    env_key(s) || exists|n: int| 0 <= n < s.len() && #[trigger] s[n] == '=' && env_key(s.take(n))
}

/// One or more ASCII digits.
pub open spec fn digits(s: Seq<char>) -> bool {
    s.len() > 0 && forall|i: int| 0 <= i < s.len() ==> is_digit(#[trigger] s[i])
}

/// Digits, a colon, digits.
pub open spec fn port_mapping(s: Seq<char>) -> bool {
    exists|n: int| 0 <= n < s.len() && #[trigger] s[n] == ':' && digits(s.take(n)) && digits(s.skip(n + 1))
}

/// The name of a container network: a letter or a digit, then letters, digits, underscores,
/// dots and hyphens.
pub open spec fn network_name(s: Seq<char>) -> bool {
    s.len() > 0 && (is_letter(s[0]) || is_digit(s[0])) && forall|i: int|
        0 <= i < s.len() ==> is_letter(#[trigger] s[i]) || is_digit(s[i]) || s[i] == '_' || s[i] == '.' || s[i]
            == '-'
}

/// Digits and a unit.
pub open spec fn memory_size(s: Seq<char>) -> bool {
    s.len() > 0 && digits(s.drop_last()) && (s.last() == 'b' || s.last() == 'k' || s.last() == 'm' || s.last()
        == 'g' || s.last() == 'B' || s.last() == 'K' || s.last() == 'M' || s.last() == 'G')
}

pub open spec fn env_pattern() -> Seq<char> {
    "(?s)^[A-Za-z_][A-Za-z0-9_]*(=.*)?$"@
}

pub open spec fn port_pattern() -> Seq<char> {
    "^\\d+:\\d+$"@
}

pub open spec fn network_pattern() -> Seq<char> {
    "^[a-zA-Z0-9][a-zA-Z0-9_.-]*$"@
}

pub open spec fn memory_pattern() -> Seq<char> {
    "^\\d+[bkmgBKMG]$"@
}

/// Whether a pattern is found in a text; `None` where the pattern is malformed.
pub uninterp spec fn regex_found(pattern: Seq<char>, text: Seq<char>) -> Option<bool>;

/// Calls `regex::Regex::new` and `Regex::is_match`: whether the pattern is found in the text.
/// Of the four patterns used here, all of which compile, it says what they match. The two that
/// hold the class of digits, which takes in the digits of other scripts, are described on ASCII
/// texts; what they match beyond is left to the name `regex_found`.
#[verifier::external_body]
fn regex_is_match(pattern: &str, text: &str) -> (r: Option<bool>)
    ensures
        r == regex_found(pattern@, text@),
        pattern@ == env_pattern() ==> r == Some(env_entry(text@)),
        pattern@ == network_pattern() ==> r == Some(network_name(text@)),
        pattern@ == port_pattern() ==> r is Some && (ascii_only(text@) ==> r == Some(port_mapping(text@))),
        pattern@ == memory_pattern() ==> r is Some && (ascii_only(text@) ==> r == Some(memory_size(text@))),
{
    regex::Regex::new(pattern).ok().map(|re| re.is_match(text))
}

/// What a format check returns once it is known whether the format matched.
pub fn format_result(matched: Option<bool>, message: &str) -> (r: Result<(), String>)
    ensures
        outcome(r) == if matched == Some(true) {
            Ok::<(), Seq<char>>(())
        } else {
            Err::<(), Seq<char>>(message@)
        },
{
    match matched {
        Some(true) => Ok(()),
        _ => Err(message.to_owned()),
    }
}

/// How a volume is checked: host path, container path and perhaps options, parted by colons.
pub open spec fn volume_check(s: Seq<char>) -> Result<(), Seq<char>> {
    let parts = pieces(s, ':');
    if s.len() == 0 {
        Err("Volume cannot be empty"@)
    } else if parts.len() != 2 && parts.len() != 3 {
        Err("Volume must be in format host:container[:options]"@)
    } else if parts[0].len() == 0 || parts[1].len() == 0 {
        Err("Host and container paths cannot be empty"@)
    } else {
        Ok(())
    }
}

/// Validates a volume (`host:container[:options]`).
pub fn validate_volume_format(volume: &str) -> (r: Result<(), String>)
    ensures
        outcome(r) == volume_check(volume@),
{
    if is_empty(volume) {
        return Err("Volume cannot be empty".to_owned());
    }
    let parts = split(volume, ':');
    assert(texts(parts@).len() == parts@.len());
    if parts.len() < 2 || parts.len() > 3 {
        return Err("Volume must be in format host:container[:options]".to_owned());
    }
    assert(texts(parts@)[0] == parts@[0]@ && texts(parts@)[1] == parts@[1]@);
    if is_empty(parts[0].as_str()) || is_empty(parts[1].as_str()) {
        return Err("Host and container paths cannot be empty".to_owned());
    }
    Ok(())
}

/// How an environment entry is checked.
pub open spec fn env_check(s: Seq<char>) -> Result<(), Seq<char>> {
    if env_entry(s) {
        Ok(())
    } else {
        Err("Must be KEY or KEY=VALUE (letters, digits, underscores)"@)
    }
}

/// Validates an environment entry: a bare `KEY` or `KEY=VALUE`, the value unconstrained.
pub fn validate_env_format(entry: &str) -> (r: Result<(), String>)
    ensures
        outcome(r) == env_check(entry@),
{
    format_result(
        regex_is_match("(?s)^[A-Za-z_][A-Za-z0-9_]*(=.*)?$", entry),
        "Must be KEY or KEY=VALUE (letters, digits, underscores)",
    )
}

/// How a port mapping is checked.
pub open spec fn port_check(s: Seq<char>) -> Result<(), Seq<char>> {
    if regex_found(port_pattern(), s) == Some(true) {
        Ok(())
    } else {
        Err("Must be port:port (e.g. 3000:3000)"@)
    }
}

/// Validates a `host:container` port mapping: digits on both sides.
pub fn validate_port_mapping_format(mapping: &str) -> (r: Result<(), String>)
    ensures
        outcome(r) == port_check(mapping@),
        ascii_only(mapping@) ==> (r is Ok <==> port_mapping(mapping@)),
{
    format_result(regex_is_match("^\\d+:\\d+$", mapping), "Must be port:port (e.g. 3000:3000)")
}

/// How a network mode is checked.
pub open spec fn network_check(s: Seq<char>) -> Result<(), Seq<char>> {
    if s.len() == 0 {
        Ok(())
    } else if lower(s) == lower("host"@) {
        Err("host network mode defeats sandbox isolation and is not allowed"@)
    } else if network_name(s) {
        Ok(())
    } else {
        Err("Must be 'none', 'bridge', or a network name"@)
    }
}

/// Validates a container network mode: empty, or a network name other than `host`.
pub fn validate_network_format(network: &str) -> (r: Result<(), String>)
    ensures
        outcome(r) == network_check(network@),
{
    if is_empty(network) {
        return Ok(());
    }
    if same_ignoring_case(network, "host") {
        return Err("host network mode defeats sandbox isolation and is not allowed".to_owned());
    }
    format_result(
        regex_is_match("^[a-zA-Z0-9][a-zA-Z0-9_.-]*$", network),
        "Must be 'none', 'bridge', or a network name",
    )
}

/// How a memory limit is checked.
pub open spec fn memory_check(s: Seq<char>) -> Result<(), Seq<char>> {
    if s.len() == 0 || regex_found(memory_pattern(), s) == Some(true) {
        Ok(())
    } else {
        Err("Memory limit must be a number followed by b, k, m, or g (e.g. 512m, 8g)"@)
    }
}

/// Validates a memory limit: empty, or digits and a unit.
pub fn validate_memory_limit(limit: &str) -> (r: Result<(), String>)
    ensures
        outcome(r) == memory_check(limit@),
        ascii_only(limit@) ==> (r is Ok <==> limit@.len() == 0 || memory_size(limit@)),
{
    if is_empty(limit) {
        return Ok(());
    }
    format_result(
        regex_is_match("^\\d+[bkmgBKMG]$", limit),
        "Memory limit must be a number followed by b, k, m, or g (e.g. 512m, 8g)",
    )
}

/// Validates that a check interval is positive.
pub fn validate_check_interval(hours: u64) -> (r: Result<(), String>)
    ensures
        outcome(r) == if hours == 0 {
            Err::<(), Seq<char>>("Check interval must be greater than 0"@)
        } else {
            Ok::<(), Seq<char>>(())
        },
{
    if hours == 0 {
        Err("Check interval must be greater than 0".to_owned())
    } else {
        Ok(())
    }
}

/// The settings of a profile: a description, and the overrides of the global configuration,
/// section by section. What is absent is inherited.
#[derive(Debug, Clone)]
pub struct ProfileConfig {
    pub description: Option<String>,
    pub overrides: JsonMap,
}

impl Default for ProfileConfig {
    fn default() -> (r: ProfileConfig)
        ensures
            r.description is None,
            r.overrides@ == Map::<Seq<char>, JsonV>::empty(),
    {
        ProfileConfig { description: None, overrides: JsonMap::new() }
    }
}

impl ProfileConfig {
    /// The document that a profile is written as: the overrides, and the description among them.
    pub open spec fn document(&self) -> Map<Seq<char>, JsonV> {
        match self.description {
            Some(d) => if self.overrides@.contains_key("description"@) {
                self.overrides@
            } else {
                self.overrides@.insert("description"@, JsonV::Text(d@))
            },
            None => self.overrides@,
        }
    }

    /// The overrides as a document to lay over a configuration. The description is not in it.
    pub fn overrides_value(&self) -> (r: Json)
        ensures
            r@ == JsonV::Object(self.overrides@),
    {
        Json::Object(self.overrides.clone())
    }

    /// The document that a profile is written as.
    pub fn to_json(&self) -> (r: Json)
        ensures
            r@ == JsonV::Object(self.document()),
    {
        let mut m = self.overrides.clone();
        if let Some(d) = &self.description {
            if !m.contains_key("description") {
                m.insert("description".to_owned(), Json::Text(d.clone()));
            }
        }
        Json::Object(m)
    }

    /// The profile that a document holds; none where the document is no object or its
    /// description is no text.
    pub fn from_json(v: &Json) -> (r: Option<ProfileConfig>)
        ensures
            match r {
                Some(p) => v@ is Object && describable(v@) && p.holds(v@->Object_0),
                None => !(v@ is Object && describable(v@)),
            },
    {
        let m = match v.as_object() {
            Some(m) => m,
            None => {
                return None;
            },
        };
        let description = match m.get("description") {
            None => None,
            Some(d) => match d {
                Json::Null => None,
                Json::Text(s) => Some(s.clone()),
                _ => {
                    return None;
                },
            },
        };
        let mut overrides = m.clone();
        overrides.remove("description");
        Some(ProfileConfig { description, overrides })
    }

    /// Whether this is the profile that a document holds.
    pub open spec fn holds(&self, m: Map<Seq<char>, JsonV>) -> bool {
        &&& self.overrides@ == m.remove("description"@)
        &&& text_of(self.description) == match member(JsonV::Object(m), "description"@) {
            Some(JsonV::Text(s)) => Some(s),
            _ => None,
        }
    }
}

/// Whether the description in a document is absent, `null` or a text.
pub open spec fn describable(v: JsonV) -> bool {
    match member(v, "description"@) {
        None => true,
        Some(JsonV::Null) => true,
        Some(JsonV::Text(_)) => true,
        _ => false,
    }
}

/// Writing a profile and reading it back gives the same profile.
pub proof fn law_profile_round_trips(p: ProfileConfig, q: ProfileConfig)
    requires
        !p.overrides@.contains_key("description"@),
        q.holds(p.document()),
    ensures
        describable(JsonV::Object(p.document())),
        q.overrides@ == p.overrides@,
        text_of(q.description) == text_of(p.description),
{
    assert(p.document().remove("description"@) =~= p.overrides@);
}

/// What loading a profile gives: the default where there is no file or it is blank, else what
/// the file was read as, provided that its overrides fit the configuration.
pub fn load_profile_config(
    content: Option<&str>,
    parsed: Result<ProfileConfig, String>,
    typecheck: Result<(), String>,
) -> (r: Result<ProfileConfig, String>)
    ensures
        if content is None || trimmed(content->0@).len() == 0 {
            r matches Ok(p) && p.description is None && p.overrides@ == Map::<Seq<char>, JsonV>::empty()
        } else if parsed is Err || typecheck is Ok {
            r == parsed
        } else {
            r matches Err(e) && e@ == "invalid override value: "@ + typecheck->Err_0@
        },
{
    let blank = match content {
        Some(text) => is_blank(text),
        None => true,
    };
    if blank {
        return Ok(ProfileConfig::default());
    }
    match parsed {
        Ok(config) => match validate_overrides_typecheck(typecheck) {
            Ok(_) => Ok(config),
            Err(e) => Err(e),
        },
        Err(e) => Err(e),
    }
}

/// The error of an override that does not fit the configuration.
pub fn validate_overrides_typecheck(decoded: Result<(), String>) -> (r: Result<(), String>)
    ensures
        outcome(r) == match decoded {
            Ok(_) => Ok::<(), Seq<char>>(()),
            Err(e) => Err::<(), Seq<char>>("invalid override value: "@ + e@),
        },
{
    match decoded {
        Ok(_) => Ok(()),
        Err(e) => Err(crate::text::join2("invalid override value: ", e.as_str())),
    }
}

/// The path of a profile's configuration file.
pub fn get_profile_config_path(profile_dir: &str) -> (r: String)
    ensures
        r@ == path_in(profile_dir@, "config.toml"@),
{
    join_path(profile_dir, "config.toml")
}

/// Whether a profile sets anything.
pub fn profile_has_overrides(config: &ProfileConfig) -> (r: bool)
    ensures
        r == (config.description is Some || config.overrides@ != Map::<Seq<char>, JsonV>::empty()),
{
    config.description.is_some() || !config.overrides.is_empty()
}

/// A document with one leaf set.
pub open spec fn with_leaf(v: JsonV, section: Seq<char>, field: Seq<char>, leaf: JsonV) -> JsonV {
    merged(v, single(section, single(field, leaf)))
}

/// Sets one leaf of a document.
pub fn set_leaf(v: &mut Json, section: &str, field: &str, leaf: Json)
    ensures
        final(v)@ == with_leaf(old(v)@, section@, field@, leaf@),
{
    merge_json(v, &nest(section, nest(field, leaf)));
}

/// What is found where a leaf was set: the leaf laid over what was there; and no other leaf of
/// a document of sections is touched.
pub proof fn lemma_with_leaf(v: JsonV, section: Seq<char>, field: Seq<char>, leaf: JsonV)
    ensures
        step(member(with_leaf(v, section, field, leaf), section), field) == Some(
            laid_over(step(member(v, section), field), leaf),
        ),
        v is Object ==> forall|s: Seq<char>|
            s != section ==> #[trigger] member(with_leaf(v, section, field, leaf), s) == member(v, s),
        (member(v, section) matches Some(m) && m is Object) ==> forall|f: Seq<char>|
            f != field ==> #[trigger] step(member(with_leaf(v, section, field, leaf), section), f) == step(
                member(v, section),
                f,
            ),
{
    lemma_merge_single(v, section, single(field, leaf));
    match member(v, section) {
        Some(m) => {
            lemma_merge_single(m, field, leaf);
        },
        None => {},
    }
}

/// A configuration with the values that the client mode depends on.
pub open spec fn cityhall(config: JsonV) -> JsonV {
    with_leaf(
        with_leaf(
            with_leaf(config, "acp"@, "max_concurrent_workers"@, JsonV::Unsigned(50)),
            "acp"@,
            "max_concurrent_resumes"@,
            JsonV::Unsigned(2),
        ),
        "worktree"@,
        "enabled"@,
        JsonV::Bool(true),
    )
}

/// Pins the values that the client mode depends on: a high worker ceiling, few resumes at a
/// time, worktree sessions. Does nothing outside that mode.
pub fn apply_cityhall_overrides(config: &mut Json, mode_is_set: bool)
    ensures
        final(config)@ == if mode_is_set {
            cityhall(old(config)@)
        } else {
            old(config)@
        },
{
    if !mode_is_set {
        return ;
    }
    set_leaf(config, "acp", "max_concurrent_workers", Json::Unsigned(50));
    set_leaf(config, "acp", "max_concurrent_resumes", Json::Unsigned(2));
    set_leaf(config, "worktree", "enabled", Json::Bool(true));
}

/// Overrides laid over a configuration.
pub fn merge_configs_generic(global: &Json, overrides: &Json) -> (r: Json)
    ensures
        r@ == merged(global@, overrides@),
{
    let mut base = global.clone();
    merge_json(&mut base, overrides);
    base
}

/// A profile's overrides laid over the global configuration.
pub fn merge_configs(global: Json, profile: &ProfileConfig) -> (r: Json)
    ensures
        r@ == merged(global@, JsonV::Object(profile.overrides@)),
{
    merge_configs_generic(&global, &profile.overrides_value())
}

/// A profile without overrides leaves the configuration as it is.
pub proof fn law_no_overrides_is_identity(global: Map<Seq<char>, JsonV>, profile: ProfileConfig)
    requires
        profile.overrides@ == Map::<Seq<char>, JsonV>::empty(),
    ensures
        merged(JsonV::Object(global), JsonV::Object(profile.overrides@)) == JsonV::Object(global),
{
    law_merge_empty(global);
}

/// The configuration in effect for a profile: the global one with the profile's overrides, and
/// the values of the client mode where it is on. An error of the global configuration comes
/// before one of the profile.
pub fn resolve_config(global: Result<Json, String>, profile: Result<ProfileConfig, String>, mode_is_set: bool) -> (r:
    Result<Json, String>)
    ensures
        match (global, profile) {
            (Err(e), _) => r matches Err(f) && f@ == e@,
            (Ok(_), Err(e)) => r matches Err(f) && f@ == e@,
            (Ok(g), Ok(p)) => {
                let m = merged(g@, JsonV::Object(p.overrides@));
                r matches Ok(c) && c@ == if mode_is_set {
                    cityhall(m)
                } else {
                    m
                }
            },
        },
{
    match (global, profile) {
        (Err(e), _) => Err(e),
        (Ok(_), Err(e)) => Err(e),
        (Ok(g), Ok(p)) => {
            let mut config = merge_configs(g, &p);
            apply_cityhall_overrides(&mut config, mode_is_set);
            Ok(config)
        },
    }
}

/// The resolved configuration, or the default one where resolving failed.
pub fn resolve_config_or_warn(resolved: Result<Json, String>, default: Json, mode_is_set: bool) -> (r: Json)
    ensures
        r@ == match resolved {
            Ok(c) => c@,
            Err(_) => if mode_is_set {
                cityhall(default@)
            } else {
                default@
            },
        },
{
    match resolved {
        Ok(config) => config,
        Err(_) => {
            let mut config = default;
            apply_cityhall_overrides(&mut config, mode_is_set);
            config
        },
    }
}

/// Pinning the values of the client mode puts them where they are read.
pub proof fn law_cityhall_pins(config: JsonV)
    ensures
        step(member(cityhall(config), "acp"@), "max_concurrent_workers"@) == Some(JsonV::Unsigned(50)),
        step(member(cityhall(config), "acp"@), "max_concurrent_resumes"@) == Some(JsonV::Unsigned(2)),
        step(member(cityhall(config), "worktree"@), "enabled"@) == Some(JsonV::Bool(true)),
{
    let workers = "max_concurrent_workers"@;
    let resumes = "max_concurrent_resumes"@;
    reveal_strlit("acp");
    reveal_strlit("worktree");
    reveal_strlit("max_concurrent_workers");
    reveal_strlit("max_concurrent_resumes");
    assert("acp"@.len() != "worktree"@.len());
    assert(workers[15] != resumes[15]);
    let c1 = with_leaf(config, "acp"@, workers, JsonV::Unsigned(50));
    let c2 = with_leaf(c1, "acp"@, resumes, JsonV::Unsigned(2));
    lemma_with_leaf(config, "acp"@, workers, JsonV::Unsigned(50));
    lemma_merge_single(config, "acp"@, single(workers, JsonV::Unsigned(50)));
    lemma_with_leaf(c1, "acp"@, resumes, JsonV::Unsigned(2));
    lemma_merge_single(c1, "acp"@, single(resumes, JsonV::Unsigned(2)));
    lemma_with_leaf(c2, "worktree"@, "enabled"@, JsonV::Bool(true));
}

/// Setting a leaf to the value that it has changes nothing.
proof fn lemma_with_leaf_same(v: JsonV, section: Seq<char>, field: Seq<char>, leaf: JsonV)
    requires
        v is Object,
        member(v, section) matches Some(m) && m is Object,
        step(member(v, section), field) == Some(leaf),
        !(leaf is Object),
    ensures
        with_leaf(v, section, field, leaf) == v,
{
    let m = v->Object_0;
    let w = with_leaf(v, section, field, leaf);
    let s = m[section];
    let t = merged(s, single(field, leaf));
    lemma_merge_single(v, section, single(field, leaf));
    lemma_merge_single(s, field, leaf);
    assert forall|k: Seq<char>| #[trigger] members(t).contains_key(k) == members(s).contains_key(k) && (members(
        s,
    ).contains_key(k) ==> members(t)[k] == members(s)[k]) by {
        if k != field {
            assert(member(t, k) == member(s, k));
        } else {
            assert(member(t, k) == Some(leaf));
            assert(member(s, k) == Some(leaf));
        }
    }
    assert(members(t) =~= members(s));
    assert(t == s);
    assert forall|k: Seq<char>| #[trigger] members(w).contains_key(k) == m.contains_key(k) && (m.contains_key(k)
        ==> members(w)[k] == m[k]) by {
        if k != section {
            assert(member(w, k) == member(v, k));
        } else {
            assert(member(w, k) == Some(t));
        }
    }
    assert(members(w) =~= m);
}

/// Pinning the values of the client mode twice is the same as doing it once.
pub proof fn law_cityhall_idempotent(config: JsonV)
    ensures
        cityhall(cityhall(config)) == cityhall(config),
{
    let c = cityhall(config);
    law_cityhall_pins(config);
    let c1 = with_leaf(config, "acp"@, "max_concurrent_workers"@, JsonV::Unsigned(50));
    let c2 = with_leaf(c1, "acp"@, "max_concurrent_resumes"@, JsonV::Unsigned(2));
    lemma_merge_single(c2, "worktree"@, single("enabled"@, JsonV::Bool(true)));
    assert(member(c, "acp"@) matches Some(m) && m is Object);
    assert(member(c, "worktree"@) matches Some(m) && m is Object);
    lemma_with_leaf_same(c, "acp"@, "max_concurrent_workers"@, JsonV::Unsigned(50));
    lemma_with_leaf_same(c, "acp"@, "max_concurrent_resumes"@, JsonV::Unsigned(2));
    lemma_with_leaf_same(c, "worktree"@, "enabled"@, JsonV::Bool(true));
}

} // verus!
