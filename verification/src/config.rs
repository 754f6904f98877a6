//! Layered configuration: later configurations override earlier ones.

use vstd::prelude::*;
use crate::policy::{PolicyConfig, PolicyMode};
use crate::text::{chars_of, lowercase, push_str, string_from_chars, texts, to_lowercase};
use crate::tools::lookup::opt_view;
use crate::util::{config_dir, join_path, join_paths};

verus! {

broadcast use vstd::string::group_string_axioms;

/// One configuration layer; an absent setting leaves the earlier layers' value.
#[derive(Debug, Clone)]
pub struct Config {
    pub model: Option<String>,
    pub api_key: Option<String>,
    pub endpoint: Option<String>,
    pub adapter: Option<String>,
    pub terminal: Option<String>,
    pub policy: PolicyConfig,
}

/// The configuration that sets nothing.
pub open spec fn empty_config() -> Config {
    Config {
        model: None,
        api_key: None,
        endpoint: None,
        adapter: None,
        terminal: None,
        policy: crate::policy::empty_policy_config(),
    }
}

/// `later` when it is set, `earlier` otherwise.
pub open spec fn overlay<T>(earlier: Option<T>, later: Option<T>) -> Option<T> {
    if later is Some {
        later
    } else {
        earlier
    }
}

/// The policy settings of `b` laid over those of `a`.
pub open spec fn overlay_policy(a: PolicyConfig, b: PolicyConfig) -> PolicyConfig {
    PolicyConfig {
        access_lookup_directory: overlay(a.access_lookup_directory, b.access_lookup_directory),
        access_lookup_fs: overlay(a.access_lookup_fs, b.access_lookup_fs),
        access_lookup_web: overlay(a.access_lookup_web, b.access_lookup_web),
        access_write_directory: overlay(a.access_write_directory, b.access_write_directory),
        access_write_fs: overlay(a.access_write_fs, b.access_write_fs),
        access_bash: overlay(a.access_bash, b.access_bash),
    }
}

/// The configuration `b` laid over `a`: every setting of `b` wins, every
/// setting `b` leaves out keeps its value from `a`.
pub open spec fn merged(a: Config, b: Config) -> Config {
    Config {
        model: overlay(a.model, b.model),
        api_key: overlay(a.api_key, b.api_key),
        endpoint: overlay(a.endpoint, b.endpoint),
        adapter: overlay(a.adapter, b.adapter),
        terminal: overlay(a.terminal, b.terminal),
        policy: overlay_policy(a.policy, b.policy),
    }
}

fn overlay_mode(earlier: Option<PolicyMode>, later: Option<PolicyMode>) -> (r: Option<PolicyMode>)
    ensures
        r == overlay(earlier, later),
{
    if later.is_some() {
        later
    } else {
        earlier
    }
}

impl Default for Config {
    fn default() -> (r: Self)
        ensures
            r == empty_config(),
    {
        Config {
            model: None,
            api_key: None,
            endpoint: None,
            adapter: None,
            terminal: None,
            policy: PolicyConfig::default(),
        }
    }
}

impl Config {
    /// Lays `other` over `self`: each setting that `other` holds replaces the
    /// one in `self`.
    pub fn merge(&mut self, other: Config)
        ensures
            *final(self) == merged(*old(self), other),
    {
        if other.model.is_some() {
            self.model = other.model;
        }
        if other.api_key.is_some() {
            self.api_key = other.api_key;
        }
        if other.endpoint.is_some() {
            self.endpoint = other.endpoint;
        }
        if other.adapter.is_some() {
            self.adapter = other.adapter;
        }
        if other.terminal.is_some() {
            self.terminal = other.terminal;
        }
        let p = self.policy;
        self.policy = PolicyConfig {
            access_lookup_directory: overlay_mode(
                p.access_lookup_directory,
                other.policy.access_lookup_directory,
            ),
            access_lookup_fs: overlay_mode(p.access_lookup_fs, other.policy.access_lookup_fs),
            access_lookup_web: overlay_mode(p.access_lookup_web, other.policy.access_lookup_web),
            access_write_directory: overlay_mode(
                p.access_write_directory,
                other.policy.access_write_directory,
            ),
            access_write_fs: overlay_mode(p.access_write_fs, other.policy.access_write_fs),
            access_bash: overlay_mode(p.access_bash, other.policy.access_bash),
        };
    }
}

/// Laying an empty configuration over `a` leaves `a` as it is, and laying `a`
/// over an empty configuration gives `a`.
pub proof fn law_merge_identity(a: Config)
    ensures
        merged(a, empty_config()) == a,
        merged(empty_config(), a) == a,
{
}

/// Laying configurations one after another does not depend on grouping: a
/// chain of overlays is one overlay.
pub proof fn law_merge_associative(a: Config, b: Config, c: Config)
    ensures
        merged(merged(a, b), c) == merged(a, merged(b, c)),
{
}

/// The last configuration that sets a value decides it.
pub proof fn law_later_config_wins(a: Config, b: Config)
    ensures
        b.model is Some ==> merged(a, b).model == b.model,
        b.api_key is Some ==> merged(a, b).api_key == b.api_key,
        b.endpoint is Some ==> merged(a, b).endpoint == b.endpoint,
        b.adapter is Some ==> merged(a, b).adapter == b.adapter,
        b.terminal is Some ==> merged(a, b).terminal == b.terminal,
        b.policy.access_bash is Some ==> merged(a, b).policy.access_bash == b.policy.access_bash,
        b.policy.access_write_fs is Some ==> merged(a, b).policy.access_write_fs
            == b.policy.access_write_fs,
        b.policy.access_write_directory is Some ==> merged(a, b).policy.access_write_directory
            == b.policy.access_write_directory,
        b.policy.access_lookup_web is Some ==> merged(a, b).policy.access_lookup_web
            == b.policy.access_lookup_web,
        b.policy.access_lookup_fs is Some ==> merged(a, b).policy.access_lookup_fs
            == b.policy.access_lookup_fs,
        b.policy.access_lookup_directory is Some ==> merged(a, b).policy.access_lookup_directory
            == b.policy.access_lookup_directory,
{
}

// ---------------------------------------------------------------------------
// Resource names
// ---------------------------------------------------------------------------

/// `s` ends with `p`.
pub open spec fn has_suffix(s: Seq<char>, p: Seq<char>) -> bool {
    p.len() <= s.len() && s.subrange(s.len() - p.len(), s.len() as int) == p
}

/// The file name for the configuration `name`: `name` itself when it ends in
/// `.toml` (in any letter case, judged on `name_lower`, its lower-case form),
/// else `name` with `.toml` appended.
pub open spec fn config_file_name_spec(name: Seq<char>, name_lower: Seq<char>) -> Seq<char> {
    if has_suffix(name_lower, ".toml"@) {
        name
    } else {
        name + ".toml"@
    }
}

/// Whether `s` ends with `p`.
pub fn ends_with(s: &Vec<char>, p: &str) -> (r: bool)
    ensures
        r == has_suffix(s@, p@),
{
    let pc = chars_of(p);
    if pc.len() > s.len() {
        return false;
    }
    let start = s.len() - pc.len();
    let r = crate::text::matches_at(s, &pc, start);
    r
}

/// The file name for the configuration `name`, given `name_lower`, the
/// lower-case form of `name`.
pub fn config_file_name_given(name: &str, name_lower: &str) -> (r: String)
    ensures
        r@ == config_file_name_spec(name@, name_lower@),
{
    let lower = chars_of(name_lower);
    let mut v = chars_of(name);
    if !ends_with(&lower, ".toml") {
        push_str(&mut v, ".toml");
    }
    string_from_chars(v.as_slice())
}

/// The file name for the configuration `name`: `.toml` is appended unless the
/// name already ends in it, in any letter case.
pub fn config_file_name(name: &str) -> (r: String)
    ensures
        r@ == config_file_name_spec(name@, lowercase(name@)),
{
    let lower = to_lowercase(name);
    config_file_name_given(name, lower.as_str())
}


/// The file names tried for the configuration `raw`, in order: `raw` itself
/// when it ends in `.toml` (in any letter case, judged on `raw_lower`, its
/// lower-case form), else `raw` with `.toml` appended, then `raw`.
pub open spec fn config_names(raw: Seq<char>, raw_lower: Seq<char>) -> Seq<Seq<char>> {
    if has_suffix(raw_lower, ".toml"@) {
        seq![raw]
    } else {
        seq![raw + ".toml"@, raw]
    }
}

/// The places tried for the file name `c`, in order: as written, under the
/// working directory `cwd`, then in the configuration directory.
pub open spec fn places_for(c: Seq<char>, cwd: Seq<char>, home: Option<Seq<char>>) -> Seq<
    Seq<char>,
> {
    seq![c, join_path(cwd, c), join_path(config_dir(home), c)]
}

/// Every place where the configuration `raw` is looked for, in order.
pub open spec fn config_places(
    raw: Seq<char>,
    raw_lower: Seq<char>,
    cwd: Seq<char>,
    home: Option<Seq<char>>,
) -> Seq<Seq<char>> {
    let ns = config_names(raw, raw_lower);
    if ns.len() == 1 {
        places_for(ns[0], cwd, home)
    } else {
        places_for(ns[0], cwd, home) + places_for(ns[1], cwd, home)
    }
}

fn push_places(out: &mut Vec<String>, c: &str, cwd: &str, home: Option<&str>)
    ensures
        texts(final(out)@) == texts(old(out)@) + places_for(c@, cwd@, opt_view(home)),
{
    let ghost before = texts(out@);
    out.push(c.to_string());
    out.push(join_paths(cwd, c));
    let root = match home {
        Some(h) => h.to_string(),
        None => ".".to_string(),
    };
    proof {
        reveal_strlit(".");
    }
    let dir = join_paths(root.as_str(), ".config/rope");
    out.push(join_paths(dir.as_str(), c));
    assert(texts(out@) == before + places_for(c@, cwd@, opt_view(home)));
}

/// The places where the configuration `raw` is looked for, in order, `cwd`
/// being the working directory and `home` the home directory when known.
pub fn config_search_places(raw: &str, cwd: &str, home: Option<&str>) -> (r: Vec<String>)
    ensures
        texts(r@) == config_places(raw@, lowercase(raw@), cwd@, opt_view(home)),
{
    let lower = to_lowercase(raw);
    let l = chars_of(lower.as_str());
    let mut out: Vec<String> = Vec::new();
    assert(texts(out@) == Seq::<Seq<char>>::empty());
    if ends_with(&l, ".toml") {
        push_places(&mut out, raw, cwd, home);
    } else {
        let mut t = chars_of(raw);
        push_str(&mut t, ".toml");
        let with_suffix = string_from_chars(t.as_slice());
        push_places(&mut out, with_suffix.as_str(), cwd, home);
        push_places(&mut out, raw, cwd, home);
    }
    out
}

/// The configuration file used when none is named.
pub fn default_config_path(home: Option<&str>) -> (r: String)
    ensures
        r@ == join_path(config_dir(opt_view(home)), "config.toml"@),
{
    let root = match home {
        Some(h) => h.to_string(),
        None => ".".to_string(),
    };
    proof {
        reveal_strlit(".");
    }
    let dir = join_paths(root.as_str(), ".config/rope");
    join_paths(dir.as_str(), "config.toml")
}

/// The complaint that the configuration `raw` was found nowhere.
pub open spec fn config_missing_text(raw: Seq<char>) -> Seq<char> {
    "Config file '"@ + raw + "' not found in CWD or ~/.config/rope/"@
}

/// The complaint that the configuration `raw` was found nowhere.
pub fn config_missing(raw: &str) -> (r: String)
    ensures
        r@ == config_missing_text(raw@),
{
    let mut v: Vec<char> = Vec::new();
    push_str(&mut v, "Config file '");
    push_str(&mut v, raw);
    push_str(&mut v, "' not found in CWD or ~/.config/rope/");
    string_from_chars(v.as_slice())
}

} // verus!
