//! The application's configuration model: the TOML file's structure, its
//! defaults, migration between versions and the paths where it lives.
use vstd::prelude::*;

use crate::text::{
    chars_of, join_path, owned, path_join, push_all, push_range, str_eq, string_of, trim,
    trim_end_at, trim_start_at,
};

verus! {

/// The configuration version that this library writes.
pub const CONFIG_VERSION: u32 = 2;

/// The whole configuration file.
#[derive(Debug, Clone)]
pub struct Config {
    pub config_version: u32,
    pub poll_interval_secs: u64,
    pub status: StatusConfig,
    pub hosts: HostsConfig,
    pub actions: Vec<ActionConfig>,
}

/// The `[hosts]` table: entries that the managed block of `/etc/hosts` holds.
#[derive(Debug, Clone)]
pub struct HostsConfig {
    pub enabled: bool,
    pub entries: Vec<HostsEntry>,
}

/// One `ip hostname` line of the managed block.
#[derive(Debug, Clone)]
pub struct HostsEntry {
    pub ip: String,
    pub hostname: String,
}

/// The `[status]` table: which system value the tray indicator shows.
#[derive(Debug, Clone)]
pub struct StatusConfig {
    pub source: StatusSource,
}

#[derive(Debug, Clone, Copy, PartialEq, Eq, Structural)]
pub enum StatusSource {
    Battery,
    Cpu,
}

/// One menu item of the `[[actions]]` list.
#[derive(Debug, Clone)]
pub struct ActionConfig {
    pub label: String,
    pub command: String,
    pub action_type: ActionType,
}

#[derive(Debug, Clone, Copy, PartialEq, Eq, Structural)]
pub enum ActionType {
    Shell,
    HostsApply,
    HostsClear,
    Header,
    IosSimRoute,
    AndroidSimProxy,
}

/// The line that an entry contributes to the managed block: the trimmed IP
/// address, one space and the trimmed host name.
pub open spec fn entry_line(e: HostsEntry) -> Seq<char> {
    trim(e.ip@) + seq![' '] + trim(e.hostname@)
}

/// The trimmed text of `s`, as a vector of characters.
pub fn trimmed_chars(s: &str) -> (r: Vec<char>)
    ensures
        r@ == trim(s@),
{
    let v = chars_of(s);
    let a = trim_start_at(&v, 0, v.len());
    let b = trim_end_at(&v, a, v.len());
    assert(v@.subrange(0, v@.len() as int) =~= v@);
    let mut out: Vec<char> = Vec::new();
    push_range(&mut out, &v, a, b);
    assert(out@ =~= v@.subrange(a as int, b as int));
    out
}

impl HostsEntry {
    /// The entry's line in the hosts file.
    pub fn to_line(&self) -> (r: String)
        ensures
            r@ == entry_line(*self),
    {
        let v = self.line_chars();
        string_of(&v)
    }

    pub fn line_chars(&self) -> (r: Vec<char>)
        ensures
            r@ == entry_line(*self),
    {
        let mut out = trimmed_chars(self.ip.as_str());
        out.push(' ');
        let h = trimmed_chars(self.hostname.as_str());
        push_all(&mut out, &h);
        out
    }
}

// ---------------------------------------------------------------------------
// Defaults
// ---------------------------------------------------------------------------

/// The poll interval used when the file sets none.
pub fn default_poll_interval() -> (r: u64)
    ensures
        r == 30,
{
    30
}

/// The configuration version assumed when the file states none.
pub fn default_config_version() -> (r: u32)
    ensures
        r == 1,
{
    1
}

/// The status source used when the file sets none.
pub fn default_status_source() -> (r: StatusSource)
    ensures
        r == StatusSource::Battery,
{
    StatusSource::Battery
}

/// The action type used when an action sets none.
pub fn default_action_type() -> (r: ActionType)
    ensures
        r == ActionType::Shell,
{
    ActionType::Shell
}

/// Hosts management is off and there are no entries.
pub open spec fn is_default_hosts(h: HostsConfig) -> bool {
    !h.enabled && h.entries@.len() == 0
}

/// The default menu: a toggle for the iOS simulator route and one for the
/// Android emulator proxy.
pub open spec fn is_default_actions(actions: Seq<ActionConfig>) -> bool {
    &&& actions.len() == 2
    &&& actions[0].label@ == "toggle ios-sim-route"@
    &&& actions[0].command@.len() == 0
    &&& actions[0].action_type == ActionType::IosSimRoute
    &&& actions[1].label@ == "toggle-android-sim-proxy"@
    &&& actions[1].command@.len() == 0
    &&& actions[1].action_type == ActionType::AndroidSimProxy
}

/// The configuration written on first launch.
pub open spec fn is_default_config(c: Config) -> bool {
    &&& c.config_version == CONFIG_VERSION
    &&& c.poll_interval_secs == 30
    &&& c.status.source == StatusSource::Battery
    &&& is_default_hosts(c.hosts)
    &&& is_default_actions(c.actions@)
}

impl Default for HostsConfig {
    fn default() -> (r: Self)
        ensures
            is_default_hosts(r),
    {
        HostsConfig { enabled: false, entries: Vec::new() }
    }
}

impl Default for StatusConfig {
    fn default() -> (r: Self)
        ensures
            r.source == StatusSource::Battery,
    {
        StatusConfig { source: default_status_source() }
    }
}

/// The default menu actions.
pub fn default_actions() -> (r: Vec<ActionConfig>)
    ensures
        is_default_actions(r@),
{
    let mut actions: Vec<ActionConfig> = Vec::new();
    actions.push(
        ActionConfig {
            label: owned("toggle ios-sim-route"),
            command: String::new(),
            action_type: ActionType::IosSimRoute,
        },
    );
    actions.push(
        ActionConfig {
            label: owned("toggle-android-sim-proxy"),
            command: String::new(),
            action_type: ActionType::AndroidSimProxy,
        },
    );
    actions
}

impl Default for Config {
    fn default() -> (r: Self)
        ensures
            is_default_config(r),
    {
        Config {
            config_version: CONFIG_VERSION,
            poll_interval_secs: default_poll_interval(),
            status: StatusConfig::default(),
            hosts: HostsConfig::default(),
            actions: default_actions(),
        }
    }
}

// ---------------------------------------------------------------------------
// Migration
// ---------------------------------------------------------------------------

/// What migration does: a configuration older than `CONFIG_VERSION` gets
/// the default actions and hosts settings and the current version, keeping
/// its poll interval and status source; a current one is kept as it is.
/// `changed` tells whether it was migrated.
pub open spec fn migration(before: Config, after: Config, changed: bool) -> bool {
    if before.config_version < CONFIG_VERSION {
        &&& changed
        &&& after.config_version == CONFIG_VERSION
        &&& after.poll_interval_secs == before.poll_interval_secs
        &&& after.status == before.status
        &&& is_default_hosts(after.hosts)
        &&& is_default_actions(after.actions@)
    } else {
        !changed && after == before
    }
}

/// Brings an older configuration to the current version. Returns whether it
/// changed (and so must be saved).
pub fn migrate(config: &mut Config) -> (changed: bool)
    ensures
        migration(*old(config), *final(config), changed),
{
    if config.config_version >= CONFIG_VERSION {
        return false;
    }
    let default = Config::default();
    config.actions = default.actions;
    config.hosts = default.hosts;
    config.config_version = CONFIG_VERSION;
    true
}

/// A migrated configuration is current: migrating it again changes nothing.
pub proof fn law_migration_settles(before: Config, after: Config, changed: bool)
    requires
        migration(before, after, changed),
    ensures
        after.config_version >= CONFIG_VERSION,
        forall|again: Config, changed_again: bool| #[trigger]
            migration(after, again, changed_again) ==> !changed_again && again == after,
{
}

/// The default configuration is current, so it is never migrated.
pub proof fn law_default_is_current(c: Config)
    requires
        is_default_config(c),
    ensures
        forall|again: Config, changed: bool| #[trigger]
            migration(c, again, changed) ==> !changed && again == c,
{
}

// ---------------------------------------------------------------------------
// Paths
// ---------------------------------------------------------------------------

/// `dirs::config_dir()`, as text. Where it points depends on the platform
/// and the environment (`HOME`, `XDG_CONFIG_HOME`), so nothing is stated of it.
#[verifier::external_body]
fn user_config_dir() -> (r: Option<String>) {
    match dirs::config_dir() {
        Some(p) => Some(p.to_string_lossy().into_owned()),
        None => None,
    }
}

/// `dirs::home_dir()`, as text. It depends on the environment (`HOME`) and
/// the user database, so nothing is stated of it.
#[verifier::external_body]
pub(crate) fn user_home_dir() -> (r: Option<String>) {
    match dirs::home_dir() {
        Some(p) => Some(p.to_string_lossy().into_owned()),
        None => None,
    }
}

/// The application's directory inside the user's configuration directory
/// `base` (the current directory when there is none).
pub open spec fn app_dir(base: Option<Seq<char>>) -> Seq<char> {
    path_join(
        match base {
            Some(b) => b,
            None => "."@,
        },
        "ainv-helper"@,
    )
}

/// The application's directory inside the configuration directory `base`.
pub fn config_dir_in(base: Option<&str>) -> (r: String)
    ensures
        r@ == app_dir(
            match base {
                Some(b) => Some(b@),
                None => None,
            },
        ),
{
    match base {
        Some(b) => join_path(b, "ainv-helper"),
        None => join_path(".", "ainv-helper"),
    }
}

/// The application's configuration directory.
pub fn config_dir() -> (r: String)
    ensures
        exists|base: Option<Seq<char>>| r@ == app_dir(base),
{
    let base = user_config_dir();
    match base {
        Some(b) => {
            let r = config_dir_in(Some(b.as_str()));
            assert(r@ == app_dir(Some(b@)));
            r
        },
        None => {
            let r = config_dir_in(None);
            assert(r@ == app_dir(None));
            r
        },
    }
}

/// A file `name` in the application's configuration directory.
pub fn config_file(name: &str) -> (r: String)
    ensures
        exists|base: Option<Seq<char>>| r@ == path_join(app_dir(base), name@),
{
    let dir = config_dir();
    let r = join_path(dir.as_str(), name);
    let ghost b = choose|base: Option<Seq<char>>| dir@ == app_dir(base);
    assert(r@ == path_join(app_dir(b), name@));
    r
}

/// The configuration file's path.
pub fn config_path() -> (r: String)
    ensures
        exists|base: Option<Seq<char>>| r@ == path_join(app_dir(base), "config.toml"@),
{
    config_file("config.toml")
}

/// What `Path::parent` gives for a path, as text.
pub uninterp spec fn path_parent_of(p: Seq<char>) -> Option<Seq<char>>;

/// What `Path::extension` gives for a path, as text.
pub uninterp spec fn path_extension_of(p: Seq<char>) -> Option<Seq<char>>;

/// `Path::parent`: the path without its final component, if it has one.
/// Claimed: the result is the named `path_parent_of`, and, being the path
/// with a component removed, it is shorter than the path.
#[verifier::external_body]
fn path_parent(p: &str) -> (r: Option<String>)
    ensures
        match path_parent_of(p@) {
            Some(q) => r matches Some(x) && x@ == q,
            None => r is None,
        },
        r matches Some(x) ==> x@.len() < p@.len(),
{
    match std::path::Path::new(p).parent() {
        Some(q) => Some(q.to_string_lossy().into_owned()),
        None => None,
    }
}

/// `Path::extension`: the extension of the path's file name, if any.
/// Claimed: the result is the named `path_extension_of`.
#[verifier::external_body]
fn path_extension(p: &str) -> (r: Option<String>)
    ensures
        match path_extension_of(p@) {
            Some(e) => r matches Some(x) && x@ == e,
            None => r is None,
        },
{
    match std::path::Path::new(p).extension() {
        Some(e) => Some(e.to_string_lossy().into_owned()),
        None => None,
    }
}

/// The `k`-th ancestor of `p` (`p` itself for `k == 0`), as `Path::ancestors`
/// walks them.
pub open spec fn ancestor(p: Seq<char>, k: nat) -> Option<Seq<char>>
    decreases k,
{
    if k == 0 {
        Some(p)
    } else {
        match ancestor(p, (k - 1) as nat) {
            Some(q) => path_parent_of(q),
            None => None,
        }
    }
}

/// A path whose extension is `app`.
pub open spec fn is_app_bundle(p: Seq<char>) -> bool {
    path_extension_of(p) == Some("app"@)
}

/// The `k`-th ancestor of `p` exists and is an `.app` bundle.
pub open spec fn app_ancestor(p: Seq<char>, k: nat) -> bool {
    ancestor(p, k) matches Some(a) && is_app_bundle(a)
}

proof fn lemma_ancestor_none(p: Seq<char>, k: nat, j: nat)
    requires
        ancestor(p, k) is None,
        k <= j,
    ensures
        ancestor(p, j) is None,
    decreases j - k,
{
    if k < j {
        lemma_ancestor_none(p, k, (j - 1) as nat);
    }
}

/// The nearest ancestor of `path` (the path included) that is an `.app`
/// bundle.
pub fn find_app_bundle(path: &str) -> (r: Option<String>)
    ensures
        match r {
            Some(b) => exists|k: nat|
                ancestor(path@, k) == Some(b@) && is_app_bundle(b@) && forall|j: nat|
                    j < k ==> (#[trigger] ancestor(path@, j) matches Some(a) && !is_app_bundle(a)),
            None => forall|k: nat| !#[trigger] app_ancestor(path@, k),
        },
{
    let mut cur = owned(path);
    let ghost mut k: nat = 0;
    loop
        invariant
            ancestor(path@, k) == Some(cur@),
            forall|j: nat| j < k ==> (#[trigger] ancestor(path@, j) matches Some(a) && !is_app_bundle(a)),
        decreases cur@.len(),
    {
        let ext = path_extension(cur.as_str());
        let is_app = match &ext {
            Some(e) => str_eq(e.as_str(), "app"),
            None => false,
        };
        if is_app {
            return Some(cur);
        }
        let parent = path_parent(cur.as_str());
        match parent {
            Some(q) => {
                proof {
                    assert(ancestor(path@, k + 1) == path_parent_of(cur@));
                    k = k + 1;
                }
                cur = q;
            },
            None => {
                proof {
                    assert(ancestor(path@, k + 1) is None);
                    assert forall|j: nat| !#[trigger] app_ancestor(path@, j) by {
                        if j > k {
                            lemma_ancestor_none(path@, k + 1, j);
                        }
                    }
                }
                return None;
            },
        }
    }
}

} // verus!
