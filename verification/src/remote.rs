//! Remote session support: configuration, cache paths, and the staleness
//! policy for remote caches mirrored over the network. The mirroring
//! itself (an external transfer process) is the caller's business; this
//! module decides where caches live and when they are stale.

use vstd::prelude::*;
use crate::text::{
    is_prefix_of, parses_as_u64, dec_value, spec_trim, parse_u64_digits, str_to_chars, trim_chars,
};

verus! {

/// Configuration for a single remote machine.
#[derive(Debug)]
pub struct RemoteConfig {
    /// SSH host: an alias from the SSH configuration, or a raw hostname/IP.
    pub host: String,
    /// Optional user for raw hosts.
    pub user: Option<String>,
    /// Override for a non-standard projects directory.
    pub projects_dir: Option<String>,
}

/// Mathematical model of a remote configuration.
pub struct RemoteConfigView {
    pub host: Seq<char>,
    pub user: Option<Seq<char>>,
    pub projects_dir: Option<Seq<char>>,
}

impl DeepView for RemoteConfig {
    type V = RemoteConfigView;

    open spec fn deep_view(&self) -> RemoteConfigView {
        RemoteConfigView {
            host: self.host.deep_view(),
            user: self.user.deep_view(),
            projects_dir: self.projects_dir.deep_view(),
        }
    }
}

/// Global settings.
#[derive(Debug)]
pub struct Settings {
    /// Directory remote sessions are cached under; may begin with a
    /// home-directory shorthand.
    pub cache_dir: String,
    /// Seconds before a cache is considered stale.
    pub stale_threshold: u64,
}

/// One named remote.
#[derive(Debug)]
pub struct RemoteEntry {
    pub name: String,
    pub config: RemoteConfig,
}

/// Top-level configuration: the named remotes, each name unique, plus
/// global settings.
#[derive(Debug)]
pub struct Config {
    pub remotes: Vec<RemoteEntry>,
    pub settings: Settings,
}

pub fn default_cache_dir() -> (r: String)
    ensures
        r@ == "~/.cache/cc-sessions/remotes"@,
{
    String::from_str("~/.cache/cc-sessions/remotes")
}

pub fn default_stale_threshold() -> (r: u64)
    ensures
        r == 3600,
{
    3600
}

impl Default for Settings {
    /// The default settings: the standard cache directory and a one-hour
    /// staleness threshold.
    fn default() -> (r: Settings)
        ensures
            r.cache_dir@ == "~/.cache/cc-sessions/remotes"@,
            r.stale_threshold == 3600,
    {
        Settings { cache_dir: default_cache_dir(), stale_threshold: default_stale_threshold() }
    }
}

/// Relies on `shellexpand::tilde`: expands a leading `~` to the home
/// directory. The result depends on the environment, so only this much is
/// promised: a path that does not start with `~` comes back unchanged.
#[verifier::external_body]
pub fn expand_path(path: &str) -> (r: String)
    ensures
        !is_prefix_of("~"@, path@) ==> r@ == path@,
{
    shellexpand::tilde(path).into_owned()
}

/// The cache directory for a specific remote: the expanded cache base with
/// the remote's name appended as one path segment.
pub fn get_remote_cache_dir(settings: &Settings, remote_name: &str) -> (r: String)
    ensures
        ({
            let sep_name = "/"@ + remote_name@;
            &&& crate::text::is_suffix_of(sep_name, r@)
            &&& !is_prefix_of("~"@, settings.cache_dir@) ==> r@ == settings.cache_dir@
                + sep_name
        }),
{
    let mut base = expand_path(settings.cache_dir.as_str());
    proof {
        reveal_strlit("/");
    }
    let ghost b = base@;
    base.append("/");
    base.append(remote_name);
    proof {
        assert(base@ =~= b + ("/"@ + remote_name@));
        assert(base@.subrange(
            base@.len() - ("/"@ + remote_name@).len(),
            base@.len() as int,
        ) =~= "/"@ + remote_name@);
    }
    base
}

/// The SSH target string: `user@host` when a user is configured, else the
/// bare host.
pub fn ssh_target(remote: &RemoteConfig) -> (r: String)
    ensures
        remote.user is Some ==> r@ == remote.user.deep_view().unwrap() + "@"@
            + remote.host@,
        remote.user is None ==> r@ == remote.host@,
{
    match &remote.user {
        Some(user) => {
            let mut r = user.clone();
            r.append("@");
            r.append(remote.host.as_str());
            proof {
                assert(r@ =~= user@ + "@"@ + remote.host@);
            }
            r
        },
        None => remote.host.clone(),
    }
}

/// The remote projects directory: the configured override, or the standard
/// location.
pub fn remote_projects_dir<'a>(remote: &'a RemoteConfig) -> (r: &'a str)
    ensures
        remote.projects_dir matches Some(d) ==> r@ == d@,
        remote.projects_dir is None ==> r@ == "~/.cc/projects"@,
{
    match &remote.projects_dir {
        Some(d) => d.as_str(),
        None => "~/.cc/projects",
    }
}

/// The transfer source for mirroring a remote: `target:projects-dir/`. The
/// trailing slash makes the transfer copy the directory's contents.
pub fn sync_source(remote: &RemoteConfig) -> (r: String)
    ensures
        ({
            let target = (match remote.user.deep_view() {
                Some(u) => u + "@"@ + remote.host@,
                None => remote.host@,
            });
            let dir = (match remote.projects_dir.deep_view() {
                Some(d) => d,
                None => "~/.cc/projects"@,
            });
            r@ == target + ":"@ + dir + "/"@
        }),
{
    let mut r = ssh_target(remote);
    let ghost t = r@;
    r.append(":");
    r.append(remote_projects_dir(remote));
    r.append("/");
    proof {
        let dir = (match remote.projects_dir.deep_view() {
            Some(d) => d,
            None => "~/.cc/projects"@,
        });
        assert(r@ =~= t + ":"@ + dir + "/"@);
    }
    r
}

/// A remote's cache is stale when it has never been synced, when its
/// marker lies in the future, or when its age exceeds the threshold.
pub open spec fn spec_is_stale(last_sync: Option<u64>, now: u64, threshold: u64) -> bool {
    match last_sync {
        None => true,
        Some(t) => t > now || now - t > threshold,
    }
}

/// Check if a remote's cache is stale, given the marker timestamp (absent
/// when never synced), the current time, and the staleness threshold, all
/// in seconds since the epoch.
pub fn is_stale(last_sync: Option<u64>, now: u64, threshold: u64) -> (r: bool)
    ensures
        r == spec_is_stale(last_sync, now, threshold),
{
    match last_sync {
        None => true,
        Some(t) => t > now || now - t > threshold,
    }
}

/// What the sync-marker file's text denotes: its surrounding whitespace
/// ignored, a decimal seconds-since-epoch timestamp; `None` when the text
/// is not a plain decimal number that fits.
pub open spec fn spec_parse_last_sync(content: Seq<char>) -> Option<u64> {
    let t = spec_trim(content);
    if parses_as_u64(t) {
        Some(dec_value(t) as u64)
    } else {
        None
    }
}

/// Parse the sync-marker file's content as a timestamp.
pub fn parse_last_sync(content: &str) -> (r: Option<u64>)
    ensures
        r == spec_parse_last_sync(content@),
{
    let chars = str_to_chars(content);
    let trimmed = trim_chars(chars.as_slice());
    parse_u64_digits(trimmed.as_slice())
}

/// Result of one sync operation.
#[derive(Debug)]
pub struct SyncResult {
    pub remote_name: String,
    /// How long the transfer took, in milliseconds.
    pub duration_ms: u64,
}

/// Whether a remote is due for syncing on this run: always when staleness
/// checking is off, else exactly when its cache is stale.
pub fn should_sync(check_staleness: bool, stale: bool) -> (r: bool)
    ensures
        r == (!check_staleness || stale),
{
    !check_staleness || stale
}

} // verus!
