//! The decisions of the daemon process manager: how runtime overrides shape the configuration
//! and the spawned daemon's environment, what the socket probe means, and what to do about it.

use vstd::prelude::*;

use crate::model::{copy_opt_string, OrcasError, OrcasErrorView};
use crate::text::{cat2, owned, str_trim, trimmed};

verus! {

pub const ENV_CODEX_BIN: &'static str = "ORCAS_CODEX_BIN";
pub const ENV_CODEX_LISTEN_URL: &'static str = "ORCAS_CODEX_LISTEN_URL";
pub const ENV_DEFAULT_CWD: &'static str = "ORCAS_DEFAULT_CWD";
pub const ENV_DEFAULT_MODEL: &'static str = "ORCAS_DEFAULT_MODEL";
pub const ENV_CONNECTION_MODE: &'static str = "ORCAS_CONNECTION_MODE";
pub const ENV_DAEMON_BINARY_PATH: &'static str = "ORCAS_DAEMON_BINARY_PATH";
pub const ENV_DAEMON_BUILD_FINGERPRINT: &'static str = "ORCAS_DAEMON_BUILD_FINGERPRINT";

/// Settings given on the command line or in the environment that take precedence over the
/// configuration file. Paths are held as text.
#[derive(Debug)]
pub struct OrcasRuntimeOverrides {
    pub codex_bin: Option<String>,
    pub listen_url: Option<String>,
    pub cwd: Option<String>,
    pub model: Option<String>,
    pub connect_only: bool,
    pub force_spawn: bool,
}

impl Default for OrcasRuntimeOverrides {
    fn default() -> (r: Self)
        ensures
            r.codex_bin is None,
            r.listen_url is None,
            r.cwd is None,
            r.model is None,
            !r.connect_only,
            !r.force_spawn,
    {
        OrcasRuntimeOverrides {
            codex_bin: None,
            listen_url: None,
            cwd: None,
            model: None,
            connect_only: false,
            force_spawn: false,
        }
    }
}

/// How eagerly the daemon process manager starts a background daemon.
#[derive(Debug, Clone, Copy, PartialEq, Eq, Structural)]
pub enum OrcasDaemonLaunch {
    Never,
    IfNeeded,
    Always,
}

/// How the daemon reaches the Codex app server.
#[derive(Debug, Clone, Copy, PartialEq, Eq, Structural)]
pub enum CodexConnectionMode {
    SpawnIfNeeded,
    ConnectOnly,
    SpawnAlways,
}

/// The Codex part of the configuration.
#[derive(Debug)]
pub struct CodexConfig {
    pub binary_path: String,
    pub listen_url: String,
    pub connection_mode: CodexConnectionMode,
}

/// Defaults for new threads.
#[derive(Debug)]
pub struct DefaultsConfig {
    pub cwd: Option<String>,
    pub model: Option<String>,
}

/// The parts of the configuration that runtime overrides reach.
#[derive(Debug)]
pub struct AppConfig {
    pub codex: CodexConfig,
    pub defaults: DefaultsConfig,
}

/// The configuration with the overrides applied; forcing a spawn wins over connecting only.
pub open spec fn overridden(c: AppConfig, o: OrcasRuntimeOverrides) -> AppConfig {
    AppConfig {
        codex: CodexConfig {
            binary_path: if o.codex_bin is Some { o.codex_bin->0 } else { c.codex.binary_path },
            listen_url: if o.listen_url is Some { o.listen_url->0 } else { c.codex.listen_url },
            connection_mode: if o.force_spawn {
                CodexConnectionMode::SpawnAlways
            } else if o.connect_only {
                CodexConnectionMode::ConnectOnly
            } else {
                c.codex.connection_mode
            },
        },
        defaults: DefaultsConfig {
            cwd: if o.cwd is Some { o.cwd } else { c.defaults.cwd },
            model: if o.model is Some { o.model } else { c.defaults.model },
        },
    }
}

/// Applies runtime overrides to a configuration.
pub fn apply_runtime_overrides(config: &mut AppConfig, overrides: &OrcasRuntimeOverrides)
    ensures
        *final(config) == overridden(*old(config), *overrides),
        overrides.model is Some ==> final(config).defaults.model == overrides.model,
        overrides.model is None ==> final(config).defaults.model == old(config).defaults.model,
        overrides.cwd is Some ==> final(config).defaults.cwd == overrides.cwd,
        overrides.cwd is None ==> final(config).defaults.cwd == old(config).defaults.cwd,
        overrides.codex_bin is Some ==> final(config).codex.binary_path == overrides.codex_bin->0,
        overrides.codex_bin is None ==> final(config).codex.binary_path == old(config).codex.binary_path,
        overrides.listen_url is Some ==> final(config).codex.listen_url == overrides.listen_url->0,
        overrides.listen_url is None ==> final(config).codex.listen_url == old(config).codex.listen_url,
        overrides.force_spawn ==> final(config).codex.connection_mode == CodexConnectionMode::SpawnAlways,
        !overrides.force_spawn && overrides.connect_only ==> final(config).codex.connection_mode == CodexConnectionMode::ConnectOnly,
        !overrides.force_spawn && !overrides.connect_only ==> final(config).codex.connection_mode == old(config).codex.connection_mode,
{
    if let Some(codex_bin) = &overrides.codex_bin {
        config.codex.binary_path = codex_bin.clone();
    }
    if let Some(listen_url) = &overrides.listen_url {
        config.codex.listen_url = listen_url.clone();
    }
    if let Some(cwd) = &overrides.cwd {
        config.defaults.cwd = Some(cwd.clone());
    }
    if let Some(model) = &overrides.model {
        config.defaults.model = Some(model.clone());
    }
    if overrides.connect_only {
        config.codex.connection_mode = CodexConnectionMode::ConnectOnly;
    }
    if overrides.force_spawn {
        config.codex.connection_mode = CodexConnectionMode::SpawnAlways;
    }
}

/// One variable of a spawned process's environment.
#[derive(Debug)]
pub struct EnvVar {
    pub name: String,
    pub value: String,
}

/// A variable when the value is present, else nothing.
pub open spec fn env_if(name: Seq<char>, value: Option<String>) -> Seq<(Seq<char>, Seq<char>)> {
    match value {
        Some(v) => seq![(name, v@)],
        None => Seq::empty(),
    }
}

/// The environment a background daemon is spawned with, in order: its binary and fingerprint,
/// then each override that is set; connecting only wins over forcing a spawn here.
pub open spec fn spawn_env_of(o: OrcasRuntimeOverrides, binary_path: Seq<char>, fingerprint: Seq<char>) -> Seq<(Seq<char>, Seq<char>)> {
    seq![(ENV_DAEMON_BINARY_PATH@, binary_path), (ENV_DAEMON_BUILD_FINGERPRINT@, fingerprint)]
        + env_if(ENV_CODEX_BIN@, o.codex_bin) + env_if(ENV_CODEX_LISTEN_URL@, o.listen_url)
        + env_if(ENV_DEFAULT_CWD@, o.cwd) + env_if(ENV_DEFAULT_MODEL@, o.model)
        + if o.connect_only {
        seq![(ENV_CONNECTION_MODE@, "connect_only"@)]
    } else if o.force_spawn {
        seq![(ENV_CONNECTION_MODE@, "spawn_always"@)]
    } else {
        Seq::empty()
    }
}

/// The pairs of an environment.
pub open spec fn env_view(v: Seq<EnvVar>) -> Seq<(Seq<char>, Seq<char>)> {
    v.map_values(|e: EnvVar| (e.name@, e.value@))
}

fn push_env(env: &mut Vec<EnvVar>, name: &str, value: &str)
    ensures
        env_view(final(env)@) == env_view(old(env)@).push((name@, value@)),
{
    let ghost before = env@;
    env.push(EnvVar { name: owned(name), value: owned(value) });
    assert(env_view(env@) =~= env_view(before).push((name@, value@)));
}

fn push_env_opt(env: &mut Vec<EnvVar>, name: &str, value: &Option<String>)
    ensures
        env_view(final(env)@) == env_view(old(env)@) + env_if(name@, *value),
{
    match value {
        Some(v) => push_env(env, name, v.as_str()),
        None => {
            assert(env_view(env@) =~= env_view(env@) + env_if(name@, *value));
        },
    }
}

/// The environment of a background daemon spawned from `binary_path`.
pub fn spawn_env(overrides: &OrcasRuntimeOverrides, binary_path: &str, fingerprint: &str) -> (r: Vec<EnvVar>)
    ensures
        env_view(r@) == spawn_env_of(*overrides, binary_path@, fingerprint@),
{
    let mut env: Vec<EnvVar> = Vec::new();
    assert(env_view(env@) =~= Seq::<(Seq<char>, Seq<char>)>::empty());
    push_env(&mut env, ENV_DAEMON_BINARY_PATH, binary_path);
    push_env(&mut env, ENV_DAEMON_BUILD_FINGERPRINT, fingerprint);
    push_env_opt(&mut env, ENV_CODEX_BIN, &overrides.codex_bin);
    push_env_opt(&mut env, ENV_CODEX_LISTEN_URL, &overrides.listen_url);
    push_env_opt(&mut env, ENV_DEFAULT_CWD, &overrides.cwd);
    push_env_opt(&mut env, ENV_DEFAULT_MODEL, &overrides.model);
    let ghost before = env_view(env@);
    if overrides.connect_only {
        push_env(&mut env, ENV_CONNECTION_MODE, "connect_only");
    } else if overrides.force_spawn {
        push_env(&mut env, ENV_CONNECTION_MODE, "spawn_always");
    }
    proof {
        assert(env_view(env@) =~= spawn_env_of(*overrides, binary_path@, fingerprint@));
    }
    env
}

/// What a running daemon says about itself.
#[derive(Debug)]
pub struct DaemonRuntimeMetadata {
    pub pid: u32,
    pub started_at: i64,
    pub version: String,
    pub build_fingerprint: String,
    pub binary_path: String,
    pub socket_path: String,
    pub metadata_path: String,
    pub git_commit: Option<String>,
}

/// The binary a daemon would be started from.
#[derive(Debug)]
pub struct DaemonBinarySummary {
    pub version: String,
    pub build_fingerprint: String,
    pub binary_path: String,
}

/// Where the daemon keeps its runtime files.
#[derive(Debug)]
pub struct DaemonPaths {
    pub socket_file: String,
    pub daemon_metadata_file: String,
    pub daemon_log_file: String,
}

/// What probing the daemon's socket found.
#[derive(Debug)]
pub struct OrcasDaemonSocketStatus {
    pub socket_path: String,
    pub metadata_path: String,
    pub log_path: String,
    pub running: bool,
    pub socket_exists: bool,
    pub socket_responsive: bool,
    pub pid_running: bool,
    pub socket_owner_pid: Option<u32>,
    pub stale_socket: bool,
    pub stale_metadata: bool,
    pub daemon_runtime: Option<DaemonRuntimeMetadata>,
    pub runtime_metadata: Option<DaemonRuntimeMetadata>,
    pub expected_binary: Option<DaemonBinarySummary>,
    pub binary_matches_expected: Option<bool>,
}

/// The process whose liveness tells whether the daemon runs: the one its metadata names, else the
/// socket's owner.
pub open spec fn pid_to_probe_of(metadata: Option<DaemonRuntimeMetadata>, socket_owner_pid: Option<u32>) -> Option<u32> {
    match metadata {
        Some(m) => Some(m.pid),
        None => socket_owner_pid,
    }
}

/// The process to probe for liveness.
pub fn pid_to_probe(metadata: &Option<DaemonRuntimeMetadata>, socket_owner_pid: Option<u32>) -> (r: Option<u32>)
    ensures
        r == pid_to_probe_of(*metadata, socket_owner_pid),
{
    match metadata {
        Some(m) => Some(m.pid),
        None => socket_owner_pid,
    }
}

fn copy_metadata(m: &DaemonRuntimeMetadata) -> (r: DaemonRuntimeMetadata)
    ensures
        r == *m,
{
    DaemonRuntimeMetadata {
        pid: m.pid,
        started_at: m.started_at,
        version: m.version.clone(),
        build_fingerprint: m.build_fingerprint.clone(),
        binary_path: m.binary_path.clone(),
        socket_path: m.socket_path.clone(),
        metadata_path: m.metadata_path.clone(),
        git_commit: copy_opt_string(&m.git_commit),
    }
}

/// What the probes mean. `metadata` is the metadata file's content, `daemon_runtime` what a
/// responsive daemon reported, `pid_running` whether the probed process lives.
pub open spec fn socket_status_of(
    paths: DaemonPaths,
    socket_exists: bool,
    socket_responsive: bool,
    metadata: Option<DaemonRuntimeMetadata>,
    socket_owner_pid: Option<u32>,
    pid_running: bool,
    daemon_runtime: Option<DaemonRuntimeMetadata>,
    expected_binary: Option<DaemonBinarySummary>,
) -> OrcasDaemonSocketStatus {
    let runtime_metadata = if daemon_runtime is Some { daemon_runtime } else { metadata };
    OrcasDaemonSocketStatus {
        socket_path: paths.socket_file,
        metadata_path: paths.daemon_metadata_file,
        log_path: paths.daemon_log_file,
        running: socket_responsive,
        socket_exists,
        socket_responsive,
        pid_running,
        socket_owner_pid: if socket_exists { socket_owner_pid } else { None },
        stale_socket: socket_exists && !socket_responsive,
        stale_metadata: runtime_metadata is Some && !pid_running && !socket_responsive,
        daemon_runtime,
        runtime_metadata,
        expected_binary,
        binary_matches_expected: match (daemon_runtime, expected_binary) {
            (Some(d), Some(e)) => Some(d.build_fingerprint@ == e.build_fingerprint@),
            _ => None,
        },
    }
}

/// Puts together what the probes of the daemon's socket found.
pub fn socket_status(
    paths: DaemonPaths,
    socket_exists: bool,
    socket_responsive: bool,
    metadata: Option<DaemonRuntimeMetadata>,
    socket_owner_pid: Option<u32>,
    pid_running: bool,
    daemon_runtime: Option<DaemonRuntimeMetadata>,
    expected_binary: Option<DaemonBinarySummary>,
) -> (r: OrcasDaemonSocketStatus)
    ensures
        r == socket_status_of(paths, socket_exists, socket_responsive, metadata, socket_owner_pid, pid_running, daemon_runtime, expected_binary),
        r.running == socket_responsive,
        r.socket_exists == socket_exists,
        r.socket_responsive == socket_responsive,
        r.pid_running == pid_running,
        r.stale_socket == (socket_exists && !socket_responsive),
        r.running ==> !r.stale_socket && !r.stale_metadata,
        !socket_exists ==> r.socket_owner_pid is None,
        socket_exists ==> r.socket_owner_pid == socket_owner_pid,
        r.runtime_metadata == (if daemon_runtime is Some { daemon_runtime } else { metadata }),
        r.stale_metadata == (r.runtime_metadata is Some && !pid_running && !socket_responsive),
        r.daemon_runtime == daemon_runtime,
        r.expected_binary == expected_binary,
        r.binary_matches_expected is Some <==> (daemon_runtime is Some && expected_binary is Some),
        r.binary_matches_expected is Some ==> (r.binary_matches_expected->0
            <==> daemon_runtime->0.build_fingerprint@ == expected_binary->0.build_fingerprint@),
        r.socket_path == paths.socket_file,
        r.metadata_path == paths.daemon_metadata_file,
        r.log_path == paths.daemon_log_file,
{
    let binary_matches_expected = match (&daemon_runtime, &expected_binary) {
        (Some(d), Some(e)) => Some(crate::text::str_eq(d.build_fingerprint.as_str(), e.build_fingerprint.as_str())),
        _ => None,
    };
    let runtime_metadata = match &daemon_runtime {
        Some(d) => Some(copy_metadata(d)),
        None => metadata,
    };
    let stale_metadata = runtime_metadata.is_some() && !pid_running && !socket_responsive;
    OrcasDaemonSocketStatus {
        socket_path: paths.socket_file,
        metadata_path: paths.daemon_metadata_file,
        log_path: paths.daemon_log_file,
        running: socket_responsive,
        socket_exists,
        socket_responsive,
        pid_running,
        socket_owner_pid: if socket_exists { socket_owner_pid } else { None },
        stale_socket: socket_exists && !socket_responsive,
        stale_metadata,
        daemon_runtime,
        runtime_metadata,
        expected_binary,
        binary_matches_expected,
    }
}

/// What `ensure_running` does after probing.
#[derive(Debug, Clone, Copy, PartialEq, Eq, Structural)]
pub enum LaunchAction {
    /// The daemon is up: use it.
    UseRunning,
    /// Start a daemon in the background.
    Spawn,
    /// Stop whatever runs and start afresh.
    Restart,
    /// Fail: the daemon is down and may not be started.
    Unreachable,
}

/// The decision `ensure_running` makes.
pub open spec fn launch_action_of(launch: OrcasDaemonLaunch, running: bool) -> LaunchAction {
    match launch {
        OrcasDaemonLaunch::Never => if running { LaunchAction::UseRunning } else { LaunchAction::Unreachable },
        OrcasDaemonLaunch::IfNeeded => if running { LaunchAction::UseRunning } else { LaunchAction::Spawn },
        OrcasDaemonLaunch::Always => LaunchAction::Restart,
    }
}

/// Decides what to do about the daemon given how it may be launched and whether it runs.
pub fn launch_action(launch: OrcasDaemonLaunch, running: bool) -> (r: LaunchAction)
    ensures
        r == launch_action_of(launch, running),
{
    match launch {
        OrcasDaemonLaunch::Never => if running { LaunchAction::UseRunning } else { LaunchAction::Unreachable },
        OrcasDaemonLaunch::IfNeeded => if running { LaunchAction::UseRunning } else { LaunchAction::Spawn },
        OrcasDaemonLaunch::Always => LaunchAction::Restart,
    }
}

/// The error of a daemon that is down and may not be started.
pub fn unreachable_error(socket_path: &str) -> (r: OrcasError)
    ensures
        r@ == OrcasErrorView::Transport("Orcas daemon is not reachable at "@ + socket_path@),
{
    OrcasError::Transport(cat2("Orcas daemon is not reachable at ", socket_path))
}

/// Whether a character is an ASCII digit.
pub open spec fn is_digit(c: char) -> bool {
    '0' <= c && c <= '9'
}

/// The value of a string of decimal digits.
pub open spec fn digits_value(s: Seq<char>) -> int
    decreases s.len(),
{
    if s.len() == 0 {
        0
    } else {
        digits_value(s.drop_last()) * 10 + (s.last() as int - '0' as int)
    }
}

/// The text after an optional leading `+`.
pub open spec fn unsigned_digits(t: Seq<char>) -> Seq<char> {
    if t.len() > 0 && t[0] == '+' {
        t.drop_first()
    } else {
        t
    }
}

/// What `str::parse::<u32>` gives: an optional `+` and at least one decimal digit, within range.
pub open spec fn parse_u32_of(t: Seq<char>) -> Option<u32> {
    let d = unsigned_digits(t);
    if d.len() > 0 && (forall|i: int| 0 <= i < d.len() ==> is_digit(#[trigger] d[i])) && digits_value(d)
        <= u32::MAX {
        Some(digits_value(d) as u32)
    } else {
        None
    }
}

/// Parses a decimal `u32` as `str::parse` does.
pub fn parse_u32(t: &str) -> (r: Option<u32>)
    ensures
        r == parse_u32_of(t@),
{
    let n = t.unicode_len();
    let mut i: usize = 0;
    if n > 0 && t.get_char(0) == '+' {
        i = 1;
    }
    let ghost d = unsigned_digits(t@);
    if i == n {
        return None;
    }
    let start = i;
    let mut value: u64 = 0;
    while i < n
        invariant
            n == t@.len(),
            start <= i <= n,
            start == n - d.len(),
            d == t@.skip(start as int),
            d == unsigned_digits(t@),
            value == digits_value(d.take(i - start)),
            value <= u32::MAX,
            forall|k: int| 0 <= k < i - start ==> is_digit(#[trigger] d[k]),
        decreases n - i,
    {
        let c = t.get_char(i);
        assert(d[i - start] == c);
        if !('0' <= c && c <= '9') {
            assert(!is_digit(d[i - start]));
            return None;
        }
        let digit = (c as u32 - '0' as u32) as u64;
        assert(d.take(i + 1 - start).drop_last() =~= d.take(i - start));
        value = value * 10 + digit;
        if value > 0xffff_ffff {
            proof {
                if forall|k: int| 0 <= k < d.len() ==> is_digit(#[trigger] d[k]) {
                    lemma_digits_monotone(d, i + 1 - start);
                }
            }
            return None;
        }
        i = i + 1;
    }
    assert(d.take(i - start) =~= d);
    Some(value as u32)
}

proof fn lemma_digits_monotone(d: Seq<char>, k: int)
    requires
        0 <= k <= d.len(),
        forall|i: int| 0 <= i < d.len() ==> is_digit(#[trigger] d[i]),
    ensures
        digits_value(d.take(k)) <= digits_value(d),
    decreases d.len() - k,
{
    if k < d.len() {
        lemma_digits_monotone(d, k + 1);
        assert(d.take(k + 1).drop_last() =~= d.take(k));
        assert(digits_value(d.take(k)) >= 0) by {
            lemma_digits_nonneg(d.take(k));
        }
    } else {
        assert(d.take(k) =~= d);
    }
}

proof fn lemma_digits_nonneg(d: Seq<char>)
    requires
        forall|i: int| 0 <= i < d.len() ==> is_digit(#[trigger] d[i]),
    ensures
        digits_value(d) >= 0,
    decreases d.len(),
{
    if d.len() > 0 {
        lemma_digits_nonneg(d.drop_last());
    }
}

/// The length of the first line of a text: the characters before the first newline.
pub open spec fn line_len(s: Seq<char>) -> nat
    decreases s.len(),
{
    if s.len() == 0 {
        0
    } else if s[0] == '\n' {
        0
    } else {
        1 + line_len(s.drop_first())
    }
}

pub proof fn lemma_line_len(s: Seq<char>)
    ensures
        line_len(s) <= s.len(),
        line_len(s) < s.len() ==> s[line_len(s) as int] == '\n',
        forall|k: int| 0 <= k < line_len(s) ==> s[k] != '\n',
    decreases s.len(),
{
    if s.len() > 0 && s[0] != '\n' {
        lemma_line_len(s.drop_first());
        assert forall|k: int| 0 <= k < line_len(s) implies s[k] != '\n' by {
            if k > 0 {
                assert(s[k] == s.drop_first()[k - 1]);
            }
        }
        if line_len(s) < s.len() {
            assert(s[line_len(s) as int] == s.drop_first()[line_len(s.drop_first()) as int]);
        }
    }
}

/// The first line of `lsof -t` output that holds a process id, as `str::lines` and
/// `str::parse::<u32>` read it.
pub open spec fn socket_owner_pid_of(s: Seq<char>) -> Option<u32>
    decreases s.len(),
{
    let n = line_len(s);
    proof {
        lemma_line_len(s);
    }
    match parse_u32_of(trimmed(s.take(n as int))) {
        Some(pid) => Some(pid),
        None => if n < s.len() {
            socket_owner_pid_of(s.skip(n as int + 1))
        } else {
            None
        },
    }
}

/// The process id that owns the daemon's socket, from what `lsof -t` printed.
pub fn socket_owner_pid(output: &str) -> (r: Option<u32>)
    ensures
        r == socket_owner_pid_of(output@),
{
    let n = output.unicode_len();
    let mut start: usize = 0;
    assert(output@.skip(0) =~= output@);
    while start <= n
        invariant
            n == output@.len(),
            start <= n,
            socket_owner_pid_of(output@) == socket_owner_pid_of(output@.skip(start as int)),
        decreases n - start,
    {
        let ghost rest = output@.skip(start as int);
        let mut end: usize = start;
        while end < n && output.get_char(end) != '\n'
            invariant
                n == output@.len(),
                start <= end <= n,
                rest == output@.skip(start as int),
                forall|k: int| 0 <= k < end - start ==> rest[k] != '\n',
            decreases n - end,
        {
            end = end + 1;
        }
        proof {
            lemma_line_len(rest);
            lemma_line_len_is(rest, (end - start) as int);
        }
        let line = output.substring_char(start, end);
        assert(line@ =~= rest.take((end - start) as int));
        if let Some(pid) = parse_u32(str_trim(line)) {
            return Some(pid);
        }
        if end == n {
            return None;
        }
        assert(rest.skip(end - start + 1) =~= output@.skip(end + 1));
        start = end + 1;
    }
    None
}

proof fn lemma_line_len_is(s: Seq<char>, k: int)
    requires
        0 <= k <= s.len(),
        forall|j: int| 0 <= j < k ==> s[j] != '\n',
        k == s.len() || s[k] == '\n',
    ensures
        line_len(s) == k,
    decreases k,
{
    if k > 0 {
        assert forall|j: int| 0 <= j < k - 1 implies s.drop_first()[j] != '\n' by {
            assert(s.drop_first()[j] == s[j + 1]);
        }
        if k < s.len() {
            assert(s.drop_first()[k - 1] == s[k]);
        }
        lemma_line_len_is(s.drop_first(), k - 1);
    }
}

/// A hexadecimal digit, lower case.
pub open spec fn hex_char(d: nat) -> char {
    if d < 10 {
        ((d + '0' as nat) as u32) as char
    } else {
        ((d - 10 + 'a' as nat) as u32) as char
    }
}

/// The last `k` hexadecimal digits of `n`, zero-padded, as `format!("{:016x}")` writes a `u64`
/// for `k` = 16.
pub open spec fn hex_fixed(n: nat, k: nat) -> Seq<char>
    decreases k,
{
    if k == 0 {
        Seq::empty()
    } else {
        hex_fixed(n / 16, (k - 1) as nat).push(hex_char(n % 16))
    }
}

fn hex_digit_str(d: u64) -> (r: &'static str)
    requires
        d < 16,
    ensures
        r@ == seq![hex_char(d as nat)],
{
    proof {
        reveal_strlit("0");
        reveal_strlit("1");
        reveal_strlit("2");
        reveal_strlit("3");
        reveal_strlit("4");
        reveal_strlit("5");
        reveal_strlit("6");
        reveal_strlit("7");
        reveal_strlit("8");
        reveal_strlit("9");
        reveal_strlit("a");
        reveal_strlit("b");
        reveal_strlit("c");
        reveal_strlit("d");
        reveal_strlit("e");
        reveal_strlit("f");
    }
    if d == 0 { "0" } else if d == 1 { "1" } else if d == 2 { "2" } else if d == 3 { "3" }
    else if d == 4 { "4" } else if d == 5 { "5" } else if d == 6 { "6" } else if d == 7 { "7" }
    else if d == 8 { "8" } else if d == 9 { "9" } else if d == 10 { "a" } else if d == 11 { "b" }
    else if d == 12 { "c" } else if d == 13 { "d" } else if d == 14 { "e" } else { "f" }
}

fn hex_fixed_string(n: u64, k: u64) -> (r: String)
    ensures
        r@ == hex_fixed(n as nat, k as nat),
    decreases k,
{
    if k == 0 {
        String::new()
    } else {
        let mut r = hex_fixed_string(n / 16, k - 1);
        r.append(hex_digit_str(n % 16));
        r
    }
}

/// A build fingerprint as sixteen lower-case hexadecimal digits of a hash.
pub fn fingerprint_hex(hash: u64) -> (r: String)
    ensures
        r@ == hex_fixed(hash as nat, 16),
{
    hex_fixed_string(hash, 16)
}

/// The daemon's socket and runtime metadata files, which are removed when the daemon stops
/// listening.
#[derive(Debug)]
pub struct SocketGuard {
    pub path: String,
    pub metadata_path: String,
}

impl SocketGuard {
    /// A guard over the socket at `path` and the metadata file at `metadata_path`.
    pub fn new(path: String, metadata_path: String) -> (r: Self)
        ensures
            r.path == path,
            r.metadata_path == metadata_path,
    {
        SocketGuard { path, metadata_path }
    }
}

/// Every override that is given takes effect and every one that is not leaves the setting as it
/// was; forcing a spawn wins over connecting only.
pub proof fn lemma_overrides_take_effect(c: AppConfig, o: OrcasRuntimeOverrides)
    ensures
        ({
            let n = overridden(c, o);
            &&& (o.model matches Some(m) ==> n.defaults.model == Some(m))
            &&& (o.model is None ==> n.defaults.model == c.defaults.model)
            &&& (o.cwd matches Some(d) ==> n.defaults.cwd == Some(d))
            &&& (o.cwd is None ==> n.defaults.cwd == c.defaults.cwd)
            &&& (o.codex_bin matches Some(b) ==> n.codex.binary_path == b)
            &&& (o.codex_bin is None ==> n.codex.binary_path == c.codex.binary_path)
            &&& (o.listen_url matches Some(u) ==> n.codex.listen_url == u)
            &&& (o.listen_url is None ==> n.codex.listen_url == c.codex.listen_url)
            &&& (o.force_spawn ==> n.codex.connection_mode == CodexConnectionMode::SpawnAlways)
            &&& (!o.force_spawn && o.connect_only ==> n.codex.connection_mode == CodexConnectionMode::ConnectOnly)
            &&& (!o.force_spawn && !o.connect_only ==> n.codex.connection_mode == c.codex.connection_mode)
        }),
{
}

/// Applying the same overrides twice is applying them once.
pub proof fn lemma_overrides_idempotent(c: AppConfig, o: OrcasRuntimeOverrides)
    ensures
        overridden(overridden(c, o), o) == overridden(c, o),
{
}

/// The daemon counts as running exactly when its socket answered; a socket that exists without
/// answering is stale and never running; a running daemon's metadata is never stale; the owner
/// pid is reported only for an existing socket; and the binary comparison is made exactly when
/// both fingerprints are known, by equality of the fingerprints.
pub proof fn lemma_socket_status_meaning(
    paths: DaemonPaths,
    socket_exists: bool,
    socket_responsive: bool,
    metadata: Option<DaemonRuntimeMetadata>,
    socket_owner_pid: Option<u32>,
    pid_running: bool,
    daemon_runtime: Option<DaemonRuntimeMetadata>,
    expected_binary: Option<DaemonBinarySummary>,
)
    ensures
        ({
            let r = socket_status_of(paths, socket_exists, socket_responsive, metadata, socket_owner_pid, pid_running, daemon_runtime, expected_binary);
            &&& r.running == socket_responsive
            &&& (socket_exists && !socket_responsive) ==> !r.running && r.stale_socket
            &&& r.stale_socket ==> socket_exists && !r.running
            &&& r.running ==> !r.stale_socket && !r.stale_metadata
            &&& (!socket_exists ==> r.socket_owner_pid is None)
            &&& (socket_exists ==> r.socket_owner_pid == socket_owner_pid)
            &&& (daemon_runtime is Some ==> r.runtime_metadata == daemon_runtime)
            &&& (daemon_runtime is None ==> r.runtime_metadata == metadata)
            &&& (r.stale_metadata <==> (r.runtime_metadata is Some && !pid_running && !socket_responsive))
            &&& (r.binary_matches_expected is Some <==> (daemon_runtime is Some && expected_binary is Some))
            &&& (r.binary_matches_expected matches Some(m) ==> (m <==> daemon_runtime->0.build_fingerprint@ == expected_binary->0.build_fingerprint@))
        }),
{
}

/// A running daemon is used unless a restart is always asked for; a daemon that is down is never
/// used: it is spawned when launching is allowed as needed, reported unreachable when launching
/// is never allowed, and restarted when it is always asked for.
pub proof fn lemma_launch_decision(launch: OrcasDaemonLaunch, running: bool)
    ensures
        (launch_action_of(launch, running) == LaunchAction::UseRunning) <==> (running && launch != OrcasDaemonLaunch::Always),
        (launch_action_of(launch, running) == LaunchAction::Spawn) <==> (!running && launch == OrcasDaemonLaunch::IfNeeded),
        (launch_action_of(launch, running) == LaunchAction::Unreachable) <==> (!running && launch == OrcasDaemonLaunch::Never),
        (launch_action_of(launch, running) == LaunchAction::Restart) <==> (launch == OrcasDaemonLaunch::Always),
{
}

} // verus!
