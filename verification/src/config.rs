//! What a sandbox is asked to do, and the policy that follows from it.

use crate::metadata::PROFILE_VERSION;
use crate::string_map::StringMap;
use crate::text::{concat2, same_text, views};
use crate::versioned_fs::entry::{clone_text, text_view};
use vstd::prelude::*;

verus! {

/// Why a configuration is refused.
#[derive(Debug, PartialEq, Eq)]
pub enum ConfigError {
    MissingCommand,
    UnknownProfile(String),
    UnknownSeccompProfile(String),
}

/// The mathematical value of an error.
pub enum ConfigErrorView {
    MissingCommand,
    UnknownProfile(Seq<char>),
    UnknownSeccompProfile(Seq<char>),
}

impl View for ConfigError {
    type V = ConfigErrorView;

    open spec fn view(&self) -> ConfigErrorView {
        match *self {
            ConfigError::MissingCommand => ConfigErrorView::MissingCommand,
            ConfigError::UnknownProfile(name) => ConfigErrorView::UnknownProfile(name@),
            ConfigError::UnknownSeccompProfile(name) => ConfigErrorView::UnknownSeccompProfile(name@),
        }
    }
}

/// The text that reports an error.
pub open spec fn config_error_message(e: ConfigErrorView) -> Seq<char> {
    match e {
        ConfigErrorView::MissingCommand => "missing process command; pass a command after -- or set process.cmd"@,
        ConfigErrorView::UnknownProfile(name) => "unknown sandbox profile: "@ + name,
        ConfigErrorView::UnknownSeccompProfile(name) => "unknown seccomp profile: "@ + name,
    }
}

impl ConfigError {
    /// The text that reports the error.
    pub fn message(&self) -> (s: String)
        ensures
            s@ == config_error_message(self@),
    {
        match self {
            ConfigError::MissingCommand => "missing process command; pass a command after -- or set process.cmd".to_string(),
            ConfigError::UnknownProfile(name) => concat2("unknown sandbox profile: ", name.as_str()),
            ConfigError::UnknownSeccompProfile(name) => concat2("unknown seccomp profile: ", name.as_str()),
        }
    }
}

/// A policy preset.
#[derive(Debug, Clone, Copy, PartialEq, Eq, Structural)]
pub enum SandboxProfile {
    AgentDefault,
    ReadOnly,
    WorkspaceWrite,
    PermissiveObserve,
}

impl Default for SandboxProfile {
    fn default() -> (p: Self)
        ensures
            p == SandboxProfile::AgentDefault,
    {
        SandboxProfile::AgentDefault
    }
}

/// The name of a profile.
pub open spec fn profile_name(profile: SandboxProfile) -> Seq<char> {
    match profile {
        SandboxProfile::AgentDefault => "agent-default"@,
        SandboxProfile::ReadOnly => "read-only"@,
        SandboxProfile::WorkspaceWrite => "workspace-write"@,
        SandboxProfile::PermissiveObserve => "permissive-observe"@,
    }
}

/// The profile that a name stands for; each has its full name and shorter ones.
pub open spec fn named_profile(name: Seq<char>) -> Option<SandboxProfile> {
    if name == "agent-default"@ || name == "agent"@ || name == "default"@ {
        Some(SandboxProfile::AgentDefault)
    } else if name == "read-only"@ || name == "readonly"@ {
        Some(SandboxProfile::ReadOnly)
    } else if name == "workspace-write"@ || name == "workspace"@ {
        Some(SandboxProfile::WorkspaceWrite)
    } else if name == "permissive-observe"@ || name == "observe"@ || name == "permissive"@ {
        Some(SandboxProfile::PermissiveObserve)
    } else {
        None
    }
}

impl SandboxProfile {
    /// The name of the profile.
    pub fn name(&self) -> (s: String)
        ensures
            s@ == profile_name(*self),
    {
        match self {
            SandboxProfile::AgentDefault => "agent-default".to_string(),
            SandboxProfile::ReadOnly => "read-only".to_string(),
            SandboxProfile::WorkspaceWrite => "workspace-write".to_string(),
            SandboxProfile::PermissiveObserve => "permissive-observe".to_string(),
        }
    }

    /// The profile that a name stands for.
    pub fn parse(value: &str) -> (result: Result<SandboxProfile, ConfigError>)
        ensures
            match result {
                Ok(p) => named_profile(value@) == Some(p),
                Err(e) => named_profile(value@) is None && e@ == ConfigErrorView::UnknownProfile(value@),
            },
    {
        if same_text(value, "agent-default") || same_text(value, "agent") || same_text(value, "default") {
            Ok(SandboxProfile::AgentDefault)
        } else if same_text(value, "read-only") || same_text(value, "readonly") {
            Ok(SandboxProfile::ReadOnly)
        } else if same_text(value, "workspace-write") || same_text(value, "workspace") {
            Ok(SandboxProfile::WorkspaceWrite)
        } else if same_text(value, "permissive-observe") || same_text(value, "observe") || same_text(value, "permissive") {
            Ok(SandboxProfile::PermissiveObserve)
        } else {
            Err(ConfigError::UnknownProfile(value.to_string()))
        }
    }
}

impl std::str::FromStr for SandboxProfile {
    type Err = String;

    fn from_str(value: &str) -> (result: Result<Self, String>)
        ensures
            match result {
                Ok(p) => named_profile(value@) == Some(p),
                Err(text) => named_profile(value@) is None && text@ == config_error_message(ConfigErrorView::UnknownProfile(value@)),
            },
    {
        match SandboxProfile::parse(value) {
            Ok(p) => Ok(p),
            Err(e) => Err(e.message()),
        }
    }
}

/// A profile is found again by its name.
pub proof fn profile_names_are_read_back(profile: SandboxProfile)
    ensures
        named_profile(profile_name(profile)) == Some(profile),
{
    reveal_strlit("agent-default");
    reveal_strlit("agent");
    reveal_strlit("default");
    reveal_strlit("read-only");
    reveal_strlit("readonly");
    reveal_strlit("workspace-write");
    reveal_strlit("workspace");
    reveal_strlit("permissive-observe");
    reveal_strlit("observe");
    reveal_strlit("permissive");
    assert("agent-default"@.len() == 13 && "agent"@.len() == 5 && "default"@.len() == 7);
    assert("read-only"@.len() == 9 && "readonly"@.len() == 8);
    assert("workspace-write"@.len() == 15 && "workspace"@.len() == 9);
    assert("permissive-observe"@.len() == 18);
}

/// Which system calls are blocked.
#[derive(Debug, Clone, Copy, PartialEq, Eq, Structural)]
pub enum SeccompProfile {
    Off,
    Basic,
}

impl Default for SeccompProfile {
    fn default() -> (p: Self)
        ensures
            p == SeccompProfile::Basic,
    {
        SeccompProfile::Basic
    }
}

/// The name of a seccomp profile.
pub open spec fn seccomp_name(profile: SeccompProfile) -> Seq<char> {
    match profile {
        SeccompProfile::Off => "off"@,
        SeccompProfile::Basic => "basic"@,
    }
}

/// The seccomp profile that a name stands for.
pub open spec fn named_seccomp(name: Seq<char>) -> Option<SeccompProfile> {
    if name == "off"@ || name == "none"@ {
        Some(SeccompProfile::Off)
    } else if name == "basic"@ {
        Some(SeccompProfile::Basic)
    } else {
        None
    }
}

impl SeccompProfile {
    /// The name of the profile.
    pub fn name(&self) -> (s: String)
        ensures
            s@ == seccomp_name(*self),
    {
        match self {
            SeccompProfile::Off => "off".to_string(),
            SeccompProfile::Basic => "basic".to_string(),
        }
    }

    /// The profile that a name stands for.
    pub fn parse(value: &str) -> (result: Result<SeccompProfile, ConfigError>)
        ensures
            match result {
                Ok(p) => named_seccomp(value@) == Some(p),
                Err(e) => named_seccomp(value@) is None && e@ == ConfigErrorView::UnknownSeccompProfile(value@),
            },
    {
        if same_text(value, "off") || same_text(value, "none") {
            Ok(SeccompProfile::Off)
        } else if same_text(value, "basic") {
            Ok(SeccompProfile::Basic)
        } else {
            Err(ConfigError::UnknownSeccompProfile(value.to_string()))
        }
    }
}

impl std::str::FromStr for SeccompProfile {
    type Err = String;

    fn from_str(value: &str) -> (result: Result<Self, String>)
        ensures
            match result {
                Ok(p) => named_seccomp(value@) == Some(p),
                Err(text) => named_seccomp(value@) is None && text@ == config_error_message(ConfigErrorView::UnknownSeccompProfile(value@)),
            },
    {
        match SeccompProfile::parse(value) {
            Ok(p) => Ok(p),
            Err(e) => Err(e.message()),
        }
    }
}

/// A seccomp profile is found again by its name.
pub proof fn seccomp_names_are_read_back(profile: SeccompProfile)
    ensures
        named_seccomp(seccomp_name(profile)) == Some(profile),
{
    reveal_strlit("off");
    reveal_strlit("none");
    reveal_strlit("basic");
    assert("off"@.len() == 3 && "none"@.len() == 4 && "basic"@.len() == 5);
}

/// The process to run.
#[derive(Debug, PartialEq, Eq)]
pub struct ProcessSpec {
    pub cmd: Option<String>,
    pub args: Vec<String>,
    pub cwd: Option<String>,
    pub env: StringMap<String>,
    pub clear_env: bool,
}

/// The mathematical value of a process description.
#[verifier::ext_equal]
pub struct ProcessView {
    pub cmd: Option<Seq<char>>,
    pub args: Seq<Seq<char>>,
    pub cwd: Option<Seq<char>>,
    pub env: Map<Seq<char>, Seq<char>>,
    pub clear_env: bool,
}

/// The values of a map of strings.
pub open spec fn text_map(m: Map<Seq<char>, String>) -> Map<Seq<char>, Seq<char>> {
    m.map_values(|s: String| s@)
}

impl View for ProcessSpec {
    type V = ProcessView;

    open spec fn view(&self) -> ProcessView {
        ProcessView {
            cmd: text_view(self.cmd),
            args: views(self.args@),
            cwd: text_view(self.cwd),
            env: text_map(self.env@),
            clear_env: self.clear_env,
        }
    }
}

/// A copy of a list of strings.
pub fn clone_texts(list: &Vec<String>) -> (copy: Vec<String>)
    ensures
        copy@ == list@,
{
    let mut copy: Vec<String> = Vec::new();
    for i in 0..list.len()
        invariant
            copy@ == list@.take(i as int),
    {
        copy.push(list[i].clone());
        assert(list@.take(i + 1) =~= list@.take(i as int).push(list@[i as int]));
    }
    assert(list@.take(list@.len() as int) =~= list@);
    copy
}

/// A copy of a map of strings.
pub fn clone_text_map(map: &StringMap<String>) -> (copy: StringMap<String>)
    requires
        map.wf(),
    ensures
        copy.wf(),
        copy.items@ == map.items@,
{
    let mut copy: StringMap<String> = StringMap::new();
    assert(map.items@.take(0) =~= copy.items@);
    for i in 0..map.items.len()
        invariant
            map.wf(),
            copy.wf(),
            copy.items@ == map.items@.take(i as int),
    {
        let key = map.items[i].0.clone();
        let value = map.items[i].1.clone();
        assert(map.items@.take(i + 1) =~= map.items@.take(i as int).push(map.items@[i as int]));
        copy.push_last(key, value);
    }
    assert(map.items@.take(map.items@.len() as int) =~= map.items@);
    copy
}

impl ProcessSpec {
    /// The environment's names are in order.
    pub open spec fn wf(&self) -> bool {
        self.env.wf()
    }

    /// A copy of the description.
    pub fn copy(&self) -> (copy: Self)
        requires
            self.wf(),
        ensures
            copy.wf(),
            copy@ == self@,
    {
        ProcessSpec {
            cmd: clone_text(&self.cmd),
            args: clone_texts(&self.args),
            cwd: clone_text(&self.cwd),
            env: clone_text_map(&self.env),
            clear_env: self.clear_env,
        }
    }

    /// The command and its arguments.
    pub fn command_line(&self) -> (result: Result<(String, Vec<String>), ConfigError>)
        ensures
            match result {
                Ok(line) => self@.cmd == Some(line.0@) && views(line.1@) == self@.args,
                Err(e) => self@.cmd is None && e@ == ConfigErrorView::MissingCommand,
            },
    {
        match &self.cmd {
            Some(cmd) => Ok((cmd.clone(), clone_texts(&self.args))),
            None => Err(ConfigError::MissingCommand),
        }
    }
}

impl Default for ProcessSpec {
    fn default() -> (p: Self)
        ensures
            p.wf(),
            p@ == (ProcessView {
                cmd: None,
                args: Seq::empty(),
                cwd: None,
                env: Map::empty(),
                clear_env: false,
            }),
    {
        let p = ProcessSpec {
            cmd: None,
            args: Vec::new(),
            cwd: None,
            env: StringMap::new(),
            clear_env: false,
        };
        assert(p@.args =~= Seq::empty());
        assert(p@.env =~= Map::empty());
        p
    }
}

/// Resource limits; those that are not set are not imposed.
#[derive(Debug, Clone, Copy, PartialEq, Eq)]
pub struct LimitsSpec {
    pub timeout_ms: Option<u64>,
    pub cpu_time_secs: Option<u64>,
    pub address_space_bytes: Option<u64>,
    pub open_files: Option<u64>,
    pub file_size_bytes: Option<u64>,
    pub max_processes: Option<u64>,
}

impl Default for LimitsSpec {
    fn default() -> (l: Self)
        ensures
            l == (LimitsSpec {
                timeout_ms: None,
                cpu_time_secs: None,
                address_space_bytes: None,
                open_files: None,
                file_size_bytes: None,
                max_processes: None,
            }),
    {
        LimitsSpec {
            timeout_ms: None,
            cpu_time_secs: None,
            address_space_bytes: None,
            open_files: None,
            file_size_bytes: None,
            max_processes: None,
        }
    }
}

/// The paths that may be read and written.
#[derive(Debug, PartialEq, Eq)]
pub struct FsSpec {
    pub read: Vec<String>,
    pub write: Vec<String>,
}

/// The mathematical value of the path lists.
#[verifier::ext_equal]
pub struct FsView {
    pub read: Seq<Seq<char>>,
    pub write: Seq<Seq<char>>,
}

impl View for FsSpec {
    type V = FsView;

    open spec fn view(&self) -> FsView {
        FsView { read: views(self.read@), write: views(self.write@) }
    }
}

impl Default for FsSpec {
    fn default() -> (f: Self)
        ensures
            f@ == (FsView { read: Seq::empty(), write: Seq::empty() }),
    {
        let f = FsSpec { read: Vec::new(), write: Vec::new() };
        assert(f@.read =~= Seq::empty());
        assert(f@.write =~= Seq::empty());
        f
    }
}

impl FsSpec {
    /// A copy of the lists.
    pub fn copy(&self) -> (copy: Self)
        ensures
            copy@ == self@,
    {
        FsSpec { read: clone_texts(&self.read), write: clone_texts(&self.write) }
    }
}

/// Which restrictions are imposed.
#[derive(Debug, Clone, Copy, PartialEq, Eq, Structural)]
pub struct SecuritySpec {
    pub no_new_privs: bool,
    pub landlock: bool,
    pub seccomp_profile: SeccompProfile,
    pub allow_degraded: bool,
}

impl Default for SecuritySpec {
    fn default() -> (s: Self)
        ensures
            s == (SecuritySpec {
                no_new_privs: true,
                landlock: true,
                seccomp_profile: SeccompProfile::Basic,
                allow_degraded: false,
            }),
    {
        SecuritySpec {
            no_new_privs: true,
            landlock: true,
            seccomp_profile: SeccompProfile::Basic,
            allow_degraded: false,
        }
    }
}

/// What is observed and where it is written.
#[derive(Debug, PartialEq, Eq)]
pub struct ObserveSpec {
    pub trace: Option<String>,
    pub summary: Option<String>,
    pub capture_stdout: bool,
    pub capture_stderr: bool,
    pub collect_cgroup: bool,
    pub proc_sample_interval_ms: u64,
    pub trace_syscalls: bool,
    pub max_trace_output_bytes: Option<u64>,
    pub rhai_script: Option<String>,
}

/// The mathematical value of what is observed.
pub struct ObserveView {
    pub trace: Option<Seq<char>>,
    pub summary: Option<Seq<char>>,
    pub capture_stdout: bool,
    pub capture_stderr: bool,
    pub collect_cgroup: bool,
    pub proc_sample_interval_ms: u64,
    pub trace_syscalls: bool,
    pub max_trace_output_bytes: Option<u64>,
    pub rhai_script: Option<Seq<char>>,
}

impl View for ObserveSpec {
    type V = ObserveView;

    open spec fn view(&self) -> ObserveView {
        ObserveView {
            trace: text_view(self.trace),
            summary: text_view(self.summary),
            capture_stdout: self.capture_stdout,
            capture_stderr: self.capture_stderr,
            collect_cgroup: self.collect_cgroup,
            proc_sample_interval_ms: self.proc_sample_interval_ms,
            trace_syscalls: self.trace_syscalls,
            max_trace_output_bytes: self.max_trace_output_bytes,
            rhai_script: text_view(self.rhai_script),
        }
    }
}

impl Default for ObserveSpec {
    fn default() -> (o: Self)
        ensures
            o@ == (ObserveView {
                trace: None,
                summary: None,
                capture_stdout: true,
                capture_stderr: true,
                collect_cgroup: true,
                proc_sample_interval_ms: 100,
                trace_syscalls: false,
                max_trace_output_bytes: Some(1048576),
                rhai_script: None,
            }),
    {
        ObserveSpec {
            trace: None,
            summary: None,
            capture_stdout: true,
            capture_stderr: true,
            collect_cgroup: true,
            proc_sample_interval_ms: 100,
            trace_syscalls: false,
            max_trace_output_bytes: Some(1048576),
            rhai_script: None,
        }
    }
}

impl ObserveSpec {
    /// A copy of the description.
    pub fn copy(&self) -> (copy: Self)
        ensures
            copy@ == self@,
    {
        ObserveSpec {
            trace: clone_text(&self.trace),
            summary: clone_text(&self.summary),
            capture_stdout: self.capture_stdout,
            capture_stderr: self.capture_stderr,
            collect_cgroup: self.collect_cgroup,
            proc_sample_interval_ms: self.proc_sample_interval_ms,
            trace_syscalls: self.trace_syscalls,
            max_trace_output_bytes: self.max_trace_output_bytes,
            rhai_script: clone_text(&self.rhai_script),
        }
    }
}

/// Whether and how the run is a transaction on a workspace.
#[derive(Debug, PartialEq, Eq)]
pub struct VersionedWorkspaceSpec {
    pub workspace: Option<String>,
    pub rollback_on_failure: bool,
    pub commit_on_success: bool,
}

/// The mathematical value of a workspace request.
pub struct VersionedWorkspaceView {
    pub workspace: Option<Seq<char>>,
    pub rollback_on_failure: bool,
    pub commit_on_success: bool,
}

impl View for VersionedWorkspaceSpec {
    type V = VersionedWorkspaceView;

    open spec fn view(&self) -> VersionedWorkspaceView {
        VersionedWorkspaceView {
            workspace: text_view(self.workspace),
            rollback_on_failure: self.rollback_on_failure,
            commit_on_success: self.commit_on_success,
        }
    }
}

impl Default for VersionedWorkspaceSpec {
    fn default() -> (v: Self)
        ensures
            v@ == (VersionedWorkspaceView {
                workspace: None,
                rollback_on_failure: false,
                commit_on_success: false,
            }),
    {
        VersionedWorkspaceSpec {
            workspace: None,
            rollback_on_failure: false,
            commit_on_success: false,
        }
    }
}

impl VersionedWorkspaceSpec {
    /// A copy of the request.
    pub fn copy(&self) -> (copy: Self)
        ensures
            copy@ == self@,
    {
        VersionedWorkspaceSpec {
            workspace: clone_text(&self.workspace),
            rollback_on_failure: self.rollback_on_failure,
            commit_on_success: self.commit_on_success,
        }
    }
}

/// What a sandbox is asked to do.
#[derive(Debug, PartialEq, Eq)]
pub struct SandboxSpec {
    pub profile: SandboxProfile,
    pub process: ProcessSpec,
    pub limits: LimitsSpec,
    pub fs: FsSpec,
    pub security: SecuritySpec,
    pub observe: ObserveSpec,
    pub versioned_workspace: VersionedWorkspaceSpec,
}

/// The mathematical value of a request.
#[verifier::ext_equal]
pub struct SandboxView {
    pub profile: SandboxProfile,
    pub process: ProcessView,
    pub limits: LimitsSpec,
    pub fs: FsView,
    pub security: SecuritySpec,
    pub observe: ObserveView,
    pub versioned_workspace: VersionedWorkspaceView,
}

impl View for SandboxSpec {
    type V = SandboxView;

    open spec fn view(&self) -> SandboxView {
        SandboxView {
            profile: self.profile,
            process: self.process@,
            limits: self.limits,
            fs: self.fs@,
            security: self.security,
            observe: self.observe@,
            versioned_workspace: self.versioned_workspace@,
        }
    }
}

/// The policy under which a process runs.
#[derive(Debug, PartialEq, Eq)]
pub struct EffectivePolicy {
    pub profile: SandboxProfile,
    pub profile_version: u32,
    pub process: ProcessSpec,
    pub limits: LimitsSpec,
    pub fs: FsSpec,
    pub security: SecuritySpec,
    pub observe: ObserveSpec,
    pub versioned_workspace: VersionedWorkspaceSpec,
    pub notes: Vec<String>,
}

/// The mathematical value of a policy.
#[verifier::ext_equal]
pub struct PolicyView {
    pub profile: SandboxProfile,
    pub profile_version: u32,
    pub process: ProcessView,
    pub limits: LimitsSpec,
    pub fs: FsView,
    pub security: SecuritySpec,
    pub observe: ObserveView,
    pub versioned_workspace: VersionedWorkspaceView,
    pub notes: Seq<Seq<char>>,
}

impl View for EffectivePolicy {
    type V = PolicyView;

    open spec fn view(&self) -> PolicyView {
        PolicyView {
            profile: self.profile,
            profile_version: self.profile_version,
            process: self.process@,
            limits: self.limits,
            fs: self.fs@,
            security: self.security,
            observe: self.observe@,
            versioned_workspace: self.versioned_workspace@,
            notes: views(self.notes@),
        }
    }
}

/// The paths that may be written: profiles that grant the workspace grant the
/// working directory where no path is named.
pub open spec fn effective_write(spec: SandboxView) -> Seq<Seq<char>> {
    if grants_workspace(spec) {
        seq![
            match spec.process.cwd {
                Some(cwd) => cwd,
                None => "."@,
            },
        ]
    } else {
        spec.fs.write
    }
}

/// The profile grants write access to the working directory.
pub open spec fn grants_workspace(spec: SandboxView) -> bool {
    (spec.profile == SandboxProfile::AgentDefault || spec.profile == SandboxProfile::WorkspaceWrite) && spec.fs.write.len() == 0
}

/// What is worth knowing about how a policy came about.
pub open spec fn effective_notes(spec: SandboxView) -> Seq<Seq<char>> {
    if grants_workspace(spec) {
        seq!["profile grants write access to the process working directory"@]
    } else if spec.profile == SandboxProfile::ReadOnly && spec.fs.write.len() > 0 {
        seq!["read-only profile was broadened by explicit write allowlist"@]
    } else if spec.profile == SandboxProfile::PermissiveObserve && spec.security.landlock {
        seq!["permissive-observe disables Landlock filesystem restrictions"@]
    } else {
        Seq::empty()
    }
}

/// The policy that follows from a request.
pub open spec fn effective(spec: SandboxView) -> PolicyView {
    PolicyView {
        profile: spec.profile,
        profile_version: PROFILE_VERSION,
        process: spec.process,
        limits: spec.limits,
        fs: FsView { read: spec.fs.read, write: effective_write(spec) },
        security: SecuritySpec {
            landlock: spec.security.landlock && spec.profile != SandboxProfile::PermissiveObserve,
            no_new_privs: spec.security.no_new_privs,
            seccomp_profile: spec.security.seccomp_profile,
            allow_degraded: spec.security.allow_degraded,
        },
        observe: spec.observe,
        versioned_workspace: spec.versioned_workspace,
        notes: effective_notes(spec),
    }
}

impl Default for SandboxSpec {
    fn default() -> (s: Self)
        ensures
            s.wf(),
            s.profile == SandboxProfile::AgentDefault,
            s@.process == (ProcessView {
                cmd: None,
                args: Seq::empty(),
                cwd: None,
                env: Map::empty(),
                clear_env: false,
            }),
            s.limits == (LimitsSpec {
                timeout_ms: None,
                cpu_time_secs: None,
                address_space_bytes: None,
                open_files: None,
                file_size_bytes: None,
                max_processes: None,
            }),
            s@.fs == (FsView { read: Seq::empty(), write: Seq::empty() }),
            s.security == (SecuritySpec {
                no_new_privs: true,
                landlock: true,
                seccomp_profile: SeccompProfile::Basic,
                allow_degraded: false,
            }),
            s@.observe == (ObserveView {
                trace: None,
                summary: None,
                capture_stdout: true,
                capture_stderr: true,
                collect_cgroup: true,
                proc_sample_interval_ms: 100,
                trace_syscalls: false,
                max_trace_output_bytes: Some(1048576),
                rhai_script: None,
            }),
            s@.versioned_workspace == (VersionedWorkspaceView {
                workspace: None,
                rollback_on_failure: false,
                commit_on_success: false,
            }),
    {
        SandboxSpec {
            profile: SandboxProfile::AgentDefault,
            process: ProcessSpec::default(),
            limits: LimitsSpec::default(),
            fs: FsSpec::default(),
            security: SecuritySpec::default(),
            observe: ObserveSpec::default(),
            versioned_workspace: VersionedWorkspaceSpec::default(),
        }
    }
}

impl SandboxSpec {
    /// The environment's names are in order.
    pub open spec fn wf(&self) -> bool {
        self.process.wf()
    }

    /// The command and its arguments.
    pub fn command_line(&self) -> (result: Result<(String, Vec<String>), ConfigError>)
        ensures
            match result {
                Ok(line) => self@.process.cmd == Some(line.0@) && views(line.1@) == self@.process.args,
                Err(e) => self@.process.cmd is None && e@ == ConfigErrorView::MissingCommand,
            },
    {
        self.process.command_line()
    }

    /// The policy that follows from the request.
    pub fn effective_policy(&self) -> (policy: EffectivePolicy)
        requires
            self.wf(),
        ensures
            policy.wf(),
            policy@ == effective(self@),
    {
        let mut fs = self.fs.copy();
        let mut security = self.security;
        let mut notes: Vec<String> = Vec::new();
        assert(views(notes@) =~= Seq::empty());
        assert(fs@.write.len() == fs.write@.len());
        match self.profile {
            SandboxProfile::AgentDefault | SandboxProfile::WorkspaceWrite => {
                if fs.write.len() == 0 {
                    let workspace = match &self.process.cwd {
                        Some(cwd) => cwd.clone(),
                        None => ".".to_string(),
                    };
                    fs.write.push(workspace);
                    notes.push("profile grants write access to the process working directory".to_string());
                    assert(views(fs.write@) =~= effective_write(self@));
                    assert(views(notes@) =~= effective_notes(self@));
                }
            },
            SandboxProfile::ReadOnly => {
                if fs.write.len() > 0 {
                    notes.push("read-only profile was broadened by explicit write allowlist".to_string());
                    assert(views(notes@) =~= effective_notes(self@));
                }
            },
            SandboxProfile::PermissiveObserve => {
                if security.landlock {
                    notes.push("permissive-observe disables Landlock filesystem restrictions".to_string());
                    assert(views(notes@) =~= effective_notes(self@));
                }
                security.landlock = false;
            },
        }
        EffectivePolicy {
            profile: self.profile,
            profile_version: PROFILE_VERSION,
            process: self.process.copy(),
            limits: self.limits,
            fs,
            security,
            observe: self.observe.copy(),
            versioned_workspace: self.versioned_workspace.copy(),
            notes,
        }
    }
}

impl EffectivePolicy {
    /// The environment's names are in order.
    pub open spec fn wf(&self) -> bool {
        self.process.wf()
    }

    /// The command and its arguments.
    pub fn command_line(&self) -> (result: Result<(String, Vec<String>), ConfigError>)
        ensures
            match result {
                Ok(line) => self@.process.cmd == Some(line.0@) && views(line.1@) == self@.process.args,
                Err(e) => self@.process.cmd is None && e@ == ConfigErrorView::MissingCommand,
            },
    {
        self.process.command_line()
    }
}

/// A policy never restricts less than it is asked to, except that one profile
/// lifts the filesystem restrictions; a policy may write no more than the paths
/// that are named, or the working directory where none is.
pub proof fn policies_are_narrow(spec: SandboxView)
    ensures
        effective(spec).security.landlock ==> spec.security.landlock,
        spec.security.landlock && !effective(spec).security.landlock ==> spec.profile == SandboxProfile::PermissiveObserve,
        effective(spec).security.seccomp_profile == spec.security.seccomp_profile,
        effective(spec).security.no_new_privs == spec.security.no_new_privs,
        effective(spec).fs.read == spec.fs.read,
        effective(spec).fs.write != spec.fs.write ==> spec.fs.write.len() == 0 && effective(spec).fs.write.len() == 1,
        spec.profile == SandboxProfile::ReadOnly ==> effective(spec).fs.write == spec.fs.write,
{
}

} // verus!
