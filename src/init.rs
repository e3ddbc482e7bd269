//! The container descriptor that init consumes, and the setup steps that init takes
//! inside the new namespaces before it executes the application.

use crate::launch::{console_var, decimal, env_entry, exec_env, strs, AllowList};
use crate::message::Message;
use crate::nonnul::NonNulString;
use crate::privileges::{drop_privileges, reset_effective_caps, Cap, PrivilegeError};
use crate::rlimits::{set_rlimits, unique_resources, RLimitError, RLimitResource, RLimitValue};
use nix::errno::Errno;
use vstd::prelude::*;
use vstd::string::StringExecFns;

verus! {

/// The text that `Debug` gives for the mount flags `flags`.
pub uninterp spec fn mount_flags_text(flags: u64) -> Seq<char>;

/// Relies on `Debug` of nix::mount::MsFlags: the flag names of `flags`.
#[verifier::external_body]
fn flags_text(flags: u64) -> (r: String)
    ensures
        r@ == mount_flags_text(flags),
{
    format!("{:?}", nix::mount::MsFlags::from_bits_retain(flags))
}

/// Relies on nix::mount::mount: performs one `mount(2)` call.
#[verifier::external_body]
fn mount_call(
    source: Option<&str>,
    target: &str,
    fstype: Option<&str>,
    flags: u64,
    data: Option<&str>,
) -> (r: Result<(), Errno>) {
    nix::mount::mount(source, target, fstype, nix::mount::MsFlags::from_bits_retain(flags), data)
}

/// Relies on nix::unistd::geteuid: the effective user id of this process.
#[verifier::external_body]
fn effective_uid() -> (r: u32) {
    nix::unistd::geteuid().as_raw()
}

/// Relies on caps::securebits::set_keepcaps: sets or clears the keep-caps flag.
#[verifier::external_body]
fn set_keepcaps(keep: bool) -> (r: Result<(), caps::errors::CapsError>) {
    caps::securebits::set_keepcaps(keep)
}

/// Relies on nix::unistd::setresgid: sets real, effective and saved group id to `gid`.
#[verifier::external_body]
fn set_resgid(gid: u32) -> (r: Result<(), Errno>) {
    let gid = nix::unistd::Gid::from_raw(gid);
    nix::unistd::setresgid(gid, gid, gid)
}

/// Relies on nix::unistd::setresuid: sets real, effective and saved user id to `uid`.
#[verifier::external_body]
fn set_resuid(uid: u32) -> (r: Result<(), Errno>) {
    let uid = nix::unistd::Uid::from_raw(uid);
    nix::unistd::setresuid(uid, uid, uid)
}

/// Relies on nix::unistd::setgroups: installs `groups` as the supplementary groups.
#[verifier::external_body]
fn set_supplementary_groups(groups: &Vec<u32>) -> (r: Result<(), Errno>) {
    let groups: Vec<nix::unistd::Gid> = groups.iter().map(|g| nix::unistd::Gid::from_raw(*g)).collect();
    nix::unistd::setgroups(&groups)
}

/// Relies on nix::sys::prctl::set_no_new_privs: sets `PR_SET_NO_NEW_PRIVS`.
#[verifier::external_body]
fn no_new_privs() -> (r: Result<(), Errno>) {
    nix::sys::prctl::set_no_new_privs()
}

/// Instructions for one `mount(2)` call done in init.
pub struct Mount {
    pub source: Option<String>,
    pub target: String,
    pub fstype: Option<String>,
    pub flags: u64,
    pub data: Option<String>,
    /// The message with which init aborts when this mount fails.
    pub error_msg: String,
}

/// The text of an optional string, empty when absent.
pub open spec fn text_of(s: Option<String>) -> Seq<char> {
    match s {
        Some(x) => x@,
        None => Seq::empty(),
    }
}

/// The message for a failed mount, with `flags` the text of its flags.
pub open spec fn error_text(
    source: Option<String>,
    target: String,
    fstype: Option<String>,
    flags: Seq<char>,
    data: Option<String>,
) -> Seq<char> {
    "failed to mount '"@ + text_of(source) + "' of type '"@ + text_of(fstype) + "' on '"@
        + target@ + "' with flags '"@ + flags + "' and data '"@ + text_of(data) + "'"@
}

/// The message for a failed mount.
pub open spec fn mount_error(
    source: Option<String>,
    target: String,
    fstype: Option<String>,
    flags: u64,
    data: Option<String>,
) -> Seq<char> {
    error_text(source, target, fstype, mount_flags_text(flags), data)
}

/// Render the message for a failed mount, given the text of its flags.
pub fn render_error(
    source: &Option<String>,
    target: &String,
    fstype: &Option<String>,
    flags: &str,
    data: &Option<String>,
) -> (r: String)
    ensures
        r@ == error_text(*source, *target, *fstype, flags@, *data),
{
    let mut m = String::from_str("failed to mount '");
    append_opt(&mut m, source);
    m.append("' of type '");
    append_opt(&mut m, fstype);
    m.append("' on '");
    m.append(target.as_str());
    m.append("' with flags '");
    m.append(flags);
    m.append("' and data '");
    append_opt(&mut m, data);
    m.append("'");
    m
}

fn append_opt(s: &mut String, o: &Option<String>)
    ensures
        final(s)@ == old(s)@ + text_of(*o),
{
    match o {
        Some(x) => s.append(x.as_str()),
        None => {
            assert(old(s)@ + Seq::<char>::empty() =~= old(s)@);
        },
    }
}

impl Mount {
    /// A mount of `source` with type `fstype` on `target`, with its error message rendered.
    pub fn new(
        source: Option<String>,
        target: String,
        fstype: Option<String>,
        flags: u64,
        data: Option<String>,
    ) -> (r: Mount)
        ensures
            r.source == source,
            r.target == target,
            r.fstype == fstype,
            r.flags == flags,
            r.data == data,
            r.error_msg@ == mount_error(source, target, fstype, flags, data),
    {
        let text = flags_text(flags);
        let m = render_error(&source, &target, &fstype, text.as_str(), &data);
        Mount { source, target, fstype, flags, data, error_msg: m }
    }

    /// Execute this mount call; on failure, the rendered error message.
    pub fn mount(&self) -> (r: Result<(), String>)
        ensures
            r matches Err(e) ==> e@ == self.error_msg@,
    {
        let source = match &self.source {
            Some(s) => Some(s.as_str()),
            None => None,
        };
        let fstype = match &self.fstype {
            Some(s) => Some(s.as_str()),
            None => None,
        };
        let data = match &self.data {
            Some(s) => Some(s.as_str()),
            None => None,
        };
        match mount_call(source, self.target.as_str(), fstype, self.flags, data) {
            Ok(()) => Ok(()),
            Err(_) => Err(self.error_msg.clone()),
        }
    }
}

/// What init does with what arrived from the runtime.
pub enum InitCommand {
    /// The runtime is gone: exit quietly.
    Quit,
    /// Execute `path` with `args` and `env`.
    Exec { path: NonNulString, args: Vec<NonNulString>, env: Vec<NonNulString> },
    /// A message that only init sends.
    Unexpected,
}

/// Decide on `received`: `None` is the runtime's disconnect; an `Exec` runs with its
/// environment completed by the console's descriptor, when init holds one.
pub fn command(received: Option<Message>, console: Option<u32>) -> (r: InitCommand)
    ensures
        received is None ==> r is Quit,
        received matches Some(Message::Exec { path, args, env }) ==> r matches InitCommand::Exec {
            path: p,
            args: a,
            env: e,
        } && p@ == path@ && strs(a@) == strs(args@) && strs(e@) == strs(env@) + match console {
            Some(fd) => seq![env_entry(console_var(), decimal(fd as nat))],
            None => Seq::<Seq<u8>>::empty(),
        },
        received matches Some(Message::Forked { .. }) ==> r is Unexpected,
        received matches Some(Message::Exit { .. }) ==> r is Unexpected,
{
    match received {
        None => InitCommand::Quit,
        Some(Message::Exec { path, args, env }) => InitCommand::Exec {
            path,
            args,
            env: exec_env(env, console),
        },
        Some(_) => InitCommand::Unexpected,
    }
}

/// Why init cannot finish the sandbox.
#[derive(Debug)]
pub enum InitError {
    /// A capability call failed.
    Caps(PrivilegeError),
    /// A resource limit could not be installed.
    Rlimit(RLimitError),
    /// Setting the group ids failed.
    SetGid(Errno),
    /// Setting the user ids failed.
    SetUid(Errno),
    /// Installing the supplementary groups failed.
    SetGroups(Errno),
    /// Setting `PR_SET_NO_NEW_PRIVS` failed.
    NoNewPrivs(Errno),
}

/// The container descriptor that the runtime hands to init.
pub struct Init {
    /// The container's name and version, `name:version`.
    pub container: String,
    /// The absolute path of the container's root.
    pub root: String,
    pub uid: u16,
    pub gid: u16,
    pub mounts: Vec<Mount>,
    pub groups: Vec<u32>,
    pub netns: Option<String>,
    /// The capabilities to keep.
    pub capabilities: Vec<Cap>,
    pub rlimits: Vec<(RLimitResource, RLimitValue)>,
    pub seccomp: Option<AllowList>,
    pub console: bool,
}

/// The directory that holds named network namespaces.
pub open spec fn netns_dir() -> Seq<char> {
    "/var/run/netns/"@
}

/// What init does next after a mount call.
#[derive(Debug)]
pub enum MountStep {
    /// Mount the entry that follows.
    Next,
    /// Every mount succeeded.
    Done,
    /// Abort with this message; no later mount is tried.
    Abort(String),
}

/// One step of setting the ids.
#[derive(Clone, Copy, Debug, PartialEq, Eq, Structural)]
pub enum IdStep {
    /// Set keep-caps, so that the permitted set survives the change of user.
    KeepCapsOn,
    /// Set real, effective and saved group id.
    SetGid,
    /// Set real, effective and saved user id.
    SetUid,
    /// Raise every capability into the effective set.
    RaiseEffective,
    /// Clear keep-caps again.
    KeepCapsOff,
}

/// The steps for a process whose effective user id is `euid`: as root, the ids change under
/// keep-caps and the effective set is raised afterwards; otherwise only the ids change.
pub open spec fn spec_id_steps(euid: u32) -> Seq<IdStep> {
    if euid == 0 {
        seq![IdStep::KeepCapsOn, IdStep::SetGid, IdStep::SetUid, IdStep::RaiseEffective, IdStep::KeepCapsOff]
    } else {
        seq![IdStep::SetGid, IdStep::SetUid]
    }
}

/// The steps that set the ids of a process whose effective user id is `euid`, in order.
pub fn id_steps(euid: u32) -> (r: Vec<IdStep>)
    ensures
        r@ == spec_id_steps(euid),
{
    let r = if euid == 0 {
        vec![IdStep::KeepCapsOn, IdStep::SetGid, IdStep::SetUid, IdStep::RaiseEffective, IdStep::KeepCapsOff]
    } else {
        vec![IdStep::SetGid, IdStep::SetUid]
    };
    assert(r@ =~= spec_id_steps(euid));
    r
}

impl Init {
    /// After the mount at index `i` succeeded (`ok`) or failed: mount the next one, finish,
    /// or abort with the failed mount's message.
    pub fn after_mount(&self, i: usize, ok: bool) -> (r: MountStep)
        requires
            i < self.mounts@.len(),
        ensures
            !ok ==> (r matches MountStep::Abort(m) && m@ == self.mounts@[i as int].error_msg@),
            ok && i + 1 < self.mounts@.len() ==> r is Next,
            ok && i + 1 == self.mounts@.len() ==> r is Done,
    {
        if !ok {
            MountStep::Abort(self.mounts[i].error_msg.clone())
        } else if i < self.mounts.len() - 1 {
            MountStep::Next
        } else {
            MountStep::Done
        }
    }

    /// Execute the mount plan in order, each step as `after_mount` says; on the first
    /// failure, that mount's error message.
    pub fn mount(&self) -> (r: Result<(), String>)
        ensures
            self.mounts@.len() == 0 ==> r is Ok,
            r matches Err(e) ==> exists|i: int|
                0 <= i < self.mounts@.len() && e@ == (#[trigger] self.mounts@[i]).error_msg@,
    {
        if self.mounts.len() == 0 {
            return Ok(());
        }
        let n = self.mounts.len();
        let mut i: usize = 0;
        loop
            invariant
                n == self.mounts@.len(),
                0 <= i < n,
            decreases n - i,
        {
            let ok = self.mounts[i].mount().is_ok();
            let step = self.after_mount(i, ok);
            match step {
                MountStep::Abort(m) => {
                    return Err(m);
                },
                MountStep::Done => {
                    return Ok(());
                },
                MountStep::Next => {},
            }
            i = i + 1;
        }
    }

    /// The path of the network namespace to attach to, if one is configured.
    pub fn netns_path(&self) -> (r: Option<String>)
        ensures
            r is Some <==> self.netns is Some,
            r matches Some(p) ==> self.netns matches Some(n) && p@ == netns_dir() + n@,
    {
        match &self.netns {
            Some(n) => {
                let mut p = String::from_str("/var/run/netns/");
                p.append(n.as_str());
                Some(p)
            },
            None => None,
        }
    }

    /// Set the group and user ids, by the steps of `id_steps` for the current effective
    /// user id.
    pub fn set_ids(&self) -> (r: Result<(), InitError>)
        ensures
            r matches Err(e) ==> e is SetGid || e is SetUid || e is Caps,
            r matches Err(InitError::Caps(p)) ==> p is KeepCaps || p is Write,
    {
        let steps = id_steps(effective_uid());
        let mut i: usize = 0;
        while i < steps.len()
            invariant
                0 <= i <= steps@.len(),
            decreases steps@.len() - i,
        {
            let done = match steps[i] {
                IdStep::KeepCapsOn => match set_keepcaps(true) {
                    Ok(()) => Ok(()),
                    Err(e) => Err(InitError::Caps(PrivilegeError::KeepCaps(e))),
                },
                IdStep::SetGid => match set_resgid(self.gid as u32) {
                    Ok(()) => Ok(()),
                    Err(e) => Err(InitError::SetGid(e)),
                },
                IdStep::SetUid => match set_resuid(self.uid as u32) {
                    Ok(()) => Ok(()),
                    Err(e) => Err(InitError::SetUid(e)),
                },
                IdStep::RaiseEffective => match reset_effective_caps() {
                    Ok(()) => Ok(()),
                    Err(e) => Err(InitError::Caps(e)),
                },
                IdStep::KeepCapsOff => match set_keepcaps(false) {
                    Ok(()) => Ok(()),
                    Err(e) => Err(InitError::Caps(PrivilegeError::KeepCaps(e))),
                },
            };
            if let Err(e) = done {
                return Err(e);
            }
            i = i + 1;
        }
        Ok(())
    }

    /// Install the supplementary groups.
    pub fn set_groups(&self) -> (r: Result<(), InitError>)
        ensures
            r matches Err(e) ==> e is SetGroups,
    {
        match set_supplementary_groups(&self.groups) {
            Ok(()) => Ok(()),
            Err(e) => Err(InitError::SetGroups(e)),
        }
    }

    /// Set `PR_SET_NO_NEW_PRIVS`.
    pub fn set_no_new_privs() -> (r: Result<(), InitError>)
        ensures
            r matches Err(e) ==> e is NoNewPrivs,
    {
        match no_new_privs() {
            Ok(()) => Ok(()),
            Err(e) => Err(InitError::NoNewPrivs(e)),
        }
    }

    /// The steps of the setup that follow the chroot, in this order: user and group ids,
    /// supplementary groups, resource limits, no new privileges, capabilities.
    pub fn setup(&self) -> (r: Result<(), InitError>)
        requires
            unique_resources(self.rlimits@),
        ensures
            !(r matches Err(InitError::Rlimit(RLimitError::Unsupported(_)))),
            r matches Err(InitError::Rlimit(RLimitError::Os(res, _))) ==> exists|i: int|
                0 <= i < self.rlimits@.len() && (#[trigger] self.rlimits@[i]).0 == res,
            r matches Err(InitError::Caps(PrivilegeError::DropBounding(c, _))) ==> !self.capabilities@.contains(c),
    {
        self.set_ids()?;
        self.set_groups()?;
        if let Err(e) = set_rlimits(&self.rlimits) {
            return Err(InitError::Rlimit(e));
        }
        Self::set_no_new_privs()?;
        match drop_privileges(&self.capabilities) {
            Ok(()) => Ok(()),
            Err(e) => Err(InitError::Caps(e)),
        }
    }
}

} // verus!
