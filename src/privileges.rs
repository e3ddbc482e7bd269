//! Linux capabilities and the pruning of a process's capability sets to a keep-set.

use vstd::prelude::*;

verus! {

/// The capabilities of the `caps` crate, variants visible.
#[verifier::external_type_specification]
pub struct ExCapability(caps::Capability);

/// The capability sets of the `caps` crate, variants visible.
#[verifier::external_type_specification]
pub struct ExCapSet(caps::CapSet);

/// The error of the `caps` crate, opaque.
#[verifier::external_type_specification]
#[verifier::external_body]
pub struct ExCapsError(caps::errors::CapsError);

/// A Linux capability, in kernel order.
#[allow(non_camel_case_types)]
#[derive(Clone, Copy, Debug, PartialEq, Eq, Structural, Hash)]
pub enum Cap {
    CAP_CHOWN,
    CAP_DAC_OVERRIDE,
    CAP_DAC_READ_SEARCH,
    CAP_FOWNER,
    CAP_FSETID,
    CAP_KILL,
    CAP_SETGID,
    CAP_SETUID,
    CAP_SETPCAP,
    CAP_LINUX_IMMUTABLE,
    CAP_NET_BIND_SERVICE,
    CAP_NET_BROADCAST,
    CAP_NET_ADMIN,
    CAP_NET_RAW,
    CAP_IPC_LOCK,
    CAP_IPC_OWNER,
    CAP_SYS_MODULE,
    CAP_SYS_RAWIO,
    CAP_SYS_CHROOT,
    CAP_SYS_PTRACE,
    CAP_SYS_PACCT,
    CAP_SYS_ADMIN,
    CAP_SYS_BOOT,
    CAP_SYS_NICE,
    CAP_SYS_RESOURCE,
    CAP_SYS_TIME,
    CAP_SYS_TTY_CONFIG,
    CAP_MKNOD,
    CAP_LEASE,
    CAP_AUDIT_WRITE,
    CAP_AUDIT_CONTROL,
    CAP_SETFCAP,
    CAP_MAC_OVERRIDE,
    CAP_MAC_ADMIN,
    CAP_SYSLOG,
    CAP_WAKE_ALARM,
    CAP_BLOCK_SUSPEND,
    CAP_AUDIT_READ,
    CAP_PERFMON,
    CAP_BPF,
    CAP_CHECKPOINT_RESTORE,
}

/// The capability of the `caps` crate that stands for `c`.
pub open spec fn caps_of(c: Cap) -> caps::Capability {
    match c {
        Cap::CAP_CHOWN => caps::Capability::CAP_CHOWN,
        Cap::CAP_DAC_OVERRIDE => caps::Capability::CAP_DAC_OVERRIDE,
        Cap::CAP_DAC_READ_SEARCH => caps::Capability::CAP_DAC_READ_SEARCH,
        Cap::CAP_FOWNER => caps::Capability::CAP_FOWNER,
        Cap::CAP_FSETID => caps::Capability::CAP_FSETID,
        Cap::CAP_KILL => caps::Capability::CAP_KILL,
        Cap::CAP_SETGID => caps::Capability::CAP_SETGID,
        Cap::CAP_SETUID => caps::Capability::CAP_SETUID,
        Cap::CAP_SETPCAP => caps::Capability::CAP_SETPCAP,
        Cap::CAP_LINUX_IMMUTABLE => caps::Capability::CAP_LINUX_IMMUTABLE,
        Cap::CAP_NET_BIND_SERVICE => caps::Capability::CAP_NET_BIND_SERVICE,
        Cap::CAP_NET_BROADCAST => caps::Capability::CAP_NET_BROADCAST,
        Cap::CAP_NET_ADMIN => caps::Capability::CAP_NET_ADMIN,
        Cap::CAP_NET_RAW => caps::Capability::CAP_NET_RAW,
        Cap::CAP_IPC_LOCK => caps::Capability::CAP_IPC_LOCK,
        Cap::CAP_IPC_OWNER => caps::Capability::CAP_IPC_OWNER,
        Cap::CAP_SYS_MODULE => caps::Capability::CAP_SYS_MODULE,
        Cap::CAP_SYS_RAWIO => caps::Capability::CAP_SYS_RAWIO,
        Cap::CAP_SYS_CHROOT => caps::Capability::CAP_SYS_CHROOT,
        Cap::CAP_SYS_PTRACE => caps::Capability::CAP_SYS_PTRACE,
        Cap::CAP_SYS_PACCT => caps::Capability::CAP_SYS_PACCT,
        Cap::CAP_SYS_ADMIN => caps::Capability::CAP_SYS_ADMIN,
        Cap::CAP_SYS_BOOT => caps::Capability::CAP_SYS_BOOT,
        Cap::CAP_SYS_NICE => caps::Capability::CAP_SYS_NICE,
        Cap::CAP_SYS_RESOURCE => caps::Capability::CAP_SYS_RESOURCE,
        Cap::CAP_SYS_TIME => caps::Capability::CAP_SYS_TIME,
        Cap::CAP_SYS_TTY_CONFIG => caps::Capability::CAP_SYS_TTY_CONFIG,
        Cap::CAP_MKNOD => caps::Capability::CAP_MKNOD,
        Cap::CAP_LEASE => caps::Capability::CAP_LEASE,
        Cap::CAP_AUDIT_WRITE => caps::Capability::CAP_AUDIT_WRITE,
        Cap::CAP_AUDIT_CONTROL => caps::Capability::CAP_AUDIT_CONTROL,
        Cap::CAP_SETFCAP => caps::Capability::CAP_SETFCAP,
        Cap::CAP_MAC_OVERRIDE => caps::Capability::CAP_MAC_OVERRIDE,
        Cap::CAP_MAC_ADMIN => caps::Capability::CAP_MAC_ADMIN,
        Cap::CAP_SYSLOG => caps::Capability::CAP_SYSLOG,
        Cap::CAP_WAKE_ALARM => caps::Capability::CAP_WAKE_ALARM,
        Cap::CAP_BLOCK_SUSPEND => caps::Capability::CAP_BLOCK_SUSPEND,
        Cap::CAP_AUDIT_READ => caps::Capability::CAP_AUDIT_READ,
        Cap::CAP_PERFMON => caps::Capability::CAP_PERFMON,
        Cap::CAP_BPF => caps::Capability::CAP_BPF,
        Cap::CAP_CHECKPOINT_RESTORE => caps::Capability::CAP_CHECKPOINT_RESTORE,
    }
}

impl From<Cap> for caps::Capability {
    fn from(cap: Cap) -> (r: caps::Capability)
        ensures
            r == caps_of(cap),
    {
        match cap {
            Cap::CAP_CHOWN => caps::Capability::CAP_CHOWN,
            Cap::CAP_DAC_OVERRIDE => caps::Capability::CAP_DAC_OVERRIDE,
            Cap::CAP_DAC_READ_SEARCH => caps::Capability::CAP_DAC_READ_SEARCH,
            Cap::CAP_FOWNER => caps::Capability::CAP_FOWNER,
            Cap::CAP_FSETID => caps::Capability::CAP_FSETID,
            Cap::CAP_KILL => caps::Capability::CAP_KILL,
            Cap::CAP_SETGID => caps::Capability::CAP_SETGID,
            Cap::CAP_SETUID => caps::Capability::CAP_SETUID,
            Cap::CAP_SETPCAP => caps::Capability::CAP_SETPCAP,
            Cap::CAP_LINUX_IMMUTABLE => caps::Capability::CAP_LINUX_IMMUTABLE,
            Cap::CAP_NET_BIND_SERVICE => caps::Capability::CAP_NET_BIND_SERVICE,
            Cap::CAP_NET_BROADCAST => caps::Capability::CAP_NET_BROADCAST,
            Cap::CAP_NET_ADMIN => caps::Capability::CAP_NET_ADMIN,
            Cap::CAP_NET_RAW => caps::Capability::CAP_NET_RAW,
            Cap::CAP_IPC_LOCK => caps::Capability::CAP_IPC_LOCK,
            Cap::CAP_IPC_OWNER => caps::Capability::CAP_IPC_OWNER,
            Cap::CAP_SYS_MODULE => caps::Capability::CAP_SYS_MODULE,
            Cap::CAP_SYS_RAWIO => caps::Capability::CAP_SYS_RAWIO,
            Cap::CAP_SYS_CHROOT => caps::Capability::CAP_SYS_CHROOT,
            Cap::CAP_SYS_PTRACE => caps::Capability::CAP_SYS_PTRACE,
            Cap::CAP_SYS_PACCT => caps::Capability::CAP_SYS_PACCT,
            Cap::CAP_SYS_ADMIN => caps::Capability::CAP_SYS_ADMIN,
            Cap::CAP_SYS_BOOT => caps::Capability::CAP_SYS_BOOT,
            Cap::CAP_SYS_NICE => caps::Capability::CAP_SYS_NICE,
            Cap::CAP_SYS_RESOURCE => caps::Capability::CAP_SYS_RESOURCE,
            Cap::CAP_SYS_TIME => caps::Capability::CAP_SYS_TIME,
            Cap::CAP_SYS_TTY_CONFIG => caps::Capability::CAP_SYS_TTY_CONFIG,
            Cap::CAP_MKNOD => caps::Capability::CAP_MKNOD,
            Cap::CAP_LEASE => caps::Capability::CAP_LEASE,
            Cap::CAP_AUDIT_WRITE => caps::Capability::CAP_AUDIT_WRITE,
            Cap::CAP_AUDIT_CONTROL => caps::Capability::CAP_AUDIT_CONTROL,
            Cap::CAP_SETFCAP => caps::Capability::CAP_SETFCAP,
            Cap::CAP_MAC_OVERRIDE => caps::Capability::CAP_MAC_OVERRIDE,
            Cap::CAP_MAC_ADMIN => caps::Capability::CAP_MAC_ADMIN,
            Cap::CAP_SYSLOG => caps::Capability::CAP_SYSLOG,
            Cap::CAP_WAKE_ALARM => caps::Capability::CAP_WAKE_ALARM,
            Cap::CAP_BLOCK_SUSPEND => caps::Capability::CAP_BLOCK_SUSPEND,
            Cap::CAP_AUDIT_READ => caps::Capability::CAP_AUDIT_READ,
            Cap::CAP_PERFMON => caps::Capability::CAP_PERFMON,
            Cap::CAP_BPF => caps::Capability::CAP_BPF,
            Cap::CAP_CHECKPOINT_RESTORE => caps::Capability::CAP_CHECKPOINT_RESTORE,
        }
    }
}

impl vstd::std_specs::convert::FromSpecImpl<Cap> for caps::Capability {
    open spec fn obeys_from_spec() -> bool {
        true
    }

    open spec fn from_spec(cap: Cap) -> caps::Capability {
        caps_of(cap)
    }
}

/// The capability of this library that stands for `c`, if any.
pub fn from_caps(c: caps::Capability) -> (r: Option<Cap>)
    ensures
        r matches Some(x) ==> caps_of(x) == c,
        forall|x: Cap| caps_of(x) == c ==> r == Some(x),
{
    match c {
        caps::Capability::CAP_CHOWN => Some(Cap::CAP_CHOWN),
        caps::Capability::CAP_DAC_OVERRIDE => Some(Cap::CAP_DAC_OVERRIDE),
        caps::Capability::CAP_DAC_READ_SEARCH => Some(Cap::CAP_DAC_READ_SEARCH),
        caps::Capability::CAP_FOWNER => Some(Cap::CAP_FOWNER),
        caps::Capability::CAP_FSETID => Some(Cap::CAP_FSETID),
        caps::Capability::CAP_KILL => Some(Cap::CAP_KILL),
        caps::Capability::CAP_SETGID => Some(Cap::CAP_SETGID),
        caps::Capability::CAP_SETUID => Some(Cap::CAP_SETUID),
        caps::Capability::CAP_SETPCAP => Some(Cap::CAP_SETPCAP),
        caps::Capability::CAP_LINUX_IMMUTABLE => Some(Cap::CAP_LINUX_IMMUTABLE),
        caps::Capability::CAP_NET_BIND_SERVICE => Some(Cap::CAP_NET_BIND_SERVICE),
        caps::Capability::CAP_NET_BROADCAST => Some(Cap::CAP_NET_BROADCAST),
        caps::Capability::CAP_NET_ADMIN => Some(Cap::CAP_NET_ADMIN),
        caps::Capability::CAP_NET_RAW => Some(Cap::CAP_NET_RAW),
        caps::Capability::CAP_IPC_LOCK => Some(Cap::CAP_IPC_LOCK),
        caps::Capability::CAP_IPC_OWNER => Some(Cap::CAP_IPC_OWNER),
        caps::Capability::CAP_SYS_MODULE => Some(Cap::CAP_SYS_MODULE),
        caps::Capability::CAP_SYS_RAWIO => Some(Cap::CAP_SYS_RAWIO),
        caps::Capability::CAP_SYS_CHROOT => Some(Cap::CAP_SYS_CHROOT),
        caps::Capability::CAP_SYS_PTRACE => Some(Cap::CAP_SYS_PTRACE),
        caps::Capability::CAP_SYS_PACCT => Some(Cap::CAP_SYS_PACCT),
        caps::Capability::CAP_SYS_ADMIN => Some(Cap::CAP_SYS_ADMIN),
        caps::Capability::CAP_SYS_BOOT => Some(Cap::CAP_SYS_BOOT),
        caps::Capability::CAP_SYS_NICE => Some(Cap::CAP_SYS_NICE),
        caps::Capability::CAP_SYS_RESOURCE => Some(Cap::CAP_SYS_RESOURCE),
        caps::Capability::CAP_SYS_TIME => Some(Cap::CAP_SYS_TIME),
        caps::Capability::CAP_SYS_TTY_CONFIG => Some(Cap::CAP_SYS_TTY_CONFIG),
        caps::Capability::CAP_MKNOD => Some(Cap::CAP_MKNOD),
        caps::Capability::CAP_LEASE => Some(Cap::CAP_LEASE),
        caps::Capability::CAP_AUDIT_WRITE => Some(Cap::CAP_AUDIT_WRITE),
        caps::Capability::CAP_AUDIT_CONTROL => Some(Cap::CAP_AUDIT_CONTROL),
        caps::Capability::CAP_SETFCAP => Some(Cap::CAP_SETFCAP),
        caps::Capability::CAP_MAC_OVERRIDE => Some(Cap::CAP_MAC_OVERRIDE),
        caps::Capability::CAP_MAC_ADMIN => Some(Cap::CAP_MAC_ADMIN),
        caps::Capability::CAP_SYSLOG => Some(Cap::CAP_SYSLOG),
        caps::Capability::CAP_WAKE_ALARM => Some(Cap::CAP_WAKE_ALARM),
        caps::Capability::CAP_BLOCK_SUSPEND => Some(Cap::CAP_BLOCK_SUSPEND),
        caps::Capability::CAP_AUDIT_READ => Some(Cap::CAP_AUDIT_READ),
        caps::Capability::CAP_PERFMON => Some(Cap::CAP_PERFMON),
        caps::Capability::CAP_BPF => Some(Cap::CAP_BPF),
        caps::Capability::CAP_CHECKPOINT_RESTORE => Some(Cap::CAP_CHECKPOINT_RESTORE),
        caps::Capability::__Nonexhaustive => None,
    }
}

/// The capabilities of `bounding` that are not in `keep`, in order.
pub open spec fn spec_drops(bounding: Seq<Cap>, keep: Seq<Cap>) -> Seq<Cap> {
    bounding.filter(outside(keep))
}

/// Not in `keep`.
pub open spec fn outside(keep: Seq<Cap>) -> spec_fn(Cap) -> bool {
    |c: Cap| !keep.contains(c)
}

/// `keep` holds `c`.
pub fn keeps(keep: &Vec<Cap>, c: Cap) -> (r: bool)
    ensures
        r == keep@.contains(c),
{
    let mut i: usize = 0;
    while i < keep.len()
        invariant
            0 <= i <= keep@.len(),
            forall|j: int| 0 <= j < i ==> keep@[j] != c,
        decreases keep@.len() - i,
    {
        if keep[i] == c {
            assert(keep@[i as int] == c);
            return true;
        }
        i = i + 1;
    }
    false
}

/// The capabilities to drop from the bounding set: those of `bounding` outside `keep`.
pub fn bounding_drops(bounding: &Vec<Cap>, keep: &Vec<Cap>) -> (r: Vec<Cap>)
    ensures
        r@ == spec_drops(bounding@, keep@),
{
    let mut r: Vec<Cap> = Vec::new();
    let mut i: usize = 0;
    assert(bounding@.subrange(0, 0).filter(outside(keep@)) =~= Seq::<Cap>::empty()) by {
        reveal(Seq::filter);
    }
    while i < bounding.len()
        invariant
            0 <= i <= bounding@.len(),
            r@ == bounding@.subrange(0, i as int).filter(outside(keep@)),
        decreases bounding@.len() - i,
    {
        let c = bounding[i];
        let k = keeps(keep, c);
        proof {
            let t = bounding@.subrange(0, i + 1);
            assert(t.drop_last() =~= bounding@.subrange(0, i as int));
            assert(t.last() == c);
            reveal(Seq::filter);
        }
        if !k {
            r.push(c);
        }
        i = i + 1;
    }
    assert(bounding@.subrange(0, bounding@.len() as int) =~= bounding@);
    r
}

/// Once the bounding set has lost `spec_drops(bounding, keep)` and the effective, permitted,
/// inheritable and ambient sets have been written with `keep`, a capability outside `keep` is
/// in none of the five sets.
pub proof fn lemma_pruned_sets_within_keep(
    bounding: Seq<Cap>,
    keep: Seq<Cap>,
    c: Cap,
)
    requires
        !keep.contains(c),
    ensures
        !bounding.to_set().difference(spec_drops(bounding, keep).to_set()).contains(c),
        !keep.to_set().contains(c),
{
    if bounding.contains(c) {
        let i = choose|i: int| 0 <= i < bounding.len() && bounding[i] == c;
        bounding.lemma_filter_contains(outside(keep), i);
    }
}

/// Relies on caps::read: the capabilities in the current thread's bounding set.
#[verifier::external_body]
fn read_bounding() -> (r: Result<Vec<caps::Capability>, caps::errors::CapsError>) {
    caps::read(None, caps::CapSet::Bounding).map(|s| s.into_iter().collect())
}

/// Relies on caps::drop: removes `cap` from the current thread's set `set`.
#[verifier::external_body]
fn drop_cap(set: caps::CapSet, cap: caps::Capability) -> (r: Result<(), caps::errors::CapsError>) {
    caps::drop(None, set, cap)
}

/// Relies on caps::set: writes `value` as the current thread's set `set`.
#[verifier::external_body]
fn set_caps(set: caps::CapSet, value: &Vec<caps::Capability>) -> (r: Result<
    (),
    caps::errors::CapsError,
>) {
    caps::set(None, set, &value.iter().copied().collect())
}

/// Relies on caps::all: every capability that the `caps` crate knows, which lists each of
/// the capabilities here.
#[verifier::external_body]
fn all_caps() -> (r: Vec<caps::Capability>)
    ensures
        forall|x: Cap| r@.contains(#[trigger] caps_of(x)),
{
    caps::all().into_iter().collect()
}

/// The capability of this library that stands for `c`, if any.
pub open spec fn cap_of(c: caps::Capability) -> Option<Cap> {
    if exists|x: Cap| caps_of(x) == c {
        Some(choose|x: Cap| caps_of(x) == c)
    } else {
        None
    }
}

/// The capabilities of `c` that this library knows, in order.
pub open spec fn known_caps(c: Seq<caps::Capability>) -> Seq<Cap>
    decreases c.len(),
{
    if c.len() == 0 {
        Seq::empty()
    } else {
        known_caps(c.drop_last()) + match cap_of(c.last()) {
            Some(x) => seq![x],
            None => Seq::empty(),
        }
    }
}

/// `known_caps` keeps exactly the capabilities that stand for an entry of `c`.
pub proof fn lemma_known_caps(c: Seq<caps::Capability>)
    ensures
        forall|x: Cap| #[trigger] known_caps(c).contains(x) <==> c.contains(caps_of(x)),
    decreases c.len(),
{
    if c.len() > 0 {
        let p = c.drop_last();
        lemma_known_caps(p);
        let tail = match cap_of(c.last()) {
            Some(x) => seq![x],
            None => Seq::<Cap>::empty(),
        };
        assert(known_caps(c) == known_caps(p) + tail);
        assert forall|x: Cap| #[trigger] known_caps(c).contains(x) <==> c.contains(caps_of(x)) by {
            assert(known_caps(p).contains(x) <==> p.contains(caps_of(x)));
            if known_caps(c).contains(x) {
                let i = choose|i: int| 0 <= i < known_caps(c).len() && known_caps(c)[i] == x;
                if i < known_caps(p).len() {
                    assert(known_caps(p)[i] == x);
                    assert(known_caps(p).contains(x));
                    let j = choose|j: int| 0 <= j < p.len() && p[j] == caps_of(x);
                    assert(c[j] == caps_of(x));
                } else {
                    assert(tail[i - known_caps(p).len()] == x);
                    assert(c[c.len() - 1] == caps_of(x));
                }
            }
            if c.contains(caps_of(x)) {
                let j = choose|j: int| 0 <= j < c.len() && c[j] == caps_of(x);
                if j < c.len() - 1 {
                    assert(p[j] == caps_of(x));
                    assert(p.contains(caps_of(x)));
                    let i = choose|i: int| 0 <= i < known_caps(p).len() && known_caps(p)[i] == x;
                    assert(known_caps(c)[i] == x);
                } else {
                    assert(c.last() == caps_of(x));
                    let y = choose|y: Cap| caps_of(y) == c.last();
                    assert(caps_of(y) == caps_of(x));
                    assert(y == x);
                    assert(known_caps(c)[known_caps(p).len() as int] == x);
                }
            }
        }
    }
}

/// The capabilities of `c` that this library knows, in order.
pub fn known(c: &Vec<caps::Capability>) -> (r: Vec<Cap>)
    ensures
        r@ == known_caps(c@),
{
    let mut r: Vec<Cap> = Vec::new();
    let mut i: usize = 0;
    while i < c.len()
        invariant
            0 <= i <= c@.len(),
            r@ == known_caps(c@.subrange(0, i as int)),
        decreases c@.len() - i,
    {
        let x = from_caps(c[i]);
        proof {
            let t = c@.subrange(0, i + 1);
            assert(t.drop_last() =~= c@.subrange(0, i as int));
            assert(t.last() == c@[i as int]);
            assert(x == cap_of(c@[i as int]));
        }
        if let Some(x) = x {
            r.push(x);
        }
        i = i + 1;
        assert(r@ =~= known_caps(c@.subrange(0, i as int)));
    }
    assert(c@.subrange(0, c@.len() as int) =~= c@);
    r
}

/// The capabilities of the `caps` crate that stand for `l`, in order.
fn to_caps(l: &Vec<Cap>) -> (r: Vec<caps::Capability>)
    ensures
        r@ == l@.map_values(|c: Cap| caps_of(c)),
{
    let mut r: Vec<caps::Capability> = Vec::new();
    let mut i: usize = 0;
    while i < l.len()
        invariant
            0 <= i <= l@.len(),
            r@ == l@.subrange(0, i as int).map_values(|c: Cap| caps_of(c)),
        decreases l@.len() - i,
    {
        r.push(caps::Capability::from(l[i]));
        i = i + 1;
        assert(r@ =~= l@.subrange(0, i as int).map_values(|c: Cap| caps_of(c)));
    }
    assert(l@.subrange(0, l@.len() as int) =~= l@);
    r
}

/// What init does to its capability sets: drop `drop_bounding` from the bounding set, then
/// write `keep` into the effective, permitted, inheritable and ambient sets.
pub struct CapPlan {
    pub drop_bounding: Vec<Cap>,
    pub keep: Vec<caps::Capability>,
}

/// The plan for a thread whose bounding set holds `bounding` and that keeps `keep`: drop
/// every known capability of the bounding set outside `keep`, and write `keep` into the
/// four other sets.
pub fn privilege_plan(bounding: &Vec<caps::Capability>, keep: &Vec<Cap>) -> (p: CapPlan)
    ensures
        p.drop_bounding@ == spec_drops(known_caps(bounding@), keep@),
        p.keep@ == keep@.map_values(|c: Cap| caps_of(c)),
{
    let known = known(bounding);
    CapPlan { drop_bounding: bounding_drops(&known, keep), keep: to_caps(keep) }
}

/// Carried out, the plan of `privilege_plan(bounding, keep)` leaves the bounding set as the
/// old one intersected with `keep`, drops every capability of the old bounding set that is
/// outside `keep`, and leaves no capability outside `keep` in any of the five sets.
pub proof fn lemma_plan_prunes(bounding: Seq<caps::Capability>, keep: Seq<Cap>)
    ensures
        ({
            let old_set = known_caps(bounding).to_set();
            let drops = spec_drops(known_caps(bounding), keep).to_set();
            &&& old_set.difference(drops) == old_set.intersect(keep.to_set())
            &&& forall|x: Cap|
                bounding.contains(caps_of(x)) && !keep.contains(x) ==> #[trigger] drops.contains(x)
            &&& forall|x: Cap|
                !keep.contains(x) ==> !#[trigger] old_set.difference(drops).contains(x)
                    && !keep.to_set().contains(x)
        }),
{
    let k = known_caps(bounding);
    lemma_known_caps(bounding);
    let old_set = k.to_set();
    let d = spec_drops(k, keep);
    assert forall|x: Cap| #[trigger] d.contains(x) <==> (k.contains(x) && !keep.contains(x)) by {
        if d.contains(x) {
            k.lemma_filter_contains_rev(outside(keep), x);
            let i = choose|i: int| 0 <= i < d.len() && d[i] == x;
            k.lemma_filter_pred(outside(keep), i);
        }
        if k.contains(x) && !keep.contains(x) {
            let i = choose|i: int| 0 <= i < k.len() && k[i] == x;
            k.lemma_filter_contains(outside(keep), i);
        }
    }
    assert(old_set.difference(d.to_set()) =~= old_set.intersect(keep.to_set()));
    assert forall|x: Cap| bounding.contains(caps_of(x)) && !keep.contains(x) implies #[trigger] d.to_set().contains(x) by {
        assert(k.contains(x));
    }
    assert forall|x: Cap| !keep.contains(x) implies !#[trigger] old_set.difference(d.to_set()).contains(x)
        && !keep.to_set().contains(x) by {
        lemma_pruned_sets_within_keep(k, keep, x);
    }
}

/// Shrink the capability sets of the current thread: drop from the bounding set every
/// capability outside `keep`, then write `keep` into the effective, permitted, inheritable
/// and ambient sets.
pub fn drop_privileges(keep: &Vec<Cap>) -> (r: Result<(), PrivilegeError>)
    ensures
        r matches Err(PrivilegeError::DropBounding(c, _)) ==> !keep@.contains(c),
{
    let bounding = match read_bounding() {
        Ok(b) => b,
        Err(e) => {
            return Err(PrivilegeError::ReadBounding(e));
        },
    };
    let plan = privilege_plan(&bounding, keep);
    let drops = &plan.drop_bounding;
    let ghost k = known_caps(bounding@);
    let mut i: usize = 0;
    while i < drops.len()
        invariant
            0 <= i <= drops@.len(),
            drops@ == spec_drops(k, keep@),
        decreases drops@.len() - i,
    {
        if let Err(e) = drop_cap(caps::CapSet::Bounding, caps::Capability::from(drops[i])) {
            proof {
                k.lemma_filter_pred(outside(keep@), i as int);
            }
            return Err(PrivilegeError::DropBounding(drops[i], e));
        }
        i = i + 1;
    }
    let set = &plan.keep;
    if let Err(e) = set_caps(caps::CapSet::Effective, set) {
        return Err(PrivilegeError::Write(e));
    }
    if let Err(e) = set_caps(caps::CapSet::Permitted, set) {
        return Err(PrivilegeError::Write(e));
    }
    if let Err(e) = set_caps(caps::CapSet::Inheritable, set) {
        return Err(PrivilegeError::Write(e));
    }
    match set_caps(caps::CapSet::Ambient, set) {
        Ok(()) => Ok(()),
        Err(e) => Err(PrivilegeError::Write(e)),
    }
}

/// Raise every capability into the effective set, as far as the permitted set allows.
pub fn reset_effective_caps() -> (r: Result<(), PrivilegeError>)
    ensures
        r matches Err(e) ==> e is Write,
{
    match set_caps(caps::CapSet::Effective, &all_caps()) {
        Ok(()) => Ok(()),
        Err(e) => Err(PrivilegeError::Write(e)),
    }
}

/// Why the capability sets could not be changed.
#[derive(Debug)]
pub enum PrivilegeError {
    /// Reading the bounding set failed.
    ReadBounding(caps::errors::CapsError),
    /// Dropping this capability from the bounding set failed.
    DropBounding(Cap, caps::errors::CapsError),
    /// Writing a capability set failed.
    Write(caps::errors::CapsError),
    /// Setting or clearing keep-caps failed.
    KeepCaps(caps::errors::CapsError),
}

} // verus!
