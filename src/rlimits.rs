//! Resource limits and their installation.

use vstd::prelude::*;

verus! {

/// A resource of the `rlimit` crate, opaque.
#[verifier::external_type_specification]
#[verifier::external_body]
pub struct ExResource(rlimit::Resource);

/// std's I/O error, opaque.
#[verifier::external_type_specification]
#[verifier::external_body]
pub struct ExIoError(std::io::Error);

/// A kind of resource that a limit applies to.
#[allow(clippy::upper_case_acronyms)]
#[derive(Clone, Copy, Debug, PartialEq, Eq, Structural, Hash)]
pub enum RLimitResource {
    AS,
    CORE,
    CPU,
    DATA,
    FSIZE,
    LOCKS,
    MEMLOCK,
    MSGQUEUE,
    NICE,
    NOFILE,
    NPROC,
    RSS,
    RTPRIO,
    RTTIME,
    SIGPENDING,
    STACK,
}

/// A limit: soft and hard bound, each unbounded when unspecified.
#[derive(Clone, Copy, Debug, PartialEq, Eq, Structural)]
pub struct RLimitValue {
    pub soft: Option<u64>,
    pub hard: Option<u64>,
}

/// The name of a resource, as `getrlimit(2)` spells it.
pub open spec fn resource_name(r: RLimitResource) -> Seq<char> {
    match r {
        RLimitResource::AS => "RLIMIT_AS"@,
        RLimitResource::CORE => "RLIMIT_CORE"@,
        RLimitResource::CPU => "RLIMIT_CPU"@,
        RLimitResource::DATA => "RLIMIT_DATA"@,
        RLimitResource::FSIZE => "RLIMIT_FSIZE"@,
        RLimitResource::LOCKS => "RLIMIT_LOCKS"@,
        RLimitResource::MEMLOCK => "RLIMIT_MEMLOCK"@,
        RLimitResource::MSGQUEUE => "RLIMIT_MSGQUEUE"@,
        RLimitResource::NICE => "RLIMIT_NICE"@,
        RLimitResource::NOFILE => "RLIMIT_NOFILE"@,
        RLimitResource::NPROC => "RLIMIT_NPROC"@,
        RLimitResource::RSS => "RLIMIT_RSS"@,
        RLimitResource::RTPRIO => "RLIMIT_RTPRIO"@,
        RLimitResource::RTTIME => "RLIMIT_RTTIME"@,
        RLimitResource::SIGPENDING => "RLIMIT_SIGPENDING"@,
        RLimitResource::STACK => "RLIMIT_STACK"@,
    }
}

impl RLimitResource {
    /// The name of this resource, as `getrlimit(2)` spells it.
    pub fn name(&self) -> (r: &'static str)
        ensures
            r@ == resource_name(*self),
    {
        match self {
            RLimitResource::AS => "RLIMIT_AS",
            RLimitResource::CORE => "RLIMIT_CORE",
            RLimitResource::CPU => "RLIMIT_CPU",
            RLimitResource::DATA => "RLIMIT_DATA",
            RLimitResource::FSIZE => "RLIMIT_FSIZE",
            RLimitResource::LOCKS => "RLIMIT_LOCKS",
            RLimitResource::MEMLOCK => "RLIMIT_MEMLOCK",
            RLimitResource::MSGQUEUE => "RLIMIT_MSGQUEUE",
            RLimitResource::NICE => "RLIMIT_NICE",
            RLimitResource::NOFILE => "RLIMIT_NOFILE",
            RLimitResource::NPROC => "RLIMIT_NPROC",
            RLimitResource::RSS => "RLIMIT_RSS",
            RLimitResource::RTPRIO => "RLIMIT_RTPRIO",
            RLimitResource::RTTIME => "RLIMIT_RTTIME",
            RLimitResource::SIGPENDING => "RLIMIT_SIGPENDING",
            RLimitResource::STACK => "RLIMIT_STACK",
        }
    }
}

/// The bounds installed for `v`: an unspecified bound becomes `infinity`.
pub open spec fn spec_bounds(v: RLimitValue, infinity: u64) -> (u64, u64) {
    (
        match v.soft {
            Some(s) => s,
            None => infinity,
        },
        match v.hard {
            Some(h) => h,
            None => infinity,
        },
    )
}

/// The soft and hard bound to install for `v`, with `infinity` for an unspecified one.
pub fn bounds(v: &RLimitValue, infinity: u64) -> (r: (u64, u64))
    ensures
        r == spec_bounds(*v, infinity),
{
    let soft = match v.soft {
        Some(s) => s,
        None => infinity,
    };
    let hard = match v.hard {
        Some(h) => h,
        None => infinity,
    };
    (soft, hard)
}

/// An unspecified bound is installed as infinity; a specified one as it is.
pub proof fn lemma_unspecified_is_infinity(v: RLimitValue, infinity: u64)
    ensures
        v.soft is None ==> spec_bounds(v, infinity).0 == infinity,
        v.hard is None ==> spec_bounds(v, infinity).1 == infinity,
        v.soft matches Some(s) ==> spec_bounds(v, infinity).0 == s,
        v.hard matches Some(h) ==> spec_bounds(v, infinity).1 == h,
{
}

/// Relies on rlimit::INFINITY: the value that stands for "no limit", libc's `RLIM_INFINITY`,
/// all ones on Linux.
#[verifier::external_body]
fn infinity() -> (r: u64)
    ensures
        r == u64::MAX,
{
    rlimit::INFINITY
}

/// The resource of the `rlimit` crate that is named `name`.
pub uninterp spec fn resource_named(name: Seq<char>) -> rlimit::Resource;

/// Relies on `FromStr` for rlimit::Resource: the resource of that name, if the crate knows it;
/// it knows every name that `RLimitResource::name` gives.
#[verifier::external_body]
fn resource_by_name(name: &str) -> (r: Option<rlimit::Resource>)
    ensures
        (exists|x: RLimitResource| resource_name(x) == name@) ==> r is Some,
        r matches Some(res) ==> res == resource_named(name@),
{
    name.parse().ok()
}

/// Relies on rlimit::Resource::set: installs `soft` and `hard` as limits of `resource`.
#[verifier::external_body]
fn set_limit(resource: rlimit::Resource, soft: u64, hard: u64) -> (r: Result<(), std::io::Error>) {
    resource.set(soft, hard)
}

/// Why a limit could not be installed.
#[derive(Debug)]
pub enum RLimitError {
    /// The platform does not know this resource.
    Unsupported(RLimitResource),
    /// `setrlimit` failed for this resource.
    Os(RLimitResource, std::io::Error),
}

/// What `setrlimit` receives for one entry: the resource's name and its two bounds, with
/// `infinity` for an unspecified one.
pub fn limit_request(entry: &(RLimitResource, RLimitValue), infinity: u64) -> (r: (
    &'static str,
    u64,
    u64,
))
    ensures
        r.0@ == resource_name(entry.0),
        (r.1, r.2) == spec_bounds(entry.1, infinity),
{
    let (soft, hard) = bounds(&entry.1, infinity);
    (entry.0.name(), soft, hard)
}

/// The resources of `limits` are pairwise distinct: a map from resource to limit.
pub open spec fn unique_resources(limits: Seq<(RLimitResource, RLimitValue)>) -> bool {
    forall|i: int, j: int|
        0 <= i < limits.len() && 0 <= j < limits.len() && i != j ==> (#[trigger] limits[i]).0
            != (#[trigger] limits[j]).0
}

/// The resources of `limits` are pairwise distinct.
pub fn has_unique_resources(limits: &Vec<(RLimitResource, RLimitValue)>) -> (r: bool)
    ensures
        r == unique_resources(limits@),
{
    let mut i: usize = 0;
    while i < limits.len()
        invariant
            0 <= i <= limits@.len(),
            forall|a: int, b: int|
                0 <= a < i && 0 <= b < limits@.len() && a != b ==> (#[trigger] limits@[a]).0
                    != (#[trigger] limits@[b]).0,
        decreases limits@.len() - i,
    {
        let mut j: usize = 0;
        while j < limits.len()
            invariant
                0 <= i < limits@.len(),
                0 <= j <= limits@.len(),
                forall|a: int, b: int|
                    0 <= a < i && 0 <= b < limits@.len() && a != b ==> (#[trigger] limits@[a]).0
                        != (#[trigger] limits@[b]).0,
                forall|b: int| 0 <= b < j && b != i ==> limits@[i as int].0 != (#[trigger] limits@[b]).0,
            decreases limits@.len() - j,
        {
            if j != i && limits[i].0 == limits[j].0 {
                return false;
            }
            j = j + 1;
        }
        i = i + 1;
    }
    true
}

/// Install every limit of `limits`, in order, with infinity for an unspecified bound: the
/// resource named `limit_request(limits[i], u64::MAX).0` gets the two bounds that follow.
pub fn set_rlimits(limits: &Vec<(RLimitResource, RLimitValue)>) -> (r: Result<(), RLimitError>)
    requires
        unique_resources(limits@),
    ensures
        !(r matches Err(RLimitError::Unsupported(_))),
        limits@.len() == 0 ==> r is Ok,
        r matches Err(RLimitError::Os(res, _)) ==> exists|i: int|
            0 <= i < limits@.len() && (#[trigger] limits@[i]).0 == res,
{
    let inf = infinity();
    let mut i: usize = 0;
    while i < limits.len()
        invariant
            0 <= i <= limits@.len(),
        decreases limits@.len() - i,
    {
        let resource = limits[i].0;
        let (name, soft, hard) = limit_request(&limits[i], inf);
        match resource_by_name(name) {
            Some(res) => match set_limit(res, soft, hard) {
                Ok(()) => {},
                Err(e) => {
                    assert(limits@[i as int].0 == resource);
                    return Err(RLimitError::Os(resource, e));
                },
            },
            None => {
                return Err(RLimitError::Unsupported(resource));
            },
        }
        i = i + 1;
    }
    Ok(())
}

} // verus!
