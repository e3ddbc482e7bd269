//! What the launcher computes before it clones init: the argument vector, the
//! environment, the supplementary groups and the seccomp allow-list.

use crate::nonnul::{extend_bytes, no_nul, NonNulString};
use vstd::prelude::*;

verus! {

/// A key/value pair of the environment.
pub struct EnvVar {
    pub key: NonNulString,
    pub value: NonNulString,
}

impl View for EnvVar {
    type V = (Seq<u8>, Seq<u8>);

    open spec fn view(&self) -> (Seq<u8>, Seq<u8>) {
        (self.key@, self.value@)
    }
}

/// A seccomp allow-list: the system calls that the application may make.
pub struct AllowList {
    pub syscalls: Vec<String>,
}

/// The seccomp section of a manifest.
pub struct Seccomp {
    pub allow: Vec<String>,
}

/// The fields of a container manifest that the launcher consumes.
pub struct Manifest {
    pub name: NonNulString,
    pub version: NonNulString,
    /// The binary to execute; a resource container has none.
    pub init: Option<NonNulString>,
    pub args: Option<Vec<NonNulString>>,
    pub env: Option<Vec<EnvVar>>,
    pub suppl_groups: Option<Vec<String>>,
    pub seccomp: Option<Seccomp>,
}

/// Why a container cannot be launched.
#[derive(Clone, Copy, Debug, PartialEq, Eq, Structural)]
pub enum LaunchError {
    /// The container is a resource container and has no init.
    NoInit,
}

/// The views of a sequence of strings.
pub open spec fn strs(v: Seq<NonNulString>) -> Seq<Seq<u8>> {
    v.map_values(|s: NonNulString| s@)
}

/// The views of a sequence of key/value pairs.
pub open spec fn pairs(v: Seq<EnvVar>) -> Seq<(Seq<u8>, Seq<u8>)> {
    v.map_values(|e: EnvVar| e@)
}

/// The argument vector: the init path, then the per-call arguments if given, else those of
/// the manifest, else nothing.
pub open spec fn spec_argv(
    init: Seq<u8>,
    manifest: Option<Seq<Seq<u8>>>,
    call: Option<Seq<Seq<u8>>>,
) -> Seq<Seq<u8>> {
    seq![init] + match call {
        Some(a) => a,
        None => match manifest {
            Some(m) => m,
            None => Seq::empty(),
        },
    }
}

/// `key=value`.
pub open spec fn env_entry(key: Seq<u8>, value: Seq<u8>) -> Seq<u8> {
    key + seq![61u8] + value
}

/// The variable that names the container.
pub open spec fn name_var() -> Seq<u8> {
    seq![78u8, 79, 82, 84, 72, 83, 84, 65, 82, 95, 78, 65, 77, 69]
}

/// The variable that holds the container's version.
pub open spec fn version_var() -> Seq<u8> {
    seq![78u8, 79, 82, 84, 72, 83, 84, 65, 82, 95, 86, 69, 82, 83, 73, 79, 78]
}

/// The variable that holds the console's descriptor number.
pub open spec fn console_var() -> Seq<u8> {
    seq![78u8, 79, 82, 84, 72, 83, 84, 65, 82, 95, 67, 79, 78, 83, 79, 76, 69]
}

/// One of the pairs has key `key`.
pub open spec fn has_key(c: Seq<(Seq<u8>, Seq<u8>)>, key: Seq<u8>) -> bool {
    exists|i: int| 0 <= i < c.len() && (#[trigger] c[i]).0 == key
}

/// No two pairs have the same key: a map from key to value.
pub open spec fn unique_keys(c: Seq<(Seq<u8>, Seq<u8>)>) -> bool {
    forall|i: int, j: int|
        0 <= i < c.len() && 0 <= j < c.len() && i != j ==> (#[trigger] c[i]).0 != (#[trigger] c[j]).0
}

/// No two entries of `v` have the same key.
pub fn has_unique_keys(v: &Vec<EnvVar>) -> (r: bool)
    ensures
        r == unique_keys(pairs(v@)),
{
    let ghost c = pairs(v@);
    let mut i: usize = 0;
    while i < v.len()
        invariant
            c == pairs(v@),
            0 <= i <= v@.len(),
            forall|a: int, b: int|
                0 <= a < i && 0 <= b < c.len() && a != b ==> (#[trigger] c[a]).0 != (#[trigger] c[b]).0,
        decreases v@.len() - i,
    {
        let mut j: usize = 0;
        while j < v.len()
            invariant
                c == pairs(v@),
                0 <= i < v@.len(),
                0 <= j <= v@.len(),
                forall|a: int, b: int|
                    0 <= a < i && 0 <= b < c.len() && a != b ==> (#[trigger] c[a]).0 != (#[trigger] c[b]).0,
                forall|b: int| 0 <= b < j && b != i ==> c[i as int].0 != (#[trigger] c[b]).0,
            decreases v@.len() - j,
        {
            assert(c[i as int] == v@[i as int]@ && c[j as int] == v@[j as int]@);
            if j != i && v[i].key.same(&v[j].key) {
                return false;
            }
            j = j + 1;
        }
        i = i + 1;
    }
    true
}

/// The per-call environment sets `key`.
pub open spec fn overridden(call: Option<Seq<(Seq<u8>, Seq<u8>)>>, key: Seq<u8>) -> bool {
    match call {
        Some(c) => has_key(c, key),
        None => false,
    }
}

/// The pairs of the manifest that the per-call environment leaves in place.
pub open spec fn kept_by(call: Option<Seq<(Seq<u8>, Seq<u8>)>>) -> spec_fn(
    (Seq<u8>, Seq<u8>),
) -> bool {
    |kv: (Seq<u8>, Seq<u8>)| !overridden(call, kv.0)
}

/// The entries of the manifest's environment whose key the call does not set, in order.
pub open spec fn kept_entries(
    m: Seq<(Seq<u8>, Seq<u8>)>,
    call: Option<Seq<(Seq<u8>, Seq<u8>)>>,
) -> Seq<Seq<u8>>
    decreases m.len(),
{
    if m.len() == 0 {
        Seq::empty()
    } else {
        let last = m.last();
        kept_entries(m.drop_last(), call) + if overridden(call, last.0) {
            Seq::<Seq<u8>>::empty()
        } else {
            seq![env_entry(last.0, last.1)]
        }
    }
}

/// The entries of a list of pairs, in order.
pub open spec fn entries(c: Seq<(Seq<u8>, Seq<u8>)>) -> Seq<Seq<u8>> {
    c.map_values(|kv: (Seq<u8>, Seq<u8>)| env_entry(kv.0, kv.1))
}

/// The environment of the application: name, version, the manifest's entries that the
/// call does not override, then all of the call's entries.
pub open spec fn spec_env(
    name: Seq<u8>,
    version: Seq<u8>,
    manifest: Option<Seq<(Seq<u8>, Seq<u8>)>>,
    call: Option<Seq<(Seq<u8>, Seq<u8>)>>,
) -> Seq<Seq<u8>> {
    seq![env_entry(name_var(), name), env_entry(version_var(), version)] + match manifest {
        Some(m) => kept_entries(m, call),
        None => Seq::empty(),
    } + match call {
        Some(c) => entries(c),
        None => Seq::empty(),
    }
}

/// The decimal digits of `n`, most significant first.
pub open spec fn decimal(n: nat) -> Seq<u8>
    decreases n,
{
    if n < 10 {
        seq![(48 + n) as u8]
    } else {
        decimal(n / 10) + seq![(48 + n % 10) as u8]
    }
}

fn name_var_bytes() -> (r: Vec<u8>)
    ensures
        r@ == name_var(),
{
    let r = vec![78u8, 79u8, 82u8, 84u8, 72u8, 83u8, 84u8, 65u8, 82u8, 95u8, 78u8, 65u8, 77u8, 69u8];
    assert(r@ =~= name_var());
    r
}

fn version_var_bytes() -> (r: Vec<u8>)
    ensures
        r@ == version_var(),
{
    let r = vec![
        78u8, 79u8, 82u8, 84u8, 72u8, 83u8, 84u8, 65u8, 82u8, 95u8, 86u8, 69u8, 82u8, 83u8, 73u8,
        79u8, 78u8,
    ];
    assert(r@ =~= version_var());
    r
}

fn console_var_bytes() -> (r: Vec<u8>)
    ensures
        r@ == console_var(),
{
    let r = vec![
        78u8, 79u8, 82u8, 84u8, 72u8, 83u8, 84u8, 65u8, 82u8, 95u8, 67u8, 79u8, 78u8, 83u8, 79u8,
        76u8, 69u8,
    ];
    assert(r@ =~= console_var());
    r
}

/// `key=value` as a string without NUL.
fn entry_of(key: &Vec<u8>, value: &Vec<u8>) -> (r: NonNulString)
    requires
        no_nul(key@),
        no_nul(value@),
    ensures
        r@ == env_entry(key@, value@),
{
    let mut b: Vec<u8> = Vec::new();
    extend_bytes(&mut b, key);
    b.push(61u8);
    extend_bytes(&mut b, value);
    assert(b@ =~= env_entry(key@, value@));
    NonNulString::from_vec(b)
}

/// The decimal rendering of `n`.
pub fn decimal_bytes(n: u32) -> (r: Vec<u8>)
    ensures
        r@ == decimal(n as nat),
        no_nul(r@),
{
    let mut rest: u32 = n;
    let mut suffix: Vec<u8> = Vec::new();
    while rest >= 10
        invariant
            decimal(n as nat) == decimal(rest as nat) + suffix@,
            forall|j: int| 0 <= j < suffix@.len() ==> 48 <= #[trigger] suffix@[j] <= 57,
        decreases rest,
    {
        let d: u8 = (48 + rest % 10) as u8;
        suffix.insert(0, d);
        assert(decimal(rest as nat) == decimal((rest / 10) as nat) + seq![d]);
        rest = rest / 10;
        assert(decimal(n as nat) =~= decimal(rest as nat) + suffix@);
    }
    let mut r: Vec<u8> = Vec::new();
    r.push((48 + rest) as u8);
    extend_bytes(&mut r, &suffix);
    assert(decimal(rest as nat) == seq![(48 + rest) as u8]);
    assert(r@ =~= decimal(n as nat));
    r
}

/// Construct the init path and the argument vector for the container's `execve`.
/// Per-call arguments replace those of the manifest; `argv[0]` is the init path.
pub fn init_argv(manifest: &Manifest, args: Option<&Vec<NonNulString>>) -> (r: Result<
    (NonNulString, Vec<NonNulString>),
    LaunchError,
>)
    ensures
        r is Err <==> manifest.init is None,
        r matches Err(e) ==> e == LaunchError::NoInit,
        r matches Ok((init, argv)) ==> {
            &&& manifest.init matches Some(i) && init@ == i@
            &&& strs(argv@) == spec_argv(
                init@,
                match manifest.args {
                    Some(m) => Some(strs(m@)),
                    None => None,
                },
                match args {
                    Some(a) => Some(strs(a@)),
                    None => None,
                },
            )
        },
{
    let init = match &manifest.init {
        Some(i) => i.duplicate(),
        None => {
            return Err(LaunchError::NoInit);
        },
    };
    let chosen: Option<&Vec<NonNulString>> = match args {
        Some(a) => Some(a),
        None => match &manifest.args {
            Some(m) => Some(m),
            None => None,
        },
    };
    let mut argv: Vec<NonNulString> = Vec::new();
    argv.push(init.duplicate());
    let ghost expected: Seq<Seq<u8>> = match chosen {
        Some(c) => strs(c@),
        None => Seq::empty(),
    };
    if let Some(c) = chosen {
        let mut i: usize = 0;
        while i < c.len()
            invariant
                0 <= i <= c@.len(),
                expected == strs(c@),
                strs(argv@) == seq![init@] + strs(c@).subrange(0, i as int),
            decreases c@.len() - i,
        {
            let ghost before = argv@;
            let x = c[i].duplicate();
            argv.push(x);
            proof {
                lemma_strs_push(before, x);
                assert(strs(c@).subrange(0, i + 1) =~= strs(c@).subrange(0, i as int).push(x@));
            }
            i = i + 1;
            assert(strs(argv@) =~= seq![init@] + strs(c@).subrange(0, i as int));
        }
        assert(strs(c@).subrange(0, c@.len() as int) =~= strs(c@));
    } else {
        assert(strs(argv@) =~= seq![init@] + expected);
    }
    Ok((init, argv))
}

proof fn lemma_strs_push(v: Seq<NonNulString>, x: NonNulString)
    ensures
        strs(v.push(x)) == strs(v).push(x@),
{
    assert(strs(v.push(x)) =~= strs(v).push(x@));
}

/// The call's environment sets `key`.
fn sets_key(call: &Vec<EnvVar>, key: &NonNulString) -> (r: bool)
    ensures
        r == has_key(pairs(call@), key@),
{
    let mut i: usize = 0;
    while i < call.len()
        invariant
            0 <= i <= call@.len(),
            forall|j: int| 0 <= j < i ==> call@[j].key@ != key@,
        decreases call@.len() - i,
    {
        if call[i].key.same(key) {
            proof {
                let c = pairs(call@);
                assert(c[i as int].0 == key@);
                assert(exists|j: int| 0 <= j < c.len() && (#[trigger] c[j]).0 == key@);
            }
            return true;
        }
        i = i + 1;
    }
    assert forall|j: int| 0 <= j < pairs(call@).len() implies (#[trigger] pairs(call@)[j]).0
        != key@ by {
        assert(pairs(call@)[j] == call@[j]@);
    }
    false
}

/// Construct the environment for the container's `execve`: name and version, the entries of
/// the manifest whose key the call does not set, then every entry of the call.
pub fn env(manifest: &Manifest, call_env: Option<&Vec<EnvVar>>) -> (r: Vec<NonNulString>)
    requires
        manifest.env matches Some(m) ==> unique_keys(pairs(m@)),
        call_env matches Some(c) ==> unique_keys(pairs(c@)),
    ensures
        strs(r@) == spec_env(
            manifest.name@,
            manifest.version@,
            match manifest.env {
                Some(m) => Some(pairs(m@)),
                None => None,
            },
            match call_env {
                Some(c) => Some(pairs(c@)),
                None => None,
            },
        ),
{
    let ghost call: Option<Seq<(Seq<u8>, Seq<u8>)>> = match call_env {
        Some(c) => Some(pairs(c@)),
        None => None,
    };
    let mut result: Vec<NonNulString> = Vec::new();
    result.push(entry_of(&name_var_bytes(), manifest.name.as_bytes()));
    result.push(entry_of(&version_var_bytes(), manifest.version.as_bytes()));
    let ghost head = strs(result@);
    assert(head =~= seq![
        env_entry(name_var(), manifest.name@),
        env_entry(version_var(), manifest.version@),
    ]);
    if let Some(m) = &manifest.env {
        let mut i: usize = 0;
        while i < m.len()
            invariant
                0 <= i <= m@.len(),
                call == match call_env {
                    Some(c) => Some(pairs(c@)),
                    None => None::<Seq<(Seq<u8>, Seq<u8>)>>,
                },
                strs(result@) == head + kept_entries(pairs(m@).subrange(0, i as int), call),
            decreases m@.len() - i,
        {
            let e = &m[i];
            let skip = match call_env {
                Some(c) => sets_key(c, &e.key),
                None => false,
            };
            let ghost before = result@;
            if !skip {
                let x = entry_of(e.key.as_bytes(), e.value.as_bytes());
                result.push(x);
                proof {
                    lemma_strs_push(before, x);
                }
            }
            proof {
                let p = pairs(m@).subrange(0, i + 1);
                assert(p.drop_last() =~= pairs(m@).subrange(0, i as int));
                assert(p.last() == e@);
            }
            i = i + 1;
            assert(strs(result@) =~= head + kept_entries(pairs(m@).subrange(0, i as int), call));
        }
        assert(pairs(m@).subrange(0, m@.len() as int) =~= pairs(m@));
    }
    let ghost mid = strs(result@);
    if let Some(c) = call_env {
        let mut i: usize = 0;
        while i < c.len()
            invariant
                0 <= i <= c@.len(),
                strs(result@) == mid + entries(pairs(c@).subrange(0, i as int)),
            decreases c@.len() - i,
        {
            let ghost before = result@;
            let x = entry_of(c[i].key.as_bytes(), c[i].value.as_bytes());
            result.push(x);
            proof {
                lemma_strs_push(before, x);
                let q = pairs(c@);
                assert(entries(q.subrange(0, i + 1)) =~= entries(q.subrange(0, i as int)).push(x@));
            }
            i = i + 1;
            assert(strs(result@) =~= mid + entries(pairs(c@).subrange(0, i as int)));
        }
        assert(pairs(c@).subrange(0, c@.len() as int) =~= pairs(c@));
    } else {
        assert(strs(result@) =~= mid + Seq::<Seq<u8>>::empty());
    }
    result
}

/// The environment handed to the application: `env`, then, when init holds a console
/// descriptor, `NORTHSTAR_CONSOLE=<fd>`.
pub fn exec_env(env: Vec<NonNulString>, console: Option<u32>) -> (r: Vec<NonNulString>)
    ensures
        strs(r@) == strs(env@) + match console {
            Some(fd) => seq![env_entry(console_var(), decimal(fd as nat))],
            None => Seq::<Seq<u8>>::empty(),
        },
{
    let mut env = env;
    let ghost before = strs(env@);
    match console {
        Some(fd) => {
            env.push(entry_of(&console_var_bytes(), &decimal_bytes(fd)));
            assert(strs(env@) =~= before + seq![env_entry(console_var(), decimal(fd as nat))]);
        },
        None => {
            assert(strs(env@) =~= before + Seq::<Seq<u8>>::empty());
        },
    }
    env
}

/// Generate the seccomp allow-list applied in init, when the manifest asks for one.
pub fn seccomp_filter(manifest: &Manifest) -> (r: Option<AllowList>)
    ensures
        r is Some <==> manifest.seccomp is Some,
        r matches Some(a) ==> manifest.seccomp matches Some(s) && a.syscalls@ == s.allow@,
{
    match &manifest.seccomp {
        Some(s) => {
            let mut syscalls: Vec<String> = Vec::new();
            let mut i: usize = 0;
            while i < s.allow.len()
                invariant
                    0 <= i <= s.allow@.len(),
                    syscalls@ == s.allow@.subrange(0, i as int),
                decreases s.allow@.len() - i,
            {
                syscalls.push(s.allow[i].clone());
                i = i + 1;
                assert(syscalls@ =~= s.allow@.subrange(0, i as int));
            }
            assert(s.allow@.subrange(0, s.allow@.len() as int) =~= s.allow@);
            Some(AllowList { syscalls })
        },
        None => None,
    }
}

/// Relies on nix::unistd::Group::from_name: the id of the group named `name` in the group
/// database, if it has one.
#[verifier::external_body]
fn lookup_group(name: &str) -> (r: Option<u32>) {
    nix::unistd::Group::from_name(name).ok().flatten().map(|g| g.gid.as_raw())
}

/// The ids that the lookups found, in order, skipping the names without one.
pub open spec fn found_gids(lookups: Seq<Option<u32>>) -> Seq<u32>
    decreases lookups.len(),
{
    if lookups.len() == 0 {
        Seq::empty()
    } else {
        found_gids(lookups.drop_last()) + match lookups.last() {
            Some(g) => seq![g],
            None => Seq::empty(),
        }
    }
}

/// The group ids of `lookups` that were found, in order.
pub fn gids_of(lookups: &Vec<Option<u32>>) -> (r: Vec<u32>)
    ensures
        r@ == found_gids(lookups@),
        r@.len() <= lookups@.len(),
{
    let mut r: Vec<u32> = Vec::new();
    let mut i: usize = 0;
    while i < lookups.len()
        invariant
            0 <= i <= lookups@.len(),
            r@ == found_gids(lookups@.subrange(0, i as int)),
            r@.len() <= i,
        decreases lookups@.len() - i,
    {
        proof {
            let t = lookups@.subrange(0, i + 1);
            assert(t.drop_last() =~= lookups@.subrange(0, i as int));
            assert(t.last() == lookups@[i as int]);
        }
        if let Some(g) = lookups[i] {
            r.push(g);
        }
        i = i + 1;
        assert(r@ =~= found_gids(lookups@.subrange(0, i as int)));
    }
    assert(lookups@.subrange(0, lookups@.len() as int) =~= lookups@);
    r
}

/// The ids of the manifest's supplementary groups that the group database knows, in order;
/// the others are skipped. This must run before the clone: inside the container the database
/// is out of reach.
pub fn groups(manifest: &Manifest) -> (r: Vec<u32>)
    ensures
        manifest.suppl_groups is None ==> r@.len() == 0,
        manifest.suppl_groups matches Some(g) ==> r@.len() <= g@.len(),
{
    match &manifest.suppl_groups {
        Some(names) => {
            let mut lookups: Vec<Option<u32>> = Vec::new();
            let mut i: usize = 0;
            while i < names.len()
                invariant
                    0 <= i <= names@.len(),
                    lookups@.len() == i,
                decreases names@.len() - i,
            {
                lookups.push(lookup_group(names[i].as_str()));
                i = i + 1;
            }
            gids_of(&lookups)
        },
        None => Vec::new(),
    }
}

/// Per-call arguments win over those of the manifest.
pub proof fn lemma_call_args_win(init: Seq<u8>, manifest: Seq<Seq<u8>>, call: Seq<Seq<u8>>)
    ensures
        spec_argv(init, Some(manifest), Some(call)) == seq![init] + call,
{
}

/// Per-call environment wins per key: no entry of the manifest whose key the call sets is
/// kept, every other entry of the manifest is, and every entry of the call follows them.
pub proof fn lemma_call_env_wins(
    name: Seq<u8>,
    version: Seq<u8>,
    manifest: Seq<(Seq<u8>, Seq<u8>)>,
    call: Seq<(Seq<u8>, Seq<u8>)>,
)
    ensures
        ({
            let r = spec_env(name, version, Some(manifest), Some(call));
            let k = kept_entries(manifest, Some(call));
            &&& r == seq![env_entry(name_var(), name), env_entry(version_var(), version)] + k
                + entries(call)
            &&& forall|i: int|
                0 <= i < k.len() ==> exists|j: int|
                    0 <= j < manifest.len() && !overridden(Some(call), (#[trigger] manifest[j]).0)
                        && #[trigger] k[i] == env_entry(manifest[j].0, manifest[j].1)
            &&& k.len() == manifest.filter(kept_by(Some(call))).len()
        }),
{
    lemma_kept_from_manifest(manifest, Some(call));
}

/// Each kept entry comes from a pair of the manifest that the call does not override, and
/// as many are kept as pairs are not overridden.
proof fn lemma_kept_from_manifest(
    m: Seq<(Seq<u8>, Seq<u8>)>,
    call: Option<Seq<(Seq<u8>, Seq<u8>)>>,
)
    ensures
        forall|i: int|
            0 <= i < kept_entries(m, call).len() ==> exists|j: int|
                0 <= j < m.len() && !overridden(call, (#[trigger] m[j]).0) && #[trigger] kept_entries(
                    m,
                    call,
                )[i] == env_entry(m[j].0, m[j].1),
        kept_entries(m, call).len() == m.filter(kept_by(call)).len(),
    decreases m.len(),
{
    let pred = kept_by(call);
    if m.len() == 0 {
        assert(m.filter(pred) =~= Seq::<(Seq<u8>, Seq<u8>)>::empty()) by {
            reveal(Seq::filter);
        }
    } else {
        let p = m.drop_last();
        lemma_kept_from_manifest(p, call);
        assert(m.filter(pred) == if pred(m.last()) {
            p.filter(pred).push(m.last())
        } else {
            p.filter(pred)
        }) by {
            reveal(Seq::filter);
        }
        let kp = kept_entries(p, call);
        let k = kept_entries(m, call);
        let tail = if overridden(call, m.last().0) {
            Seq::<Seq<u8>>::empty()
        } else {
            seq![env_entry(m.last().0, m.last().1)]
        };
        assert(k == kp + tail);
        assert forall|i: int| 0 <= i < k.len() implies exists|j: int|
            0 <= j < m.len() && !overridden(call, (#[trigger] m[j]).0) && #[trigger] k[i]
                == env_entry(m[j].0, m[j].1) by {
            if i < kp.len() {
                assert(k[i] == kp[i]);
                let j = choose|j: int|
                    0 <= j < p.len() && !overridden(call, (#[trigger] p[j]).0) && #[trigger] kp[i]
                        == env_entry(p[j].0, p[j].1);
                assert(m[j] == p[j]);
            } else {
                let j = m.len() - 1;
                assert(m[j] == m.last());
                assert(tail.len() == 1);
                assert(k[i] == tail[0]);
            }
        }
    }
}

} // verus!
