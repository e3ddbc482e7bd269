use northstar::init::{id_steps, IdStep, Init, Mount, MountStep};
use northstar::launch;
use northstar::launch::{
    decimal_bytes, exec_env, has_unique_keys, gids_of, groups, init_argv, seccomp_filter, EnvVar, LaunchError,
    Manifest, Seccomp,
};
use northstar::nonnul::NonNulString;
use northstar::privileges::{bounding_drops, from_caps, keeps, known, privilege_plan, Cap};
use northstar::rlimits::{bounds, has_unique_resources, limit_request, RLimitResource, RLimitValue};

fn s(x: &str) -> NonNulString {
    NonNulString::from_str(x).unwrap()
}

fn kv(k: &str, v: &str) -> EnvVar {
    EnvVar { key: s(k), value: s(v) }
}

fn texts(v: &[NonNulString]) -> Vec<String> {
    v.iter().map(|x| String::from_utf8(x.to_vec()).unwrap()).collect()
}

fn manifest() -> Manifest {
    Manifest {
        name: s("hello"),
        version: s("0.0.1"),
        init: Some(s("/hello")),
        args: Some(vec![s("--from-manifest")]),
        env: Some(vec![kv("A", "manifest"), kv("B", "manifest")]),
        suppl_groups: None,
        seccomp: None,
    }
}

#[test]
fn per_call_args_replace_manifest_args() {
    let m = manifest();
    let call = vec![s("--from-call"), s("x")];
    let (init, argv) = init_argv(&m, Some(&call)).unwrap();
    assert_eq!(init.as_bytes(), &b"/hello".to_vec());
    assert_eq!(texts(&argv), vec!["/hello", "--from-call", "x"]);
    let (_, argv) = init_argv(&m, None).unwrap();
    assert_eq!(texts(&argv), vec!["/hello", "--from-manifest"]);
    let mut bare = manifest();
    bare.args = None;
    let (_, argv) = init_argv(&bare, None).unwrap();
    assert_eq!(texts(&argv), vec!["/hello"]);
}

#[test]
fn resource_container_has_no_init() {
    let mut m = manifest();
    m.init = None;
    assert!(matches!(init_argv(&m, None), Err(LaunchError::NoInit)));
}

#[test]
fn per_call_env_wins_per_key() {
    let m = manifest();
    let call = vec![kv("B", "call"), kv("C", "call")];
    let e = launch::env(&m, Some(&call));
    assert_eq!(
        texts(&e),
        vec![
            "NORTHSTAR_NAME=hello",
            "NORTHSTAR_VERSION=0.0.1",
            "A=manifest",
            "B=call",
            "C=call"
        ]
    );
    let e = launch::env(&m, None);
    assert_eq!(
        texts(&e),
        vec!["NORTHSTAR_NAME=hello", "NORTHSTAR_VERSION=0.0.1", "A=manifest", "B=manifest"]
    );
}

#[test]
fn console_descriptor_is_announced() {
    let e = exec_env(vec![s("A=b")], Some(17));
    assert_eq!(texts(&e), vec!["A=b", "NORTHSTAR_CONSOLE=17"]);
    let e = exec_env(vec![s("A=b")], None);
    assert_eq!(texts(&e), vec!["A=b"]);
}

#[test]
fn decimal_rendering() {
    assert_eq!(decimal_bytes(0), b"0".to_vec());
    assert_eq!(decimal_bytes(9), b"9".to_vec());
    assert_eq!(decimal_bytes(10), b"10".to_vec());
    assert_eq!(decimal_bytes(4294967295), b"4294967295".to_vec());
}

#[test]
fn seccomp_list_follows_manifest() {
    let mut m = manifest();
    assert!(seccomp_filter(&m).is_none());
    m.seccomp = Some(Seccomp { allow: vec!["read".to_string(), "write".to_string()] });
    let a = seccomp_filter(&m).unwrap();
    assert_eq!(a.syscalls, vec!["read".to_string(), "write".to_string()]);
}

#[test]
fn group_lookups_skip_unknown_names() {
    assert_eq!(gids_of(&vec![Some(5), None, Some(0)]), vec![5, 0]);
    assert_eq!(gids_of(&vec![]), Vec::<u32>::new());
    let mut m = manifest();
    assert!(groups(&m).is_empty());
    m.suppl_groups = Some(vec!["no-such-group-anywhere".to_string()]);
    assert!(groups(&m).is_empty());
}

#[test]
fn bounding_drops_keep_only_outside() {
    let bounding = vec![Cap::CAP_CHOWN, Cap::CAP_NET_BIND_SERVICE, Cap::CAP_SYS_ADMIN, Cap::CAP_KILL];
    let keep = vec![Cap::CAP_NET_BIND_SERVICE];
    assert_eq!(
        bounding_drops(&bounding, &keep),
        vec![Cap::CAP_CHOWN, Cap::CAP_SYS_ADMIN, Cap::CAP_KILL]
    );
    assert_eq!(bounding_drops(&bounding, &bounding), vec![]);
    assert!(keeps(&keep, Cap::CAP_NET_BIND_SERVICE));
    assert!(!keeps(&keep, Cap::CAP_SYS_ADMIN));
}

#[test]
fn capability_conversion_keeps_kernel_numbers() {
    for c in [Cap::CAP_CHOWN, Cap::CAP_SYS_ADMIN, Cap::CAP_NET_BIND_SERVICE, Cap::CAP_CHECKPOINT_RESTORE] {
        let k: caps::Capability = c.into();
        assert_eq!(from_caps(k), Some(c));
    }
    let k: caps::Capability = Cap::CAP_SYS_ADMIN.into();
    assert_eq!(k.index(), 21);
    let k: caps::Capability = Cap::CAP_NET_BIND_SERVICE.into();
    assert_eq!(k.index(), 10);
}

#[test]
fn unspecified_rlimit_is_infinity() {
    let inf = u64::MAX;
    assert_eq!(bounds(&RLimitValue { soft: None, hard: None }, inf), (inf, inf));
    assert_eq!(bounds(&RLimitValue { soft: Some(10), hard: None }, inf), (10, inf));
    assert_eq!(bounds(&RLimitValue { soft: None, hard: Some(20) }, inf), (inf, 20));
    assert_eq!(bounds(&RLimitValue { soft: Some(1), hard: Some(2) }, inf), (1, 2));
    assert_eq!(RLimitResource::NOFILE.name(), "RLIMIT_NOFILE");
    assert_eq!(RLimitResource::RTTIME.name(), "RLIMIT_RTTIME");
}

#[test]
fn mount_error_message_is_prerendered() {
    let flags = nix::mount::MsFlags::MS_RDONLY.bits() | nix::mount::MsFlags::MS_NOSUID.bits();
    let m = Mount::new(
        Some("proc".to_string()),
        "/proc".to_string(),
        Some("proc".to_string()),
        flags,
        None,
    );
    let f = format!("{:?}", nix::mount::MsFlags::from_bits_retain(flags));
    assert_eq!(
        m.error_msg,
        format!("failed to mount 'proc' of type 'proc' on '/proc' with flags '{}' and data ''", f)
    );
    assert_eq!(m.flags, flags);
}

fn descriptor(netns: Option<String>, mounts: Vec<Mount>) -> Init {
    Init {
        container: "hello:0.0.1".to_string(),
        root: "/".to_string(),
        uid: 1000,
        gid: 1000,
        mounts,
        groups: vec![],
        netns,
        capabilities: vec![],
        rlimits: vec![],
        seccomp: None,
        console: false,
    }
}

#[test]
fn netns_path_names_the_namespace() {
    let i = descriptor(Some("ghost".to_string()), vec![]);
    assert_eq!(i.netns_path(), Some("/var/run/netns/ghost".to_string()));
    assert_eq!(descriptor(None, vec![]).netns_path(), None);
}

#[test]
fn failed_mount_reports_its_message() {
    let bad = Mount::new(None, "/no/such/target/anywhere".to_string(), Some("no-such-fs".to_string()), 0, None);
    let msg = bad.error_msg.clone();
    let i = descriptor(None, vec![bad]);
    assert_eq!(i.mount(), Err(msg));
    assert_eq!(descriptor(None, vec![]).mount(), Ok(()));
}

#[test]
fn no_new_privs_is_set() {
    assert!(Init::set_no_new_privs().is_ok());
    assert_eq!(nix::sys::prctl::get_no_new_privs(), Ok(true));
}

#[test]
fn error_text_is_rendered_from_its_parts() {
    let m = northstar::init::render_error(
        &None,
        &"/dev".to_string(),
        &Some("tmpfs".to_string()),
        "MS_NOSUID",
        &Some("mode=755".to_string()),
    );
    assert_eq!(m, "failed to mount '' of type 'tmpfs' on '/dev' with flags 'MS_NOSUID' and data 'mode=755'");
}

#[test]
fn id_steps_depend_on_root() {
    assert_eq!(
        id_steps(0),
        vec![IdStep::KeepCapsOn, IdStep::SetGid, IdStep::SetUid, IdStep::RaiseEffective, IdStep::KeepCapsOff]
    );
    assert_eq!(id_steps(1000), vec![IdStep::SetGid, IdStep::SetUid]);
}

#[test]
fn mount_steps_stop_at_first_failure() {
    let a = Mount::new(None, "/a".to_string(), None, 0, None);
    let b = Mount::new(None, "/b".to_string(), None, 0, None);
    let msg_a = a.error_msg.clone();
    let i = descriptor(None, vec![a, b]);
    assert!(matches!(i.after_mount(0, true), MountStep::Next));
    assert!(matches!(i.after_mount(1, true), MountStep::Done));
    assert!(matches!(i.after_mount(0, false), MountStep::Abort(ref m) if *m == msg_a));
}

#[test]
fn privilege_plan_drops_outside_keep() {
    let bounding = vec![
        caps::Capability::CAP_CHOWN,
        caps::Capability::CAP_NET_BIND_SERVICE,
        caps::Capability::CAP_SYS_ADMIN,
    ];
    assert_eq!(known(&bounding), vec![Cap::CAP_CHOWN, Cap::CAP_NET_BIND_SERVICE, Cap::CAP_SYS_ADMIN]);
    let plan = privilege_plan(&bounding, &vec![Cap::CAP_NET_BIND_SERVICE]);
    assert_eq!(plan.drop_bounding, vec![Cap::CAP_CHOWN, Cap::CAP_SYS_ADMIN]);
    assert_eq!(plan.keep, vec![caps::Capability::CAP_NET_BIND_SERVICE]);
}

#[test]
fn limit_requests_are_exact() {
    let e = (RLimitResource::NOFILE, RLimitValue { soft: Some(64), hard: None });
    assert_eq!(limit_request(&e, u64::MAX), ("RLIMIT_NOFILE", 64, u64::MAX));
    let twice = vec![e, (RLimitResource::NOFILE, RLimitValue { soft: None, hard: None })];
    assert!(!has_unique_resources(&twice));
    assert!(has_unique_resources(&vec![e, (RLimitResource::CORE, RLimitValue { soft: None, hard: None })]));
}

#[test]
fn env_keys_must_be_unique() {
    assert!(has_unique_keys(&vec![kv("A", "1"), kv("B", "2")]));
    assert!(!has_unique_keys(&vec![kv("A", "1"), kv("A", "2")]));
    assert!(has_unique_keys(&vec![]));
}
