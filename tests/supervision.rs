use abathur::supervisor::{api_socket_path, launch_plan, list_vm, plan_start, start_vm, vm_main, LaunchPlan};
use abathur::{Registry, StartVm, VmError, VmState};

fn t1() -> StartVm {
    StartVm {
        name: "t1".to_string(),
        kernel: "/img/k".to_string(),
        disks: vec!["/img/d1".to_string()],
        cpus: "2".to_string(),
        memory: "2048M".to_string(),
    }
}

fn named(name: &str) -> StartVm {
    let mut d = t1();
    d.name = name.to_string();
    d
}

fn is_uuid_text(s: &str) -> bool {
    s.len() == 36
        && s.chars().enumerate().all(|(i, c)| {
            if i == 8 || i == 13 || i == 18 || i == 23 {
                c == '-'
            } else {
                c.is_ascii_digit() || ('a'..='f').contains(&c)
            }
        })
}

fn plan(d: &StartVm) -> LaunchPlan {
    match plan_start(d) {
        Ok(p) => p,
        Err(e) => panic!("no plan: {:?}", e),
    }
}

#[test]
fn socket_path_is_scoped_to_identifier() {
    assert_eq!(api_socket_path("abc"), "/tmp/abathur/clh/abc.sock");
}

#[test]
fn launch_plan_builds_hypervisor_invocation() {
    let mut d = t1();
    d.disks.push("/img/d2".to_string());
    let p = launch_plan(&d, "g-1");
    assert_eq!(p.program, "cloud-hypervisor");
    assert_eq!(p.search_path, "/bin");
    assert_eq!(p.guid, "g-1");
    assert_eq!(p.api_socket, "/tmp/abathur/clh/g-1.sock");
    let expected: Vec<String> = [
        "--kernel",
        "/img/k",
        "--disk",
        "path=/img/d1",
        "--disk",
        "path=/img/d2",
        "--cpus",
        "boot=2",
        "--memory",
        "size=2048M",
        "--api-socket",
        "/tmp/abathur/clh/g-1.sock",
    ]
    .iter()
    .map(|s| s.to_string())
    .collect();
    assert_eq!(p.args, expected);
    assert_eq!(p.descriptor.name, "t1");
}

#[test]
fn plan_start_rejects_invalid_descriptor() {
    let mut d = t1();
    d.disks.clear();
    assert!(matches!(plan_start(&d), Err(VmError::InvalidDescriptor)));
    let mut d = t1();
    d.cpus = "0".to_string();
    assert!(matches!(plan_start(&d), Err(VmError::InvalidDescriptor)));
}

#[test]
fn plan_start_draws_fresh_identifiers() {
    let a = plan(&t1());
    let b = plan(&t1());
    assert!(is_uuid_text(&a.guid));
    assert!(is_uuid_text(&b.guid));
    assert_ne!(a.guid, b.guid);
    assert_eq!(a.api_socket, format!("/tmp/abathur/clh/{}.sock", a.guid));
    assert_eq!(a.args.last().unwrap(), &a.api_socket);
}

#[test]
fn start_then_list_shows_exactly_that_handle() {
    let mut reg: Registry<()> = Registry::new();
    let p = plan(&t1());
    let h = start_vm(&mut reg, p, Ok(())).unwrap();
    assert_eq!(h.state, VmState::Starting);
    assert_eq!(h.guid.len(), 36);
    assert_eq!(h.descriptor.name, "t1");
    assert_eq!(h.descriptor.kernel, "/img/k");
    assert_eq!(h.descriptor.disks, vec!["/img/d1".to_string()]);
    assert_eq!(h.descriptor.cpus, "2");
    assert_eq!(h.descriptor.memory, "2048M");
    let listed = list_vm(&reg);
    assert_eq!(listed.len(), 1);
    assert_eq!(listed[0].guid, h.guid);
    assert_eq!(listed[0].state, VmState::Starting);
    assert_eq!(listed[0].descriptor.name, "t1");
}

#[test]
fn failed_spawn_registers_nothing() {
    let mut reg: Registry<()> = Registry::new();
    let p = plan(&t1());
    let guid = p.guid.clone();
    match start_vm(&mut reg, p, Err("no such file".to_string())) {
        Err(VmError::SpawnFailed(cause)) => assert_eq!(cause, "no such file"),
        other => panic!("unexpected: {:?}", other.map(|h| h.guid)),
    }
    assert_eq!(reg.len(), 0);
    assert!(list_vm(&reg).is_empty());
    assert!(matches!(reg.lookup(&guid), Err(VmError::NotFound)));
}

#[test]
fn reused_identifier_is_refused() {
    let mut reg: Registry<u32> = Registry::new();
    let first = start_vm(&mut reg, launch_plan(&named("a"), "same"), Ok(1));
    assert!(first.is_ok());
    let second = start_vm(&mut reg, launch_plan(&named("b"), "same"), Ok(2));
    assert!(matches!(second, Err(VmError::DuplicateIdentifier)));
    let listed = list_vm(&reg);
    assert_eq!(listed.len(), 1);
    assert_eq!(listed[0].descriptor.name, "a");
    assert_eq!(reg.lookup("same").unwrap().io, 1);
}

#[test]
fn list_after_several_starts() {
    let mut reg: Registry<()> = Registry::new();
    let mut guids = Vec::new();
    for name in ["a", "b", "c"] {
        let h = start_vm(&mut reg, plan(&named(name)), Ok(())).unwrap();
        guids.push(h.guid);
    }
    let listed = list_vm(&reg);
    assert_eq!(listed.len(), 3);
    for (i, name) in ["a", "b", "c"].iter().enumerate() {
        assert_eq!(listed[i].guid, guids[i]);
        assert_eq!(listed[i].descriptor.name, *name);
    }
    let again = list_vm(&reg);
    let a: Vec<&String> = listed.iter().map(|h| &h.guid).collect();
    let b: Vec<&String> = again.iter().map(|h| &h.guid).collect();
    assert_eq!(a, b);
}

#[test]
fn two_starts_get_distinct_identifiers() {
    let mut reg: Registry<()> = Registry::new();
    let h1 = start_vm(&mut reg, plan(&named("x")), Ok(())).unwrap();
    let h2 = start_vm(&mut reg, plan(&named("y")), Ok(())).unwrap();
    assert_ne!(h1.guid, h2.guid);
    let listed = list_vm(&reg);
    assert!(listed.iter().any(|h| h.guid == h1.guid && h.descriptor.name == "x"));
    assert!(listed.iter().any(|h| h.guid == h2.guid && h.descriptor.name == "y"));
}

#[test]
fn clean_exit_is_recorded_as_stopped() {
    let mut reg: Registry<()> = Registry::new();
    let h = start_vm(&mut reg, plan(&t1()), Ok(())).unwrap();
    assert!(vm_main(&mut reg, &h.guid, true));
    assert_eq!(list_vm(&reg)[0].state, VmState::Stopped);
    assert!(!vm_main(&mut reg, &h.guid, false));
    assert_eq!(list_vm(&reg)[0].state, VmState::Stopped);
}

#[test]
fn abnormal_exit_is_recorded_as_failed() {
    let mut reg: Registry<()> = Registry::new();
    let h = start_vm(&mut reg, plan(&t1()), Ok(())).unwrap();
    assert!(reg.update_state(&h.guid, VmState::Running));
    assert!(vm_main(&mut reg, &h.guid, false));
    assert_eq!(list_vm(&reg)[0].state, VmState::Failed);
}

#[test]
fn exit_of_unknown_machine_changes_nothing() {
    let mut reg: Registry<()> = Registry::new();
    let h = start_vm(&mut reg, plan(&t1()), Ok(())).unwrap();
    assert!(!vm_main(&mut reg, "unknown", true));
    assert_eq!(list_vm(&reg)[0].state, VmState::Starting);
    assert_eq!(list_vm(&reg)[0].guid, h.guid);
}
