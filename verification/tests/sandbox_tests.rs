use dns_test::Error;
use dns_test::addr::Ipv4Addr;
use dns_test::commands::{build_args, cp_args, exec_args, inspect_args, rm_args, run_args};
use dns_test::output::ExitStatus;
use dns_test::profile::{Implementation, image_tag};
use dns_test::sandbox::{
    ContainerCounter, SandboxInternals, container_count, container_name, run_to_id,
};

fn argv(parts: &[&str]) -> Vec<String> {
    parts.iter().map(|p| p.to_string()).collect()
}

#[test]
fn image_tags_are_deterministic() {
    assert_eq!(image_tag(&Implementation::Unbound), "dns-test-unbound");
    assert_eq!(image_tag(&Implementation::Hickory), "dns-test-hickory");
    assert_eq!(image_tag(&Implementation::Bind), "dns-test-bind");
}

#[test]
fn container_names_compose_tool_profile_pid_and_counter() {
    assert_eq!(container_name(&Implementation::Unbound, 42, 0), "dns-test-unbound-42-0");
    assert_eq!(container_name(&Implementation::Bind, 1234, 17), "dns-test-bind-1234-17");
}

#[test]
fn counter_values_never_repeat() {
    let mut counter = ContainerCounter::new();
    let a = container_count(&mut counter);
    let b = container_count(&mut counter);
    let c = container_count(&mut counter);
    assert_eq!(a, 0);
    assert_eq!(b, 1);
    assert_eq!(c, 2);
    let n1 = container_name(&Implementation::Unbound, 42, a as u64);
    let n2 = container_name(&Implementation::Unbound, 42, b as u64);
    assert_ne!(n1, n2);
}

#[test]
fn command_lines_are_exactly_the_engine_operations() {
    assert_eq!(
        build_args("dns-test-unbound", "/tmp/ctx"),
        argv(&["docker", "build", "-t", "dns-test-unbound", "/tmp/ctx"])
    );
    assert_eq!(
        run_args("dns-test-unbound-42-0", "dns-test-unbound"),
        argv(&[
            "docker",
            "run",
            "--rm",
            "--detach",
            "--name",
            "dns-test-unbound-42-0",
            "-it",
            "dns-test-unbound",
            "sleep",
            "infinity",
        ])
    );
    assert_eq!(
        exec_args("c0ffee", &argv(&["cat", "/tmp/somefile"])),
        argv(&["docker", "exec", "-t", "c0ffee", "cat", "/tmp/somefile"])
    );
    assert_eq!(
        cp_args("/tmp/host", "c0ffee:/tmp/somefile"),
        argv(&["docker", "cp", "/tmp/host", "c0ffee:/tmp/somefile"])
    );
    assert_eq!(
        inspect_args("c0ffee"),
        argv(&[
            "docker",
            "inspect",
            "-f",
            "{{range.NetworkSettings.Networks}}{{.IPAddress}}{{end}}",
            "c0ffee",
        ])
    );
    assert_eq!(rm_args("c0ffee"), argv(&["docker", "rm", "-f", "c0ffee"]));
}

#[test]
fn internals_scope_operations_to_the_sandbox() {
    let s = SandboxInternals::new(
        "c0ffee".to_string(),
        "dns-test-unbound-42-0".to_string(),
        Ipv4Addr { o0: 172, o1: 17, o2: 0, o3: 2 },
    );
    assert_eq!(s.ipv4_addr(), Ipv4Addr { o0: 172, o1: 17, o2: 0, o3: 2 });
    assert_eq!(
        s.exec_args(&argv(&["true"])),
        argv(&["docker", "exec", "-t", "c0ffee", "true"])
    );
    assert_eq!(s.cp_dest("/tmp/somefile"), "c0ffee:/tmp/somefile");
    assert_eq!(s.chmod_rw_args("/tmp/somefile"), argv(&["chmod", "666", "/tmp/somefile"]));
    assert_eq!(s.rm_args(), argv(&["docker", "rm", "-f", "c0ffee"]));
}

#[test]
fn run_to_id_takes_the_trimmed_identifier() {
    let a = argv(&["docker", "run"]);
    let id = run_to_id(&a, ExitStatus::new(Some(0)), b"deadbeef\n".to_vec(), Vec::new())
        .unwrap();
    assert_eq!(id, "deadbeef");
}

#[test]
fn run_to_id_propagates_launch_failures() {
    let a = argv(&["docker", "run"]);
    let r = run_to_id(&a, ExitStatus::new(Some(125)), b"".to_vec(), b"boom\n".to_vec());
    match r {
        Err(Error::NonZeroExit { message, stdout, stderr }) => {
            assert_eq!(message, "`docker run` failed");
            assert_eq!(stdout, "");
            assert_eq!(stderr, "boom");
        }
        _ => panic!("expected a non-zero-exit error"),
    }
    let r = run_to_id(&a, ExitStatus::new(Some(0)), vec![0xff], Vec::new());
    assert!(matches!(r, Err(Error::Encoding)));
}
