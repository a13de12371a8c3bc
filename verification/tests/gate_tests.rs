use dns_test::gate::BuildGate;
use dns_test::profile::Implementation;

#[test]
fn repeated_requests_build_exactly_once() {
    let mut gate = BuildGate::new();
    let mut builds: usize = 0;
    for _ in 0..5 {
        if gate.ensure_built(&Implementation::Unbound) {
            builds += 1;
        }
    }
    assert_eq!(builds, 1);
}

#[test]
fn profiles_gate_independently() {
    let mut gate = BuildGate::new();
    let mut unbound_builds: usize = 0;
    let mut bind_builds: usize = 0;
    if gate.ensure_built(&Implementation::Unbound) {
        unbound_builds += 1;
    }
    if gate.ensure_built(&Implementation::Bind) {
        bind_builds += 1;
    }
    if gate.ensure_built(&Implementation::Unbound) {
        unbound_builds += 1;
    }
    if gate.ensure_built(&Implementation::Bind) {
        bind_builds += 1;
    }
    assert_eq!(unbound_builds, 1);
    assert_eq!(bind_builds, 1);
    assert!(!gate.ensure_built(&Implementation::Unbound));
    assert!(gate.ensure_built(&Implementation::Hickory));
}
