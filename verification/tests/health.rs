use srvcs_xnor::health::{healthz, readyz, set_ready, Readiness};

#[test]
fn healthz_is_ok() {
    assert_eq!(healthz(), 200);
}

#[test]
fn health_readyz_reflects_state() {
    let mut readiness = Readiness::new();
    set_ready(&mut readiness, false);
    assert_eq!(readyz(&readiness), 503);
    set_ready(&mut readiness, true);
    assert_eq!(readyz(&readiness), 200);
}

#[test]
fn routes_readyz_reflects_state() {
    let mut readiness = Readiness::new();
    set_ready(&mut readiness, true);
    assert_eq!(readyz(&readiness), 200);
}

#[test]
fn starts_not_ready() {
    let readiness = Readiness::new();
    assert_eq!(readyz(&readiness), 503);
}
