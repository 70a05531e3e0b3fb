use srvcs_xnor::api::index;
use srvcs_xnor::service_name;

#[test]
fn service_name_is_stable() {
    assert_eq!(service_name(), "srvcs-xnor");
}

#[test]
fn index_reports_dependencies() {
    let info = index();
    assert_eq!(info.service, "srvcs-xnor");
    assert_eq!(info.depends_on, vec!["srvcs-xor", "srvcs-not"]);
}

#[test]
fn index_states_concern() {
    let info = index();
    assert_eq!(info.concern, "logic: NOT XOR (equivalence)");
}
