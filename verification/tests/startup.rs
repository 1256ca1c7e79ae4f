use lite_rpc::startup::{
    check_shred_version, plan_startup, rpc_pubsub_port,
    ShredVersionMismatch,
};

#[test]
fn plan_for_a_plain_private_node() {
    let plan = plan_startup(true, false, false, false, false);
    assert!(!plan.advertise_rpc);
    assert!(!plan.transaction_status_service);
    assert!(!plan.pubsub_service);
    assert!(!plan.completed_slots_service);
    assert!(!plan.send_parents);
    assert!(!plan.confirmed_bank_subscribers);
}

#[test]
fn plan_with_plugins() {
    let plan = plan_startup(false, false, false, true, true);
    assert!(plan.advertise_rpc);
    assert!(plan.transaction_status_service);
    assert!(!plan.pubsub_service);
    assert!(plan.completed_slots_service);
    assert!(plan.send_parents);
    assert!(plan.confirmed_bank_subscribers);
}

#[test]
fn plan_with_full_api_and_history() {
    let plan = plan_startup(false, true, true, false, false);
    assert!(plan.transaction_status_service);
    assert!(plan.pubsub_service);
    assert!(plan.completed_slots_service);
    assert!(!plan.send_parents);
}

#[test]
fn pubsub_port_follows_rpc_port() {
    assert_eq!(rpc_pubsub_port(8899), Some(8900));
    assert_eq!(rpc_pubsub_port(65534), Some(65535));
    assert_eq!(rpc_pubsub_port(65535), None);
}

#[test]
fn shred_version_check() {
    assert_eq!(check_shred_version(None, 5), Ok(()));
    assert_eq!(check_shred_version(Some(5), 5), Ok(()));
    assert_eq!(
        check_shred_version(Some(4), 5),
        Err(ShredVersionMismatch { expected: 4, computed: 5 })
    );
}

