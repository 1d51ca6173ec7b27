use gsn_root::enums::{NodeRole, NodeService, NodeState};
use gsn_root::management::network::{NetworkAction, NetworkOperand, NetworkZone};
use gsn_root::management::ManagementZone;

fn network_zone(command: &str) -> NetworkZone {
    let mz = match ManagementZone::from_str(command) {
        Some(s) => s,
        None => panic!("Unwrapping a None"),
    };
    match mz {
        ManagementZone::Network(s) => s,
        e => panic!("extract_zone_network -- Unexpected value: {:?}", e),
    }
}

#[test]
fn ts_network_view_all_p() {
    let nz = network_zone("network view all");
    assert_eq!(nz.action, NetworkAction::View);
    assert_eq!(nz.op1, NetworkOperand::All);
}

#[test]
fn ts_network_view_node_p() {
    let nz = network_zone("network view node foo");
    assert_eq!(nz.action, NetworkAction::View);
    assert_eq!(nz.op1, NetworkOperand::Node(String::from("foo")));
}

#[test]
fn ts_network_view_spring_p() {
    let nz = network_zone("network view springname foo");
    assert_eq!(nz.action, NetworkAction::View);
    assert_eq!(nz.op1, NetworkOperand::Node(String::from("foo")));
}

#[test]
fn ts_network_view_role_p() {
    let nz = network_zone("network view role hybrid");
    assert_eq!(nz.action, NetworkAction::View);
    assert_eq!(nz.op1, NetworkOperand::Role(NodeRole::Hybrid));
}

#[test]
fn ts_network_view_state_p() {
    let nz = network_zone("network view state unresponsive");
    assert_eq!(nz.action, NetworkAction::View);
    assert_eq!(nz.op1, NetworkOperand::State(NodeState::Unresponsive));
}

#[test]
fn ts_network_view_service_p() {
    let nz = network_zone("network view service http");
    assert_eq!(nz.action, NetworkAction::View);
    assert_eq!(nz.op1, NetworkOperand::Service(NodeService::Http));
}

#[test]
fn ts_network_view_address_p() {
    let nz = network_zone("network view address 127.0.0.1");
    assert_eq!(nz.action, NetworkAction::View);
    assert_eq!(nz.op1, NetworkOperand::Address(String::from("127.0.0.1")));
}

#[test]
fn ts_network_view_host_p() {
    let nz = network_zone("network view hostname foo.bar");
    assert_eq!(nz.action, NetworkAction::View);
    assert_eq!(nz.op1, NetworkOperand::Host(String::from("foo.bar")));
}

#[test]
fn ts_network_update_node_spring_p() {
    let nz = network_zone("network update node foo springname bar");
    assert_eq!(nz.action, NetworkAction::Update);
    assert_eq!(nz.op1, NetworkOperand::Node(String::from("foo")));
    assert_eq!(nz.op2, NetworkOperand::Node(String::from("bar")));
}

#[test]
fn ts_network_update_node_state_p() {
    let nz = network_zone("network update node foo state disabled");
    assert_eq!(nz.action, NetworkAction::Update);
    assert_eq!(nz.op1, NetworkOperand::Node(String::from("foo")));
    assert_eq!(nz.op2, NetworkOperand::State(NodeState::Disabled));
}

#[test]
fn ts_network_update_role_service_p() {
    let nz = network_zone("network update role org service dvsp");
    assert_eq!(nz.action, NetworkAction::Update);
    assert_eq!(nz.op1, NetworkOperand::Role(NodeRole::Org));
    assert_eq!(nz.op2, NetworkOperand::Service(NodeService::Dvsp));
}

#[test]
fn network_short_actions() {
    assert_eq!(network_zone("network rem node foo").action, NetworkAction::Remove);
    assert_eq!(network_zone("network remove node foo").action, NetworkAction::Remove);
    assert_eq!(network_zone("network upd all state enabled").action, NetworkAction::Update);
}

#[test]
fn network_second_operand_is_optional() {
    let nz = network_zone("network view all");
    assert_eq!(nz.op2, NetworkOperand::Nothing);
    let nz = network_zone("network view all whatever");
    assert_eq!(nz.op2, NetworkOperand::Nothing);
}

#[test]
fn network_malformed_commands() {
    assert!(ManagementZone::from_str("").is_none());
    assert!(ManagementZone::from_str("network").is_none());
    assert!(ManagementZone::from_str("network ").is_none());
    assert!(ManagementZone::from_str("network view").is_none());
    assert!(ManagementZone::from_str("network show all").is_none());
    assert!(ManagementZone::from_str("network view nothing").is_none());
    assert!(ManagementZone::from_str("network view node").is_none());
    assert!(ManagementZone::from_str("network view role chief").is_none());
    assert!(ManagementZone::from_str("network view state asleep").is_none());
    assert!(ManagementZone::from_str("network view service smtp").is_none());
    assert!(ManagementZone::from_str("network update node foo role").is_none());
    assert!(ManagementZone::from_str("network  view all").is_none());
    assert!(ManagementZone::from_str("weather view all").is_none());
}

#[test]
fn network_extract_operand_moves_on() {
    let atoms = vec!["view", "node", "foo", "state", "enabled"];
    let mut at: usize = 1;
    let op = NetworkZone::extract_operand(&atoms, &mut at);
    assert_eq!(op, Some(NetworkOperand::Node(String::from("foo"))));
    assert_eq!(at, 3);
    let op = NetworkZone::extract_operand(&atoms, &mut at);
    assert_eq!(op, Some(NetworkOperand::State(NodeState::Enabled)));
    assert_eq!(at, 5);
    let op = NetworkZone::extract_operand(&atoms, &mut at);
    assert_eq!(op, Some(NetworkOperand::Nothing));
    assert_eq!(at, 5);
}

#[test]
fn network_zone_new_keeps_its_parts() {
    let nz = NetworkZone::new(
        NetworkAction::Remove,
        NetworkOperand::Node(String::from("foo")),
        NetworkOperand::Nothing,
    );
    assert_eq!(nz.action, NetworkAction::Remove);
    assert_eq!(nz.op1, NetworkOperand::Node(String::from("foo")));
    assert_eq!(nz.op2, NetworkOperand::Nothing);
    assert_eq!(nz.clone(), nz);
}
