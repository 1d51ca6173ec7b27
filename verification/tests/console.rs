use gsn_root::enums::{Failure, NodeRole, NodeService, NodeState};
use gsn_root::management::network::{NetworkOperand, NetworkZoneModel};
use gsn_root::management::{binary_split, management_handler, ManagementInstance, ManagementZone};
use gsn_root::netspace::{Netspace, StoredRow};
use gsn_root::node::Node;

fn row(spring: &str, host: &str, address: &str, service: i64, status: i64, types: i64) -> StoredRow {
    StoredRow {
        springname: String::from(spring),
        hostname: String::from(host),
        address: String::from(address),
        service,
        status,
        types,
    }
}

fn table() -> Netspace {
    Netspace::from_rows(vec![
        row("esusx", "greenman.zu", "192.168.1.1", 1, 1, 1),
        row("cci", "dvsnode.greenman.zu", "192.168.1.2", 2, 1, 2),
    ])
    .unwrap()
}

#[test]
fn view_one_node_exact_text() {
    let mut nio = table();
    let out = management_handler("network view node esusx", &mut nio);
    let expected = "\
+----------+-------------+-------------+--------+---------+-----------+
| _spring_ | _hostfield_ | _address_   | _role_ | _state_ | _service_ |
+----------+-------------+-------------+--------+---------+-----------+
| esusx    | greenman.zu | 192.168.1.1 | root   | enabled | dvsp      |
+----------+-------------+-------------+--------+---------+-----------+
";
    assert_eq!(out, expected);
}

#[test]
fn view_all_lists_every_node() {
    let mut nio = table();
    let out = management_handler("network view all", &mut nio);
    let expected = "\
+----------+---------------------+-------------+--------+---------+-----------+
| _spring_ | _hostfield_         | _address_   | _role_ | _state_ | _service_ |
+----------+---------------------+-------------+--------+---------+-----------+
| esusx    | greenman.zu         | 192.168.1.1 | root   | enabled | dvsp      |
+----------+---------------------+-------------+--------+---------+-----------+
| cci      | dvsnode.greenman.zu | 192.168.1.2 | org    | enabled | http      |
+----------+---------------------+-------------+--------+---------+-----------+
";
    assert_eq!(out, expected);
}

#[test]
fn view_by_each_filter() {
    let mut nio = table();
    let by_role = management_handler("network view role org", &mut nio);
    assert!(by_role.contains("| cci "));
    assert!(!by_role.contains("esusx"));
    let by_state = management_handler("network view state disabled", &mut nio);
    assert!(by_state.contains("_spring_"));
    assert!(!by_state.contains("esusx") && !by_state.contains("cci"));
    let by_address = management_handler("network view address 192.168.1.1", &mut nio);
    assert!(by_address.contains("| esusx "));
    assert!(!by_address.contains("cci"));
    let no_address = management_handler("network view address here", &mut nio);
    assert_eq!(no_address, by_state);
    let by_host = management_handler("network view hostname dvsnode.greenman.zu", &mut nio);
    assert!(by_host.contains("| cci "));
    assert_eq!(
        management_handler("network view node nobody", &mut nio),
        "Error requesting node NotFound"
    );
    assert_eq!(
        management_handler("network view hostname nobody", &mut nio),
        "Error requesting node NotFound"
    );
}

#[test]
fn view_what_cannot_be_shown() {
    let mut nio = table();
    assert_eq!(
        management_handler("network view service http", &mut nio),
        "Error: Unrecognised or malformed command"
    );
    assert_eq!(NetworkZoneModel::view(NetworkOperand::Nothing, &nio), None);
}

#[test]
fn lines_that_are_no_command() {
    let mut nio = table();
    for line in ["", "network", "help", "network dance all", "validation check"] {
        assert_eq!(
            management_handler(line, &mut nio),
            "Error: Unrecognised or malformed command"
        );
    }
    assert_eq!(2, nio.gsn_nodes().len());
}

#[test]
fn update_one_node_exact_text() {
    let mut nio = table();
    assert_eq!(
        management_handler("network update node esusx state disabled", &mut nio),
        "Updated esusx state: enabled -> disabled\n"
    );
    assert_eq!(
        nio.gsn_node_by_springname("esusx").unwrap().state(),
        NodeState::Disabled
    );
    assert_eq!(
        management_handler("network update node esusx role hybrid", &mut nio),
        "Updated esusx role: root -> hybrid\n"
    );
    assert_eq!(
        management_handler("network update node esusx service http", &mut nio),
        "Updated esusx service: dvsp -> http\n"
    );
    assert_eq!(
        management_handler("network update node esusx hostname new.zu", &mut nio),
        "Updated esusx hostname: greenman.zu -> new.zu\n"
    );
    assert_eq!(
        management_handler("network upd node esusx address 10.0.0.1", &mut nio),
        "Updated esusx address: 192.168.1.1 -> 10.0.0.1\n"
    );
    let node = nio.gsn_node_by_springname("esusx").unwrap();
    assert_eq!(node.role(), NodeRole::Hybrid);
    assert_eq!(node.service(), NodeService::Http);
    assert_eq!(node.hostname(), "new.zu");
    assert_eq!(node.address(), [10, 0, 0, 1]);
    // the other node is as it was
    let other = nio.gsn_node_by_springname("cci").unwrap();
    assert_eq!(other.state(), NodeState::Enabled);
    assert_eq!(other.hostname(), "dvsnode.greenman.zu");
}

#[test]
fn update_many_nodes() {
    let mut nio = table();
    assert_eq!(
        management_handler("network update all state unresponsive", &mut nio),
        "Updated esusx state: enabled -> unresponsive\nUpdated cci state: enabled -> unresponsive\n"
    );
    assert_eq!(2, nio.gsn_nodes_by_state(NodeState::Unresponsive).len());
    assert_eq!(
        management_handler("network update role org service dvsp", &mut nio),
        "Updated cci service: http -> dvsp\n"
    );
    assert_eq!(
        management_handler("network update state enabled role root", &mut nio),
        "\n"
    );
    assert_eq!(
        management_handler("network update address 192.168.1.2 hostname x", &mut nio),
        "Updated cci hostname: dvsnode.greenman.zu -> x\n"
    );
}

#[test]
fn update_that_cannot_be_made() {
    let mut nio = table();
    assert_eq!(
        management_handler("network update node nobody state disabled", &mut nio),
        "Error requesting node NotFound\n"
    );
    assert_eq!(
        management_handler("network update node esusx node other", &mut nio),
        "Error: Unknown or unsupported value for updating\n"
    );
    assert_eq!(
        management_handler("network update node esusx", &mut nio),
        "Error: Unknown or unsupported value for updating\n"
    );
    assert_eq!(
        management_handler("network update node esusx address 1.2.3", &mut nio),
        "Error: Unknown or unsupported value for updating\n"
    );
    assert_eq!(
        management_handler("network update hostname greenman.zu state disabled", &mut nio),
        "Error: Unrecognised or malformed command"
    );
    assert_eq!(
        nio.gsn_node_by_springname("esusx").unwrap().state(),
        NodeState::Enabled
    );
}

#[test]
fn update_node_reports_for_each_case() {
    let mut nio = table();
    let node = Node::from_node_string("nobody,host,10.0.0.1").unwrap();
    assert_eq!(
        NetworkZoneModel::update_node(Ok(node), NetworkOperand::Role(NodeRole::Org), &mut nio),
        "Error requesting node NotFound"
    );
    assert_eq!(
        NetworkZoneModel::update_node(
            Err(Failure::Invalid),
            NetworkOperand::Role(NodeRole::Org),
            &mut nio
        ),
        "Error requesting node Invalid"
    );
    let node = nio.gsn_node_by_springname("cci").unwrap();
    assert_eq!(
        NetworkZoneModel::update_node(Ok(node), NetworkOperand::Role(NodeRole::Root), &mut nio),
        "Updated cci role: org -> root"
    );
}

#[test]
fn remove_exact_text() {
    let mut nio = table();
    assert_eq!(
        management_handler("network remove node esusx", &mut nio),
        "Removed node esusx\n"
    );
    assert_eq!(
        nio.gsn_node_by_springname("esusx").unwrap_err(),
        Failure::NotFound
    );
    assert_eq!(
        management_handler("network rem node esusx", &mut nio),
        "Error: unabled to retrieve node (NotFound)\n"
    );
    assert_eq!(
        management_handler("network rem all", &mut nio),
        "Error: Unknown or unsupported target filter (All)\n"
    );
    assert_eq!(
        management_handler("network rem role org", &mut nio),
        "Error: Unknown or unsupported target filter (Role(Org))\n"
    );
    assert_eq!(
        management_handler("network rem hostname a.b", &mut nio),
        "Error: Unknown or unsupported target filter (Host(\"a.b\"))\n"
    );
    assert_eq!(
        NetworkZoneModel::remove(NetworkOperand::Nothing, &mut nio),
        Some(String::from("Error: Unknown or unsupported target filter (None)\n"))
    );
    assert_eq!(1, nio.gsn_nodes().len());
}

#[test]
fn remove_names_each_kind_of_operand() {
    let mut nio = table();
    assert_eq!(
        management_handler("network rem state unresponsive", &mut nio),
        "Error: Unknown or unsupported target filter (State(Unresponsive))\n"
    );
    assert_eq!(
        management_handler("network rem service dvsp", &mut nio),
        "Error: Unknown or unsupported target filter (Service(Dvsp))\n"
    );
    assert_eq!(
        management_handler("network rem address 1.2.3.4", &mut nio),
        "Error: Unknown or unsupported target filter (Address(\"1.2.3.4\"))\n"
    );
}

#[test]
fn text_that_cannot_be_drawn_is_not_drawn() {
    let mut nio = table();
    let odd = "\u{1b}[\u{644}\u{627}\u{644}\u{627}";
    let command = format!("network update node cci hostname {}", odd);
    assert_eq!(
        management_handler(&command, &mut nio),
        format!("Updated cci hostname: dvsnode.greenman.zu -> {}\n", odd)
    );
    assert_eq!(
        management_handler("network view all", &mut nio),
        "Error: a node holds text that cannot be shown"
    );
    assert_eq!(
        management_handler("network view node cci", &mut nio),
        "Error: a node holds text that cannot be shown"
    );
    // a node without such text is drawn as before
    let one = management_handler("network view node esusx", &mut nio);
    assert!(one.starts_with("+----------+"));
    assert!(one.contains("| esusx "));
    // text without the escape character is drawn, whatever else it holds
    assert_eq!(
        management_handler("network update node cci hostname [\u{644}\u{627}m", &mut nio),
        format!("Updated cci hostname: {} -> [\u{644}\u{627}m\n", odd)
    );
    assert!(management_handler("network view all", &mut nio).contains("| cci "));
}

#[test]
fn remove_writes_text_as_between_quotes() {
    let mut nio = table();
    assert_eq!(
        management_handler("network rem hostname a\"b\\c", &mut nio),
        "Error: Unknown or unsupported target filter (Host(\"a\\\"b\\\\c\"))\n"
    );
    assert_eq!(
        management_handler("network rem address \t\n\r\0\u{1b}\u{7f}\u{9f}\u{1}", &mut nio),
        "Error: Unknown or unsupported target filter (Address(\"\\t\\n\\r\\0\\u{1b}\\u{7f}\\u{9f}\\u{1}\"))\n"
    );
    for text in ["a\"b\\c", "\t\n\r\0\u{1b}\u{7f}\u{9f}\u{1}", "plain", "h\u{e9}llo'"] {
        let command = format!("network rem hostname {}", text);
        assert_eq!(
            management_handler(&command, &mut nio),
            format!("Error: Unknown or unsupported target filter (Host({:?}))\n", text)
        );
    }
}

#[test]
fn service_commands_are_answered() {
    let mut nio = table();
    assert_eq!(
        management_handler("service init all", &mut nio),
        "Init operation is not supported by target filter"
    );
    assert_eq!(
        management_handler("service manage module cert", &mut nio),
        "Bad operand for Manage operation"
    );
    assert_eq!(
        management_handler("service manage all", &mut nio),
        "Manage operation is not supported by target filter"
    );
    assert_eq!(
        management_handler("service init module cert", &mut nio),
        "Handed on to the module"
    );
    assert_eq!(
        management_handler("service man mod cert : a b", &mut nio),
        "Handed on to the module"
    );
    assert_eq!(
        management_handler("service init module dns", &mut nio),
        "Error: Unrecognised or malformed command"
    );
    assert_eq!(2, nio.gsn_nodes().len());
}

#[test]
fn remove_of_a_row_that_does_not_decode() {
    let mut nio = Netspace::from_rows(vec![row("odd", "h", "nowhere", 1, 1, 1)]).unwrap();
    assert_eq!(
        management_handler("network remove node odd", &mut nio),
        "Error: unabled to retrieve node (Invalid)\n"
    );
    assert_eq!(1, nio.stored().len());
}

#[test]
fn instance_runs_and_processes() {
    let mut nio = table();
    let mi = ManagementInstance::new();
    assert_eq!(mi.run("nothing to do", &mut nio), None);
    assert_eq!(
        mi.run("network remove node cci", &mut nio),
        Some(String::from("Removed node cci\n"))
    );
    let request = ManagementZone::from_str("network view node cci").unwrap();
    assert_eq!(request.clone(), request);
    assert_eq!(
        mi.process_request(request, &mut nio),
        Some(String::from("Error requesting node NotFound"))
    );
    assert_eq!(binary_split("network view all"), vec!["network", "view all"]);
    assert_eq!(binary_split("network"), vec!["network"]);
}

#[test]
fn tabulate_draws_a_frame() {
    let none: Vec<Node> = Vec::new();
    assert_eq!(
        NetworkZoneModel::tabulate_nodes(&none),
        "\
+----------+-------------+-----------+--------+---------+-----------+
| _spring_ | _hostfield_ | _address_ | _role_ | _state_ | _service_ |
+----------+-------------+-----------+--------+---------+-----------+
"
    );
    assert_eq!(
        NetworkZoneModel::tabulate_node(Err(Failure::NotFound)),
        "Error requesting node NotFound"
    );
}
