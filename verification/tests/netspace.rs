use gsn_root::enums::{Failure, NodeRole, NodeService, NodeState};
use gsn_root::netspace::{fill_node, locate, row_from_node, Change, Field, Netspace, StoredRow};
use gsn_root::node::Node;

fn row(spring: &str, host: &str, address: &str, service: i64, status: i64, types: i64) -> StoredRow {
    StoredRow {
        springname: String::from(spring),
        hostname: String::from(host),
        address: String::from(address),
        service,
        status,
        types,
    }
}

fn setup_netspace() -> Netspace {
    Netspace::from_rows(vec![
        row("esusx", "greenman.zu", "192.168.1.1", 1, 1, 1),
        row("cci", "dvsnode.greenman.zu", "192.168.1.2", 2, 1, 2),
    ])
    .unwrap()
}

#[test]
fn ts_netspaceio_gsn_nodes() {
    let nsio = setup_netspace();
    let v = nsio.gsn_nodes();
    assert_eq!(2, v.len());
}

#[test]
fn ts_netspaceio_gsn_nodes_by_address_p() {
    let nsio = setup_netspace();
    let v = nsio.gsn_nodes_by_address([192, 168, 1, 1]);
    assert_eq!(1, v.len());
    assert_eq!([192, 168, 1, 1], v[0].address());
}

#[test]
fn ts_netspaceio_gsn_nodes_by_address_f() {
    let nsio = setup_netspace();
    let v = nsio.gsn_nodes_by_address([192, 168, 1, 3]);
    assert_eq!(0, v.len());
}

#[test]
fn ts_netspaceio_gsn_nodes_by_type_p() {
    let nsio = setup_netspace();
    let v = nsio.gsn_nodes_by_type(NodeRole::Root);
    assert_eq!(1, v.len());
    assert_eq!(NodeRole::Root, v[0].role());
}

#[test]
fn ts_netspaceio_gsn_nodes_by_type_f() {
    let nsio = setup_netspace();
    let v = nsio.gsn_nodes_by_type(NodeRole::Undefined);
    assert_eq!(0, v.len());
}

#[test]
fn ts_netspaceio_gsn_nodes_by_state_p() {
    let nsio = setup_netspace();
    let v = nsio.gsn_nodes_by_state(NodeState::Enabled);
    assert_eq!(2, v.len());
    assert_eq!(NodeState::Enabled, v[0].state());
}

#[test]
fn ts_netspaceio_gsn_nodes_by_state_f() {
    let nsio = setup_netspace();
    let v = nsio.gsn_nodes_by_state(NodeState::Unresponsive);
    assert_eq!(0, v.len());
}

#[test]
fn ts_netspaceio_gsn_nodes_by_springname_p() {
    let nsio = setup_netspace();
    let r = nsio.gsn_node_by_springname("esusx");
    assert!(r.is_ok());
    assert_eq!("esusx", r.unwrap().springname());
}

#[test]
fn ts_netspaceio_gsn_nodes_by_springname_f() {
    let nsio = setup_netspace();
    let r = nsio.gsn_node_by_springname("morrowind");
    assert!(r.is_err());
}

#[test]
fn ts_netspaceio_gsn_nodes_by_hostname_p() {
    let nsio = setup_netspace();
    let r = nsio.gsn_node_by_hostname("greenman.zu");
    assert!(r.is_ok());
    assert_eq!("greenman.zu", r.unwrap().hostname());
}

#[test]
fn ts_netspaceio_gsn_nodes_by_hostname_f() {
    let nsio = setup_netspace();
    let r = nsio.gsn_node_by_hostname("morrowind");
    assert!(r.is_err());
}

#[test]
fn ts_netspaceio_gsn_node_by_register_p() {
    let mut nsio = setup_netspace();
    let r = nsio.gsn_node_register(&Node::from_node_string("spring,host,192.172.1.1").unwrap());
    assert!(r.is_ok());

    let r2 = nsio.gsn_node_by_springname("spring");
    assert!(r2.is_ok());
    let node = r2.unwrap();

    assert_eq!("host", node.hostname());
}

#[test]
fn ts_netspaceio_gsn_node_by_register_f() {
    let mut nsio = setup_netspace();
    let r = nsio.gsn_node_register(&Node::from_node_string("esusx,host,192.172.1.1").unwrap());
    assert!(r.is_err());

    let e = r.unwrap_err();
    assert_eq!(Failure::Duplicate, e);
}

fn same_node(a: &Node, b: &Node) -> bool {
    a.springname() == b.springname()
        && a.hostname() == b.hostname()
        && a.address() == b.address()
        && a.service() == b.service()
        && a.state() == b.state()
        && a.role() == b.role()
}

#[test]
fn registered_node_is_found_as_given() {
    let mut nsio = setup_netspace();
    let node = Node::new(
        String::from("alpha"),
        String::from("alpha.example"),
        [10, 0, 255, 7],
        NodeService::Http,
        NodeState::Unresponsive,
        NodeRole::Hybrid,
    );
    assert_eq!(nsio.gsn_node_register(&node), Ok(()));
    let found = nsio.gsn_node_by_springname("alpha").unwrap();
    assert!(same_node(&found, &node));
    assert_eq!(3, nsio.gsn_nodes().len());
}

#[test]
fn second_registration_changes_nothing() {
    let mut nsio = setup_netspace();
    let first = Node::from_node_string("alpha,one.example,10.0.0.1").unwrap();
    let second = Node::from_node_string("alpha,two.example,10.0.0.2").unwrap();
    assert_eq!(nsio.gsn_node_register(&first), Ok(()));
    let before = format!("{:?}", nsio.stored());
    assert_eq!(nsio.gsn_node_register(&second), Err(Failure::Duplicate));
    assert_eq!(before, format!("{:?}", nsio.stored()));
    assert_eq!("one.example", nsio.gsn_node_by_springname("alpha").unwrap().hostname());
}

#[test]
fn unregistered_node_is_not_found() {
    let mut nsio = setup_netspace();
    let node = nsio.gsn_node_by_springname("esusx").unwrap();
    assert_eq!(nsio.gsn_node_unregister(&node), Ok(()));
    assert_eq!(
        nsio.gsn_node_by_springname("esusx").unwrap_err(),
        Failure::NotFound
    );
    assert_eq!(1, nsio.gsn_nodes().len());
    assert_eq!(nsio.gsn_node_unregister(&node), Err(Failure::NotFound));
}

#[test]
fn two_registrations_in_either_order() {
    let a = Node::from_node_string("alpha,a.example,10.0.0.1").unwrap();
    let b = Node::from_node_string("beta,b.example,10.0.0.2").unwrap();
    let mut one = setup_netspace();
    assert_eq!(one.gsn_node_register(&a), Ok(()));
    assert_eq!(one.gsn_node_register(&b), Ok(()));
    let mut two = setup_netspace();
    assert_eq!(two.gsn_node_register(&b), Ok(()));
    assert_eq!(two.gsn_node_register(&a), Ok(()));
    for table in [&one, &two] {
        assert!(same_node(&table.gsn_node_by_springname("alpha").unwrap(), &a));
        assert!(same_node(&table.gsn_node_by_springname("beta").unwrap(), &b));
    }
}

#[test]
fn rows_that_do_not_decode() {
    let nsio = Netspace::from_rows(vec![
        row("badaddr", "h1", "192.168.1", 1, 1, 1),
        row("badservice", "h2", "192.168.1.1", 9, 1, 1),
        row("badstate", "h3", "192.168.1.1", 1, 4, 1),
        row("badrole", "h4", "192.168.1.1", 1, 1, -1),
        row("good", "h1", "192.168.1.1", 1, 1, 1),
    ])
    .unwrap();
    assert_eq!(1, nsio.gsn_nodes().len());
    assert_eq!(nsio.gsn_node_by_springname("badaddr").unwrap_err(), Failure::Invalid);
    assert_eq!(nsio.gsn_node_by_springname("badservice").unwrap_err(), Failure::Invalid);
    assert_eq!(nsio.gsn_node_by_springname("badstate").unwrap_err(), Failure::Invalid);
    assert_eq!(nsio.gsn_node_by_springname("badrole").unwrap_err(), Failure::Invalid);
    assert_eq!(nsio.gsn_node_by_springname("absent").unwrap_err(), Failure::NotFound);
    // the first row of that host name does not decode, though a later one does
    assert_eq!(nsio.gsn_node_by_hostname("h1").unwrap_err(), Failure::Invalid);
    assert_eq!("good", nsio.gsn_node_by_springname("good").unwrap().springname());
}

#[test]
fn rows_with_one_name_are_refused() {
    let r = Netspace::from_rows(vec![
        row("esusx", "a", "192.168.1.1", 1, 1, 1),
        row("cci", "b", "192.168.1.2", 1, 1, 1),
        row("esusx", "c", "192.168.1.3", 1, 1, 1),
    ]);
    assert_eq!(r.err(), Some(Failure::Duplicate));
    assert_eq!(0, Netspace::new().gsn_nodes().len());
}

#[test]
fn each_column_is_stored_on_its_own() {
    let mut nsio = setup_netspace();
    let mut node = nsio.gsn_node_by_springname("cci").unwrap();
    node.update_role(NodeRole::Hybrid);
    node.update_state(NodeState::Disabled);
    node.update_service(NodeService::Dvsp);
    node.update_hostname("other.zu");
    node.update_address([10, 1, 2, 3]);
    assert_eq!(nsio.gsn_node_update_role(&node), Ok(()));
    let stored = nsio.gsn_node_by_springname("cci").unwrap();
    assert_eq!(stored.role(), NodeRole::Hybrid);
    assert_eq!(stored.state(), NodeState::Enabled);
    assert_eq!(stored.service(), NodeService::Http);
    assert_eq!(stored.hostname(), "dvsnode.greenman.zu");
    assert_eq!(stored.address(), [192, 168, 1, 2]);
    assert_eq!(nsio.gsn_node_update_state(&node), Ok(()));
    assert_eq!(nsio.gsn_node_update_service(&node), Ok(()));
    assert_eq!(nsio.gsn_node_update_hostname(&node), Ok(()));
    assert_eq!(nsio.gsn_node_update_address(&node), Ok(()));
    let stored = nsio.gsn_node_by_springname("cci").unwrap();
    assert!(same_node(&stored, &node));
    // the other row is as it was
    let other = nsio.gsn_node_by_springname("esusx").unwrap();
    assert_eq!(other.hostname(), "greenman.zu");
    assert_eq!(other.role(), NodeRole::Root);
}

#[test]
fn update_of_an_absent_node() {
    let mut nsio = setup_netspace();
    let node = Node::from_node_string("nobody,host,10.0.0.1").unwrap();
    assert_eq!(nsio.gsn_node_update_role(&node), Err(Failure::NotFound));
    assert_eq!(2, nsio.gsn_nodes().len());
}

#[test]
fn row_coding_exact_values() {
    let node = Node::new(
        String::from("esusx"),
        String::from("greenman.zu"),
        [192, 168, 1, 1],
        NodeService::Http,
        NodeState::Unspecified,
        NodeRole::Org,
    );
    let stored = row_from_node(&node);
    assert_eq!(stored.springname, "esusx");
    assert_eq!(stored.hostname, "greenman.zu");
    assert_eq!(stored.address, "192.168.1.1");
    assert_eq!(stored.service, 2);
    assert_eq!(stored.status, 3);
    assert_eq!(stored.types, 2);
    assert!(same_node(&fill_node(&stored).unwrap(), &node));
    assert!(same_node(&node.clone(), &node));
}

#[test]
fn wider_network_is_empty() {
    let nsio = setup_netspace();
    assert_eq!(0, nsio.gtn_root_nodes().len());
    assert_eq!(0, nsio.gtn_geosubs().len());
}

#[test]
fn changes_to_store_after_each_kind_of_change() {
    let before = setup_netspace().stored();
    let mut nsio = setup_netspace();
    assert_eq!(nsio.changes_since(&before), Vec::new());

    let new = Node::from_node_string("alpha,a.example,10.0.0.1").unwrap();
    nsio.gsn_node_register(&new).unwrap();
    assert_eq!(nsio.changes_since(&before), vec![Change::Insert(row_from_node(&new))]);

    let mut nsio = setup_netspace();
    let mut node = nsio.gsn_node_by_springname("cci").unwrap();
    node.update_state(NodeState::Disabled);
    node.update_hostname("other.zu");
    nsio.gsn_node_update_state(&node).unwrap();
    assert_eq!(
        nsio.changes_since(&before),
        vec![Change::Store(Field::State, row("cci", "dvsnode.greenman.zu", "192.168.1.2", 2, 0, 2))]
    );
    // the value that is there already asks for nothing
    let same = nsio.stored();
    nsio.gsn_node_update_state(&node).unwrap();
    assert_eq!(nsio.changes_since(&same), Vec::new());

    nsio.gsn_node_update_hostname(&node).unwrap();
    nsio.gsn_node_update_role(&nsio.gsn_node_by_springname("esusx").unwrap()).unwrap();
    let esusx = nsio.gsn_node_by_springname("esusx").unwrap();
    nsio.gsn_node_unregister(&esusx).unwrap();
    nsio.gsn_node_register(&new).unwrap();
    let after = row("cci", "other.zu", "192.168.1.2", 2, 0, 2);
    assert_eq!(
        nsio.changes_since(&before),
        vec![
            Change::Delete(String::from("esusx")),
            Change::Store(Field::Hostname, row("cci", "other.zu", "192.168.1.2", 2, 0, 2)),
            Change::Store(Field::State, after),
            Change::Insert(row_from_node(&new)),
        ]
    );
    assert_eq!(locate(&before, "cci"), 1);
    assert_eq!(locate(&before, "nobody"), 2);
}
