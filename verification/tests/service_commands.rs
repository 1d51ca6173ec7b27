use gsn_root::management::service::{
    Module, ServiceAction, ServiceOperand, ServiceWork, ServiceZone,
};
use gsn_root::management::ManagementZone;

#[test]
fn ts_service_init_module_cert_p() {
    let mz = match ManagementZone::from_str("service init module cert") {
        Some(s) => s,
        None => panic!("Unwrapping a None"),
    };
    let sz: ServiceZone = match mz {
        ManagementZone::Service(s) => s,
        e => panic!("extract_zone_service -- Unexpected value: {:?}", e),
    };
    assert_eq!(sz.action, ServiceAction::Init);
    assert_eq!(sz.op1, ServiceOperand::Module(Module::Cert));
}

#[test]
fn service_zone_is_read_on_its_own_too() {
    let sz = ServiceZone::from_str("init module cert").unwrap();
    assert_eq!(sz.action, ServiceAction::Init);
    assert_eq!(sz.op1, ServiceOperand::Module(Module::Cert));
    assert_eq!(sz.clone(), sz);
    assert!(ManagementZone::from_str("service").is_none());
    assert!(ManagementZone::from_str("service init").is_none());
    assert!(ManagementZone::from_str("service view all").is_none());
}

#[test]
fn service_manage_passes_words_on() {
    let sz = ServiceZone::from_str("man mod cert : import key now").unwrap();
    assert_eq!(sz.action, ServiceAction::Manage);
    assert_eq!(sz.op1, ServiceOperand::Module(Module::Cert));
    assert_eq!(
        sz.op2,
        ServiceOperand::Pass(vec![
            String::from("import"),
            String::from("key"),
            String::from("now")
        ])
    );
    assert_eq!(
        ServiceZone::process(sz),
        ServiceWork::Manage(
            Module::Cert,
            vec![String::from("import"), String::from("key"), String::from("now")]
        )
    );
}

#[test]
fn service_pass_may_be_empty() {
    let sz = ServiceZone::from_str("manage module cert <").unwrap();
    assert_eq!(sz.op2, ServiceOperand::Pass(Vec::new()));
}

#[test]
fn service_malformed_commands() {
    assert!(ServiceZone::from_str("").is_none());
    assert!(ServiceZone::from_str("start module cert").is_none());
    assert!(ServiceZone::from_str("init").is_none());
    assert!(ServiceZone::from_str("init module").is_none());
    assert!(ServiceZone::from_str("init module dns").is_none());
    assert!(ServiceZone::from_str("init cert").is_none());
}

#[test]
fn service_work_for_each_command() {
    let sz = ServiceZone::from_str("ini mod cert").unwrap();
    assert_eq!(ServiceZone::process(sz), ServiceWork::Init(Module::Cert));
    let sz = ServiceZone::from_str("init all").unwrap();
    assert_eq!(
        ServiceZone::process(sz),
        ServiceWork::Answer(String::from("Init operation is not supported by target filter"))
    );
    let sz = ServiceZone::from_str("manage all").unwrap();
    assert_eq!(
        ServiceZone::process(sz),
        ServiceWork::Answer(String::from("Manage operation is not supported by target filter"))
    );
    let sz = ServiceZone::from_str("manage module cert").unwrap();
    assert_eq!(
        ServiceZone::process(sz),
        ServiceWork::Answer(String::from("Bad operand for Manage operation"))
    );
    let sz = ServiceZone::new(ServiceAction::Init, ServiceOperand::All, ServiceOperand::Nothing);
    assert_eq!(sz.op1, ServiceOperand::All);
}
