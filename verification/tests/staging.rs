use ros_client::ValueFormat;
use ros_client::client::Client;
use ros_client::client::ResourceListAccess;
use ros_client::client::ResourceSingleAccess;
use ros_client::config::ConfigClient;
use ros_client::config::quote_routeros;
use ros_client::hardware::MikrotikModel;
use ros_client::hardware::SwitchChip;
use ros_client::resource::ClearField;
use ros_client::resource::FieldEquals;
use ros_client::resource::FieldSelector;
use ros_client::resource::is_modified;
use ros_client::resources::BridgePort;
use ros_client::resources::BridgeVlan;
use ros_client::resources::SystemResource;
use ros_client::resources::BridgePortBridgeField;
use ros_client::resources::BridgePortCommentField;
use ros_client::resources::BridgePortInterfaceField;

fn fetched_port(id: &str, bridge: &str, interface: &str) -> BridgePort {
    let mut p = BridgePort::default();
    p.id.set_from_api(id).unwrap();
    p.bridge.set_from_api(bridge).unwrap();
    p.interface.set_from_api(interface).unwrap();
    p
}

#[test]
fn field_modification_detection() {
    let mut p = BridgePort::default();
    p.comment.set_from_api("old text").unwrap();
    assert!(!is_modified(&p));
    assert_eq!(None, p.comment.modified_value(&ValueFormat::Api));
    p.comment.set(String::from("new text"));
    assert!(is_modified(&p));
    assert_eq!(
        Some(String::from("new text")),
        p.comment.modified_value(&ValueFormat::Api)
    );
    p.comment.reset().unwrap();
    assert!(!is_modified(&p));
    assert_eq!(None, p.comment.modified_value(&ValueFormat::Api));
}

#[test]
fn commit_ordering() {
    // one row to delete, one modified, one new: the script must carry the
    // remove first, then the set, then the add
    let doomed = fetched_port("*1", "switch", "ether1");
    let kept = fetched_port("*2", "switch", "ether2");
    let mut coll = ResourceListAccess::from_fetched(vec![doomed, kept]);
    coll.remove(&FieldEquals { selector: BridgePortInterfaceField, value: String::from("ether1") });
    let kept_idx = coll.find_mut(&FieldEquals {
        selector: BridgePortInterfaceField,
        value: String::from("ether2"),
    });
    assert_eq!(1, kept_idx.len());
    coll.entry_mut(kept_idx[0]).comment.set(String::from("renumbered"));
    let fresh = coll.get_or_create_by_value(&BridgePortInterfaceField, String::from("ether9"));
    fresh.comment.set(String::from("brand new"));
    let mut backend = ConfigClient::new();
    coll.commit(&mut backend).unwrap();
    let script = backend.dump_cmd();
    let remove_at = script.find("remove [find where").expect("remove line");
    let set_at = script.find("set [ find where").expect("set line");
    let add_at = script.find("\nadd ").expect("add line");
    assert!(remove_at < set_at);
    assert!(set_at < add_at);
}

#[test]
fn get_or_create_by_value_idempotence() {
    let mut coll: ResourceListAccess<BridgePort> = ResourceListAccess::from_fetched(Vec::new());
    coll.get_or_create_by_value(&BridgePortInterfaceField, String::from("ether1"));
    assert_eq!(1, coll.visible_len());
    coll.get_or_create_by_value(&BridgePortInterfaceField, String::from("ether1"));
    assert_eq!(1, coll.visible_len());
    // and a second value makes a second row, once
    coll.get_or_create_by_value(&BridgePortInterfaceField, String::from("ether2"));
    coll.get_or_create_by_value(&BridgePortInterfaceField, String::from("ether2"));
    assert_eq!(2, coll.visible_len());
    assert_eq!(2, coll.iter().len());
    assert_eq!(vec![0usize, 1], coll.iter_mut());
}

#[test]
fn get_or_create_by_value2_idempotence() {
    let mut coll: ResourceListAccess<BridgePort> = ResourceListAccess::from_fetched(Vec::new());
    coll.get_or_create_by_value2(
        &BridgePortBridgeField,
        String::from("switch"),
        &BridgePortInterfaceField,
        String::from("ether1"),
    );
    assert_eq!(1, coll.visible_len());
    coll.get_or_create_by_value2(
        &BridgePortBridgeField,
        String::from("switch"),
        &BridgePortInterfaceField,
        String::from("ether1"),
    );
    assert_eq!(1, coll.visible_len());
}

#[test]
fn put_aside_and_reclaim() {
    let row = fetched_port("*1", "switch", "ether1");
    let mut coll = ResourceListAccess::from_fetched(vec![row]);
    coll.put_aside(&FieldEquals { selector: BridgePortBridgeField, value: String::from("switch") });
    assert_eq!(0, coll.visible_len());
    // claiming the same logical row restores it instead of duplicating it
    let restored = coll.get_or_create_by_value(&BridgePortInterfaceField, String::from("ether1"));
    assert_eq!(Some(String::from("*1")), *restored.id.get());
    assert_eq!(1, coll.visible_len());
    // an unclaimed set-aside row would have been deleted by the commit;
    // this one was claimed, so a commit emits no remove line
    let mut backend = ConfigClient::new();
    coll.commit(&mut backend).unwrap();
    let script = backend.dump_cmd();
    assert!(!script.contains("remove"));
}

#[test]
fn script_backend_add_and_list() {
    let mut backend = ConfigClient::new();
    let mut port = BridgePort::default();
    port.comment.set(String::from("hi"));
    backend.add(&port).unwrap();
    let script = backend.dump_cmd();
    assert_eq!("/interface bridge port\nadd comment=\"hi\"\n", script);
    let rows: Vec<BridgePort> = backend.list().unwrap();
    assert_eq!(1, rows.len());
    assert_eq!(Some(String::from("hi")), *rows[0].comment.get());
}

#[test]
fn script_backend_update_and_delete() {
    let mut backend = ConfigClient::new();
    let mut port = fetched_port("*1", "switch", "ether1");
    port.comment.set(String::from("hi"));
    backend.add(&port).unwrap();
    backend.dump_cmd();
    let mut rows: Vec<BridgePort> = backend.list().unwrap();
    assert_eq!(1, rows.len());
    let mut row = rows.remove(0);
    row.comment.set(String::from("patched"));
    backend.update(&row).unwrap();
    let script = backend.dump_cmd();
    assert_eq!(
        "/interface bridge port\nset [ find where .id=\"*1\" ] comment=\"patched\"\n",
        script
    );
    let listed: Vec<BridgePort> = backend.list().unwrap();
    assert_eq!(Some(String::from("patched")), *listed[0].comment.get());
    backend.delete(&listed[0]).unwrap();
    let listed_after: Vec<BridgePort> = backend.list().unwrap();
    assert_eq!(0, listed_after.len());
}

#[test]
fn quoting_escapes() {
    assert_eq!("\"plain\"", quote_routeros("plain"));
    assert_eq!("\"a\\\"b\"", quote_routeros("a\"b"));
    assert_eq!("\"a\\nb\\tc\\$d\"", quote_routeros("a\nb\tc$d"));
}

#[test]
fn dynamic_rows_are_not_written_back() {
    let mut row = fetched_port("*1", "switch", "ether1");
    row.dynamic.set_from_api("true").unwrap();
    row.comment.set(String::from("touched"));
    let mut coll = ResourceListAccess::from_fetched(vec![row]);
    let mut backend = ConfigClient::new();
    coll.commit(&mut backend).unwrap();
    assert_eq!("", backend.dump_cmd());
}

#[test]
fn hardware_models() {
    assert!(matches!(
        MikrotikModel::parse_board_name("CRS109-8G-1S-2HnD"),
        Some(MikrotikModel::Crs109)
    ));
    assert!(matches!(
        MikrotikModel::parse_board_name("CRS326-24G-2S+"),
        Some(MikrotikModel::Crs326)
    ));
    assert!(MikrotikModel::parse_board_name("RB2011").is_none());
    assert!(matches!(MikrotikModel::Crs109.switch_chip(), SwitchChip::Qca8513L));
    assert!(matches!(MikrotikModel::Crs326.switch_chip(), SwitchChip::Dx3236));
    let names = MikrotikModel::Crs109.ethernet_interface_names();
    assert_eq!(9, names.len());
    assert_eq!("ether1", names[0]);
    assert_eq!("ether8", names[7]);
    assert_eq!("sfp1", names[8]);
    let wide = MikrotikModel::Crs326.ethernet_interface_names();
    assert_eq!(26, wide.len());
    assert_eq!("sfp-sfpplus2", wide[25]);
    assert_eq!(vec![String::from("wlan1")], MikrotikModel::Crs109.wireless_interface_names());
    assert!(MikrotikModel::Crs326.wireless_interface_names().is_empty());
}

#[test]
fn default_config_seeds_the_mirror() {
    let mut backend = ConfigClient::with_default_config(MikrotikModel::Crs109).unwrap();
    let eth: Vec<ros_client::resources::Ethernet> = backend.list().unwrap();
    assert_eq!(9, eth.len());
    assert_eq!(Some(String::from("ether1")), *eth[0].default_name.get());
    let system: Vec<ros_client::resources::SystemResource> = backend.list().unwrap();
    assert_eq!(1, system.len());
    assert_eq!(Some(String::from("CRS109 Dummy")), *system[0].board_name.get());
}

#[test]
fn comment_field_selector_reaches_the_cell() {
    let mut p = BridgePort::default();
    BridgePortCommentField.get_mut(&mut p).set(String::from("hi"));
    assert_eq!(Some(String::from("hi")), *BridgePortCommentField.get(&p).get());
}

#[test]
fn bridge_vlan_compound_fields() {
    let mut vlan = BridgeVlan::default();
    vlan.tagged.set_from_api("ether1,ether2").unwrap();
    vlan.vlan_ids.set_from_api("200,300-400").unwrap();
    let tagged = vlan.tagged.get().as_ref().unwrap();
    assert_eq!(2, tagged.len());
    let ids = vlan.vlan_ids.get().as_ref().unwrap();
    assert_eq!(2, ids.len());
    assert_eq!("200,300-400", vlan.vlan_ids.api_value(&ValueFormat::Api));
    assert!(vlan.vlan_ids.set_from_api("1,x").is_err());
}

#[test]
fn put_all_aside_and_mutate_clears_fields() {
    let row = fetched_port("*1", "switch", "ether1");
    let mut coll = ResourceListAccess::from_fetched(vec![row]);
    coll.put_all_aside_and_mutate(&ClearField { selector: BridgePortBridgeField });
    assert_eq!(0, coll.visible_len());
    let restored = coll.get_or_create_by_value(&BridgePortInterfaceField, String::from("ether1"));
    assert_eq!(None, *restored.bridge.get());
    assert_eq!(Some(String::from("*1")), *restored.id.get());
}

#[test]
fn single_resource_commit_and_refetch() {
    let mut backend = ConfigClient::new();
    let mut system = ResourceSingleAccess::<SystemResource>::get(&mut backend).unwrap();
    assert_eq!(None, *system.data().board_name.get());
    system.data_mut().board_name.set(String::from("CRS109 Dummy"));
    system.commit(&mut backend).unwrap();
    let script = backend.dump_cmd();
    assert_eq!("/system resource\nset board-name=\"CRS109 Dummy\"\n", script);
    // the re-fetch behind the commit read the mirror back
    assert_eq!(
        Some(String::from("CRS109 Dummy")),
        *system.data().board_name.get()
    );
    assert!(!ros_client::resource::is_modified(system.data()));
}

#[test]
fn mutate_variants_spare_previously_set_aside_rows() {
    let older = fetched_port("*1", "switch", "ether1");
    let newer = fetched_port("*2", "switch", "ether2");
    let mut coll = ResourceListAccess::from_fetched(vec![older, newer]);
    // set the first row aside untouched
    coll.put_aside(&FieldEquals {
        selector: BridgePortInterfaceField,
        value: String::from("ether1"),
    });
    // displacing the second row clears its bridge field; the first row,
    // set aside earlier, keeps its bridge even though the filter matches it
    coll.put_aside_and_mutate(
        &FieldEquals { selector: BridgePortBridgeField, value: String::from("switch") },
        &ClearField { selector: BridgePortBridgeField },
    );
    let first = coll.get_or_create_by_value(&BridgePortInterfaceField, String::from("ether1"));
    assert_eq!(Some(String::from("switch")), *first.bridge.get());
    let second = coll.get_or_create_by_value(&BridgePortInterfaceField, String::from("ether2"));
    assert_eq!(None, *second.bridge.get());
}

#[test]
fn parse_system_reports_the_board() {
    let mut system = SystemResource::default();
    system.board_name.set_from_api("RB2011").unwrap();
    match MikrotikModel::parse_system(&system) {
        Err(ros_client::RosError::SimpleMessage(m)) => {
            assert_eq!("Unsupported Board: RB2011", m);
        },
        other => panic!("expected an unsupported-board failure, got {:?}", other),
    }
    let known = {
        let mut s = SystemResource::default();
        s.board_name.set_from_api("CRS326-24G-2S+").unwrap();
        s
    };
    assert!(matches!(
        MikrotikModel::parse_system(&known),
        Ok(MikrotikModel::Crs326)
    ));
}
