//! The document loader: records, match clauses, rules and the include
//! paths a rule file names.

use usbwatch::loader::{
    create_rule_doc, device_from_node, devices_doc, include_paths, match_from_node,
    port_from_node, ports_doc, rule_from_node, rules_doc, DeviceFile, LoadError, PortFile,
};
use usbwatch::node::Node;
use usbwatch::usb::{UsbDevice, UsbEvent};

fn dict(entries: Vec<(&str, Node)>) -> Node {
    Node::Dict(entries.into_iter().map(|(k, v)| (k.to_string(), v)).collect())
}

fn s(v: &str) -> Node {
    Node::Str(v.to_string())
}

#[test]
fn device_record_reads_wire_field_names() {
    let n = dict(vec![
        ("name", s("stick")),
        ("ID_VENDOR_ID", s("0781")),
        ("ID_MODEL", s("Cruzer")),
    ]);
    let d = device_from_node(&n).unwrap();
    assert_eq!(d.name, Some("stick".to_string()));
    assert_eq!(d.id_vendor_id, Some("0781".to_string()));
    assert_eq!(d.id_model, Some("Cruzer".to_string()));
    assert_eq!(d.id_serial, None);
}

#[test]
fn device_record_requires_a_name() {
    let n = dict(vec![("ID_VENDOR_ID", s("0781"))]);
    assert_eq!(device_from_node(&n), Err(LoadError::MissingDeviceName));
    assert_eq!(
        LoadError::MissingDeviceName.message(),
        "failed to parse YAML for Device; missing required 'name' key"
    );
}

#[test]
fn port_record_reads_sysnum_when_non_negative() {
    let with_num = dict(vec![("name", s("left")), ("sysnum", Node::Int(5))]);
    assert_eq!(port_from_node(&with_num).unwrap().sysnum, Some(5));
    let negative = dict(vec![("name", s("left")), ("sysnum", Node::Int(-1))]);
    assert_eq!(port_from_node(&negative).unwrap().sysnum, None);
    let missing_name = dict(vec![("sysnum", Node::Int(5))]);
    assert_eq!(port_from_node(&missing_name), Err(LoadError::MissingPortName));
}

#[test]
fn device_and_port_documents() {
    let doc = dict(vec![(
        "devices",
        Node::List(vec![
            dict(vec![("name", s("a")), ("ID_SERIAL", s("s1"))]),
            dict(vec![("name", s("b"))]),
        ]),
    )]);
    let devices = devices_doc(&doc).unwrap();
    assert_eq!(devices.len(), 2);
    assert_eq!(devices[0].id_serial, Some("s1".to_string()));

    let bad = dict(vec![("ports", Node::List(Vec::new()))]);
    assert_eq!(devices_doc(&bad), Err(LoadError::BadDocument));

    let pdoc = dict(vec![(
        "ports",
        Node::List(vec![dict(vec![("name", s("left")), ("syspath", s("/sys/A"))])]),
    )]);
    let ports = ports_doc(&pdoc).unwrap();
    assert_eq!(ports.len(), 1);
    assert_eq!(ports[0].syspath, Some("/sys/A".to_string()));
}

#[test]
fn match_clause_requires_a_parsable_on() {
    let no_files: (Vec<DeviceFile>, Vec<PortFile>) = (Vec::new(), Vec::new());
    let missing = dict(vec![("devices", Node::List(Vec::new()))]);
    assert_eq!(
        match_from_node(&missing, &no_files.0, &no_files.1).map(|_| ()),
        Err(LoadError::MissingOn)
    );
    let bad = dict(vec![("on", s("sideways"))]);
    assert_eq!(
        match_from_node(&bad, &no_files.0, &no_files.1).map(|_| ()),
        Err(LoadError::BadOn)
    );
    let upper = dict(vec![("on", s("ADD"))]);
    let m = match_from_node(&upper, &no_files.0, &no_files.1).unwrap();
    assert_eq!(m.on, UsbEvent::Add);
    assert!(m.devices.is_empty());
    assert!(m.ports.is_empty());
}

#[test]
fn match_clause_collects_inline_and_named_devices() {
    let no_dev_files: Vec<DeviceFile> = Vec::new();
    let no_port_files: Vec<PortFile> = Vec::new();
    let n = dict(vec![
        ("on", s("add")),
        (
            "devices",
            Node::List(vec![
                dict(vec![("name", s("inline")), ("ID_VENDOR_ID", s("1234"))]),
                s("plain"),
                s("!inline"),
            ]),
        ),
        ("ports", Node::List(vec![s("left")])),
    ]);
    let m = match_from_node(&n, &no_dev_files, &no_port_files).unwrap();
    assert_eq!(m.devices.len(), 2);
    assert_eq!(m.devices[0].name, Some("inline".to_string()));
    assert_eq!(m.devices[1].name, Some("plain".to_string()));
    // The `!inline` entry marks the position of the record named
    // `inline` as ignored.
    assert_eq!(m.ignore_devices, vec![0]);
    assert_eq!(m.ports.len(), 1);
    assert_eq!(m.ports[0].name, Some("left".to_string()));
}

#[test]
fn match_clause_resolves_include_and_exclude_files() {
    let dev_files = vec![
        DeviceFile {
            path: "good.yaml".to_string(),
            devices: vec![UsbDevice {
                name: Some("good".to_string()),
                id_vendor_id: Some("aaaa".to_string()),
                ..Default::default()
            }],
        },
        DeviceFile {
            path: "bad.yaml".to_string(),
            devices: vec![
                UsbDevice {
                    name: Some("bad1".to_string()),
                    id_vendor_id: Some("bbbb".to_string()),
                    ..Default::default()
                },
                UsbDevice {
                    name: Some("bad2".to_string()),
                    id_vendor_id: Some("cccc".to_string()),
                    ..Default::default()
                },
            ],
        },
    ];
    let no_port_files: Vec<PortFile> = Vec::new();
    let n = dict(vec![
        ("on", s("add")),
        (
            "devices",
            Node::List(vec![
                dict(vec![("include_devices", s("good.yaml"))]),
                dict(vec![("exclude_devices", s("bad.yaml"))]),
            ]),
        ),
    ]);
    let m = match_from_node(&n, &dev_files, &no_port_files).unwrap();
    assert_eq!(m.devices.len(), 3);
    // The excluded records keep their appended positions and exactly
    // those positions are ignored.
    assert_eq!(m.ignore_devices, vec![1, 2]);

    let gone = dict(vec![
        ("on", s("add")),
        ("devices", Node::List(vec![dict(vec![("include_devices", s("missing.yaml"))])])),
    ]);
    assert_eq!(
        match_from_node(&gone, &dev_files, &no_port_files).map(|_| ()),
        Err(LoadError::MissingDeviceFile)
    );
}

#[test]
fn bad_device_entry_is_rejected() {
    let no_dev_files: Vec<DeviceFile> = Vec::new();
    let no_port_files: Vec<PortFile> = Vec::new();
    let n = dict(vec![
        ("on", s("add")),
        ("devices", Node::List(vec![Node::Int(7)])),
    ]);
    assert_eq!(
        match_from_node(&n, &no_dev_files, &no_port_files).map(|_| ()),
        Err(LoadError::BadDeviceEntry)
    );
}

#[test]
fn rule_requires_name_match_and_command() {
    let no_dev_files: Vec<DeviceFile> = Vec::new();
    let no_port_files: Vec<PortFile> = Vec::new();
    let good = dict(vec![
        ("name", s("mount")),
        ("match", dict(vec![("on", s("add"))])),
        ("command", s("true")),
    ]);
    let r = rule_from_node(&good, &no_dev_files, &no_port_files).unwrap();
    assert_eq!(r.name, "mount");
    assert_eq!(r.command_shell, "/bin/sh");
    assert_eq!(r.command, "true");

    let shelled = dict(vec![
        ("name", s("mount")),
        ("match", dict(vec![("on", s("add"))])),
        ("command_shell", s("/bin/bash")),
        ("command", s("true")),
    ]);
    assert_eq!(
        rule_from_node(&shelled, &no_dev_files, &no_port_files).unwrap().command_shell,
        "/bin/bash"
    );

    let nameless = dict(vec![("match", dict(vec![("on", s("add"))])), ("command", s("true"))]);
    assert_eq!(
        rule_from_node(&nameless, &no_dev_files, &no_port_files).map(|_| ()),
        Err(LoadError::MissingRuleName)
    );
    let matchless = dict(vec![("name", s("mount")), ("command", s("true"))]);
    assert_eq!(
        rule_from_node(&matchless, &no_dev_files, &no_port_files).map(|_| ()),
        Err(LoadError::MissingMatch)
    );
    let commandless = dict(vec![("name", s("mount")), ("match", dict(vec![("on", s("add"))]))]);
    assert_eq!(
        rule_from_node(&commandless, &no_dev_files, &no_port_files).map(|_| ()),
        Err(LoadError::MissingCommand)
    );
}

#[test]
fn rules_document_reads_rules_in_order() {
    let no_dev_files: Vec<DeviceFile> = Vec::new();
    let no_port_files: Vec<PortFile> = Vec::new();
    let doc = dict(vec![(
        "rules",
        Node::List(vec![
            dict(vec![
                ("name", s("one")),
                ("match", dict(vec![("on", s("add"))])),
                ("command", s("echo one")),
            ]),
            dict(vec![
                ("name", s("two")),
                ("match", dict(vec![("on", s("remove"))])),
                ("command", s("echo two")),
            ]),
        ]),
    )]);
    let rules = rules_doc(&doc, &no_dev_files, &no_port_files).unwrap();
    assert_eq!(rules.rules.len(), 2);
    assert_eq!(rules.rules[0].name, "one");
    assert_eq!(rules.rules[1].match_clause.on, UsbEvent::Remove);

    let empty = dict(vec![("something", s("else"))]);
    assert_eq!(rules_doc(&empty, &no_dev_files, &no_port_files).unwrap().rules.len(), 0);
}

#[test]
fn include_paths_are_collected_in_order() {
    let doc = dict(vec![(
        "rules",
        Node::List(vec![
            dict(vec![
                ("name", s("one")),
                (
                    "match",
                    dict(vec![
                        ("on", s("add")),
                        (
                            "devices",
                            Node::List(vec![
                                dict(vec![("include_devices", s("a.yaml"))]),
                                dict(vec![("exclude_devices", s("b.yaml"))]),
                                s("plain"),
                            ]),
                        ),
                        ("ports", Node::List(vec![dict(vec![("include_ports", s("p.yaml"))])])),
                    ]),
                ),
                ("command", s("true")),
            ]),
            dict(vec![
                ("name", s("two")),
                (
                    "match",
                    dict(vec![
                        ("on", s("add")),
                        ("devices", Node::List(vec![dict(vec![("include_devices", s("c.yaml"))])])),
                    ]),
                ),
                ("command", s("true")),
            ]),
        ]),
    )]);
    let (dev_paths, port_paths) = include_paths(&doc);
    assert_eq!(dev_paths, vec!["a.yaml".to_string(), "b.yaml".to_string(), "c.yaml".to_string()]);
    assert_eq!(port_paths, vec!["p.yaml".to_string()]);
}

#[test]
fn created_rule_document_has_the_requested_shape() {
    let dev_paths = vec!["devs.yaml".to_string()];
    let port_paths: Vec<String> = Vec::new();
    let doc = create_rule_doc("mount", "/bin/sh", "true", UsbEvent::Add, &dev_paths, &port_paths);
    assert_eq!(doc.get_str("name"), Some(&"mount".to_string()));
    assert_eq!(doc.get_str("command"), Some(&"true".to_string()));
    // The default shell is left implicit.
    assert!(doc.get("command_shell").is_none());
    let m = doc.get("match").unwrap();
    assert_eq!(m.get_str("on"), Some(&"add".to_string()));
    let devices = m.get_list("devices").unwrap();
    assert_eq!(devices.len(), 1);
    assert_eq!(devices[0].get_str("include_devices"), Some(&"devs.yaml".to_string()));
    assert!(m.get("ports").is_none());

    let shelled = create_rule_doc("x", "/bin/bash", "true", UsbEvent::All, &port_paths, &port_paths);
    assert_eq!(shelled.get_str("command_shell"), Some(&"/bin/bash".to_string()));
    assert!(shelled.get("match").unwrap().get("devices").is_none());
}
