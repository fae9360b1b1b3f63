use firmware_attributes::{
    Attribute, AttributeError, EntryDir, EnumerationListAttribute, IntegerAttribute,
    OrderedListAttribute, PropertyFile, RootProbe, StringAttribute,
};
use std::cell::RefCell;
use std::collections::HashMap;

/// Files of a pretend storage, by path.
struct Store {
    files: RefCell<HashMap<String, String>>,
}

impl Store {
    fn new(files: &[(&str, &str)]) -> Store {
        Store {
            files: RefCell::new(
                files.iter().map(|(p, c)| (p.to_string(), c.to_string())).collect(),
            ),
        }
    }

    fn entry(&self, path: &str) -> EntryDir {
        let prefix = format!("{}/", path);
        let files = self.files.borrow();
        let mut names: Vec<&String> = files
            .keys()
            .filter(|k| k.starts_with(&prefix) && !k[prefix.len()..].contains('/'))
            .collect();
        names.sort();
        EntryDir {
            path: path.to_string(),
            name: path.rsplit('/').next().unwrap().to_string(),
            is_dir: !names.is_empty(),
            files: names
                .into_iter()
                .map(|k| PropertyFile {
                    name: k[prefix.len()..].to_string(),
                    content: Ok(files[k].clone()),
                })
                .collect(),
        }
    }

    fn read(&self) -> impl FnOnce(String) -> Option<Result<String, String>> + '_ {
        move |p: String| self.files.borrow().get(&p).cloned().map(Ok)
    }

    fn write(&self) -> impl FnOnce(String, String) -> Option<Result<(), String>> + '_ {
        move |p: String, v: String| {
            let mut files = self.files.borrow_mut();
            if files.contains_key(&p) {
                files.insert(p, v);
                Some(Ok(()))
            } else {
                None
            }
        }
    }

    fn get(&self, p: &str) -> String {
        self.files.borrow()[p].clone()
    }

    fn set(&self, p: &str, v: &str) {
        self.files.borrow_mut().insert(p.to_string(), v.to_string());
    }
}

fn strings(v: &[&str]) -> Vec<String> {
    v.iter().map(|s| s.to_string()).collect()
}

fn root() -> RootProbe {
    RootProbe { path: "/fw".to_string(), has_attributes: true, has_authentication: true }
}

#[test]
fn temperature_integer_example() {
    let store = Store::new(&[
        ("/fw/attributes/Temperature/type", "integer\n"),
        ("/fw/attributes/Temperature/current_value", "42\n"),
        ("/fw/attributes/Temperature/min_value", "0\n"),
        ("/fw/attributes/Temperature/max_value", "100\n"),
    ]);
    let dir = store.entry("/fw/attributes/Temperature");
    let mut a = match Attribute::attribute(&root(), &dir).unwrap() {
        Attribute::Integer(a) => a,
        other => panic!("unexpected {:?}", other),
    };
    assert_eq!((a.min_value, a.max_value, a.scalar_increment), (0, 100, 1));
    assert_eq!(a.current_value(store.read()).unwrap(), 42);
    a.write_current_value(&50, store.write()).unwrap();
    assert_eq!(store.get("/fw/attributes/Temperature/current_value"), "50");
    assert_eq!(a.current_value(store.read()).unwrap(), 50);
    a.write_current_value(&150, store.write()).unwrap();
    assert_eq!(a.current_value(store.read()).unwrap(), 150);
}

#[test]
fn integer_defaults() {
    let store = Store::new(&[("/fw/attributes/Level/type", "integer")]);
    let a = IntegerAttribute::load(&store.entry("/fw/attributes/Level")).unwrap();
    assert_eq!((a.min_value, a.max_value, a.scalar_increment), (0, 2147483647, 1));
    assert_eq!(a.common_attribute.default_value, None);
}

#[test]
fn string_defaults_and_hint() {
    let store = Store::new(&[
        ("/fw/attributes/Asset/type", "string\n"),
        ("/fw/attributes/Asset/possible_values", "free text;any\n"),
    ]);
    let a = StringAttribute::load(&store.entry("/fw/attributes/Asset")).unwrap();
    assert_eq!((a.min_length, a.max_length), (0, 128));
    assert_eq!(a.hint, Some("free text;any".to_string()));
}

#[test]
fn enumeration_reads_candidates_and_labels() {
    let store = Store::new(&[
        ("/fw/attributes/WakeOnLAN/type", "enumeration\n"),
        ("/fw/attributes/WakeOnLAN/possible_values", "Enabled;Disabled\n"),
        ("/fw/attributes/WakeOnLAN/default_value", "Disabled\n"),
        ("/fw/attributes/WakeOnLAN/display_name", "Wake on LAN\n"),
        ("/fw/attributes/WakeOnLAN/display_name_language_code", "en_US\n"),
        ("/fw/attributes/WakeOnLAN/current_value", "Enabled\n"),
    ]);
    let mut a = match Attribute::load(&store.entry("/fw/attributes/WakeOnLAN")).unwrap() {
        Attribute::Enumeration(a) => a,
        other => panic!("unexpected {:?}", other),
    };
    assert_eq!(a.possible_values, strings(&["Enabled", "Disabled"]));
    assert_eq!(a.common_attribute.name, "WakeOnLAN");
    assert_eq!(a.common_attribute.display_name(), "Wake on LAN");
    assert_eq!(a.common_attribute.default_value, Some("Disabled".to_string()));
    assert_eq!(a.common_attribute.display_name_language_code, Some("en_US".to_string()));
    assert_eq!(a.current_value(store.read()).unwrap(), "Enabled");
    a.write_current_value(&"Disabled".to_string(), store.write()).unwrap();
    assert_eq!(a.current_value(store.read()).unwrap(), "Disabled");
}

#[test]
fn display_name_falls_back_to_name() {
    let store = Store::new(&[("/fw/attributes/Asset/type", "string")]);
    let a = StringAttribute::load(&store.entry("/fw/attributes/Asset")).unwrap();
    assert_eq!(a.common_attribute.display_name(), "Asset");
}

#[test]
fn boot_order_enumeration_is_an_enumeration_list() {
    let store = Store::new(&[
        ("/fw/attributes/BootOrder/type", "enumeration\n"),
        ("/fw/attributes/BootOrder/possible_values", "HDD0;USB;PXE\n"),
        ("/fw/attributes/BootOrder/elements", "ignored\n"),
        ("/fw/attributes/BootOrder/current_value", "USB:HDD0\n"),
    ]);
    let mut a = match Attribute::load(&store.entry("/fw/attributes/BootOrder")).unwrap() {
        Attribute::EnumerationList(a) => a,
        other => panic!("unexpected {:?}", other),
    };
    assert_eq!(a.possible_values, strings(&["HDD0", "USB", "PXE"]));
    assert_eq!(a.current_value(store.read()).unwrap(), strings(&["USB", "HDD0"]));
}

#[test]
fn other_enumeration_is_not_reclassified() {
    let store = Store::new(&[("/fw/attributes/BootMode/type", "enumeration\n")]);
    assert!(matches!(
        Attribute::load(&store.entry("/fw/attributes/BootMode")),
        Ok(Attribute::Enumeration(_))
    ));
    assert!(firmware_attributes::is_enumeration_list_attribute("BootOrder"));
    assert!(!firmware_attributes::is_enumeration_list_attribute("BootMode"));
}

#[test]
fn attribute_type_applies_quirk() {
    let store = Store::new(&[("/fw/attributes/BootOrder/type", "enumeration\n")]);
    assert_eq!(
        firmware_attributes::attribute_type(&store.entry("/fw/attributes/BootOrder")).unwrap(),
        "enumeration-list"
    );
}

#[test]
fn enumeration_list_default_splits_on_colon() {
    let store = Store::new(&[
        ("/fw/attributes/Order/type", "enumeration-list"),
        ("/fw/attributes/Order/default_value", "a:b"),
        ("/fw/attributes/Order/possible_values", "a;b;c"),
        ("/fw/attributes/Order/current_value", "c"),
    ]);
    let mut a = EnumerationListAttribute::load(&store.entry("/fw/attributes/Order")).unwrap();
    assert_eq!(a.common_attribute.default_value, Some(strings(&["a", "b"])));
    a.write_current_value(&strings(&["b", "a", "c"]), store.write()).unwrap();
    assert_eq!(store.get("/fw/attributes/Order/current_value"), "b:a:c");
    assert_eq!(a.current_value(store.read()).unwrap(), strings(&["b", "a", "c"]));
}

#[test]
fn ordered_list_uses_elements_then_possible_values() {
    let store = Store::new(&[
        ("/fw/attributes/A/type", "ordered-list"),
        ("/fw/attributes/A/elements", "x;y"),
        ("/fw/attributes/A/possible_values", "p;q"),
        ("/fw/attributes/B/type", "ordered-list"),
        ("/fw/attributes/B/possible_values", "p;q"),
        ("/fw/attributes/B/default_value", "q;p"),
        ("/fw/attributes/B/current_value", "p;;q\n"),
        ("/fw/attributes/C/type", "ordered-list"),
    ]);
    let a = OrderedListAttribute::load(&store.entry("/fw/attributes/A")).unwrap();
    assert_eq!(a.elements, strings(&["x", "y"]));
    let mut b = OrderedListAttribute::load(&store.entry("/fw/attributes/B")).unwrap();
    assert_eq!(b.elements, strings(&["p", "q"]));
    assert_eq!(b.common_attribute.default_value, Some(strings(&["q", "p"])));
    assert_eq!(b.current_value(store.read()).unwrap(), strings(&["p", "", "q"]));
    b.write_current_value(&strings(&["q", "p"]), store.write()).unwrap();
    assert_eq!(store.get("/fw/attributes/B/current_value"), "q;p");
    let c = OrderedListAttribute::load(&store.entry("/fw/attributes/C")).unwrap();
    assert!(c.elements.is_empty());
}

#[test]
fn cached_value_is_kept_until_a_write() {
    let store = Store::new(&[
        ("/fw/attributes/Asset/type", "string"),
        ("/fw/attributes/Asset/current_value", "one\n"),
    ]);
    let mut a = StringAttribute::load(&store.entry("/fw/attributes/Asset")).unwrap();
    assert_eq!(a.current_value(store.read()).unwrap(), "one");
    store.set("/fw/attributes/Asset/current_value", "two\n");
    assert_eq!(a.current_value(store.read()).unwrap(), "one");
    a.write_current_value(&"three".to_string(), store.write()).unwrap();
    store.set("/fw/attributes/Asset/current_value", "four\n");
    assert_eq!(a.current_value(store.read()).unwrap(), "four");
}

#[test]
fn failed_write_still_clears_cache() {
    let store = Store::new(&[
        ("/fw/attributes/Asset/type", "string"),
        ("/fw/attributes/Asset/current_value", "one"),
    ]);
    let mut a = StringAttribute::load(&store.entry("/fw/attributes/Asset")).unwrap();
    assert_eq!(a.current_value(store.read()).unwrap(), "one");
    let refused = |_p: String, _v: String| Some(Err("permission denied".to_string()));
    match a.write_current_value(&"two".to_string(), refused) {
        Err(AttributeError::IOError(m)) => assert_eq!(m, "permission denied"),
        other => panic!("unexpected {:?}", other),
    }
    store.set("/fw/attributes/Asset/current_value", "three");
    assert_eq!(a.current_value(store.read()).unwrap(), "three");
}

#[test]
fn write_never_creates_a_property() {
    let store = Store::new(&[("/fw/attributes/Asset/type", "string")]);
    let mut a = StringAttribute::load(&store.entry("/fw/attributes/Asset")).unwrap();
    match a.write_current_value(&"x".to_string(), store.write()) {
        Err(AttributeError::MissingFile(p)) => {
            assert_eq!(p, "/fw/attributes/Asset/current_value")
        }
        other => panic!("unexpected {:?}", other),
    }
    match a.current_value(store.read()) {
        Err(AttributeError::MissingFile(p)) => {
            assert_eq!(p, "/fw/attributes/Asset/current_value")
        }
        other => panic!("unexpected {:?}", other),
    }
}

#[test]
fn integer_current_value_must_parse() {
    let store = Store::new(&[
        ("/fw/attributes/Level/type", "integer"),
        ("/fw/attributes/Level/current_value", "high"),
    ]);
    let mut a = IntegerAttribute::load(&store.entry("/fw/attributes/Level")).unwrap();
    match a.current_value(store.read()) {
        Err(AttributeError::ParseIntError(t)) => assert_eq!(t, "high"),
        other => panic!("unexpected {:?}", other),
    }
}

#[test]
fn bad_integer_metadata_fails_the_load() {
    let store = Store::new(&[
        ("/fw/attributes/Level/type", "integer"),
        ("/fw/attributes/Level/max_value", "lots"),
    ]);
    assert!(matches!(
        Attribute::load(&store.entry("/fw/attributes/Level")),
        Err(AttributeError::ParseIntError(_))
    ));
}

#[test]
fn unsupported_type_is_reported() {
    let store = Store::new(&[("/fw/attributes/X/type", "password")]);
    match Attribute::load(&store.entry("/fw/attributes/X")) {
        Err(AttributeError::UnsupportedAttributeType(t)) => assert_eq!(t, "password"),
        other => panic!("unexpected {:?}", other),
    }
}

#[test]
fn missing_type_and_missing_directory() {
    let store = Store::new(&[("/fw/attributes/X/current_value", "1")]);
    match Attribute::load(&store.entry("/fw/attributes/X")) {
        Err(AttributeError::MissingFile(p)) => assert_eq!(p, "/fw/attributes/X/type"),
        other => panic!("unexpected {:?}", other),
    }
    match Attribute::load(&store.entry("/fw/attributes/Y")) {
        Err(AttributeError::MissingDirectory(p)) => assert_eq!(p, "/fw/attributes/Y"),
        other => panic!("unexpected {:?}", other),
    }
}

#[test]
fn unreadable_property_is_an_io_error() {
    let dir = EntryDir {
        path: "/fw/attributes/X".to_string(),
        name: "X".to_string(),
        is_dir: true,
        files: vec![
            PropertyFile { name: "type".to_string(), content: Ok("string\n".to_string()) },
            PropertyFile {
                name: "display_name".to_string(),
                content: Err("input/output error".to_string()),
            },
        ],
    };
    match Attribute::load(&dir) {
        Err(AttributeError::IOError(m)) => assert_eq!(m, "input/output error"),
        other => panic!("unexpected {:?}", other),
    }
}

#[test]
fn facade_rejects_invalid_root() {
    let bad = RootProbe { path: "/tmp".to_string(), has_attributes: true, has_authentication: false };
    let store = Store::new(&[("/tmp/attributes/X/type", "string")]);
    match Attribute::attribute(&bad, &store.entry("/tmp/attributes/X")) {
        Err(AttributeError::InvalidRoot(p)) => assert_eq!(p, "/tmp"),
        other => panic!("unexpected {:?}", other),
    }
}

#[test]
fn pending_reboot_is_exactly_one() {
    let attrs = |v: &str| EntryDir {
        path: "/fw/attributes".to_string(),
        name: "attributes".to_string(),
        is_dir: true,
        files: vec![PropertyFile { name: "pending_reboot".to_string(), content: Ok(v.to_string()) }],
    };
    assert!(Attribute::pending_reboot(&root(), &attrs("1\n")).unwrap());
    assert!(!Attribute::pending_reboot(&root(), &attrs("0\n")).unwrap());
    assert!(!Attribute::pending_reboot(&root(), &attrs("11")).unwrap());
    let empty = EntryDir {
        path: "/fw/attributes".to_string(),
        name: "attributes".to_string(),
        is_dir: true,
        files: vec![],
    };
    match Attribute::pending_reboot(&root(), &empty) {
        Err(AttributeError::MissingFile(p)) => assert_eq!(p, "/fw/attributes/pending_reboot"),
        other => panic!("unexpected {:?}", other),
    }
}

#[test]
fn round_trip_through_storage_for_every_kind() {
    let store = Store::new(&[
        ("/fw/attributes/E/type", "enumeration"),
        ("/fw/attributes/E/current_value", "a"),
        ("/fw/attributes/I/type", "integer"),
        ("/fw/attributes/I/current_value", "0"),
        ("/fw/attributes/S/type", "string"),
        ("/fw/attributes/S/current_value", ""),
        ("/fw/attributes/O/type", "ordered-list"),
        ("/fw/attributes/O/current_value", ""),
        ("/fw/attributes/L/type", "enumeration-list"),
        ("/fw/attributes/L/current_value", ""),
    ]);
    for (name, _) in [("E", 0), ("I", 0), ("S", 0), ("O", 0), ("L", 0)] {
        match Attribute::load(&store.entry(&format!("/fw/attributes/{}", name))).unwrap() {
            Attribute::Enumeration(mut a) => {
                a.write_current_value(&"Enabled".to_string(), store.write()).unwrap();
                assert_eq!(a.current_value(store.read()).unwrap(), "Enabled");
            }
            Attribute::Integer(mut a) => {
                a.write_current_value(&-17, store.write()).unwrap();
                assert_eq!(a.current_value(store.read()).unwrap(), -17);
            }
            Attribute::String(mut a) => {
                a.write_current_value(&"asset 7".to_string(), store.write()).unwrap();
                assert_eq!(a.current_value(store.read()).unwrap(), "asset 7");
            }
            Attribute::OrderedList(mut a) => {
                let v = strings(&["b", "a"]);
                a.write_current_value(&v, store.write()).unwrap();
                assert_eq!(a.current_value(store.read()).unwrap(), v);
            }
            Attribute::EnumerationList(mut a) => {
                let v = strings(&["x", "y", "z"]);
                a.write_current_value(&v, store.write()).unwrap();
                assert_eq!(a.current_value(store.read()).unwrap(), v);
            }
        }
    }
}

#[test]
fn attributes_that_fail_to_load_are_left_out() {
    let store = Store::new(&[
        ("/fw/attributes/A/type", "string"),
        ("/fw/attributes/B/type", "unknown"),
        ("/fw/attributes/C/type", "integer"),
    ]);
    let dirs = vec![
        store.entry("/fw/attributes/A"),
        store.entry("/fw/attributes/B"),
        store.entry("/fw/attributes/C"),
        store.entry("/fw/attributes/D"),
    ];
    let loaded = Attribute::loadable(&root(), &dirs);
    assert_eq!(loaded.len(), 2);
    assert!(matches!(loaded[0], Attribute::String(_)));
    assert!(matches!(loaded[1], Attribute::Integer(_)));
    let bad = RootProbe { path: "/fw".to_string(), has_attributes: false, has_authentication: false };
    assert!(Attribute::loadable(&bad, &dirs).is_empty());
}
