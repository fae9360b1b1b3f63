use firmware_attributes::{
    password_authentication, AccessMode, Attribute, AttributeError, Authentication, EntryDir,
    Mechanism, PropertyFile, Role, RootProbe,
};
use std::cell::RefCell;

fn entry(name: &str, files: &[(&str, &str)]) -> EntryDir {
    EntryDir {
        path: format!("/fw/authentication/{}", name),
        name: name.to_string(),
        is_dir: true,
        files: files
            .iter()
            .map(|(n, c)| PropertyFile { name: n.to_string(), content: Ok(c.to_string()) })
            .collect(),
    }
}

fn admin() -> EntryDir {
    entry(
        "Admin",
        &[
            ("is_enabled", "1\n"),
            ("role", "bios-admin\n"),
            ("mechanism", "password\n"),
            ("min_password_length", "4\n"),
            ("max_password_length", "32\n"),
            ("current_password", ""),
        ],
    )
}

#[test]
fn authentication_reads_all_fields() {
    let a = Authentication::load(&admin()).unwrap();
    assert_eq!(a.login, "Admin");
    assert_eq!(a.path, "/fw/authentication/Admin");
    assert!(a.is_enabled);
    assert_eq!(a.role, Role::BiosAdmin);
    assert_eq!(a.mechanism, Mechanism::Password);
    assert_eq!((a.min_password_length, a.max_password_length), (4, 32));
}

#[test]
fn authentication_length_defaults() {
    let a = Authentication::load(&entry(
        "Power",
        &[("is_enabled", "0"), ("role", "power-on"), ("mechanism", "password")],
    ))
    .unwrap();
    assert!(!a.is_enabled);
    assert_eq!(a.role, Role::PowerOn);
    assert_eq!((a.min_password_length, a.max_password_length), (0, 128));
}

#[test]
fn missing_role_fails_the_whole_authentication() {
    match Authentication::load(&entry("Admin", &[("is_enabled", "1"), ("mechanism", "password")])) {
        Err(AttributeError::MissingFile(p)) => assert_eq!(p, "/fw/authentication/Admin/role"),
        other => panic!("unexpected {:?}", other),
    }
}

#[test]
fn unknown_role_or_mechanism_is_variant_not_found() {
    assert!(matches!(
        Authentication::load(&entry(
            "A",
            &[("is_enabled", "1"), ("role", "root"), ("mechanism", "password")]
        )),
        Err(AttributeError::VariantNotFound)
    ));
    assert!(matches!(
        Authentication::load(&entry(
            "A",
            &[("is_enabled", "1"), ("role", "hdd"), ("mechanism", "fingerprint")]
        )),
        Err(AttributeError::VariantNotFound)
    ));
}

#[test]
fn role_names_round_trip() {
    for role in [
        Role::BiosAdmin,
        Role::PowerOn,
        Role::SystemMgmt,
        Role::System,
        Role::HDD,
        Role::NVMe,
        Role::EnhancedBiosAuth,
    ] {
        assert_eq!(Role::from_text(role.as_str()).unwrap(), role);
    }
    assert_eq!(Role::NVMe.as_str(), "nvme");
    assert_eq!(Mechanism::Password.as_str(), "password");
}

#[test]
fn password_goes_to_current_password() {
    let a = Authentication::load(&admin()).unwrap();
    let written = RefCell::new(Vec::new());
    let write = |p: String, v: String| {
        written.borrow_mut().push((p, v));
        Some(Ok(()))
    };
    a.authenticate_with_password("secret", write).unwrap();
    a.authenticate_with_password("", |p: String, v: String| {
        written.borrow_mut().push((p, v));
        Some(Ok(()))
    })
    .unwrap();
    assert_eq!(
        written.into_inner(),
        vec![
            ("/fw/authentication/Admin/current_password".to_string(), "secret".to_string()),
            ("/fw/authentication/Admin/current_password".to_string(), String::new()),
        ]
    );
}

#[test]
fn password_to_missing_property_fails() {
    let a = Authentication::load(&admin()).unwrap();
    match a.authenticate_with_password("secret", |_p: String, _v: String| None) {
        Err(AttributeError::MissingFile(p)) => {
            assert_eq!(p, "/fw/authentication/Admin/current_password")
        }
        other => panic!("unexpected {:?}", other),
    }
}

#[test]
fn first_enabled_password_authentication_is_chosen() {
    let off = Authentication::load(&entry(
        "Off",
        &[("is_enabled", "0"), ("role", "system"), ("mechanism", "password")],
    ))
    .unwrap();
    let on = Authentication::load(&admin()).unwrap();
    assert_eq!(password_authentication(&vec![off.clone(), on.clone()]), Some(1));
    assert_eq!(password_authentication(&vec![off]), None);
    assert_eq!(password_authentication(&vec![]), None);
}

#[test]
fn write_access_by_mode() {
    assert!(!AccessMode::ReadOnly.write_access());
    assert!(AccessMode::ReadWrite.write_access());
    let a = Authentication::load(&admin()).unwrap();
    assert!(AccessMode::ReadWriteAuthenticated(a).write_access());
}

#[test]
fn authentication_through_root() {
    let root = RootProbe { path: "/fw".to_string(), has_attributes: true, has_authentication: true };
    assert!(Attribute::authentication(&root, &admin()).is_ok());
    let bad = RootProbe { path: "/fw".to_string(), has_attributes: false, has_authentication: true };
    assert!(matches!(
        Attribute::authentication(&bad, &admin()),
        Err(AttributeError::InvalidRoot(_))
    ));
}
