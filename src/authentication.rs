use vstd::prelude::*;

use crate::error::{outcome, AttributeError, ErrorView};
use crate::property::{
    lookup, optional_usize_or, property_path, read_attribute_property, read_usize_or, required_in,
    write_property_with, written_by, EntryDir,
};
use crate::text::same_text;

verus! {

pub const DEFAULT_MIN_PASSWORD_LENGTH: usize = 0;

pub const DEFAULT_MAX_PASSWORD_LENGTH: usize = 128;

/// The privilege that an authentication guards.
#[derive(Debug, Clone, Copy, PartialEq, Eq, Structural)]
pub enum Role {
    BiosAdmin,
    PowerOn,
    SystemMgmt,
    System,
    HDD,
    NVMe,
    EnhancedBiosAuth,
}

/// How an authentication is given.
#[derive(Debug, Clone, Copy, PartialEq, Eq, Structural)]
pub enum Mechanism {
    Password,
}

/// The text that names each role in storage.
pub open spec fn role_text(r: Role) -> Seq<char> {
    match r {
        Role::BiosAdmin => "bios-admin"@,
        Role::PowerOn => "power-on"@,
        Role::SystemMgmt => "system-mgmt"@,
        Role::System => "system"@,
        Role::HDD => "hdd"@,
        Role::NVMe => "nvme"@,
        Role::EnhancedBiosAuth => "enhanced-bios-auth"@,
    }
}

/// The role that `t` names, if any.
pub open spec fn role_named(t: Seq<char>) -> Option<Role> {
    if t == "bios-admin"@ {
        Some(Role::BiosAdmin)
    } else if t == "power-on"@ {
        Some(Role::PowerOn)
    } else if t == "system-mgmt"@ {
        Some(Role::SystemMgmt)
    } else if t == "system"@ {
        Some(Role::System)
    } else if t == "hdd"@ {
        Some(Role::HDD)
    } else if t == "nvme"@ {
        Some(Role::NVMe)
    } else if t == "enhanced-bios-auth"@ {
        Some(Role::EnhancedBiosAuth)
    } else {
        None
    }
}

/// The mechanism that `t` names, if any.
pub open spec fn mechanism_named(t: Seq<char>) -> Option<Mechanism> {
    if t == "password"@ {
        Some(Mechanism::Password)
    } else {
        None
    }
}

impl Role {
    /// The role that `s` names, or `VariantNotFound`.
    pub fn from_text(s: &str) -> (r: Result<Role, AttributeError>)
        ensures
            match role_named(s@) {
                Some(role) => r == Ok::<Role, AttributeError>(role),
                None => r is Err && r->Err_0@ == ErrorView::VariantNotFound,
            },
    {
        if same_text(s, "bios-admin") {
            Ok(Role::BiosAdmin)
        } else if same_text(s, "power-on") {
            Ok(Role::PowerOn)
        } else if same_text(s, "system-mgmt") {
            Ok(Role::SystemMgmt)
        } else if same_text(s, "system") {
            Ok(Role::System)
        } else if same_text(s, "hdd") {
            Ok(Role::HDD)
        } else if same_text(s, "nvme") {
            Ok(Role::NVMe)
        } else if same_text(s, "enhanced-bios-auth") {
            Ok(Role::EnhancedBiosAuth)
        } else {
            Err(AttributeError::VariantNotFound)
        }
    }

    /// The text that names this role in storage.
    pub fn as_str(&self) -> (r: &'static str)
        ensures
            r@ == role_text(*self),
    {
        match self {
            Role::BiosAdmin => "bios-admin",
            Role::PowerOn => "power-on",
            Role::SystemMgmt => "system-mgmt",
            Role::System => "system",
            Role::HDD => "hdd",
            Role::NVMe => "nvme",
            Role::EnhancedBiosAuth => "enhanced-bios-auth",
        }
    }
}

impl Mechanism {
    /// The mechanism that `s` names, or `VariantNotFound`.
    pub fn from_text(s: &str) -> (r: Result<Mechanism, AttributeError>)
        ensures
            match mechanism_named(s@) {
                Some(m) => r == Ok::<Mechanism, AttributeError>(m),
                None => r is Err && r->Err_0@ == ErrorView::VariantNotFound,
            },
    {
        if same_text(s, "password") {
            Ok(Mechanism::Password)
        } else {
            Err(AttributeError::VariantNotFound)
        }
    }

    /// The text that names this mechanism in storage.
    pub fn as_str(&self) -> (r: &'static str)
        ensures
            r@ == "password"@,
    {
        "password"
    }
}

/// One login mechanism of a namespace root.
#[derive(Debug, Clone)]
pub struct Authentication {
    pub path: String,
    pub login: String,
    pub is_enabled: bool,
    pub role: Role,
    pub mechanism: Mechanism,
    pub max_password_length: usize,
    pub min_password_length: usize,
}

/// The mathematical model of an [`Authentication`].
pub struct AuthenticationView {
    pub path: Seq<char>,
    pub login: Seq<char>,
    pub is_enabled: bool,
    pub role: Role,
    pub mechanism: Mechanism,
    pub max_password_length: usize,
    pub min_password_length: usize,
}

impl View for Authentication {
    type V = AuthenticationView;

    open spec fn view(&self) -> AuthenticationView {
        AuthenticationView {
            path: self.path@,
            login: self.login@,
            is_enabled: self.is_enabled,
            role: self.role,
            mechanism: self.mechanism,
            max_password_length: self.max_password_length,
            min_password_length: self.min_password_length,
        }
    }
}

/// Reading an authentication from its directory: `is_enabled`, `role` and
/// `mechanism` must be there; the password lengths default to 0 and 128. The
/// first failure, in that order, is the result.
pub open spec fn load_authentication(dir: EntryDir) -> Result<AuthenticationView, ErrorView> {
    match required_in(dir, "is_enabled"@) {
        Err(e) => Err(e),
        Ok(enabled) => match required_in(dir, "role"@) {
            Err(e) => Err(e),
            Ok(role_t) => match role_named(role_t) {
                None => Err(ErrorView::VariantNotFound),
                Some(role) => match required_in(dir, "mechanism"@) {
                    Err(e) => Err(e),
                    Ok(mech_t) => match mechanism_named(mech_t) {
                        None => Err(ErrorView::VariantNotFound),
                        Some(mechanism) => match optional_usize_or(
                            dir,
                            "min_password_length"@,
                            DEFAULT_MIN_PASSWORD_LENGTH,
                        ) {
                            Err(e) => Err(e),
                            Ok(min_len) => match optional_usize_or(
                                dir,
                                "max_password_length"@,
                                DEFAULT_MAX_PASSWORD_LENGTH,
                            ) {
                                Err(e) => Err(e),
                                Ok(max_len) => Ok(
                                    AuthenticationView {
                                        path: dir.path@,
                                        login: dir.name@,
                                        is_enabled: enabled == "1"@,
                                        role,
                                        mechanism,
                                        max_password_length: max_len,
                                        min_password_length: min_len,
                                    },
                                ),
                            },
                        },
                    },
                },
            },
        },
    }
}

impl Authentication {
    /// Reads the authentication that `dir` describes; it is built whole or not at all.
    pub fn load(dir: &EntryDir) -> (r: Result<Authentication, AttributeError>)
        ensures
            outcome(r) == load_authentication(*dir),
    {
        let enabled = read_attribute_property(dir, "is_enabled")?;
        proof {
            reveal_strlit("1");
        }
        let is_enabled = same_text(enabled.as_str(), "1");
        let role_t = read_attribute_property(dir, "role")?;
        let role = Role::from_text(role_t.as_str())?;
        let mech_t = read_attribute_property(dir, "mechanism")?;
        let mechanism = Mechanism::from_text(mech_t.as_str())?;
        let min_password_length = read_usize_or(dir, "min_password_length", DEFAULT_MIN_PASSWORD_LENGTH)?;
        let max_password_length = read_usize_or(dir, "max_password_length", DEFAULT_MAX_PASSWORD_LENGTH)?;
        Ok(Authentication {
            path: dir.path.clone(),
            login: dir.name.clone(),
            is_enabled,
            role,
            mechanism,
            max_password_length,
            min_password_length,
        })
    }

    /// Submits `password` through `write` to the `current_password` property: a
    /// non-empty password logs in, the empty one logs out.
    pub fn authenticate_with_password<W: FnOnce(String, String) -> Option<Result<(), String>>>(
        &self,
        password: &str,
        write: W,
    ) -> (r: Result<(), AttributeError>)
        requires
            forall|p: String, v: String| call_requires(write, (p, v)),
        ensures
            written_by(write, property_path(self.path@, "current_password"@), password@, outcome(r)),
    {
        write_property_with(self.path.as_str(), "current_password", password.to_owned(), write)
    }
}

/// Whether an authentication can gate writes: it is enabled and takes a password.
pub open spec fn takes_password(a: Authentication) -> bool {
    a.is_enabled && a.mechanism == Mechanism::Password
}

/// The first authentication that is enabled and takes a password.
pub fn password_authentication(auths: &Vec<Authentication>) -> (r: Option<usize>)
    ensures
        match r {
            Some(i) => i < auths@.len() && takes_password(auths@[i as int]) && forall|k: int|
                0 <= k < i ==> !takes_password(#[trigger] auths@[k]),
            None => forall|k: int| 0 <= k < auths@.len() ==> !takes_password(#[trigger] auths@[k]),
        },
{
    let mut i: usize = 0;
    while i < auths.len()
        invariant
            i <= auths.len(),
            forall|k: int| 0 <= k < i ==> !takes_password(#[trigger] auths@[k]),
        decreases auths.len() - i,
    {
        if auths[i].is_enabled && auths[i].mechanism == Mechanism::Password {
            return Some(i);
        }
        i = i + 1;
    }
    None
}

/// How the attributes may be used: read only, or written, possibly under an
/// authentication that is logged in.
#[derive(Debug, Clone)]
pub enum AccessMode {
    ReadOnly,
    ReadWrite,
    ReadWriteAuthenticated(Authentication),
}

impl AccessMode {
    /// Whether this mode allows writes.
    pub fn write_access(&self) -> (r: bool)
        ensures
            r == !(self is ReadOnly),
    {
        match self {
            AccessMode::ReadOnly => false,
            _ => true,
        }
    }
}

/// An authentication whose `role` is missing is not built: reading it fails
/// with `MissingFile` for that property, once `is_enabled` could be read.
pub proof fn lemma_missing_role_fails(dir: EntryDir)
    requires
        lookup(dir.files@, "role"@) is None,
        required_in(dir, "is_enabled"@) is Ok,
    ensures
        load_authentication(dir) == Err::<AuthenticationView, ErrorView>(
            ErrorView::MissingFile(property_path(dir.path@, "role"@)),
        ),
{
}

/// An authentication whose `is_enabled` is missing is not built: reading it
/// fails with `MissingFile` for that property.
pub proof fn lemma_missing_enabled_fails(dir: EntryDir)
    requires
        lookup(dir.files@, "is_enabled"@) is None,
    ensures
        load_authentication(dir) == Err::<AuthenticationView, ErrorView>(
            ErrorView::MissingFile(property_path(dir.path@, "is_enabled"@)),
        ),
{
}

/// An authentication whose `mechanism` is missing is not built: reading it
/// fails with `MissingFile` for that property, once `is_enabled` and a known
/// `role` could be read.
pub proof fn lemma_missing_mechanism_fails(dir: EntryDir)
    requires
        lookup(dir.files@, "mechanism"@) is None,
        required_in(dir, "is_enabled"@) is Ok,
        required_in(dir, "role"@) is Ok,
        role_named(required_in(dir, "role"@)->Ok_0) is Some,
    ensures
        load_authentication(dir) == Err::<AuthenticationView, ErrorView>(
            ErrorView::MissingFile(property_path(dir.path@, "mechanism"@)),
        ),
{
}

} // verus!
