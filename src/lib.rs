pub mod attribute;
pub mod authentication;
pub mod cache;
pub mod error;
pub mod parser;
pub mod property;
pub mod roots;
pub mod text;

pub use attribute::{
    CommonAttribute, EnumerationAttribute, EnumerationListAttribute, IntegerAttribute,
    OrderedListAttribute, StringAttribute,
};
pub use authentication::{password_authentication, AccessMode, Authentication, Mechanism, Role};
pub use error::AttributeError;
pub use parser::{attribute_type, is_enumeration_list_attribute, Attribute};
pub use property::{EntryDir, PropertyFile};
pub use roots::{
    autodetect_root, directories_names, is_firmware_attributes_root, DirListing, ListedEntry,
    RootProbe,
};
