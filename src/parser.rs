use vstd::prelude::*;

use crate::attribute::{
    load_enumeration, load_enumeration_list, load_integer, load_ordered_list, load_string,
    EnumerationAttribute, EnumerationListAttribute, EnumerationListView, EnumerationView,
    IntegerAttribute, IntegerView, OrderedListAttribute, OrderedListView, StringAttribute,
    StringView,
};
use crate::authentication::{load_authentication, Authentication};
use crate::error::{deep_outcome, outcome, AttributeError, ErrorView};
use crate::property::{read_attribute_property, required_in, EntryDir};
use crate::roots::{
    directories_names, is_firmware_attributes_root, is_root, listed_names, DirListing, RootProbe,
};
use crate::text::same_text;

verus! {

/// One attribute, of one of the five kinds.
#[derive(Debug)]
pub enum Attribute {
    Enumeration(EnumerationAttribute),
    Integer(IntegerAttribute),
    String(StringAttribute),
    OrderedList(OrderedListAttribute),
    EnumerationList(EnumerationListAttribute),
}

/// The mathematical model of an [`Attribute`].
pub enum AttributeView {
    Enumeration(EnumerationView),
    Integer(IntegerView),
    String(StringView),
    OrderedList(OrderedListView),
    EnumerationList(EnumerationListView),
}

impl View for Attribute {
    type V = AttributeView;

    open spec fn view(&self) -> AttributeView {
        match self {
            Attribute::Enumeration(a) => AttributeView::Enumeration(a@),
            Attribute::Integer(a) => AttributeView::Integer(a@),
            Attribute::String(a) => AttributeView::String(a@),
            Attribute::OrderedList(a) => AttributeView::OrderedList(a@),
            Attribute::EnumerationList(a) => AttributeView::EnumerationList(a@),
        }
    }
}

/// The five kinds of attribute.
pub enum AttributeKind {
    Enumeration,
    Integer,
    String,
    OrderedList,
    EnumerationList,
}

/// The kind that a `type` property names, if any.
pub open spec fn kind_named(t: Seq<char>) -> Option<AttributeKind> {
    if t == "enumeration"@ {
        Some(AttributeKind::Enumeration)
    } else if t == "integer"@ {
        Some(AttributeKind::Integer)
    } else if t == "string"@ {
        Some(AttributeKind::String)
    } else if t == "ordered-list"@ {
        Some(AttributeKind::OrderedList)
    } else if t == "enumeration-list"@ {
        Some(AttributeKind::EnumerationList)
    } else {
        None
    }
}

/// The attributes that firmware labels `enumeration` although they hold a list.
pub open spec fn listed_as_enumeration_list(name: Seq<char>) -> bool {
    name == "BootOrder"@
}

/// The type of an attribute named `name` whose `type` property reads `t`: an
/// enumeration among the listed names is an enumeration list.
pub open spec fn classified_type(t: Seq<char>, name: Seq<char>) -> Seq<char> {
    if t == "enumeration"@ && listed_as_enumeration_list(name) {
        "enumeration-list"@
    } else {
        t
    }
}

/// Reading the type of the attribute in `dir`.
pub open spec fn attribute_type_of(dir: EntryDir) -> Result<Seq<char>, ErrorView> {
    match required_in(dir, "type"@) {
        Err(e) => Err(e),
        Ok(t) => Ok(classified_type(t, dir.name@)),
    }
}

/// Reading the attribute in `dir`: it must be a directory; its type picks the
/// kind, whose reading gives the result.
pub open spec fn load_attribute(dir: EntryDir) -> Result<AttributeView, ErrorView> {
    if !dir.is_dir {
        Err(ErrorView::MissingDirectory(dir.path@))
    } else {
        match attribute_type_of(dir) {
            Err(e) => Err(e),
            Ok(t) => match kind_named(t) {
                None => Err(ErrorView::UnsupportedAttributeType(t)),
                Some(AttributeKind::Enumeration) => match load_enumeration(dir) {
                    Ok(a) => Ok(AttributeView::Enumeration(a)),
                    Err(e) => Err(e),
                },
                Some(AttributeKind::Integer) => match load_integer(dir) {
                    Ok(a) => Ok(AttributeView::Integer(a)),
                    Err(e) => Err(e),
                },
                Some(AttributeKind::String) => match load_string(dir) {
                    Ok(a) => Ok(AttributeView::String(a)),
                    Err(e) => Err(e),
                },
                Some(AttributeKind::OrderedList) => match load_ordered_list(dir) {
                    Ok(a) => Ok(AttributeView::OrderedList(a)),
                    Err(e) => Err(e),
                },
                Some(AttributeKind::EnumerationList) => match load_enumeration_list(dir) {
                    Ok(a) => Ok(AttributeView::EnumerationList(a)),
                    Err(e) => Err(e),
                },
            },
        }
    }
}

/// Whether firmware labels the attribute `name` an enumeration although it
/// holds a list.
pub fn is_enumeration_list_attribute(name: &str) -> (r: bool)
    ensures
        r == listed_as_enumeration_list(name@),
{
    same_text(name, "BootOrder")
}

/// The type of the attribute in `dir`, read from its `type` property, with the
/// enumeration lists that firmware mislabels reclassified.
pub fn attribute_type(dir: &EntryDir) -> (r: Result<String, AttributeError>)
    ensures
        outcome(r) == attribute_type_of(*dir),
{
    let t = read_attribute_property(dir, "type")?;
    if same_text(t.as_str(), "enumeration") && is_enumeration_list_attribute(dir.name.as_str()) {
        Ok("enumeration-list".to_owned())
    } else {
        Ok(t)
    }
}

impl Attribute {
    /// Reads the attribute that `dir` describes, of the kind its type names; it
    /// is built whole or not at all.
    pub fn load(dir: &EntryDir) -> (r: Result<Attribute, AttributeError>)
        ensures
            outcome(r) == load_attribute(*dir),
    {
        if !dir.is_dir {
            return Err(AttributeError::MissingDirectory(dir.path.clone()));
        }
        let t = attribute_type(dir)?;
        if same_text(t.as_str(), "enumeration") {
            Ok(Attribute::Enumeration(EnumerationAttribute::load(dir)?))
        } else if same_text(t.as_str(), "integer") {
            Ok(Attribute::Integer(IntegerAttribute::load(dir)?))
        } else if same_text(t.as_str(), "string") {
            Ok(Attribute::String(StringAttribute::load(dir)?))
        } else if same_text(t.as_str(), "ordered-list") {
            Ok(Attribute::OrderedList(OrderedListAttribute::load(dir)?))
        } else if same_text(t.as_str(), "enumeration-list") {
            Ok(Attribute::EnumerationList(EnumerationListAttribute::load(dir)?))
        } else {
            Err(AttributeError::UnsupportedAttributeType(t))
        }
    }

    /// The names of the attributes of `root`, from `listing`, the listing of its
    /// `attributes` directory.
    pub fn attributes_names(root: &RootProbe, listing: &DirListing) -> (r: Result<
        Vec<String>,
        AttributeError,
    >)
        ensures
            deep_outcome(r) == (if is_root(*root) {
                listed_names(*listing)
            } else {
                Err(ErrorView::InvalidRoot(root.path@))
            }),
    {
        if is_firmware_attributes_root(root) {
            directories_names(listing)
        } else {
            Err(AttributeError::InvalidRoot(root.path.clone()))
        }
    }

    /// The names of the authentications of `root`, from `listing`, the listing of
    /// its `authentication` directory.
    pub fn authentications_names(root: &RootProbe, listing: &DirListing) -> (r: Result<
        Vec<String>,
        AttributeError,
    >)
        ensures
            deep_outcome(r) == (if is_root(*root) {
                listed_names(*listing)
            } else {
                Err(ErrorView::InvalidRoot(root.path@))
            }),
    {
        if is_firmware_attributes_root(root) {
            directories_names(listing)
        } else {
            Err(AttributeError::InvalidRoot(root.path.clone()))
        }
    }

    /// The attribute of `root` that `dir`, an entry of its `attributes`
    /// directory, describes.
    pub fn attribute(root: &RootProbe, dir: &EntryDir) -> (r: Result<Attribute, AttributeError>)
        ensures
            outcome(r) == (if is_root(*root) {
                load_attribute(*dir)
            } else {
                Err(ErrorView::InvalidRoot(root.path@))
            }),
    {
        if is_firmware_attributes_root(root) {
            Attribute::load(dir)
        } else {
            Err(AttributeError::InvalidRoot(root.path.clone()))
        }
    }

    /// The authentication of `root` that `dir`, an entry of its `authentication`
    /// directory, describes.
    pub fn authentication(root: &RootProbe, dir: &EntryDir) -> (r: Result<
        Authentication,
        AttributeError,
    >)
        ensures
            outcome(r) == (if is_root(*root) {
                load_authentication(*dir)
            } else {
                Err(ErrorView::InvalidRoot(root.path@))
            }),
    {
        if is_firmware_attributes_root(root) {
            Authentication::load(dir)
        } else {
            Err(AttributeError::InvalidRoot(root.path.clone()))
        }
    }

    /// Whether a reboot is pending on `root`: its `pending_reboot` property, in
    /// `attributes` (the directory that `dir` describes), reads exactly `1`.
    pub fn pending_reboot(root: &RootProbe, dir: &EntryDir) -> (r: Result<bool, AttributeError>)
        ensures
            outcome(r) == (if !is_root(*root) {
                Err(ErrorView::InvalidRoot(root.path@))
            } else {
                match required_in(*dir, "pending_reboot"@) {
                    Ok(t) => Ok(t == "1"@),
                    Err(e) => Err(e),
                }
            }),
    {
        if is_firmware_attributes_root(root) {
            let t = read_attribute_property(dir, "pending_reboot")?;
            Ok(same_text(t.as_str(), "1"))
        } else {
            Err(AttributeError::InvalidRoot(root.path.clone()))
        }
    }
}

/// The attributes among `dirs` that load under `root`, in order; those that
/// fail are left out.
pub open spec fn loadable_views(root: RootProbe, dirs: Seq<EntryDir>) -> Seq<AttributeView>
    decreases dirs.len(),
{
    if dirs.len() == 0 {
        Seq::empty()
    } else {
        let before = loadable_views(root, dirs.drop_last());
        if is_root(root) && load_attribute(dirs.last()) is Ok {
            before.push(load_attribute(dirs.last())->Ok_0)
        } else {
            before
        }
    }
}

impl Attribute {
    /// The attributes of `root` that `dirs` describe and that load, in order;
    /// one that fails to load is left out.
    pub fn loadable(root: &RootProbe, dirs: &Vec<EntryDir>) -> (r: Vec<Attribute>)
        ensures
            r@.map_values(|a: Attribute| a@) == loadable_views(*root, dirs@),
    {
        let mut out: Vec<Attribute> = Vec::new();
        let mut i: usize = 0;
        assert(out@.map_values(|a: Attribute| a@) =~= loadable_views(*root, dirs@.subrange(0, 0)));
        while i < dirs.len()
            invariant
                i <= dirs.len(),
                out@.map_values(|a: Attribute| a@) == loadable_views(
                    *root,
                    dirs@.subrange(0, i as int),
                ),
            decreases dirs.len() - i,
        {
            let ghost next = dirs@.subrange(0, i as int + 1);
            assert(next.drop_last() =~= dirs@.subrange(0, i as int));
            assert(next.last() == dirs@[i as int]);
            match Attribute::attribute(root, &dirs[i]) {
                Ok(a) => {
                    let ghost before = out@;
                    out.push(a);
                    assert(out@.map_values(|a: Attribute| a@) =~= before.map_values(
                        |a: Attribute| a@,
                    ).push(a@));
                },
                Err(_) => {},
            }
            i = i + 1;
        }
        assert(dirs@.subrange(0, dirs.len() as int) =~= dirs@);
        out
    }
}

/// An attribute named `BootOrder` whose `type` reads `enumeration` is read as
/// an enumeration list: its value splits on `:` and its candidates come from
/// `possible_values`.
pub proof fn lemma_boot_order_is_enumeration_list(dir: EntryDir)
    requires
        dir.is_dir,
        dir.name@ == "BootOrder"@,
        required_in(dir, "type"@) == Ok::<Seq<char>, ErrorView>("enumeration"@),
    ensures
        load_attribute(dir) == match load_enumeration_list(dir) {
            Ok(a) => Ok(AttributeView::EnumerationList(a)),
            Err(e) => Err(e),
        },
{
    reveal_strlit("enumeration");
    reveal_strlit("integer");
    reveal_strlit("string");
    reveal_strlit("ordered-list");
    reveal_strlit("enumeration-list");
    assert("enumeration-list"@ != "enumeration"@) by {
        assert("enumeration-list"@.len() != "enumeration"@.len());
    }
    assert("enumeration-list"@ != "integer"@) by {
        assert("enumeration-list"@.len() != "integer"@.len());
    }
    assert("enumeration-list"@ != "string"@) by {
        assert("enumeration-list"@.len() != "string"@.len());
    }
    assert("enumeration-list"@ != "ordered-list"@) by {
        assert("enumeration-list"@[0] != "ordered-list"@[0]);
    }
}

} // verus!
