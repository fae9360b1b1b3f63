use vstd::prelude::*;

use crate::error::{deep_outcome, AttributeError, ErrorView};

verus! {

/// A candidate namespace root as found in storage: its path and whether each of
/// the two required subdirectories exists under it.
#[derive(Debug, Clone)]
pub struct RootProbe {
    pub path: String,
    pub has_attributes: bool,
    pub has_authentication: bool,
}

/// One entry of a directory listing: its name and whether it is a directory.
#[derive(Debug, Clone)]
pub struct ListedEntry {
    pub name: String,
    pub is_dir: bool,
}

/// A directory as listed by storage: its path, whether it exists as a directory,
/// and its entries in the order storage gave them.
#[derive(Debug)]
pub struct DirListing {
    pub path: String,
    pub is_dir: bool,
    pub entries: Vec<ListedEntry>,
}

/// A path is a namespace root exactly when both subdirectories exist under it.
pub open spec fn is_root(p: RootProbe) -> bool {
    p.has_attributes && p.has_authentication
}

/// The paths of the candidates that are roots, in their order.
pub open spec fn root_paths(c: Seq<RootProbe>) -> Seq<Seq<char>>
    decreases c.len(),
{
    if c.len() == 0 {
        Seq::empty()
    } else if is_root(c.last()) {
        root_paths(c.drop_last()).push(c.last().path@)
    } else {
        root_paths(c.drop_last())
    }
}

/// The roots found from the base location (`None` when it does not exist) and
/// its immediate subdirectories: the base alone when it is a root, else every
/// subdirectory that is one.
pub open spec fn detected_roots(base: Option<RootProbe>, children: Seq<RootProbe>) -> Seq<
    Seq<char>,
> {
    match base {
        None => Seq::empty(),
        Some(b) => if is_root(b) {
            seq![b.path@]
        } else {
            root_paths(children)
        },
    }
}

/// The names of the entries that are directories, in their order.
pub open spec fn subdirectory_names(e: Seq<ListedEntry>) -> Seq<Seq<char>>
    decreases e.len(),
{
    if e.len() == 0 {
        Seq::empty()
    } else if e.last().is_dir {
        subdirectory_names(e.drop_last()).push(e.last().name@)
    } else {
        subdirectory_names(e.drop_last())
    }
}

/// Listing the subdirectories of a directory that must exist.
pub open spec fn listed_names(l: DirListing) -> Result<Seq<Seq<char>>, ErrorView> {
    if l.is_dir {
        Ok(subdirectory_names(l.entries@))
    } else {
        Err(ErrorView::MissingDirectory(l.path@))
    }
}

/// Whether `root` is a namespace root: both `attributes` and `authentication`
/// exist under it.
pub fn is_firmware_attributes_root(root: &RootProbe) -> (r: bool)
    ensures
        r == is_root(*root),
        r == (root.has_authentication && root.has_attributes),
{
    root.has_authentication && root.has_attributes
}

/// The namespace roots under the base location: the base itself when it is a
/// root, else those of its immediate subdirectories that are, in the order
/// storage listed them; none when the base does not exist.
pub fn autodetect_root(base: &Option<RootProbe>, children: &Vec<RootProbe>) -> (r: Vec<String>)
    ensures
        r.deep_view() == detected_roots(*base, children@),
{
    let mut list: Vec<String> = Vec::new();
    match base {
        None => {
            assert(list.deep_view() =~= Seq::<Seq<char>>::empty());
        },
        Some(b) => {
            if is_firmware_attributes_root(b) {
                list.push(b.path.clone());
                assert(list.deep_view() =~= seq![b.path@]);
            } else {
                let mut i: usize = 0;
                assert(list.deep_view() =~= root_paths(children@.subrange(0, 0)));
                while i < children.len()
                    invariant
                        i <= children.len(),
                        list.deep_view() == root_paths(children@.subrange(0, i as int)),
                    decreases children.len() - i,
                {
                    let ghost next = children@.subrange(0, i as int + 1);
                    assert(next.drop_last() =~= children@.subrange(0, i as int));
                    assert(next.last() == children@[i as int]);
                    if is_firmware_attributes_root(&children[i]) {
                        let ghost before = list.deep_view();
                        list.push(children[i].path.clone());
                        assert(list.deep_view() =~= before.push(children@[i as int].path@));
                    }
                    i = i + 1;
                }
                assert(children@.subrange(0, children.len() as int) =~= children@);
            }
        },
    }
    list
}

/// The names of the subdirectories of `listing`, in the order storage listed
/// them; files are skipped.
pub fn directories_names(listing: &DirListing) -> (r: Result<Vec<String>, AttributeError>)
    ensures
        deep_outcome(r) == listed_names(*listing),
{
    if !listing.is_dir {
        return Err(AttributeError::MissingDirectory(listing.path.clone()));
    }
    let mut result: Vec<String> = Vec::new();
    let mut i: usize = 0;
    assert(result.deep_view() =~= subdirectory_names(listing.entries@.subrange(0, 0)));
    while i < listing.entries.len()
        invariant
            i <= listing.entries.len(),
            result.deep_view() == subdirectory_names(listing.entries@.subrange(0, i as int)),
        decreases listing.entries.len() - i,
    {
        let ghost next = listing.entries@.subrange(0, i as int + 1);
        assert(next.drop_last() =~= listing.entries@.subrange(0, i as int));
        assert(next.last() == listing.entries@[i as int]);
        if listing.entries[i].is_dir {
            let ghost before = result.deep_view();
            result.push(listing.entries[i].name.clone());
            assert(result.deep_view() =~= before.push(listing.entries@[i as int].name@));
        }
        i = i + 1;
    }
    assert(listing.entries@.subrange(0, listing.entries.len() as int) =~= listing.entries@);
    Ok(result)
}

} // verus!
