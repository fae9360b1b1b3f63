use vstd::prelude::*;

use crate::error::{deep_outcome, outcome, AttributeError, ErrorView};
use crate::text::{parse_i32, parse_usize, parsed_i32, parsed_usize, strip_line_end, strip_line_terminator};

verus! {

/// One file of a directory as storage gave it: its name, and its raw content or
/// the reason it could not be read.
#[derive(Debug)]
pub struct PropertyFile {
    pub name: String,
    pub content: Result<String, String>,
}

/// A directory of the namespace (one attribute, or one authentication) as found
/// in storage: its path, its entry name, whether it is an existing directory, and
/// the files it holds. A path that is no directory holds no files.
#[derive(Debug)]
pub struct EntryDir {
    pub path: String,
    pub name: String,
    pub is_dir: bool,
    pub files: Vec<PropertyFile>,
}

/// What storage gives for one property: `None` when there is no such file, else
/// its raw content or the reason it could not be read.
pub open spec fn found_view(f: Option<Result<String, String>>) -> Option<
    Result<Seq<char>, Seq<char>>,
> {
    match f {
        None => None,
        Some(Ok(t)) => Some(Ok(t@)),
        Some(Err(m)) => Some(Err(m@)),
    }
}

/// The first file named `prop` in `files`.
pub open spec fn lookup(files: Seq<PropertyFile>, prop: Seq<char>) -> Option<
    Result<Seq<char>, Seq<char>>,
>
    decreases files.len(),
{
    if files.len() == 0 {
        None
    } else if files[0].name@ == prop {
        found_view(Some(files[0].content))
    } else {
        lookup(files.drop_first(), prop)
    }
}

/// The path of property `prop` under directory `dir`.
pub open spec fn property_path(dir: Seq<char>, prop: Seq<char>) -> Seq<char> {
    if dir.len() > 0 && dir.last() == '/' {
        dir + prop
    } else {
        dir.push('/') + prop
    }
}

/// Reading a property that must exist: its text without one trailing line
/// terminator.
pub open spec fn required_outcome(
    path: Seq<char>,
    found: Option<Result<Seq<char>, Seq<char>>>,
) -> Result<Seq<char>, ErrorView> {
    match found {
        None => Err(ErrorView::MissingFile(path)),
        Some(Err(m)) => Err(ErrorView::IOError(m)),
        Some(Ok(raw)) => Ok(strip_line_end(raw)),
    }
}

/// Reading a property that may be absent.
pub open spec fn optional_outcome(found: Option<Result<Seq<char>, Seq<char>>>) -> Result<
    Option<Seq<char>>,
    ErrorView,
> {
    match found {
        None => Ok(None),
        Some(Err(m)) => Err(ErrorView::IOError(m)),
        Some(Ok(raw)) => Ok(Some(strip_line_end(raw))),
    }
}

/// Writing a property, which must already exist: storage reports `None` when
/// there is no such file, and then writes nothing.
pub open spec fn write_outcome(path: Seq<char>, done: Option<Result<(), String>>) -> Result<
    (),
    ErrorView,
> {
    match done {
        None => Err(ErrorView::MissingFile(path)),
        Some(Err(m)) => Err(ErrorView::IOError(m@)),
        Some(Ok(())) => Ok(()),
    }
}

/// Reading the required property `prop` of `dir`.
pub open spec fn required_in(dir: EntryDir, prop: Seq<char>) -> Result<Seq<char>, ErrorView> {
    required_outcome(property_path(dir.path@, prop), lookup(dir.files@, prop))
}

/// Reading the optional property `prop` of `dir`.
pub open spec fn optional_in(dir: EntryDir, prop: Seq<char>) -> Result<
    Option<Seq<char>>,
    ErrorView,
> {
    optional_outcome(lookup(dir.files@, prop))
}

/// The path of property `prop` under directory `dir`.
pub fn join_property_path(dir: &str, prop: &str) -> (r: String)
    ensures
        r@ == property_path(dir@, prop@),
{
    let n = dir.unicode_len();
    let mut out = dir.to_owned();
    if !(n > 0 && dir.get_char(n - 1) == '/') {
        proof {
            reveal_strlit("/");
        }
        out.append("/");
    }
    out.append(prop);
    out
}

/// The first file named `prop` in `files`.
fn find_property<'a>(files: &'a Vec<PropertyFile>, prop: &str) -> (r: Option<&'a PropertyFile>)
    ensures
        match r {
            None => lookup(files@, prop@) is None,
            Some(f) => f.name@ == prop@ && lookup(files@, prop@) == found_view(Some(f.content)),
        },
{
    let mut i: usize = 0;
    assert(files@.subrange(0, files@.len() as int) =~= files@);
    while i < files.len()
        invariant
            i <= files.len(),
            lookup(files@, prop@) == lookup(files@.subrange(i as int, files@.len() as int), prop@),
        decreases files.len() - i,
    {
        let ghost rest = files@.subrange(i as int, files@.len() as int);
        assert(rest[0] == files@[i as int]);
        if crate::text::same_text(files[i].name.as_str(), prop) {
            return Some(&files[i]);
        }
        assert(rest.drop_first() =~= files@.subrange(i as int + 1, files@.len() as int));
        i = i + 1;
    }
    None
}

/// Reads property `property` of `dir`, which must exist.
pub fn read_attribute_property(dir: &EntryDir, property: &str) -> (r: Result<String, AttributeError>)
    ensures
        outcome(r) == required_in(*dir, property@),
{
    match find_property(&dir.files, property) {
        None => Err(AttributeError::MissingFile(join_property_path(dir.path.as_str(), property))),
        Some(f) => match &f.content {
            Ok(raw) => Ok(strip_line_terminator(raw.as_str())),
            Err(m) => Err(AttributeError::IOError(m.clone())),
        },
    }
}

/// Reads property `property` of `dir`, `None` when it is absent.
pub fn try_read_attribute_property(dir: &EntryDir, property: &str) -> (r: Result<
    Option<String>,
    AttributeError,
>)
    ensures
        deep_outcome(r) == optional_in(*dir, property@),
{
    match find_property(&dir.files, property) {
        None => Ok(None),
        Some(f) => match &f.content {
            Ok(raw) => Ok(Some(strip_line_terminator(raw.as_str()))),
            Err(m) => Err(AttributeError::IOError(m.clone())),
        },
    }
}

/// Reads property `property` of the directory at `dir` through `read`, which is
/// handed the property's path and returns what storage holds there.
pub fn read_property_with<F: FnOnce(String) -> Option<Result<String, String>>>(
    dir: &str,
    property: &str,
    read: F,
) -> (r: Result<String, AttributeError>)
    requires
        forall|p: String| call_requires(read, (p,)),
    ensures
        fetched_by(read, property_path(dir@, property@), outcome(r)),
{
    let path = join_property_path(dir, property);
    let ghost p = path;
    let found = read(path);
    let r = match found {
        None => Err(AttributeError::MissingFile(join_property_path(dir, property))),
        Some(Ok(raw)) => Ok(strip_line_terminator(raw.as_str())),
        Some(Err(m)) => Err(AttributeError::IOError(m)),
    };
    assert(outcome(r) == required_outcome(p@, found_view(found)));
    r
}

/// Writes `value` to property `property` of the directory at `dir` through
/// `write`, which is handed the property's path and the text, and reports `None`
/// when no such file exists (it then writes nothing). Writing never creates a
/// property, and adds no line terminator.
pub fn write_property_with<W: FnOnce(String, String) -> Option<Result<(), String>>>(
    dir: &str,
    property: &str,
    value: String,
    write: W,
) -> (r: Result<(), AttributeError>)
    requires
        forall|p: String, v: String| call_requires(write, (p, v)),
    ensures
        written_by(write, property_path(dir@, property@), value@, outcome(r)),
{
    let path = join_property_path(dir, property);
    let ghost p = path;
    let ghost v = value;
    let done = write(path, value);
    let r = match done {
        None => Err(AttributeError::MissingFile(join_property_path(dir, property))),
        Some(Ok(())) => Ok(()),
        Some(Err(m)) => Err(AttributeError::IOError(m)),
    };
    assert(outcome(r) == write_outcome(p@, done));
    r
}

/// Reading an optional `usize` property, `default` when it is absent.
pub open spec fn optional_usize_or(dir: EntryDir, prop: Seq<char>, default: usize) -> Result<
    usize,
    ErrorView,
> {
    match optional_in(dir, prop) {
        Err(e) => Err(e),
        Ok(None) => Ok(default),
        Ok(Some(t)) => match parsed_usize(t) {
            Some(v) => Ok(v),
            None => Err(ErrorView::ParseIntError(t)),
        },
    }
}

/// Reading an `i32` from text, which must denote one.
pub open spec fn decoded_i32(t: Seq<char>) -> Result<i32, ErrorView> {
    match parsed_i32(t) {
        Some(v) => Ok(v),
        None => Err(ErrorView::ParseIntError(t)),
    }
}

/// Reading an optional `i32` property, `default` when it is absent.
pub open spec fn optional_i32_or(dir: EntryDir, prop: Seq<char>, default: i32) -> Result<
    i32,
    ErrorView,
> {
    match optional_in(dir, prop) {
        Err(e) => Err(e),
        Ok(None) => Ok(default),
        Ok(Some(t)) => decoded_i32(t),
    }
}

/// Reads an `i32` from text, failing with the text when it denotes none.
pub fn decode_i32(t: String) -> (r: Result<i32, AttributeError>)
    ensures
        outcome(r) == decoded_i32(t@),
{
    match parse_i32(t.as_str()) {
        Some(v) => Ok(v),
        None => Err(AttributeError::ParseIntError(t)),
    }
}

/// Reads the optional `usize` property `property` of `dir`, `default` when absent.
pub fn read_usize_or(dir: &EntryDir, property: &str, default: usize) -> (r: Result<
    usize,
    AttributeError,
>)
    ensures
        outcome(r) == optional_usize_or(*dir, property@, default),
{
    match try_read_attribute_property(dir, property) {
        Err(e) => Err(e),
        Ok(None) => Ok(default),
        Ok(Some(t)) => match parse_usize(t.as_str()) {
            Some(v) => Ok(v),
            None => Err(AttributeError::ParseIntError(t)),
        },
    }
}

/// Reads the optional `i32` property `property` of `dir`, `default` when absent.
pub fn read_i32_or(dir: &EntryDir, property: &str, default: i32) -> (r: Result<
    i32,
    AttributeError,
>)
    ensures
        outcome(r) == optional_i32_or(*dir, property@, default),
{
    match try_read_attribute_property(dir, property) {
        Err(e) => Err(e),
        Ok(None) => Ok(default),
        Ok(Some(t)) => decode_i32(t),
    }
}

/// `got` is what reading the property at `path` through `read` gave: `read` was
/// handed that path, and storage answered `found`.
pub open spec fn fetched_by<F: FnOnce(String) -> Option<Result<String, String>>>(
    read: F,
    path: Seq<char>,
    got: Result<Seq<char>, ErrorView>,
) -> bool {
    exists|p: String, found: Option<Result<String, String>>|
        p@ == path && call_ensures(read, (p,), found) && got == required_outcome(
            p@,
            found_view(found),
        )
}

/// `got` is what writing `text` to the property at `path` through `write` gave:
/// `write` was handed that path and that text, and storage answered `done`.
pub open spec fn written_by<W: FnOnce(String, String) -> Option<Result<(), String>>>(
    write: W,
    path: Seq<char>,
    text: Seq<char>,
    got: Result<(), ErrorView>,
) -> bool {
    exists|p: String, v: String, done: Option<Result<(), String>>|
        p@ == path && v@ == text && call_ensures(write, (p, v), done) && got == write_outcome(
            p@,
            done,
        )
}

} // verus!
