//! File-system paths, through `std::path`: joining, parents, last components,
//! and whether something exists there.
use vstd::prelude::*;
use vstd::string::StringExecFns;

verus! {

/// `Path::join`: `name` under `base`, or `name` alone when it is absolute.
pub uninterp spec fn path_joined(base: Seq<char>, name: Seq<char>) -> Seq<char>;

/// `Path::parent`: the path without its last component, if it has one.
pub uninterp spec fn path_parent(p: Seq<char>) -> Option<Seq<char>>;

/// `Path::file_name`: the last component, unless it is `..` or there is none.
pub uninterp spec fn path_file_name(p: Seq<char>) -> Option<Seq<char>>;

/// `Path::is_absolute`: whether the path does not depend on the current
/// directory.
pub uninterp spec fn path_absolute(p: Seq<char>) -> bool;

/// `name` joined under `base` (`Path::join`, read back with
/// `to_string_lossy`, which loses nothing for text that came from a `&str`).
/// The contract names the result: `Path::join` follows the platform's rules
/// for separators and prefixes.
#[verifier::external_body]
pub fn join_path(base: &str, name: &str) -> (r: String)
    ensures
        r@ == path_joined(base@, name@),
{
    std::path::Path::new(base).join(name).to_string_lossy().into_owned()
}

/// The parent of `p` (`Path::parent`), named by `path_parent`.
#[verifier::external_body]
pub fn parent_path(p: &str) -> (r: Option<String>)
    ensures
        match r {
            Some(s) => path_parent(p@) == Some(s@),
            None => path_parent(p@) == None::<Seq<char>>,
        },
{
    std::path::Path::new(p).parent().map(|x| x.to_string_lossy().into_owned())
}

/// The last component of `p` (`Path::file_name`), named by `path_file_name`.
#[verifier::external_body]
pub fn file_name(p: &str) -> (r: Option<String>)
    ensures
        match r {
            Some(s) => path_file_name(p@) == Some(s@),
            None => path_file_name(p@) == None::<Seq<char>>,
        },
{
    std::path::Path::new(p).file_name().map(|x| x.to_string_lossy().into_owned())
}

/// Whether `p` is absolute (`Path::is_absolute`), named by `path_absolute`.
#[verifier::external_body]
pub fn is_absolute(p: &str) -> (r: bool)
    ensures
        r == path_absolute(p@),
{
    std::path::Path::new(p).is_absolute()
}

/// Whether something exists at `p` (`Path::exists`). Nothing is stated of
/// the answer: it depends on the file system.
#[verifier::external_body]
pub fn path_exists(p: &str) -> (r: bool) {
    std::path::Path::new(p).exists()
}

/// The path of the entry `name` inside the directory `dir`: the path the
/// existence checks ask about.
pub fn entry_path(dir: &str, name: &str) -> (r: String)
    ensures
        r@ == path_joined(dir@, name@),
{
    join_path(dir, name)
}

/// The parent of `p`, or `.` when it has none.
pub open spec fn parent_or_dot(p: Seq<char>) -> Seq<char> {
    match path_parent(p) {
        Some(d) => d,
        None => "."@,
    }
}

/// The parent of `p`, or `.` when it has none.
pub fn parent_or_current(p: &str) -> (r: String)
    ensures
        r@ == parent_or_dot(p@),
{
    match parent_path(p) {
        Some(d) => d,
        None => {
            proof {
                reveal_strlit(".");
            }
            String::from_str(".")
        },
    }
}

} // verus!
