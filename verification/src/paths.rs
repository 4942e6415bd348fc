//! Paths of files and folders: joining a folder and a name, and the parts
//! of a path that `std::path::Path` extracts.
use vstd::prelude::*;
use crate::text::push_str;

verus! {

/// `parent` joined with `name`, as `Path::join` does on Unix: an absolute
/// `name` replaces `parent`; otherwise a `/` separates them where `parent`
/// does not end with one.
pub open spec fn join_path(parent: Seq<char>, name: Seq<char>) -> Seq<char> {
    if name.len() > 0 && name[0] == '/' {
        name
    } else if parent.len() == 0 {
        name
    } else if parent.last() == '/' {
        parent + name
    } else {
        parent + "/"@ + name
    }
}

/// Joins `name` to `parent`.
pub fn join_path_text(parent: &str, name: &str) -> (r: String)
    ensures
        r@ == join_path(parent@, name@),
{
    let mut r = String::new();
    let m = name.unicode_len();
    if m > 0 && name.get_char(0) == '/' {
        push_str(&mut r, name);
        return r;
    }
    push_str(&mut r, parent);
    let n = parent.unicode_len();
    if n > 0 && parent.get_char(n - 1) != '/' {
        push_str(&mut r, "/");
    }
    push_str(&mut r, name);
    r
}

/// `Path::parent`, displayed: the path without its final component, where
/// it has one.
pub uninterp spec fn parent_of(p: Seq<char>) -> Option<Seq<char>>;

/// `Path::file_stem`: the final component without its extension, where
/// there is a final component.
pub uninterp spec fn stem_of(p: Seq<char>) -> Option<Seq<char>>;

/// `Path::extension`: the extension of the final component, where it has
/// one.
pub uninterp spec fn extension_of(p: Seq<char>) -> Option<Seq<char>>;

/// `Path::with_extension("")`, displayed: the path without the extension
/// of its final component.
pub uninterp spec fn without_extension(p: Seq<char>) -> Seq<char>;

/// `Path::new(p).parent()`, displayed.
#[verifier::external_body]
pub(crate) fn path_parent(p: &str) -> (r: Option<String>)
    ensures
        match r {
            Some(s) => parent_of(p@) == Some(s@),
            None => parent_of(p@) is None,
        },
{
    std::path::Path::new(p).parent().map(|d| d.display().to_string())
}

/// `Path::new(p).file_stem()`, as text.
#[verifier::external_body]
pub(crate) fn path_file_stem(p: &str) -> (r: Option<String>)
    ensures
        match r {
            Some(s) => stem_of(p@) == Some(s@),
            None => stem_of(p@) is None,
        },
{
    std::path::Path::new(p).file_stem().map(|s| s.to_string_lossy().to_string())
}

/// `Path::new(p).extension()`, as text.
#[verifier::external_body]
pub(crate) fn path_extension(p: &str) -> (r: Option<String>)
    ensures
        match r {
            Some(s) => extension_of(p@) == Some(s@),
            None => extension_of(p@) is None,
        },
{
    std::path::Path::new(p).extension().map(|s| s.to_string_lossy().to_string())
}

/// `Path::new(p).with_extension("")`, displayed.
#[verifier::external_body]
pub(crate) fn path_without_extension(p: &str) -> (r: String)
    ensures
        r@ == without_extension(p@),
{
    std::path::Path::new(p).with_extension("").display().to_string()
}

} // verus!
