use vstd::prelude::*;
use vstd::string::*;

verus! {

/// The final component of a path, where it is a normal one.
pub uninterp spec fn path_file_name(p: Seq<char>) -> Option<Seq<char>>;

/// The path without its final component, where it has one.
pub uninterp spec fn path_parent(p: Seq<char>) -> Option<Seq<char>>;

/// `tail` appended to `base` as a further component.
pub uninterp spec fn path_joined(base: Seq<char>, tail: Seq<char>) -> Seq<char>;

/// The extension of a path's file name, where it has one.
pub uninterp spec fn path_extension(p: Seq<char>) -> Option<Seq<char>>;

/// The path with the extension of its file name replaced by `ext`.
pub uninterp spec fn path_with_extension(p: Seq<char>, ext: Seq<char>) -> Seq<char>;

/// The lower-case form of a string, character by character per Unicode.
pub uninterp spec fn lower_of(s: Seq<char>) -> Seq<char>;

/// Relies on std::path::Path::file_name for the final normal component.
#[verifier::external_body]
pub(crate) fn file_name(p: &str) -> (r: Option<String>)
    ensures
        match r {
            Some(n) => path_file_name(p@) == Some(n@),
            None => path_file_name(p@) is None,
        },
{
    std::path::Path::new(p).file_name().map(|n| n.to_string_lossy().into_owned())
}

/// Relies on std::path::Path::parent for the path without its last component.
#[verifier::external_body]
pub(crate) fn parent(p: &str) -> (r: Option<String>)
    ensures
        match r {
            Some(q) => path_parent(p@) == Some(q@),
            None => path_parent(p@) is None,
        },
{
    std::path::Path::new(p).parent().map(|q| q.to_string_lossy().into_owned())
}

/// Relies on std::path::Path::join for appending a component.
#[verifier::external_body]
pub(crate) fn join(base: &str, tail: &str) -> (r: String)
    ensures
        r@ == path_joined(base@, tail@),
{
    std::path::Path::new(base).join(tail).to_string_lossy().into_owned()
}

/// Relies on std::path::Path::extension for the file name's extension.
#[verifier::external_body]
pub(crate) fn extension(p: &str) -> (r: Option<String>)
    ensures
        match r {
            Some(e) => path_extension(p@) == Some(e@),
            None => path_extension(p@) is None,
        },
{
    std::path::Path::new(p).extension().map(|e| e.to_string_lossy().into_owned())
}

/// Relies on std::path::Path::with_extension for replacing the extension.
#[verifier::external_body]
pub(crate) fn with_extension(p: &str, ext: &str) -> (r: String)
    requires
        !ext@.contains('/'),
        !ext@.contains('\\'),
    ensures
        r@ == path_with_extension(p@, ext@),
{
    std::path::Path::new(p).with_extension(ext).to_string_lossy().into_owned()
}

/// Relies on str::to_lowercase: the result depends on the characters alone.
#[verifier::external_body]
pub(crate) fn lowercase(s: &str) -> (r: String)
    ensures
        r@ == lower_of(s@),
{
    s.to_lowercase()
}

/// A name that the file browser does not show: one with a leading dot.
pub open spec fn is_hidden(name: Seq<char>) -> bool {
    name.len() > 0 && name[0] == '.'
}

/// The lower-case extensions that mark a markdown document.
pub open spec fn is_markdown_ext(e: Seq<char>) -> bool {
    e == "md"@ || e == "markdown"@ || e == "mdown"@ || e == "mkd"@
}

/// Whether a path names a markdown document by its extension, in any case.
pub open spec fn is_markdown_path(p: Seq<char>) -> bool {
    match path_extension(p) {
        Some(e) => is_markdown_ext(lower_of(e)),
        None => false,
    }
}

/// A name that an item may be renamed to: not empty, no path separator.
pub open spec fn valid_item_name(n: Seq<char>) -> bool {
    n.len() > 0 && !n.contains('/') && !n.contains('\\')
}

/// The name shown for a path: its file name, else the fallback.
pub open spec fn name_or(p: Seq<char>, fallback: Seq<char>) -> Seq<char> {
    match path_file_name(p) {
        Some(n) => n,
        None => fallback,
    }
}

/// Whether two strings hold the same characters.
pub fn same_chars(a: &str, b: &str) -> (r: bool)
    ensures
        r == (a@ == b@),
{
    let n = a.unicode_len();
    let m = b.unicode_len();
    if n != m {
        return false;
    }
    let mut i: usize = 0;
    while i < n
        invariant
            n == a@.len(),
            m == b@.len(),
            n == m,
            i <= n,
            forall|j: int| 0 <= j < i ==> a@[j] == b@[j],
        decreases n - i,
    {
        if a.get_char(i) != b.get_char(i) {
            return false;
        }
        i += 1;
    }
    assert(a@ =~= b@);
    true
}

/// Whether a string holds the character `c`.
pub fn has_char(s: &str, c: char) -> (r: bool)
    ensures
        r == s@.contains(c),
{
    let n = s.unicode_len();
    let mut i: usize = 0;
    while i < n
        invariant
            n == s@.len(),
            i <= n,
            forall|j: int| 0 <= j < i ==> s@[j] != c,
        decreases n - i,
    {
        if s.get_char(i) == c {
            assert(s@[i as int] == c);
            return true;
        }
        i += 1;
    }
    false
}

/// Whether the file browser hides an entry of this name.
pub fn is_hidden_name(name: &str) -> (r: bool)
    ensures
        r == is_hidden(name@),
{
    name.unicode_len() > 0 && name.get_char(0) == '.'
}

/// Whether an extension, already in lower case, is one of markdown's.
pub fn is_markdown_extension(lowered: &str) -> (r: bool)
    ensures
        r == is_markdown_ext(lowered@),
{
    same_chars(lowered, "md") || same_chars(lowered, "markdown") || same_chars(lowered, "mdown")
        || same_chars(lowered, "mkd")
}

/// Whether the path's extension marks a markdown document, case aside.
pub fn is_markdown_file(path: &str) -> (r: bool)
    ensures
        r == is_markdown_path(path@),
{
    match extension(path) {
        Some(e) => {
            let lowered = lowercase(e.as_str());
            is_markdown_extension(lowered.as_str())
        },
        None => false,
    }
}

/// Whether `name` may be given to an item by a rename.
pub fn is_valid_item_name(name: &str) -> (r: bool)
    ensures
        r == valid_item_name(name@),
{
    name.unicode_len() > 0 && !has_char(name, '/') && !has_char(name, '\\')
}

/// The name to show for `path`: its file name, or `fallback` where it has none.
pub fn display_name(path: &str, fallback: &str) -> (r: String)
    ensures
        r@ == name_or(path@, fallback@),
{
    match file_name(path) {
        Some(n) => n,
        None => fallback.to_string(),
    }
}

} // verus!
