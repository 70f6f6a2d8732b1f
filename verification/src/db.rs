//! Where the database is kept.
use vstd::prelude::*;

use crate::text::{begins_with, chars_of, matches_at, slice_of, string_of};

verus! {

/// What the address of a database in a file begins with.
pub const FILE_SCHEME: &'static str = "sqlite://";

/// The file that an address names: what stands after the scheme, unless that is
/// nothing or begins with a colon, as the address of a database in memory does.
pub open spec fn file_of(url: Seq<char>) -> Option<Seq<char>> {
    let path = url.skip(FILE_SCHEME@.len() as int);
    if begins_with(url, FILE_SCHEME@) && path.len() > 0 && path[0] != ':' {
        Some(path)
    } else {
        None
    }
}

/// Finds the file whose directory has to exist before the database can be
/// opened.
pub fn database_file(url: &str) -> (r: Option<String>)
    ensures
        crate::text::opt_view(r) == file_of(url@),
{
    let chars = chars_of(url);
    let scheme = chars_of(FILE_SCHEME);
    if !matches_at(chars.as_slice(), scheme.as_slice(), 0) {
        return None;
    }
    let path = slice_of(chars.as_slice(), scheme.len(), chars.len());
    assert(path@ =~= url@.skip(scheme@.len() as int));
    if path.len() == 0 || path[0] == ':' {
        None
    } else {
        Some(string_of(path.as_slice()))
    }
}

/// An address names the file that stands behind `sqlite://`, unless nothing does
/// or it begins with a colon; any other address names none.
pub proof fn addresses_name_files_behind_the_scheme(path: Seq<char>, url: Seq<char>)
    ensures
        path.len() > 0 && path[0] != ':' ==> file_of("sqlite://"@ + path) == Some(path),
        path.len() == 0 || path[0] == ':' ==> file_of("sqlite://"@ + path) is None,
        !begins_with(url, "sqlite://"@) ==> file_of(url) is None,
{
    crate::text::text_is_found_where_it_stands(Seq::empty(), "sqlite://"@, path);
    let whole = "sqlite://"@ + path;
    assert(whole.skip("sqlite://"@.len() as int) =~= path);
}

} // verus!
