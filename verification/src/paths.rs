//! File paths, held as text. What `std::path` computes of them, by the path
//! rules of the platform the library is built for, is named here.
use vstd::prelude::*;

use crate::text::{chars_of, slice_chars, string_of};

verus! {

/// Index of the last `c` in `s`, if any.
pub open spec fn last_index_of(s: Seq<char>, c: char) -> Option<int>
    decreases s.len(),
{
    if s.len() == 0 {
        None
    } else if s.last() == c {
        Some(s.len() - 1)
    } else {
        last_index_of(s.drop_last(), c)
    }
}

/// The extension of a file name, as `Path::extension` documents it: none
/// without a file name, none without a `.` other than a leading one, else
/// what follows the last `.`.
pub open spec fn extension_of(name: Option<Seq<char>>) -> Option<Seq<char>> {
    match name {
        None => None,
        Some(n) => match last_index_of(n, '.') {
            Some(i) => if i == 0 {
                None
            } else {
                Some(n.skip(i + 1))
            },
            None => None,
        },
    }
}

/// The extension of a path.
pub open spec fn spec_path_extension(path: Seq<char>) -> Option<Seq<char>> {
    extension_of(spec_path_file_name(path))
}

/// Index of the last `c` in `v`, if any.
fn last_index_exec(v: &[char], c: char) -> (r: Option<usize>)
    ensures
        match r {
            Some(i) => i < v@.len() && last_index_of(v@, c) == Some(i as int),
            None => last_index_of(v@, c) is None,
        },
{
    let mut i: usize = v.len();
    assert(v@.subrange(0, i as int) =~= v@);
    while i > 0
        invariant
            i <= v.len(),
            last_index_of(v@, c) == last_index_of(v@.subrange(0, i as int), c),
        decreases i,
    {
        let ghost s = v@.subrange(0, i as int);
        assert(s.last() == v@[i - 1]);
        if v[i - 1] == c {
            return Some(i - 1);
        }
        assert(s.drop_last() =~= v@.subrange(0, i - 1));
        i -= 1;
    }
    None
}

/// `Path::new(path).extension()`, as text: what follows the last `.` of the
/// file name, unless that `.` is the name's first character.
pub(crate) fn path_extension(path: &str) -> (r: Option<String>)
    ensures
        match r {
            Some(e) => spec_path_extension(path@) == Some(e@),
            None => spec_path_extension(path@) is None,
        },
{
    match path_file_name(path) {
        None => None,
        Some(name) => {
            let v = chars_of(name.as_str());
            let found = last_index_exec(v.as_slice(), '.');
            match found {
                Some(i) => if i == 0 {
                    None
                } else {
                    assert(i < v.len());
                    let ext = slice_chars(v.as_slice(), i + 1, v.len());
                    assert(ext@ == name@.skip(i + 1));
                    Some(string_of(ext.as_slice()))
                },
                None => None,
            }
        },
    }
}

/// What `Path::is_absolute` says of a path.
pub uninterp spec fn spec_path_is_absolute(path: Seq<char>) -> bool;

/// `Path::new(path).is_absolute()`. The result is named by
/// `spec_path_is_absolute`.
#[verifier::external_body]
pub(crate) fn path_is_absolute(path: &str) -> (b: bool)
    ensures
        b == spec_path_is_absolute(path@),
{
    std::path::Path::new(path).is_absolute()
}

/// What `Path::join` gives for a base and a relative path, as text.
pub uninterp spec fn spec_path_join(base: Seq<char>, rel: Seq<char>) -> Seq<char>;

/// `Path::new(base).join(rel)`, as text (lossy for non-UTF-8 results, which
/// text inputs cannot produce). The result is named by `spec_path_join`;
/// as documented, an absolute `rel` replaces `base`.
#[verifier::external_body]
pub(crate) fn path_join(base: &str, rel: &str) -> (r: String)
    ensures
        r@ == spec_path_join(base@, rel@),
        spec_path_is_absolute(rel@) ==> r@ == rel@,
{
    std::path::Path::new(base).join(rel).to_string_lossy().into_owned()
}

/// What `Path::file_name` gives for a path, as text.
pub uninterp spec fn spec_path_file_name(path: Seq<char>) -> Option<Seq<char>>;

/// `Path::new(path).file_name()`, as text. The result is named by
/// `spec_path_file_name`.
#[verifier::external_body]
pub(crate) fn path_file_name(path: &str) -> (r: Option<String>)
    ensures
        match r {
            Some(n) => spec_path_file_name(path@) == Some(n@),
            None => spec_path_file_name(path@) is None,
        },
{
    std::path::Path::new(path).file_name().and_then(|n| n.to_str()).map(|n| n.to_string())
}

} // verus!
