//! The names of containers: a container is named after its source with a
//! fixed suffix, and decrypting requires that suffix and strips it.
use crate::error::CryptileError;
use vstd::prelude::*;
use vstd::string::{StrSliceExecFns, StringExecFns};

verus! {

/// The suffix that names a container.
pub const FILE_EXTENSION: &'static str = ".cryptile";

/// Whether `s` ends with `suffix`.
pub open spec fn has_suffix(s: Seq<char>, suffix: Seq<char>) -> bool {
    s.len() >= suffix.len() && s.subrange(s.len() - suffix.len(), s.len() as int) == suffix
}

/// The name of the container made from `filename`: the name with the suffix added.
pub fn encrypted_name(filename: &str) -> (r: String)
    ensures
        r@ == filename@ + FILE_EXTENSION@,
{
    filename.to_owned().concat(FILE_EXTENSION)
}

/// The name that decrypting container `filename` writes to: the name with
/// the suffix stripped. A name without the suffix is not a container, and is
/// refused before anything is read.
pub fn decrypted_name(filename: &str) -> (r: Result<String, CryptileError>)
    ensures
        r is Ok <==> has_suffix(filename@, FILE_EXTENSION@),
        r matches Ok(name) ==> name@ + FILE_EXTENSION@ == filename@,
        r matches Err(e) ==> e == CryptileError::UnsupportedFormat,
{
    let n = filename.unicode_len();
    let m = FILE_EXTENSION.unicode_len();
    if n < m {
        return Err(CryptileError::UnsupportedFormat);
    }
    let start = n - m;
    let mut i: usize = 0;
    while i < m
        invariant
            n == filename@.len(),
            m == FILE_EXTENSION@.len(),
            start == n - m,
            i <= m,
            forall|k: int| 0 <= k < i ==> #[trigger] FILE_EXTENSION@[k] == filename@[start + k],
        decreases m - i,
    {
        if filename.get_char(start + i) != FILE_EXTENSION.get_char(i) {
            return Err(CryptileError::UnsupportedFormat);
        }
        i += 1;
    }
    assert(filename@.subrange(start as int, n as int) =~= FILE_EXTENSION@);
    let name = filename.substring_char(0, start).to_owned();
    Ok(name)
}

} // verus!
