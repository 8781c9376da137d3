//! Repository paths of the form `owner/name`.

use vstd::prelude::*;
use vstd::string::*;
use crate::text::chars_of;

verus! {

/// The number of slashes in a path.
pub open spec fn separators(path: Seq<char>) -> nat
    decreases path.len(),
{
    if path.len() == 0 {
        0
    } else if path.last() == '/' {
        separators(path.drop_last()) + 1
    } else {
        separators(path.drop_last())
    }
}

/// Splits a repository path such as `travisbrown/octocrabby` into owner and
/// name. A path has two parts where it holds exactly one slash; either part
/// may be empty. Any other path has no reading.
pub fn parse_repo_path(path: &str) -> (parts: Option<(&str, &str)>)
    ensures
        parts is Some <==> separators(path@) == 1,
        parts matches Some((owner, name)) ==> {
            &&& path@ == owner@ + seq!['/'] + name@
            &&& !owner@.contains('/')
            &&& !name@.contains('/')
        },
{
    let chars = chars_of(path);
    let mut count: usize = 0;
    let mut first: usize = 0;
    let mut k: usize = 0;
    while k < chars.len()
        invariant
            k <= chars.len(),
            count <= k,
            count == separators(chars@.take(k as int)),
            count > 0 ==> first < k && chars@[first as int] == '/',
            count > 0 ==> forall|j: int| 0 <= j < first ==> chars@[j] != '/',
            count == 1 ==> forall|j: int| first < j < k ==> chars@[j] != '/',
            count == 0 ==> forall|j: int| 0 <= j < k ==> chars@[j] != '/',
        decreases chars.len() - k,
    {
        assert(chars@.take(k + 1).drop_last() =~= chars@.take(k as int));
        if chars[k] == '/' {
            if count == 0 {
                first = k;
            }
            count += 1;
        }
        k += 1;
    }
    assert(chars@.take(k as int) =~= chars@);
    if count == 1 {
        let owner = path.substring_char(0, first);
        let name = path.substring_char(first + 1, chars.len());
        Some((owner, name))
    } else {
        None
    }
}

} // verus!
