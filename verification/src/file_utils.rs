//! The test that decides whether one regular file meets the criteria.

use vstd::prelude::*;

use crate::entry::FileEntry;
use crate::entry::FileEntryView;
use crate::file_criteria::CriteriaView;
use crate::file_criteria::FindCriteria;

verus! {

/// `inner` stands in `outer` as a run of consecutive bytes that starts at `at`.
pub open spec fn occurs_at(outer: Seq<u8>, inner: Seq<u8>, at: int) -> bool {
    &&& 0 <= at <= outer.len() - inner.len()
    &&& outer.subrange(at, at + inner.len()) == inner
}

/// `inner` stands somewhere in `outer` as a run of consecutive bytes.
pub open spec fn contains_bytes(outer: Seq<u8>, inner: Seq<u8>) -> bool {
    exists|at: int| occurs_at(outer, inner, at)
}

/// The base name holds the fragment that the criteria ask for, if they ask for one.
pub open spec fn name_accepted(file: FileEntryView, criteria: CriteriaView) -> bool {
    criteria.file_name matches Some(fragment) ==> contains_bytes(file.name, fragment)
}

/// The file has the very extension that the criteria ask for, if they ask for one.
pub open spec fn extension_accepted(file: FileEntryView, criteria: CriteriaView) -> bool {
    criteria.file_extension matches Some(extension) ==> file.extension == Some(extension)
}

/// The length is known and not below the lower bound, if there is one.
pub open spec fn minimum_accepted(file: FileEntryView, criteria: CriteriaView) -> bool {
    criteria.file_size_minimum matches Some(minimum) ==> file.size matches Some(size) && size
        >= minimum
}

/// The length is known and not above the upper bound, if there is one.
pub open spec fn maximum_accepted(file: FileEntryView, criteria: CriteriaView) -> bool {
    criteria.file_size_maximum matches Some(maximum) ==> file.size matches Some(size) && size
        <= maximum
}

/// The file passes every filter that the criteria set.
pub open spec fn accepts(file: FileEntryView, criteria: CriteriaView) -> bool {
    &&& name_accepted(file, criteria)
    &&& extension_accepted(file, criteria)
    &&& minimum_accepted(file, criteria)
    &&& maximum_accepted(file, criteria)
}

/// The filter on the base name looks for the fragment at every place: where
/// it is the only filter, a file is accepted if its base name is the fragment
/// with any bytes before and after it, and only then.
pub proof fn lemma_name_filter_is_containment(
    file: FileEntryView,
    criteria: CriteriaView,
    fragment: Seq<u8>,
)
    requires
        criteria.file_name == Some(fragment),
        criteria == criteria.only_name(),
    ensures
        forall|before: Seq<u8>, after: Seq<u8>|
            file.name == before + fragment + after ==> accepts(file, criteria),
        accepts(file, criteria) ==> exists|before: Seq<u8>, after: Seq<u8>|
            file.name == before + fragment + after,
{
    assert forall|before: Seq<u8>, after: Seq<u8>|
        file.name == before + fragment + after implies accepts(file, criteria) by {
        let at = before.len() as int;
        assert(file.name.subrange(at, at + fragment.len()) =~= fragment);
        assert(occurs_at(file.name, fragment, at));
    }
    if accepts(file, criteria) {
        let at = choose|at: int| occurs_at(file.name, fragment, at);
        let before = file.name.subrange(0, at);
        let after = file.name.subrange(at + fragment.len(), file.name.len() as int);
        assert(file.name =~= before + file.name.subrange(at, at + fragment.len()) + after);
    }
}

/// The filter on the extension is exact: where it is the only filter, a file
/// is accepted if it has an extension and that extension is, byte for byte,
/// the one asked for, and only then.
pub proof fn lemma_extension_filter_is_exact(
    file: FileEntryView,
    criteria: CriteriaView,
    extension: Seq<u8>,
)
    requires
        criteria.file_extension == Some(extension),
        criteria == criteria.only_extension(),
    ensures
        accepts(file, criteria) <==> file.extension == Some(extension),
{
}

/// The size bounds are inclusive: where the bounds do not exclude each other,
/// a file that holds exactly as many bytes as one of them says passes both,
/// and is accepted if its name and extension are.
pub proof fn lemma_size_bounds_are_inclusive(file: FileEntryView, criteria: CriteriaView)
    requires
        name_accepted(file, criteria),
        extension_accepted(file, criteria),
        criteria.consistent(),
        file.size is Some,
        file.size == criteria.file_size_minimum || file.size == criteria.file_size_maximum,
    ensures
        accepts(file, criteria),
{
}

/// The filters combine by intersection: a file is accepted where each filter,
/// taken alone, accepts it, and only then.
pub proof fn lemma_filters_intersect(file: FileEntryView, criteria: CriteriaView)
    ensures
        accepts(file, criteria) <==> {
            &&& accepts(file, criteria.only_name())
            &&& accepts(file, criteria.only_extension())
            &&& accepts(file, criteria.only_minimum())
            &&& accepts(file, criteria.only_maximum())
        },
{
}

/// Compares `inner` with the bytes of `outer` that start at `at`.
fn matches_at(outer: &[u8], inner: &[u8], at: usize) -> (matched: bool)
    requires
        at + inner@.len() <= outer@.len(),
    ensures
        matched == occurs_at(outer@, inner@, at as int),
{
    let total: usize = outer.len();
    let mut i: usize = 0;
    while i < inner.len()
        invariant
            at + inner@.len() <= outer@.len() == total,
            i <= inner@.len(),
            forall|k: int| 0 <= k < i ==> outer@[at + k] == inner@[k],
        decreases inner@.len() - i,
    {
        if outer[at + i] != inner[i] {
            return false;
        }
        i += 1;
    }
    assert(outer@.subrange(at as int, at + inner@.len()) =~= inner@);
    true
}

/// Whether two byte strings are the same.
fn same_bytes(left: &[u8], right: &[u8]) -> (same: bool)
    ensures
        same == (left@ == right@),
{
    if left.len() != right.len() {
        return false;
    }
    assert(left@.subrange(0, left@.len() as int) =~= left@);
    matches_at(left, right, 0)
}

/// Whether `inner` stands somewhere in `outer` as a run of consecutive bytes.
/// The empty string stands in every string.
pub fn contains(outer: &[u8], inner: &[u8]) -> (found: bool)
    ensures
        found == contains_bytes(outer@, inner@),
{
    if inner.len() > outer.len() {
        return false;
    }
    let last: usize = outer.len() - inner.len();
    let mut at: usize = 0;
    while at < last
        invariant
            last == outer@.len() - inner@.len(),
            at <= last,
            forall|k: int| 0 <= k < at ==> !occurs_at(outer@, inner@, k),
        decreases last - at,
    {
        if matches_at(outer, inner, at) {
            return true;
        }
        at += 1;
    }
    matches_at(outer, inner, last)
}

/// Decides whether a regular file meets the criteria: it does where it passes
/// every filter that is set. A file whose length is unknown passes no size
/// filter.
pub fn accept(file: &FileEntry, criteria: &FindCriteria) -> (accepted: bool)
    ensures
        accepted == accepts(file@, criteria@),
{
    if let Some(file_name) = criteria.file_name.as_ref() {
        if !contains(file.name.as_slice(), file_name.as_slice()) {
            return false;
        }
    }
    if let Some(extension) = criteria.file_extension.as_ref() {
        match file.extension.as_ref() {
            Some(found) => {
                if !same_bytes(found.as_slice(), extension.as_slice()) {
                    return false;
                }
            },
            None => {
                return false;
            },
        }
    }
    if let Some(size_min) = criteria.file_size_minimum {
        match file.size {
            Some(size) => {
                if size < size_min {
                    return false;
                }
            },
            None => {
                return false;
            },
        }
    }
    if let Some(size_max) = criteria.file_size_maximum {
        match file.size {
            Some(size) => {
                if size > size_max {
                    return false;
                }
            },
            None => {
                return false;
            },
        }
    }
    true
}

} // verus!
