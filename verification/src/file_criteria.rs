//! The criteria of a search, and the rule that makes them consistent.

use vstd::prelude::*;

verus! {

/// What `validate` answers when the lower size bound lies above the upper one.
pub const SIZE_BOUNDS_MESSAGE: &'static str =
    "Minimum file size cannot be greater than maximum file size";

/// The filters of one search. A filter that is `None` admits every file.
#[derive(Debug)]
pub struct FindCriteria {
    /// Whether the search descends into subdirectories.
    pub recursive: bool,
    /// Bytes that the base name of a file must contain.
    pub file_name: Option<Vec<u8>>,
    /// The extension that a file must have, without the dot.
    pub file_extension: Option<Vec<u8>>,
    /// The least length in bytes, inclusive.
    pub file_size_minimum: Option<u64>,
    /// The greatest length in bytes, inclusive.
    pub file_size_maximum: Option<u64>,
}

/// The criteria as mathematical values.
pub struct CriteriaView {
    pub recursive: bool,
    pub file_name: Option<Seq<u8>>,
    pub file_extension: Option<Seq<u8>>,
    pub file_size_minimum: Option<nat>,
    pub file_size_maximum: Option<nat>,
}

impl CriteriaView {
    /// Criteria that set no filter.
    pub open spec fn unfiltered(recursive: bool) -> CriteriaView {
        CriteriaView {
            recursive,
            file_name: None,
            file_extension: None,
            file_size_minimum: None,
            file_size_maximum: None,
        }
    }

    /// These criteria without any filter but the one on the base name.
    pub open spec fn only_name(self) -> CriteriaView {
        CriteriaView { file_name: self.file_name, ..CriteriaView::unfiltered(self.recursive) }
    }

    /// These criteria without any filter but the one on the extension.
    pub open spec fn only_extension(self) -> CriteriaView {
        CriteriaView {
            file_extension: self.file_extension,
            ..CriteriaView::unfiltered(self.recursive)
        }
    }

    /// These criteria without any filter but the lower size bound.
    pub open spec fn only_minimum(self) -> CriteriaView {
        CriteriaView {
            file_size_minimum: self.file_size_minimum,
            ..CriteriaView::unfiltered(self.recursive)
        }
    }

    /// These criteria without any filter but the upper size bound.
    pub open spec fn only_maximum(self) -> CriteriaView {
        CriteriaView {
            file_size_maximum: self.file_size_maximum,
            ..CriteriaView::unfiltered(self.recursive)
        }
    }

    /// The size bounds do not exclude each other.
    pub open spec fn consistent(self) -> bool {
        self.file_size_minimum is Some && self.file_size_maximum is Some
            ==> self.file_size_minimum->0 <= self.file_size_maximum->0
    }
}

impl View for FindCriteria {
    type V = CriteriaView;

    open spec fn view(&self) -> CriteriaView {
        CriteriaView {
            recursive: self.recursive,
            file_name: match self.file_name {
                Some(name) => Some(name@),
                None => None,
            },
            file_extension: match self.file_extension {
                Some(extension) => Some(extension@),
                None => None,
            },
            file_size_minimum: match self.file_size_minimum {
                Some(size) => Some(size as nat),
                None => None,
            },
            file_size_maximum: match self.file_size_maximum {
                Some(size) => Some(size as nat),
                None => None,
            },
        }
    }
}

impl FindCriteria {
    /// Criteria that set no filter, for a search that descends into
    /// subdirectories.
    pub fn new() -> (criteria: FindCriteria)
        ensures
            criteria@ == CriteriaView::unfiltered(true),
    {
        FindCriteria {
            recursive: true,
            file_name: None,
            file_extension: None,
            file_size_minimum: None,
            file_size_maximum: None,
        }
    }

    /// Criteria that set no filter, for a search that descends into
    /// subdirectories or not, as `recursive` says.
    pub fn new_with_recursive(recursive: bool) -> (criteria: FindCriteria)
        ensures
            criteria@ == CriteriaView::unfiltered(recursive),
    {
        FindCriteria {
            recursive,
            file_name: None,
            file_extension: None,
            file_size_minimum: None,
            file_size_maximum: None,
        }
    }

    /// The same criteria, for a search that descends into subdirectories or
    /// not, as `recursive` says.
    pub fn recursive(self, recursive: bool) -> (criteria: FindCriteria)
        ensures
            criteria@ == (CriteriaView { recursive, ..self@ }),
    {
        FindCriteria { recursive, ..self }
    }

    /// The same criteria, but that the base name of a file must contain `name`.
    pub fn file_name(self, name: Vec<u8>) -> (criteria: FindCriteria)
        ensures
            criteria@ == (CriteriaView { file_name: Some(name@), ..self@ }),
    {
        FindCriteria { file_name: Some(name), ..self }
    }

    /// The same criteria, but that the extension of a file must be `extension`.
    pub fn file_extension(self, extension: Vec<u8>) -> (criteria: FindCriteria)
        ensures
            criteria@ == (CriteriaView { file_extension: Some(extension@), ..self@ }),
    {
        FindCriteria { file_extension: Some(extension), ..self }
    }

    /// The same criteria, but that a file must hold at least `size_minimum` bytes.
    pub fn file_size_minimum(self, size_minimum: u64) -> (criteria: FindCriteria)
        ensures
            criteria@ == (CriteriaView { file_size_minimum: Some(size_minimum as nat), ..self@ }),
    {
        FindCriteria { file_size_minimum: Some(size_minimum), ..self }
    }

    /// The same criteria, but that a file may hold at most `size_maximum` bytes.
    pub fn file_size_maximum(self, size_maximum: u64) -> (criteria: FindCriteria)
        ensures
            criteria@ == (CriteriaView { file_size_maximum: Some(size_maximum as nat), ..self@ }),
    {
        FindCriteria { file_size_maximum: Some(size_maximum), ..self }
    }
}

/// Tests the one rule that ties two filters together: a lower size bound may
/// not lie above the upper one.
pub fn validate(search_criteria: &FindCriteria) -> (result: Result<(), String>)
    ensures
        result is Ok <==> search_criteria@.consistent(),
        result matches Err(message) ==> message@ == SIZE_BOUNDS_MESSAGE@,
{
    if search_criteria.file_size_minimum.is_some() && search_criteria.file_size_maximum.is_some() {
        if search_criteria.file_size_minimum.unwrap() > search_criteria.file_size_maximum.unwrap() {
            return Err(SIZE_BOUNDS_MESSAGE.to_string());
        }
    }
    Ok(())
}

} // verus!
