//! The project descriptor: a name, a main file, local includes and remote modules.

use vstd::prelude::*;
use vstd::string::StringExecFns;
use crate::text::{ends_with, has_suffix};

verus! {

/// Suffix that every project file carries.
pub const FILE_EXTENSION: &'static str = ".scproj";

/// `FILE_EXTENSION` as a sequence of characters.
pub open spec fn project_suffix() -> Seq<char> {
    seq!['.', 's', 'c', 'p', 'r', 'o', 'j']
}

/// A remote dependency: a repository pinned at one revision.
#[derive(Clone, Debug, PartialEq, Eq)]
pub struct Module {
    pub id: String,
    pub url: String,
    pub branch: String,
}

/// The project record that a project file holds.
#[derive(Clone, Debug, PartialEq, Eq)]
pub struct ScorchProject {
    pub name: String,
    pub main: String,
    pub includes: Vec<String>,
    pub modules: Vec<Module>,
}

/// Why a project descriptor or its path was refused.
#[derive(Clone, Debug, PartialEq, Eq)]
pub enum ProjectError {
    /// The path does not end with the project-file suffix.
    BadExtension(String),
    /// Two modules share this id.
    DuplicateModule(String),
}

/// No two modules share an id.
pub open spec fn ids_distinct(modules: Seq<Module>) -> bool {
    forall|i: int, j: int|
        0 <= i < j < modules.len() ==> #[trigger] modules[i].id@ != #[trigger] modules[j].id@
}

/// Checks that `file_path` names a project file; nothing is read.
pub fn check_project_path(file_path: &str) -> (r: Result<(), ProjectError>)
    ensures
        r is Ok <==> has_suffix(file_path@, project_suffix()),
        r matches Err(e) ==> (e matches ProjectError::BadExtension(p) && p@ == file_path@),
{
    proof {
        reveal_strlit(".scproj");
    }
    assert(FILE_EXTENSION@ == project_suffix());
    if ends_with(file_path, FILE_EXTENSION) {
        Ok(())
    } else {
        Err(ProjectError::BadExtension(String::from_str(file_path)))
    }
}

impl ScorchProject {
    /// Refuses a descriptor in which two modules share an id: they would
    /// alias one cache entry.
    pub fn validate(&self) -> (r: Result<(), ProjectError>)
        ensures
            r is Ok <==> ids_distinct(self.modules@),
            r matches Err(e) ==> (e matches ProjectError::DuplicateModule(id) && exists|i: int, j: int|
                0 <= i < j < self.modules@.len() && self.modules@[i].id@ == id@
                    && self.modules@[j].id@ == id@),
    {
        let n = self.modules.len();
        let mut j: usize = 0;
        while j < n
            invariant
                n == self.modules@.len(),
                j <= n,
                forall|a: int, b: int|
                    0 <= a < b < j ==> #[trigger] self.modules@[a].id@ != #[trigger] self.modules@[b].id@,
            decreases n - j,
        {
            let mut i: usize = 0;
            while i < j
                invariant
                    n == self.modules@.len(),
                    i <= j < n,
                    forall|a: int| 0 <= a < i ==> #[trigger] self.modules@[a].id@ != self.modules@[j as int].id@,
                decreases j - i,
            {
                if self.modules[i].id == self.modules[j].id {
                    return Err(ProjectError::DuplicateModule(self.modules[j].id.clone()));
                }
                i = i + 1;
            }
            j = j + 1;
        }
        Ok(())
    }
}

} // verus!
