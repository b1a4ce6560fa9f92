//! Bookkeeping for the import of memories from another store.

use vstd::prelude::*;
use vstd::string::*;
use crate::errors::Error;

verus! {

/// Import statistics for reporting.
#[derive(Debug)]
pub struct ImportStats {
    /// Rows read from the source.
    pub total_memories: usize,
    /// Rows stored.
    pub imported_memories: usize,
    /// Rows left out because the store holds them already.
    pub skipped_duplicates: usize,
    /// Rows left out because they could not be read.
    pub skipped_corrupted: usize,
    /// The projects met, each once, in the order in which they were first met.
    pub projects: Vec<String>,
}

/// The names in `projects`.
pub open spec fn project_names(projects: Seq<String>) -> Seq<Seq<char>> {
    projects.map_values(|p: String| p@)
}

impl Default for ImportStats {
    fn default() -> (r: Self)
        ensures
            r.wf(),
            r.total_memories == 0,
            r.imported_memories == 0,
            r.skipped_duplicates == 0,
            r.skipped_corrupted == 0,
            r.projects@.len() == 0,
    {
        ImportStats::new()
    }
}

impl ImportStats {
    /// No project is listed twice.
    pub open spec fn wf(&self) -> bool {
        project_names(self.projects@).no_duplicates()
    }

    /// Statistics of an import that has not read anything yet.
    pub fn new() -> (r: Self)
        ensures
            r.wf(),
            r.total_memories == 0,
            r.imported_memories == 0,
            r.skipped_duplicates == 0,
            r.skipped_corrupted == 0,
            r.projects@.len() == 0,
    {
        ImportStats {
            total_memories: 0,
            imported_memories: 0,
            skipped_duplicates: 0,
            skipped_corrupted: 0,
            projects: Vec::new(),
        }
    }

    /// Notes that a row of `project` was read. The project is listed if it
    /// was not yet; the count of rows stops at the largest number it can hold.
    pub fn record_row(&mut self, project: &str)
        requires
            old(self).wf(),
        ensures
            final(self).wf(),
            final(self).total_memories == if old(self).total_memories < usize::MAX {
                (old(self).total_memories + 1) as usize
            } else {
                usize::MAX
            },
            final(self).imported_memories == old(self).imported_memories,
            final(self).skipped_duplicates == old(self).skipped_duplicates,
            final(self).skipped_corrupted == old(self).skipped_corrupted,
            project_names(final(self).projects@) == if project_names(old(self).projects@).contains(
                project@,
            ) {
                project_names(old(self).projects@)
            } else {
                project_names(old(self).projects@).push(project@)
            },
    {
        if self.total_memories < usize::MAX {
            self.total_memories += 1;
        }
        let ghost names = project_names(self.projects@);
        let ghost counted = *self;
        let wanted = String::from_str(project);
        let mut i: usize = 0;
        while i < self.projects.len()
            invariant
                i <= self.projects@.len(),
                *self == counted,
                counted.wf(),
                counted.projects == old(self).projects,
                counted.imported_memories == old(self).imported_memories,
                counted.skipped_duplicates == old(self).skipped_duplicates,
                counted.skipped_corrupted == old(self).skipped_corrupted,
                counted.total_memories == if old(self).total_memories < usize::MAX {
                    (old(self).total_memories + 1) as usize
                } else {
                    usize::MAX
                },
                names == project_names(self.projects@),
                wanted@ == project@,
                forall|j: int| 0 <= j < i ==> names[j] != project@,
            decreases self.projects.len() - i,
        {
            if self.projects[i] == wanted {
                assert(names[i as int] == project@);
                return ;
            }
            i += 1;
        }
        self.projects.push(wanted);
        assert(project_names(self.projects@) =~= names.push(project@));
    }
}

/// Where an import reads from.
#[derive(Debug, Clone, Copy, PartialEq, Eq, Structural)]
pub enum ImportFormat {
    /// A database of the other store.
    Sqlite,
    /// A JSON export.
    Json,
}

/// The text that rejects an unknown import format.
pub open spec fn invalid_format_text(format: Seq<char>) -> Seq<char> {
    "Invalid format '"@ + format + "': must be 'sqlite' or 'json'"@
}

/// Reads the format of an import. The formats are `sqlite` and `json`; a
/// JSON import cannot be tried out in a dry run.
pub fn parse_format(format: &str, dry_run: bool) -> (r: Result<ImportFormat, Error>)
    ensures
        format@ == "sqlite"@ ==> r == Ok::<ImportFormat, Error>(ImportFormat::Sqlite),
        format@ == "json"@ && !dry_run ==> r == Ok::<ImportFormat, Error>(ImportFormat::Json),
        format@ == "json"@ && dry_run ==> (r matches Err(Error::InvalidInput(msg)) && msg@
            == "Dry run not supported for JSON import"@),
        format@ != "sqlite"@ && format@ != "json"@ ==> (r matches Err(Error::InvalidInput(msg))
            && msg@ == invalid_format_text(format@)),
{
    proof {
        reveal_strlit("sqlite");
        reveal_strlit("json");
        assert("sqlite"@.len() == 6 && "json"@.len() == 4);
    }
    let given = String::from_str(format);
    if given == String::from_str("sqlite") {
        return Ok(ImportFormat::Sqlite);
    }
    if given == String::from_str("json") {
        if dry_run {
            return Err(
                Error::InvalidInput(String::from_str("Dry run not supported for JSON import")),
            );
        }
        return Ok(ImportFormat::Json);
    }
    let mut m = String::from_str("Invalid format '");
    m.append(format);
    m.append("': must be 'sqlite' or 'json'");
    Err(Error::InvalidInput(m))
}

} // verus!
