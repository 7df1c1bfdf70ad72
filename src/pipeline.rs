//! The per-file pipeline (name, then creation time, then plan) and the runs
//! over a single file, a directory or a tree.
use vstd::prelude::*;
use crate::date::CalendarDate;
use crate::extract::{date_in_name, has_iso_prefix, ymd_of};
use crate::remote::names_view;
use crate::plan::{file_name_of, is_plan_for, name_start_of, plan, resolve, RenameError, RenamePlan, Resolution};

verus! {

/// The first step of the pipeline on one file.
#[derive(Clone, Debug, PartialEq, Eq)]
pub enum FileStep {
    /// The name already begins with a date: the file is skipped.
    AlreadyDated,
    /// The name holds a date: rename as planned.
    Planned(RenamePlan),
    /// The name holds no date: the caller fetches the creation time and hands
    /// it to [`plan_with_creation`].
    NeedsCreationDate,
}

/// What the first step owes for the file at `path`.
pub open spec fn first_step_ok(path: Seq<char>, r: Result<FileStep, RenameError>) -> bool {
    let n = file_name_of(path);
    if n.len() == 0 {
        r == Err::<FileStep, RenameError>(RenameError::InvalidPath)
    } else if has_iso_prefix(n) {
        r == Ok::<FileStep, RenameError>(FileStep::AlreadyDated)
    } else {
        match date_in_name(n) {
            None => r == Ok::<FileStep, RenameError>(FileStep::NeedsCreationDate),
            Some(t) => r matches Ok(FileStep::Planned(p)) && ymd_of(p.date) == t && p.date.wf()
                && is_plan_for(p, path, p.date),
        }
    }
}

/// Starts the pipeline on the file at `path`: a name that already begins with a
/// date is skipped, a date in the name is planned, else the creation time is
/// asked for. A path without a file name is an `InvalidPath` error.
pub fn rename_file(path: &str) -> (r: Result<FileStep, RenameError>)
    ensures
        first_step_ok(path@, r),
{
    let n = path.unicode_len();
    let start = name_start_of(path);
    if start == n {
        return Err(RenameError::InvalidPath);
    }
    let name = path.substring_char(start, n);
    match resolve(name) {
        Resolution::AlreadyDated => Ok(FileStep::AlreadyDated),
        Resolution::Dated(c) => Ok(FileStep::Planned(plan(path, c))),
        Resolution::NotFound => Ok(FileStep::NeedsCreationDate),
    }
}

/// Starts the pipeline on a note of the remote vault at `path`; the same
/// decisions as for a local file.
pub fn rename_file_obsidian(path: &str) -> (r: Result<FileStep, RenameError>)
    ensures
        first_step_ok(path@, r),
{
    rename_file(path)
}

/// Finishes the pipeline on a file whose name holds no date, with what the
/// fallback gave: the plan for that date, or the fallback's error.
pub fn plan_with_creation(path: &str, created: Result<CalendarDate, RenameError>) -> (r: Result<RenamePlan, RenameError>)
    ensures
        created matches Ok(c) ==> (r matches Ok(p) && is_plan_for(p, path@, c)),
        created matches Err(e) ==> r == Err::<RenamePlan, RenameError>(e),
{
    match created {
        Ok(c) => Ok(plan(path, c)),
        Err(e) => Err(e),
    }
}

/// A listed entry that names a folder: it ends with `/`.
pub open spec fn is_folder_entry(e: Seq<char>) -> bool {
    e.len() > 0 && e.last() == '/'
}

/// `dir` followed by each entry of `names` that is a folder entry (where
/// `folders`) or that is not (else), in order.
pub open spec fn joined(dir: Seq<char>, names: Seq<Seq<char>>, folders: bool) -> Seq<Seq<char>>
    decreases names.len(),
{
    if names.len() == 0 {
        Seq::empty()
    } else {
        let rest = joined(dir, names.drop_last(), folders);
        if is_folder_entry(names.last()) == folders {
            rest.push(dir + names.last())
        } else {
            rest
        }
    }
}

/// A directory listing split into the folders still to list and the files to
/// handle, each as a full vault path.
#[derive(Clone, Debug, PartialEq, Eq)]
pub struct ListingSplit {
    pub folders: Vec<String>,
    pub files: Vec<String>,
}

/// Splits the listing of the vault directory `dir`: each entry ending with `/`
/// is a folder whose path (`dir` followed by the entry) the caller lists next;
/// every other entry is a file at `dir` followed by the entry. A failed listing
/// gives neither: the tree run goes on with nothing more below `dir`.
pub fn rename_files_in_directory_recursive_obsidian(dir: &str, listing: Result<Vec<String>, RenameError>) -> (r: ListingSplit)
    ensures
        listing matches Ok(names) ==> names_view(r.folders) == joined(dir@, names_view(names), true)
            && names_view(r.files) == joined(dir@, names_view(names), false),
        listing is Err ==> r.folders@.len() == 0 && r.files@.len() == 0,
{
    match listing {
        Err(_) => ListingSplit { folders: Vec::new(), files: Vec::new() },
        Ok(names) => {
            let ghost nv = names_view(names);
            let mut folders: Vec<String> = Vec::new();
            let mut files: Vec<String> = Vec::new();
            let mut i: usize = 0;
            while i < names.len()
                invariant
                    i <= names@.len(),
                    nv == names_view(names),
                    names_view(folders) == joined(dir@, nv.subrange(0, i as int), true),
                    names_view(files) == joined(dir@, nv.subrange(0, i as int), false),
                decreases names@.len() - i,
            {
                let entry = names[i].as_str();
                let len = entry.unicode_len();
                let folder = len > 0 && entry.get_char(len - 1) == '/';
                let path = String::from_str(dir).concat(entry);
                proof {
                    let sub = nv.subrange(0, i + 1);
                    assert(sub.drop_last() =~= nv.subrange(0, i as int));
                    assert(sub.last() == entry@);
                    assert(folder == is_folder_entry(entry@));
                }
                if folder {
                    folders.push(path);
                } else {
                    files.push(path);
                }
                assert(names_view(folders) =~= joined(dir@, nv.subrange(0, i + 1), true));
                assert(names_view(files) =~= joined(dir@, nv.subrange(0, i + 1), false));
                i += 1;
            }
            assert(nv.subrange(0, names@.len() as int) =~= nv);
            ListingSplit { folders, files }
        },
    }
}

/// The paths of the notes listed in the vault directory `dir`: `dir` followed by
/// each entry that is not a folder (does not end with `/`), in order. A failed
/// listing gives no paths: the batch goes on with nothing to do.
pub fn rename_files_in_directory_obsidian(dir: &str, listing: Result<Vec<String>, RenameError>) -> (r: Vec<String>)
    ensures
        listing matches Ok(names) ==> names_view(r) == joined(dir@, names_view(names), false),
        listing is Err ==> r@.len() == 0,
{
    rename_files_in_directory_recursive_obsidian(dir, listing).files
}

} // verus!
