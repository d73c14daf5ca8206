//! The layout of a project's `.rivet` folder and whether a project has a usable one.
use vstd::prelude::*;

verus! {

/// The folders that a `.rivet` folder must hold.
pub fn required_rivet_dirs() -> (dirs: Vec<String>)
    ensures
        dirs@.len() == 2,
        dirs@[0]@ == "collections"@,
        dirs@[1]@ == "history"@,
{
    let mut dirs: Vec<String> = Vec::new();
    dirs.push(String::from_str("collections"));
    dirs.push(String::from_str("history"));
    dirs
}

/// The files that a `.rivet` folder must hold.
pub fn required_rivet_files() -> (files: Vec<String>)
    ensures
        files@.len() == 1,
        files@[0]@ == "config.toml"@,
{
    let mut files: Vec<String> = Vec::new();
    files.push(String::from_str("config.toml"));
    files
}

/// What a project's `.rivet` folder is like.
#[derive(Clone, Copy, Debug, PartialEq, Eq, Structural)]
pub enum RivetFolderStatus {
    /// There is no `.rivet` folder.
    Missing,
    /// A required folder or file is missing from it.
    Corrupted,
    /// It holds everything required.
    Ready,
}

/// The status of a `.rivet` folder: missing unless it is a folder, corrupted
/// unless each required folder is a folder and each required file a file.
pub open spec fn spec_rivet_folder_status(rivet_is_dir: bool, dirs_present: Seq<bool>, files_present: Seq<bool>) -> RivetFolderStatus {
    if !rivet_is_dir {
        RivetFolderStatus::Missing
    } else if dirs_present.contains(false) || files_present.contains(false) {
        RivetFolderStatus::Corrupted
    } else {
        RivetFolderStatus::Ready
    }
}

fn all_true(flags: &[bool]) -> (b: bool)
    ensures
        b == !flags@.contains(false),
{
    let mut i: usize = 0;
    while i < flags.len()
        invariant
            i <= flags@.len(),
            forall|k: int| 0 <= k < i ==> flags@[k],
        decreases flags@.len() - i,
    {
        if !flags[i] {
            assert(flags@[i as int] == false);
            return false;
        }
        i = i + 1;
    }
    true
}

/// The status of a project's `.rivet` folder from what was found: whether it
/// is a folder, and whether each of [`required_rivet_dirs`] is a folder and
/// each of [`required_rivet_files`] a file in it.
pub fn rivet_folder_status(rivet_is_dir: bool, dirs_present: &[bool], files_present: &[bool]) -> (s: RivetFolderStatus)
    ensures
        s == spec_rivet_folder_status(rivet_is_dir, dirs_present@, files_present@),
{
    if !rivet_is_dir {
        return RivetFolderStatus::Missing;
    }
    let dirs_ok = all_true(dirs_present);
    let files_ok = all_true(files_present);
    if !dirs_ok || !files_ok {
        RivetFolderStatus::Corrupted
    } else {
        RivetFolderStatus::Ready
    }
}

} // verus!
