use rivet::rivet_folder::{required_rivet_dirs, required_rivet_files, rivet_folder_status, RivetFolderStatus};

#[test]
fn layout() {
    assert_eq!(required_rivet_dirs(), vec!["collections".to_string(), "history".to_string()]);
    assert_eq!(required_rivet_files(), vec!["config.toml".to_string()]);
}

#[test]
fn statuses() {
    assert_eq!(rivet_folder_status(false, &[true, true], &[true]), RivetFolderStatus::Missing);
    assert_eq!(rivet_folder_status(true, &[true, false], &[true]), RivetFolderStatus::Corrupted);
    assert_eq!(rivet_folder_status(true, &[true, true], &[false]), RivetFolderStatus::Corrupted);
    assert_eq!(rivet_folder_status(true, &[true, true], &[true]), RivetFolderStatus::Ready);
}
