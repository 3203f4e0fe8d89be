use sage_hot_lib::resolver::{find_file_or_dir_in_parent_directories, Resolved};
use sage_hot_lib::HotReloaderError;

#[test]
fn existing_path_is_taken_as_given() {
    assert_eq!(
        find_file_or_dir_in_parent_directories(true, true, &Some(vec![false, true])),
        Ok(Resolved::AsGiven)
    );
    assert_eq!(find_file_or_dir_in_parent_directories(true, false, &None), Ok(Resolved::AsGiven));
}

#[test]
fn nearest_ancestor_with_the_path_wins() {
    assert_eq!(
        find_file_or_dir_in_parent_directories(false, true, &Some(vec![false, false, true, true])),
        Ok(Resolved::UnderAncestor(2))
    );
    assert_eq!(
        find_file_or_dir_in_parent_directories(false, true, &Some(vec![true])),
        Ok(Resolved::UnderAncestor(0))
    );
}

#[test]
fn missing_absolute_path_is_not_searched() {
    assert_eq!(
        find_file_or_dir_in_parent_directories(false, false, &Some(vec![true, true])),
        Err(HotReloaderError::NotFound)
    );
}

#[test]
fn path_below_no_ancestor_is_not_found() {
    assert_eq!(
        find_file_or_dir_in_parent_directories(false, true, &Some(vec![false, false])),
        Err(HotReloaderError::NotFound)
    );
    assert_eq!(
        find_file_or_dir_in_parent_directories(false, true, &Some(Vec::new())),
        Err(HotReloaderError::NotFound)
    );
}

#[test]
fn unknown_working_directory_is_not_found() {
    assert_eq!(
        find_file_or_dir_in_parent_directories(false, true, &None),
        Err(HotReloaderError::NotFound)
    );
}

#[test]
fn errors_have_a_text() {
    assert_eq!(HotReloaderError::NotFound.describe(), "file or directory does not exist");
    assert_eq!(HotReloaderError::CopyError.describe(), "cannot copy the library file");
    assert_eq!(HotReloaderError::LoadError.describe(), "cannot load the library");
    assert_eq!(
        HotReloaderError::SymbolNotFound.describe(),
        "cannot find the symbol in the library"
    );
    assert_eq!(HotReloaderError::LibraryNotLoaded.describe(), "library is not loaded");
    assert_eq!(HotReloaderError::LockContention.describe(), "library is in use");
}
