use std::path::Path;

use codecrafters_shell::file::FileManager;
use codecrafters_shell::path::{join_dir, PathDirsProvider};

fn is_file(p: &str) -> bool {
    Path::new(p).is_file()
}

#[test]
fn new_creates_path_with_directories() {
    let dirs = vec!["/usr/bin".to_string(), "/bin".to_string()];
    let path = PathDirsProvider::new(dirs.clone());

    assert_eq!(path.iter().len(), 2);
}

#[test]
fn new_creates_empty_path() {
    let path = PathDirsProvider::new(vec![]);
    assert_eq!(path.iter().len(), 0);
}

#[test]
fn find_executable_with_empty_path_returns_none() {
    let path = PathDirsProvider::new(vec![]);
    let result = path.find_executable("ls", &is_file);

    assert!(result.is_none(), "Should not find anything with empty PATH");
}

#[test]
fn find_executable_with_specific_directories() {
    let path = PathDirsProvider::new(vec!["/usr/bin".to_string(), "/bin".to_string()]);
    let result = path.find_executable("ls", &is_file);

    // ls should be in either /usr/bin or /bin on most Unix systems
    assert!(result.is_some(), "Should find ls in /usr/bin or /bin");
}

#[test]
fn find_executable_returns_first_match() {
    // If executable exists in multiple directories, returns first
    let path = PathDirsProvider::new(vec!["/bin".to_string(), "/usr/bin".to_string()]);

    let result = path.find_executable("sh", &is_file);

    if let Some(exe_path) = result {
        // Just verify it exists, order depends on system
        assert!(exe_path.contains("sh"));
    }
}

#[test]
fn find_executable_ignores_directories() {
    // Create a path that includes a directory that exists
    let path = PathDirsProvider::new(vec![
        "/usr".to_string(), // This is a directory, not a file
    ]);

    // Looking for "bin" (which is a directory in /usr)
    let result = path.find_executable("bin", &is_file);

    // Should not find it because it's a directory, not a file
    assert!(result.is_none(), "Should not match directories");
}

#[test]
fn find_executable_with_nonexistent_directory_in_path() {
    let path = PathDirsProvider::new(vec![
        "/this/does/not/exist".to_string(),
        "/usr/bin".to_string(),
    ]);

    // Should still find ls in /usr/bin despite nonexistent first directory
    let result = path.find_executable("ls", &is_file);
    assert!(result.is_some(), "Should skip nonexistent dirs and find ls");
}

#[test]
fn find_executable_takes_the_first_directory() {
    let path = PathDirsProvider::new(vec!["/a".to_string(), "/b".to_string(), "/c".to_string()]);
    let probe = |p: &str| p == "/b/tool" || p == "/c/tool";
    assert_eq!(path.find_executable("tool", &probe), Some("/b/tool".to_string()));
}

#[test]
fn paths_join_like_components() {
    assert_eq!(join_dir("/usr/bin", "ls"), "/usr/bin/ls");
    assert_eq!(join_dir("/usr/bin/", "ls"), "/usr/bin/ls");
    assert_eq!(join_dir("", "ls"), "ls");
    assert_eq!(join_dir("/usr/bin", "/bin/ls"), "/bin/ls");
    assert_eq!(join_dir("/home/u", ""), "/home/u/");
}

#[test]
fn redirection_target_needs_a_parent() {
    let files = FileManager;
    assert!(files.parent_dir_exist("/tmp/out.txt").is_ok());
    assert!(files.parent_dir_exist("out.txt").is_ok());
    assert!(files.parent_dir_exist("/").is_err());
    assert!(files.parent_dir_exist("").is_err());
    assert!(files.should_go_to_homedir("~"));
    assert!(files.should_go_to_homedir(""));
    assert!(files.should_go_to_homedir("~/"));
    assert!(!files.should_go_to_homedir("~/x"));
}
