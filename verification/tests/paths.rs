use raccoon::repository::{PathError, Repository};
use raccoon::order::compare_bytes;
use raccoon::path::{file_name_of, is_inside, join, name_extension, normalize};

#[test]
fn normalizes_dots_lexically() {
    assert_eq!(normalize(b"/a/./b/../c"), b"/a/c".to_vec());
    assert_eq!(normalize(b"a//b/"), b"a/b".to_vec());
    assert_eq!(normalize(b"/.."), b"/".to_vec());
    assert_eq!(normalize(&normalize(b"x/../y/./z")), normalize(b"x/../y/./z"));
}

#[test]
fn joins_and_compares_paths() {
    assert_eq!(join(b"/a", b"b"), b"/a/b".to_vec());
    assert_eq!(join(b"/a/", b"/b"), b"/b".to_vec());
    assert!(is_inside(b"/repo/.git", b"/repo"));
    assert!(is_inside(b"/repo", b"/repo/"));
    assert!(!is_inside(b"/repository", b"/repo"));
    assert_eq!(file_name_of(b"src/main.rs"), Some(b"main.rs".to_vec()));
    assert_eq!(name_extension(b"archive.tar.gz"), Some(b"gz".to_vec()));
    assert_eq!(name_extension(b".bashrc"), None);
    assert_eq!(compare_bytes(b"a", b"b"), -1);
    assert_eq!(compare_bytes(b"ab", b"a"), 1);
    assert_eq!(compare_bytes(b"\xff", b"\xff"), 0);
}

#[test]
fn command_line_paths_become_repository_paths() {
    let repo = Repository { root: b"/repo".to_vec() };
    assert_eq!(repo.relative_path(b"main.rs", b"/repo/src"), Ok(b"src/main.rs".to_vec()));
    assert_eq!(repo.relative_path(b"../x", b"/repo/sub"), Ok(b"x".to_vec()));
    assert_eq!(repo.relative_path(b"/repo/a/../b/./c", b""), Ok(b"b/c".to_vec()));
    assert_eq!(repo.relative_path(b"/repo", b""), Err(PathError::RepositoryRoot));
    assert_eq!(repo.relative_path(b".", b"/repo"), Err(PathError::RepositoryRoot));
    assert_eq!(repo.relative_path(b"../other", b"/repo"), Err(PathError::OutsideRepository));
    assert_eq!(repo.relative_path(b"/repository/x", b""), Err(PathError::OutsideRepository));
    assert!(!PathError::RepositoryRoot.message().is_empty());
}
