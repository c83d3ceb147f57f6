use repo_bloat::{dir_has_marker, get_project_root, CleanerError};

#[test]
fn error_conversions_keep_the_cause() {
    let io = std::io::Error::new(std::io::ErrorKind::PermissionDenied, "listing failed");
    assert!(matches!(CleanerError::from(io), CleanerError::IOError(_)));
    let git = git2::Error::from_str("store failed");
    assert!(matches!(CleanerError::from(git), CleanerError::GitError(_)));
}

fn listing(names: &[&str]) -> Vec<String> {
    names.iter().map(|n| n.to_string()).collect()
}

#[test]
fn marker_found_in_innermost_ancestor_that_has_it() {
    // listings for /a/b/c, then /a/b, then /a: only /a holds the marker
    let listings = vec![
        listing(&["src", "notes.txt"]),
        listing(&["c", "readme"]),
        listing(&["b", ".git", "other"]),
    ];
    let r = get_project_root(&listings);
    assert_eq!(r.unwrap(), 2);
}

#[test]
fn marker_in_start_directory_wins() {
    let listings = vec![
        listing(&[".git"]),
        listing(&[".git", "b"]),
    ];
    assert_eq!(get_project_root(&listings).unwrap(), 0);
}

#[test]
fn no_marker_anywhere_fails_with_not_found() {
    let listings = vec![
        listing(&["src"]),
        listing(&["a", "b"]),
        listing(&[]),
    ];
    let r = get_project_root(&listings);
    assert!(matches!(r, Err(CleanerError::NotFound)));
}

#[test]
fn empty_chain_fails_with_not_found() {
    let listings: Vec<Vec<String>> = vec![];
    assert!(matches!(
        get_project_root(&listings),
        Err(CleanerError::NotFound)
    ));
}

#[test]
fn marker_match_is_by_exact_name() {
    assert!(dir_has_marker(&listing(&["x", ".git"])));
    assert!(!dir_has_marker(&listing(&[".gitignore", "git", ".Git"])));
    assert!(!dir_has_marker(&listing(&[])));
    // a regular file named like the marker still counts: the test is by name
    assert!(dir_has_marker(&listing(&[".git"])));
}
