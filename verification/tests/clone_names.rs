use sit::clone::extract_repo_name;

#[test]
fn test_extract_repo_name() {
    assert_eq!(extract_repo_name("https://github.com/user/repo").unwrap(), "repo");
    assert_eq!(extract_repo_name("https://github.com/user/repo.git").unwrap(), "repo");
    assert_eq!(extract_repo_name("user/repo").unwrap(), "repo");
    assert_eq!(extract_repo_name("user/repo.git").unwrap(), "repo");
}

#[test]
fn repo_name_of_a_bare_name_and_of_a_trailing_slash() {
    assert_eq!(extract_repo_name("  tools  ").unwrap(), "tools");
    assert_eq!(
        extract_repo_name("https://github.com/user/").unwrap_err(),
        "Could not extract repository name from URL"
    );
    assert_eq!(extract_repo_name("").unwrap_err(), "Could not extract repository name from URL");
}
