use gitcloner::repo_name::{extract_repo_name, UrlError};

#[test]
fn https_url_with_git_suffix() {
    let r = extract_repo_name("https://example.com/acme/widgets.git");
    assert_eq!(r, Ok("example.com/acme/widgets".to_string()));
}

#[test]
fn http_url_without_git_suffix() {
    let r = extract_repo_name("http://example.com/acme/widgets");
    assert_eq!(r, Ok("example.com/acme/widgets".to_string()));
}

#[test]
fn https_url_with_trailing_slashes() {
    let r = extract_repo_name("https://example.com/acme/widgets.git///");
    assert_eq!(r, Ok("example.com/acme/widgets".to_string()));
}

#[test]
fn https_url_deep_path_takes_first_three_segments() {
    let r = extract_repo_name("https://example.com/acme/widgets/tree/main");
    assert_eq!(r, Ok("example.com/acme/widgets".to_string()));
}

#[test]
fn https_url_with_port_is_sanitized() {
    let r = extract_repo_name("https://example.com:8080/acme/widgets.git");
    assert_eq!(r, Ok("example.com_8080/acme/widgets".to_string()));
}

#[test]
fn https_url_with_userinfo_is_sanitized() {
    let r = extract_repo_name("https://user@example.com/acme/widgets.git");
    assert_eq!(r, Ok("user_example.com/acme/widgets".to_string()));
}

#[test]
fn repeated_git_suffix_is_stripped() {
    let r = extract_repo_name("https://example.com/acme/w.git.git");
    assert_eq!(r, Ok("example.com/acme/w".to_string()));
}

#[test]
fn ssh_url_with_org_and_repo() {
    let r = extract_repo_name("git@example.com:acme/widgets.git");
    assert_eq!(r, Ok("example.com/acme/widgets".to_string()));
}

#[test]
fn ssh_url_with_repo_only() {
    let r = extract_repo_name("git@example.com:widgets.git");
    assert_eq!(r, Ok("example.com/widgets".to_string()));
}

#[test]
fn ssh_url_without_git_suffix() {
    let r = extract_repo_name("git@example.com:acme/widgets");
    assert_eq!(r, Ok("example.com/acme/widgets".to_string()));
}

#[test]
fn rejects_bare_hostname_behind_scheme() {
    let r = extract_repo_name("https://example.com");
    assert_eq!(r, Err(UrlError::InsufficientSegments));
}

#[test]
fn rejects_host_and_org_only() {
    let r = extract_repo_name("https://example.com/acme");
    assert_eq!(r, Err(UrlError::InsufficientSegments));
}

#[test]
fn rejects_plain_hostname() {
    let r = extract_repo_name("example.com");
    assert_eq!(r, Err(UrlError::UnsupportedShape));
}

#[test]
fn rejects_ssh_url_with_two_colons() {
    let r = extract_repo_name("git@example.com:acme:widgets/w.git");
    assert_eq!(r, Err(UrlError::MalformedSshSplit));
}

#[test]
fn rejects_ssh_url_with_two_ats() {
    let r = extract_repo_name("git@admin@example.com:acme/w.git");
    assert_eq!(r, Err(UrlError::MalformedSshSplit));
}

#[test]
fn rejects_ssh_url_with_deep_path() {
    let r = extract_repo_name("git@example.com:a/b/c.git");
    assert_eq!(r, Err(UrlError::InvalidSshPath));
}

#[test]
fn rejects_parent_directory_segment_in_http_url() {
    let r = extract_repo_name("https://example.com/../widgets");
    assert_eq!(r, Err(UrlError::UnsafeSegment));
}

#[test]
fn rejects_parent_directory_repo_in_ssh_url() {
    let r = extract_repo_name("git@example.com:..");
    assert_eq!(r, Err(UrlError::UnsafeSegment));
}

#[test]
fn rejects_current_directory_segment_after_git_strip() {
    let r = extract_repo_name("https://example.com/acme/..git");
    assert_eq!(r, Err(UrlError::UnsafeSegment));
}

#[test]
fn rejects_traversal_smuggled_in_ssh_host_part() {
    // The host part of an SSH URL may hold `/`, so the dot-segment check
    // must look at the joined identifier, not the raw parts.
    let r = extract_repo_name("u@../b:r");
    assert_eq!(r, Err(UrlError::UnsafeSegment));
}

#[test]
fn rejects_traversal_in_the_middle_of_ssh_host_part() {
    let r = extract_repo_name("u@a/..:r.git");
    assert_eq!(r, Err(UrlError::UnsafeSegment));
}

#[test]
fn ssh_host_with_slash_but_no_dot_segment_is_kept() {
    let r = extract_repo_name("u@a/b:r");
    assert_eq!(r, Ok("a/b/r".to_string()));
}
