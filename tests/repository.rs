use fj::vcs::{parse_branches, ref_from_query, remote_repository, repository_from_parts, VcsError, UNPARSEABLE_REMOTE};

#[test]
fn branch_listing_strips_quotes_and_space() {
    let out = "'main'\n'feature/x'\r\n  'dev'  \n";
    assert_eq!(parse_branches(out), vec!["main", "feature/x", "dev"]);
}

#[test]
fn branch_listing_last_line_without_newline() {
    assert_eq!(parse_branches("'a'\n'b'"), vec!["a", "b"]);
}

#[test]
fn branch_listing_empty() {
    assert!(parse_branches("").is_empty());
}

#[test]
fn branch_listing_keeps_blank_lines() {
    assert_eq!(parse_branches("'a'\n\n'b'\n"), vec!["a", "", "b"]);
}

#[test]
fn branch_single_quote_only() {
    assert_eq!(parse_branches("'\n"), vec![""]);
}

#[test]
fn rev_parse_output_is_trimmed() {
    assert_eq!(ref_from_query(true, "abc123f\n").unwrap(), "abc123f");
    assert_eq!(ref_from_query(true, "  main \t\n").unwrap(), "main");
    assert_eq!(ref_from_query(true, "HEAD\n").unwrap(), "HEAD");
}

#[test]
fn missing_ref_is_an_error() {
    assert_eq!(ref_from_query(false, ""), Err(VcsError::UnknownRef));
    assert_eq!(ref_from_query(false, "abc123f\n"), Err(VcsError::UnknownRef));
    assert_eq!(ref_from_query(true, " \n"), Err(VcsError::UnknownRef));
    assert_ne!(VcsError::UnknownRef.message(), VcsError::UnparseableRemote.message());
}

#[test]
fn remote_with_trailing_slash() {
    let r = remote_repository("https://github.com/acme/widget/\n").unwrap();
    assert_eq!((r.owner.as_str(), r.repo.as_str()), ("acme", "widget"));
}

#[test]
fn repository_named_like_a_host() {
    let r = remote_repository("https://github.com/acme/azure.com.git\n").unwrap();
    assert_eq!((r.owner.as_str(), r.repo.as_str()), ("acme", "azure.com"));
}

#[test]
fn remote_with_query_still_parses_path() {
    let r = remote_repository("https://github.com/acme/widget.git?x=1").unwrap();
    assert_eq!((r.owner.as_str(), r.repo.as_str()), ("acme", "widget"));
}

#[test]
fn ssh_dot_segment_is_unparseable() {
    assert_eq!(remote_repository("ssh://host/.").err(), Some(VcsError::UnparseableRemote));
    assert_eq!(remote_repository("ssh://host/..").err(), Some(VcsError::UnparseableRemote));
}

#[test]
fn short_organization_paths_are_unparseable() {
    assert_eq!(remote_repository("https://dev.Azure.com/x").err(), Some(VcsError::UnparseableRemote));
    assert_eq!(remote_repository("https://dev.azure%2Ecom/x").err(), Some(VcsError::UnparseableRemote));
    assert_eq!(remote_repository("git@ssh.dev.azure.com:v3/x").err(), Some(VcsError::UnparseableRemote));
}

#[test]
fn full_organization_path_parses() {
    let r = remote_repository("https://org@dev.azure.com/org/project/_git/repo").unwrap();
    assert_eq!((r.owner.as_str(), r.repo.as_str()), ("project", "repo"));
}

#[test]
fn scp_style_remote() {
    let r = remote_repository("git@github.com:acme/widget.git\n").unwrap();
    assert_eq!(r.owner, "acme");
    assert_eq!(r.repo, "widget");
}

#[test]
fn https_remote() {
    let r = remote_repository("https://github.com/acme/widget\n").unwrap();
    assert_eq!(r.owner, "acme");
    assert_eq!(r.repo, "widget");
}

#[test]
fn empty_remote_is_unparseable() {
    assert!(matches!(remote_repository("\n"), Err(VcsError::UnparseableRemote)));
}

#[test]
fn remote_with_trailing_colon_is_unparseable() {
    assert!(matches!(remote_repository("git@github.com:"), Err(VcsError::UnparseableRemote)));
}

#[test]
fn parts_without_owner_are_unparseable() {
    assert!(matches!(
        repository_from_parts(Some((None, "widget".to_string()))),
        Err(VcsError::UnparseableRemote)
    ));
    assert!(matches!(repository_from_parts(None), Err(VcsError::UnparseableRemote)));
    let r = repository_from_parts(Some((Some("acme".to_string()), "widget".to_string()))).unwrap();
    assert_eq!((r.owner.as_str(), r.repo.as_str()), ("acme", "widget"));
}

#[test]
fn unparseable_message_names_the_remedy() {
    let m = VcsError::UnparseableRemote.message();
    assert_eq!(m, UNPARSEABLE_REMOTE);
    assert!(m.contains("--owner") && m.contains("--repo"));
}

#[test]
fn missing_git_message() {
    assert_eq!(VcsError::GitUnavailable.message(), fj::vcs::GIT_UNAVAILABLE);
    assert_ne!(VcsError::GitUnavailable.message(), VcsError::UnparseableRemote.message());
}
