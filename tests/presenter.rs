use fj::checks::{
    annotate_fetch_failure, conclusion_glyph, name_width, padded_name, CheckRun, CheckRunList, IN_PROGRESS,
    LOGIN_HINT,
};
use fj::credential::{access_for, Access, AccessToken, AuthConfig, CredentialError};
use fj::vcs::remote_repository;

fn run(name: &str, conclusion: Option<&str>) -> CheckRun {
    CheckRun { name: name.to_string(), conclusion: conclusion.map(|c| c.to_string()), html_url: None }
}

#[test]
fn glyphs_for_known_conclusions() {
    let known = ["success", "failure", "neutral", "cancelled", "timed_out", "action_required"];
    let glyphs: Vec<String> = known.iter().map(|c| conclusion_glyph(&Some(c.to_string()))).collect();
    for (g, c) in glyphs.iter().zip(known.iter()) {
        assert_ne!(g, c);
        assert_ne!(g, IN_PROGRESS);
    }
    for i in 0..glyphs.len() {
        for j in 0..i {
            assert_ne!(glyphs[i], glyphs[j]);
        }
    }
    assert_eq!(glyphs[0], "\u{1F7E2}");
}

#[test]
fn unknown_conclusion_shown_verbatim() {
    assert_eq!(conclusion_glyph(&Some("stale".to_string())), "stale");
}

#[test]
fn absent_conclusion_in_progress() {
    assert_eq!(conclusion_glyph(&None), IN_PROGRESS);
}

#[test]
fn width_of_no_runs_is_zero() {
    assert_eq!(name_width(&vec![]), 0);
}

#[test]
fn padding_never_truncates() {
    assert_eq!(padded_name("longname", 3), "longname");
    assert_eq!(padded_name("ab", 4), "ab  ");
}

#[test]
fn widget_scenario_rows() {
    let repo = remote_repository("git@github.com:acme/widget.git\n").unwrap();
    assert_eq!((repo.owner.as_str(), repo.repo.as_str()), ("acme", "widget"));
    let runs = CheckRunList { total_count: 2, check_runs: vec![run("build", Some("success")), run("lint", None)] };
    assert_eq!(runs.total_count, 2);
    let w = name_width(&runs.check_runs);
    assert_eq!(w, 5);
    let rows: Vec<String> = runs
        .check_runs
        .iter()
        .map(|r| format!("{}   {}", padded_name(&r.name, w), conclusion_glyph(&r.conclusion)))
        .collect();
    assert_eq!(rows[0], "build   \u{1F7E2}");
    assert_eq!(rows[1], format!("lint    {}", IN_PROGRESS));
}

#[test]
fn rejected_fetch_carries_login_hint_and_cause() {
    let f = annotate_fetch_failure(true, 404u16);
    assert_eq!(f.cause, 404);
    assert_eq!(f.hint.as_deref(), Some(LOGIN_HINT));
    let m = f.message("Not Found");
    assert!(m.starts_with(LOGIN_HINT));
    assert!(m.ends_with("Not Found"));
    assert!(m.contains("fj login"));
}

#[test]
fn other_fetch_failure_has_no_hint() {
    let f = annotate_fetch_failure(false, "timeout".to_string());
    assert!(f.hint.is_none());
    assert_eq!(f.message("timeout"), "timeout");
    assert_eq!(f.cause, "timeout");
}

#[test]
fn loaded_credential_gives_token() {
    let c = AuthConfig { access_token: AccessToken::new("SECRET-REDACTED".to_string()), token_type: "bearer".to_string(), scope: vec!["repo".to_string()] };
    assert!(matches!(access_for(Ok(c)), Access::Token(t) if t.expose() == "SECRET-REDACTED"));
}

#[test]
fn missing_or_corrupt_credential_is_anonymous() {
    assert!(matches!(access_for(Err(CredentialError::NotFound)), Access::Anonymous));
    assert!(matches!(access_for(Err(CredentialError::Corrupt)), Access::Anonymous));
}
