use fj::poll::{DeviceAuthSession, PollAction, PollResponse, RETRY_LIMIT};

fn drive(interval: u64, responses: &[PollResponse]) -> (DeviceAuthSession, Vec<PollAction>) {
    let mut session = DeviceAuthSession::new(interval);
    let mut actions = Vec::new();
    for r in responses {
        if session.is_finished() {
            break;
        }
        actions.push(session.on_response(*r));
    }
    (session, actions)
}

fn waits(actions: &[PollAction]) -> Vec<u64> {
    actions
        .iter()
        .filter_map(|a| match a {
            PollAction::Wait(d) | PollAction::ReportAndWait(d) => Some(*d),
            _ => None,
        })
        .collect()
}

#[test]
fn pending_slow_down_pending_granted() {
    let (session, actions) = drive(
        5,
        &[
            PollResponse::AuthorizationPending,
            PollResponse::SlowDown,
            PollResponse::AuthorizationPending,
            PollResponse::Granted,
        ],
    );
    assert_eq!(
        actions,
        vec![
            PollAction::Wait(5),
            PollAction::PollNow,
            PollAction::Wait(10),
            PollAction::SaveCredential
        ]
    );
    assert_eq!(waits(&actions), vec![5, 10]);
    assert_eq!(actions.iter().filter(|a| **a == PollAction::SaveCredential).count(), 1);
    assert_eq!(session.polls, 4);
    assert!(session.succeeded);
    assert!(session.is_finished());
}

#[test]
fn ten_errors_back_off_and_give_up() {
    let (session, actions) = drive(3, &[PollResponse::Failed; 12]);
    assert_eq!(actions.len(), RETRY_LIMIT);
    let expected: Vec<u64> = (0..10).map(|k| 3u64 << k).collect();
    assert_eq!(waits(&actions), expected);
    assert!(actions.iter().all(|a| matches!(a, PollAction::ReportAndWait(_))));
    assert_eq!(session.polls, 10);
    assert!(!session.succeeded);
    assert!(session.is_finished());
    assert_eq!(session.interval, 3 << 10);
}

#[test]
fn granted_first_ends_at_once() {
    let (session, actions) = drive(5, &[PollResponse::Granted, PollResponse::AuthorizationPending]);
    assert_eq!(actions, vec![PollAction::SaveCredential]);
    assert_eq!(session.polls, 1);
}

#[test]
fn pending_keeps_interval() {
    let (session, actions) = drive(7, &[PollResponse::AuthorizationPending; 3]);
    assert_eq!(waits(&actions), vec![7, 7, 7]);
    assert_eq!(session.interval, 7);
    assert!(!session.is_finished());
}

#[test]
fn doubling_saturates() {
    let (session, actions) = drive(u64::MAX - 1, &[PollResponse::SlowDown, PollResponse::Failed]);
    assert_eq!(actions, vec![PollAction::PollNow, PollAction::ReportAndWait(u64::MAX)]);
    assert_eq!(session.interval, u64::MAX);
}

#[test]
fn fresh_session_is_not_finished() {
    let session = DeviceAuthSession::new(5);
    assert!(!session.is_finished());
    assert_eq!(session.polls, 0);
    assert_eq!(session.interval, 5);
}
