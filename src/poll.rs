//! The polling side of the OAuth device-authorization flow.
//!
//! The session decides, for each answer of the token endpoint, what the
//! caller does next: wait, poll again at once, report and back off, or keep
//! the credential and stop. The caller performs the waits and the requests.
use vstd::arithmetic::power2::{lemma2_to64, lemma_pow2_unfold, pow2};
use vstd::prelude::*;

verus! {

/// Largest number of polls of the token endpoint in one session.
pub const RETRY_LIMIT: usize = 10;

/// How the token endpoint answered one poll.
#[derive(Clone, Copy, Debug, PartialEq, Eq, Structural)]
pub enum PollResponse {
    /// The user approved the device; a credential came with the answer.
    Granted,
    /// The user has not approved the device yet.
    AuthorizationPending,
    /// The provider asks for slower polling.
    SlowDown,
    /// Any error: transport failure, denied or expired grant, bad answer.
    Failed,
}

/// What the caller does after one poll.
#[derive(Clone, Copy, Debug, PartialEq, Eq, Structural)]
pub enum PollAction {
    /// Persist the credential that came with the answer; the session is over.
    SaveCredential,
    /// Wait this many seconds, then poll again.
    Wait(u64),
    /// Poll again without waiting.
    PollNow,
    /// Report the error, wait this many seconds, then poll again.
    ReportAndWait(u64),
}

/// State of one device-flow polling session.
#[derive(Clone, Copy, Debug, PartialEq, Eq, Structural)]
pub struct DeviceAuthSession {
    /// Current wait between polls, in seconds.
    pub interval: u64,
    /// Polls made so far.
    pub polls: usize,
    /// Whether a credential was obtained.
    pub succeeded: bool,
}

/// Twice `secs`, held at the largest `u64` where twice would not fit.
pub open spec fn doubled(secs: u64) -> u64 {
    if 2 * secs > u64::MAX {
        u64::MAX
    } else {
        (2 * secs) as u64
    }
}

/// The wait after `k` doublings of `secs`.
pub open spec fn backoff(secs: u64, k: nat) -> u64
    decreases k,
{
    if k == 0 {
        secs
    } else {
        doubled(backoff(secs, (k - 1) as nat))
    }
}

/// A fresh session whose first wait is the grant's advertised interval.
pub open spec fn initial(secs: u64) -> DeviceAuthSession {
    DeviceAuthSession { interval: secs, polls: 0, succeeded: false }
}

impl DeviceAuthSession {
    /// No further poll is made: a credential came, or the budget is spent.
    pub open spec fn finished(self) -> bool {
        self.succeeded || self.polls >= RETRY_LIMIT
    }

    pub open spec fn wf(self) -> bool {
        self.polls <= RETRY_LIMIT
    }
}

/// The next state and the action for one answer of the token endpoint.
pub open spec fn step(s: DeviceAuthSession, r: PollResponse) -> (DeviceAuthSession, PollAction) {
    let polled = DeviceAuthSession { polls: (s.polls + 1) as usize, ..s };
    match r {
        PollResponse::Granted => (
            DeviceAuthSession { succeeded: true, ..polled },
            PollAction::SaveCredential,
        ),
        PollResponse::AuthorizationPending => (polled, PollAction::Wait(s.interval)),
        PollResponse::SlowDown => (
            DeviceAuthSession { interval: doubled(s.interval), ..polled },
            PollAction::PollNow,
        ),
        PollResponse::Failed => (
            DeviceAuthSession { interval: doubled(s.interval), ..polled },
            PollAction::ReportAndWait(s.interval),
        ),
    }
}

/// Feeds answers to the session until it finishes or the answers run out;
/// gives the last state and one action per poll made.
pub open spec fn run(s: DeviceAuthSession, rs: Seq<PollResponse>) -> (DeviceAuthSession, Seq<PollAction>)
    decreases rs.len(),
{
    if s.finished() || rs.len() == 0 {
        (s, Seq::empty())
    } else {
        let (next, a) = step(s, rs[0]);
        let (last, rest) = run(next, rs.drop_first());
        (last, seq![a] + rest)
    }
}

/// The waits, in seconds, that a list of actions makes, in order.
pub open spec fn waits(actions: Seq<PollAction>) -> Seq<u64>
    decreases actions.len(),
{
    if actions.len() == 0 {
        Seq::empty()
    } else {
        let rest = waits(actions.drop_first());
        match actions[0] {
            PollAction::Wait(d) => seq![d] + rest,
            PollAction::ReportAndWait(d) => seq![d] + rest,
            _ => rest,
        }
    }
}

/// How many of the actions persist a credential.
pub open spec fn saves(actions: Seq<PollAction>) -> nat
    decreases actions.len(),
{
    if actions.len() == 0 {
        0
    } else {
        (if actions[0] == PollAction::SaveCredential { 1nat } else { 0nat }) + saves(actions.drop_first())
    }
}

fn double_interval(secs: u64) -> (r: u64)
    ensures
        r == doubled(secs),
{
    if secs > u64::MAX / 2 {
        u64::MAX
    } else {
        secs * 2
    }
}

impl DeviceAuthSession {
    /// Starts a session with the poll interval that the device grant advertised.
    pub fn new(interval_secs: u64) -> (s: DeviceAuthSession)
        ensures
            s == initial(interval_secs),
            s.wf(),
    {
        DeviceAuthSession { interval: interval_secs, polls: 0, succeeded: false }
    }

    /// Whether the session is over; the caller polls only while it is not.
    pub fn is_finished(&self) -> (r: bool)
        ensures
            r == self.finished(),
    {
        self.succeeded || self.polls >= RETRY_LIMIT
    }

    /// Records the answer to one poll and says what to do next.
    pub fn on_response(&mut self, r: PollResponse) -> (a: PollAction)
        requires
            old(self).wf(),
            !old(self).finished(),
        ensures
            (*final(self), a) == step(*old(self), r),
            final(self).wf(),
    {
        let current = self.interval;
        self.polls = self.polls + 1;
        match r {
            PollResponse::Granted => {
                self.succeeded = true;
                PollAction::SaveCredential
            },
            PollResponse::AuthorizationPending => PollAction::Wait(current),
            PollResponse::SlowDown => {
                self.interval = double_interval(current);
                PollAction::PollNow
            },
            PollResponse::Failed => {
                self.interval = double_interval(current);
                PollAction::ReportAndWait(current)
            },
        }
    }
}

/// Answers "pending, slow down, pending, granted" from a fresh session: four
/// polls, a wait of the advertised interval after the first, none after the
/// slow-down, a wait of the doubled interval after the third, and the
/// credential saved exactly once, after the fourth poll.
pub proof fn lemma_pending_slow_down_then_granted(secs: u64)
    ensures
        ({
            let rs = seq![
                PollResponse::AuthorizationPending,
                PollResponse::SlowDown,
                PollResponse::AuthorizationPending,
                PollResponse::Granted,
            ];
            let (last, actions) = run(initial(secs), rs);
            &&& actions == seq![
                PollAction::Wait(secs),
                PollAction::PollNow,
                PollAction::Wait(doubled(secs)),
                PollAction::SaveCredential,
            ]
            &&& last.polls == 4
            &&& last.succeeded
            &&& last.finished()
            &&& waits(actions) == seq![secs, doubled(secs)]
            &&& saves(actions) == 1
            &&& actions.last() == PollAction::SaveCredential
            &&& secs <= u64::MAX / 2 ==> waits(actions) == seq![secs, (2 * secs) as u64]
        }),
        secs <= u64::MAX / 2 ==> doubled(secs) == 2 * secs,
{
    let rs = seq![
        PollResponse::AuthorizationPending,
        PollResponse::SlowDown,
        PollResponse::AuthorizationPending,
        PollResponse::Granted,
    ];
    let s0 = initial(secs);
    let (s1, a1) = step(s0, rs[0]);
    let (s2, a2) = step(s1, rs[1]);
    let (s3, a3) = step(s2, rs[2]);
    let (s4, a4) = step(s3, rs[3]);
    assert(rs.drop_first() =~= seq![rs[1], rs[2], rs[3]]);
    assert(rs.drop_first().drop_first() =~= seq![rs[2], rs[3]]);
    assert(rs.drop_first().drop_first().drop_first() =~= seq![rs[3]]);
    assert(seq![rs[3]].drop_first() =~= Seq::<PollResponse>::empty());
    assert(run(s4, Seq::empty()) == (s4, Seq::<PollAction>::empty()));
    assert(run(s3, seq![rs[3]]).1 =~= seq![a4]);
    assert(run(s2, seq![rs[2], rs[3]]).1 =~= seq![a3, a4]);
    assert(run(s1, seq![rs[1], rs[2], rs[3]]).1 =~= seq![a2, a3, a4]);
    let actions = run(s0, rs).1;
    assert(actions =~= seq![a1, a2, a3, a4]);
    assert(actions.drop_first() =~= seq![a2, a3, a4]);
    assert(actions.drop_first().drop_first() =~= seq![a3, a4]);
    assert(actions.drop_first().drop_first().drop_first() =~= seq![a4]);
    assert(seq![a4].drop_first() =~= Seq::<PollAction>::empty());
    assert(a4 == PollAction::SaveCredential);
    assert(waits(seq![a4].drop_first()) =~= Seq::<u64>::empty());
    assert(waits(seq![a4]) =~= Seq::<u64>::empty());
    assert(saves(seq![a4].drop_first()) == 0);
    assert(waits(seq![a3, a4]) =~= seq![doubled(secs)]);
    assert(waits(seq![a2, a3, a4]) =~= seq![doubled(secs)]);
    assert(waits(actions) =~= seq![secs, doubled(secs)]);
    assert(saves(seq![a4]) == 1);
    assert(saves(seq![a3, a4]) == 1);
    assert(saves(seq![a2, a3, a4]) == 1);
}

/// From a session that has not succeeded, answers that are all errors make
/// one poll each until the budget is spent; the k-th of them reports and
/// waits the interval doubled k times, and no credential is saved.
proof fn lemma_errors_back_off(s: DeviceAuthSession, rs: Seq<PollResponse>)
    requires
        s.wf(),
        !s.succeeded,
        forall|i: int| 0 <= i < rs.len() ==> rs[i] == PollResponse::Failed,
    ensures
        ({
            let (last, actions) = run(s, rs);
            let n = if rs.len() < RETRY_LIMIT - s.polls { rs.len() } else { (RETRY_LIMIT - s.polls) as nat };
            &&& actions.len() == n
            &&& forall|k: int| 0 <= k < n ==> actions[k] == PollAction::ReportAndWait(backoff(s.interval, k as nat))
            &&& last.polls == s.polls + n
            &&& !last.succeeded
            &&& last.interval == backoff(s.interval, n)
            &&& saves(actions) == 0
        }),
    decreases rs.len(),
{
    if s.finished() || rs.len() == 0 {
    } else {
        let (next, a) = step(s, rs[0]);
        let tail = rs.drop_first();
        lemma_errors_back_off(next, tail);
        let rest = run(next, tail).1;
        let actions = run(s, rs).1;
        assert(actions == seq![a] + rest);
        assert(actions.drop_first() =~= rest);
        assert forall|k: int| 1 <= k < actions.len() implies actions[k] == PollAction::ReportAndWait(backoff(s.interval, k as nat)) by {
            assert(actions[k] == rest[k - 1]);
            lemma_backoff_shift(s.interval, (k - 1) as nat);
        }
        lemma_backoff_shift(s.interval, (if tail.len() < RETRY_LIMIT - next.polls { tail.len() } else { (RETRY_LIMIT - next.polls) as nat }));
    }
}

proof fn lemma_backoff_shift(secs: u64, k: nat)
    ensures
        backoff(doubled(secs), k) == backoff(secs, k + 1),
    decreases k,
{
    assert(backoff(secs, k + 1) == doubled(backoff(secs, k)));
    if k > 0 {
        lemma_backoff_shift(secs, (k - 1) as nat);
        assert(backoff(secs, k) == doubled(backoff(secs, (k - 1) as nat)));
    }
}

/// A session fed nothing but errors from the start makes exactly
/// `RETRY_LIMIT` polls, each followed by a report and a wait that doubles
/// from the advertised interval, and ends without a credential.
pub proof fn lemma_only_errors_exhaust_budget(secs: u64, rs: Seq<PollResponse>)
    requires
        rs.len() == RETRY_LIMIT,
        forall|i: int| 0 <= i < rs.len() ==> rs[i] == PollResponse::Failed,
    ensures
        ({
            let (last, actions) = run(initial(secs), rs);
            &&& actions.len() == RETRY_LIMIT
            &&& forall|k: int| 0 <= k < RETRY_LIMIT ==> actions[k] == PollAction::ReportAndWait(backoff(secs, k as nat))
            &&& last.polls == RETRY_LIMIT
            &&& last.finished()
            &&& !last.succeeded
            &&& saves(actions) == 0
            &&& secs * 1024 <= u64::MAX ==> {
                &&& forall|k: int| 0 <= k < RETRY_LIMIT ==> actions[k] == PollAction::ReportAndWait((secs * pow2(k as nat)) as u64)
                &&& last.interval == secs * 1024
            }
        }),
{
    lemma_errors_back_off(initial(secs), rs);
    if secs * 1024 <= u64::MAX {
        lemma2_to64();
        lemma_backoff_exact(secs, 10);
        assert forall|k: int| 0 <= k < RETRY_LIMIT implies #[trigger] backoff(secs, k as nat) == secs * pow2(k as nat) by {
            lemma_pow2_monotone(k as nat, 10);
            assert(secs * pow2(k as nat) <= secs * pow2(10)) by (nonlinear_arith)
                requires pow2(k as nat) <= pow2(10);
            lemma_backoff_exact(secs, k as nat);
        }
    }
}

proof fn lemma_pow2_monotone(a: nat, b: nat)
    requires
        a <= b,
    ensures
        pow2(a) <= pow2(b),
    decreases b,
{
    if a < b {
        lemma_pow2_monotone(a, (b - 1) as nat);
        lemma_pow2_unfold(b);
    }
}

/// Where no doubling reaches the limit of `u64`, the wait after `k`
/// doublings is `secs` times two to the `k`.
pub proof fn lemma_backoff_exact(secs: u64, k: nat)
    requires
        secs * pow2(k) <= u64::MAX,
    ensures
        backoff(secs, k) == secs * pow2(k),
    decreases k,
{
    if k == 0 {
        lemma2_to64();
    } else {
        let j = (k - 1) as nat;
        lemma_pow2_unfold(k);
        assert(secs * pow2(k) == 2 * (secs * pow2(j))) by (nonlinear_arith)
            requires pow2(k) == 2 * pow2(j);
        lemma_backoff_exact(secs, j);
    }
}

/// Whatever the endpoint answers, a session makes at most `RETRY_LIMIT`
/// polls in all, saves a credential at most once, and a save is the last
/// thing it asks for.
pub proof fn lemma_session_is_bounded(s: DeviceAuthSession, rs: Seq<PollResponse>)
    requires
        s.wf(),
        !s.succeeded,
    ensures
        ({
            let (last, actions) = run(s, rs);
            &&& s.polls + actions.len() <= RETRY_LIMIT
            &&& last.polls == s.polls + actions.len()
            &&& last.wf()
            &&& saves(actions) <= 1
            &&& saves(actions) == 1 <==> last.succeeded
            &&& saves(actions) == 1 ==> actions.last() == PollAction::SaveCredential
        }),
    decreases rs.len(),
{
    if s.finished() || rs.len() == 0 {
    } else {
        let (next, a) = step(s, rs[0]);
        let (last, rest) = run(next, rs.drop_first());
        let actions = seq![a] + rest;
        assert(actions.drop_first() =~= rest);
        if next.succeeded {
            assert(rest =~= Seq::<PollAction>::empty());
            assert(saves(rest) == 0);
        } else {
            lemma_session_is_bounded(next, rs.drop_first());
            if rest.len() > 0 {
                assert(actions.last() == rest.last());
            }
        }
    }
}

} // verus!
