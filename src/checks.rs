//! Check runs as the hosting service reports them, how each is shown, and
//! how a failed fetch is explained to the user.
use crate::vcs::same_text;
use vstd::prelude::*;

verus! {

/// One CI job's result for a commit.
pub struct CheckRun {
    pub name: String,
    /// Absent while the run is in progress.
    pub conclusion: Option<String>,
    pub html_url: Option<String>,
}

/// The check runs of one commit, in the order the service gave them.
pub struct CheckRunList {
    pub total_count: u64,
    pub check_runs: Vec<CheckRun>,
}

/// Glyph of a run still in progress.
pub const IN_PROGRESS: &'static str = "\u{1F7E1}";

/// The symbol shown for a conclusion; an unknown conclusion is shown as it is.
pub open spec fn glyph_of(conclusion: Option<Seq<char>>) -> Seq<char> {
    match conclusion {
        None => IN_PROGRESS@,
        Some(c) => if c == "success"@ {
            "\u{1F7E2}"@
        } else if c == "failure"@ {
            "\u{1F534}"@
        } else if c == "neutral"@ {
            "\u{26AA}"@
        } else if c == "cancelled"@ {
            "\u{274C}"@
        } else if c == "timed_out"@ {
            "\u{231B}"@
        } else if c == "action_required"@ {
            "\u{1F527}"@
        } else {
            c
        },
    }
}

pub open spec fn text_option(c: Option<String>) -> Option<Seq<char>> {
    match c {
        Some(s) => Some(s@),
        None => None,
    }
}

/// The symbol shown for a run's conclusion.
pub fn conclusion_glyph(conclusion: &Option<String>) -> (r: String)
    ensures
        r@ == glyph_of(text_option(*conclusion)),
{
    proof {
        reveal_strlit("success");
        reveal_strlit("failure");
        reveal_strlit("neutral");
        reveal_strlit("cancelled");
        reveal_strlit("timed_out");
        reveal_strlit("action_required");
    }
    match conclusion {
        None => String::from_str(IN_PROGRESS),
        Some(c) => {
            let c = c.as_str();
            if same_text(c, "success") {
                String::from_str("\u{1F7E2}")
            } else if same_text(c, "failure") {
                String::from_str("\u{1F534}")
            } else if same_text(c, "neutral") {
                String::from_str("\u{26AA}")
            } else if same_text(c, "cancelled") {
                String::from_str("\u{274C}")
            } else if same_text(c, "timed_out") {
                String::from_str("\u{231B}")
            } else if same_text(c, "action_required") {
                String::from_str("\u{1F527}")
            } else {
                String::from_str(c)
            }
        },
    }
}

/// The longest name among the runs, in characters; zero for no runs.
pub open spec fn widest_name(runs: Seq<CheckRun>) -> nat
    decreases runs.len(),
{
    if runs.len() == 0 {
        0
    } else {
        let rest = widest_name(runs.drop_last());
        let here = runs.last().name@.len();
        if here > rest { here } else { rest }
    }
}

/// The column width that aligns the glyphs of all runs.
pub fn name_width(runs: &Vec<CheckRun>) -> (r: usize)
    ensures
        r == widest_name(runs@),
{
    let mut w: usize = 0;
    let mut i: usize = 0;
    while i < runs.len()
        invariant
            i <= runs@.len(),
            w == widest_name(runs@.subrange(0, i as int)),
        decreases runs@.len() - i,
    {
        let here = runs[i].name.as_str().unicode_len();
        proof {
            assert(runs@.subrange(0, i + 1).drop_last() =~= runs@.subrange(0, i as int));
        }
        if here > w {
            w = here;
        }
        i = i + 1;
    }
    assert(runs@.subrange(0, runs@.len() as int) =~= runs@);
    w
}

/// `name` followed by spaces up to `width` characters.
pub open spec fn padded(name: Seq<char>, width: nat) -> Seq<char> {
    if name.len() >= width {
        name
    } else {
        name + Seq::new((width - name.len()) as nat, |i: int| ' ')
    }
}

/// A run's name padded so that the glyphs after it line up.
pub fn padded_name(name: &str, width: usize) -> (r: String)
    ensures
        r@ == padded(name@, width as nat),
{
    let mut r = String::from_str(name);
    let mut len = name.unicode_len();
    while len < width
        invariant
            len <= width || (len == name@.len() && len >= width),
            name@.len() <= len,
            r@ == name@ + Seq::new((len - name@.len()) as nat, |i: int| ' '),
        decreases width - len,
    {
        r.append(" ");
        proof {
            reveal_strlit(" ");
            assert(name@ + Seq::new((len + 1 - name@.len()) as nat, |i: int| ' ')
                =~= name@ + Seq::new((len - name@.len()) as nat, |i: int| ' ') + " "@);
        }
        len = len + 1;
    }
    proof {
        if name@.len() >= width {
            assert(r@ =~= name@);
        }
    }
    r
}

/// Guidance shown when the service refused to show the check runs.
pub const LOGIN_HINT: &'static str =
    "Failed to fetch check runs. Is your repository private? If so, you should log into your GitHub account with `fj login`";

/// A failed fetch of check runs: the service's own error, kept as it came,
/// and the guidance to sign in where the service refused access.
pub struct FetchFailure<E> {
    pub hint: Option<String>,
    pub cause: E,
}

/// The hint for a failed fetch: guidance to sign in exactly where the
/// service reported an authorization or visibility rejection.
pub open spec fn hint_for(authorization_rejected: bool) -> Option<Seq<char>> {
    if authorization_rejected {
        Some(LOGIN_HINT@)
    } else {
        None
    }
}

/// The text of a failure: the hint, if any, on a line before the cause.
pub open spec fn failure_text(hint: Option<Seq<char>>, cause: Seq<char>) -> Seq<char> {
    match hint {
        Some(h) => h + "\n"@ + cause,
        None => cause,
    }
}

/// Attaches the sign-in guidance to a fetch error that the service raised
/// as an authorization rejection; the cause is passed on untouched.
pub fn annotate_fetch_failure<E>(authorization_rejected: bool, cause: E) -> (f: FetchFailure<E>)
    ensures
        f.cause == cause,
        text_option(f.hint) == hint_for(authorization_rejected),
{
    let hint = if authorization_rejected {
        Some(String::from_str(LOGIN_HINT))
    } else {
        None
    };
    FetchFailure { hint, cause }
}

impl<E> FetchFailure<E> {
    /// The message shown to the user, given the text of the cause.
    pub fn message(&self, cause_text: &str) -> (r: String)
        ensures
            r@ == failure_text(text_option(self.hint), cause_text@),
    {
        match &self.hint {
            Some(h) => {
                let mut r = h.clone();
                r.append("\n");
                r.append(cause_text);
                r
            },
            None => String::from_str(cause_text),
        }
    }
}

/// Where the service rejected access, the message of the failure holds the
/// sign-in guidance and, after it, the cause's own text, whatever that is.
pub proof fn lemma_rejection_keeps_cause_and_hint(cause: Seq<char>)
    ensures
        ({
            let text = failure_text(hint_for(true), cause);
            &&& text.subrange(0, LOGIN_HINT@.len() as int) == LOGIN_HINT@
            &&& text.subrange(text.len() - cause.len(), text.len() as int) == cause
        }),
        failure_text(hint_for(false), cause) == cause,
{
    let text = failure_text(hint_for(true), cause);
    assert(text.subrange(0, LOGIN_HINT@.len() as int) =~= LOGIN_HINT@);
    assert(text.subrange(text.len() - cause.len(), text.len() as int) =~= cause);
}

} // verus!
