//! What the library makes of the version-control tool's output: trimmed
//! refs, the local branch listing, and the hosting repository named by the
//! `origin` remote.
use vstd::prelude::*;

verus! {

/// Whether `c` has Unicode's `White_Space` property.
pub open spec fn is_white_space(c: char) -> bool {
    let u = c as u32;
    (0x09 <= u <= 0x0D) || u == 0x20 || u == 0x85 || u == 0xA0 || u == 0x1680
        || (0x2000 <= u <= 0x200A) || u == 0x2028 || u == 0x2029 || u == 0x202F
        || u == 0x205F || u == 0x3000
}

pub open spec fn trim_start(s: Seq<char>) -> Seq<char>
    decreases s.len(),
{
    if s.len() > 0 && is_white_space(s[0]) {
        trim_start(s.drop_first())
    } else {
        s
    }
}

pub open spec fn trim_end(s: Seq<char>) -> Seq<char>
    decreases s.len(),
{
    if s.len() > 0 && is_white_space(s.last()) {
        trim_end(s.drop_last())
    } else {
        s
    }
}

/// `s` without leading and trailing white space.
pub open spec fn trimmed(s: Seq<char>) -> Seq<char> {
    trim_end(trim_start(s))
}

/// Relies on `str::trim`: removes leading and trailing characters with the
/// `White_Space` property.
#[verifier::external_body]
fn trim(s: &str) -> (r: &str)
    ensures
        r@ == trimmed(s@),
{
    s.trim()
}

/// `l` without one leading and one trailing single quote, where present.
pub open spec fn unquoted(l: Seq<char>) -> Seq<char> {
    let a = if l.len() > 0 && l[0] == '\'' { l.drop_first() } else { l };
    if a.len() > 0 && a.last() == '\'' { a.drop_last() } else { a }
}

/// One branch name from one line of `git branch --format='%(refname:short)'`.
pub open spec fn branch_of_line(l: Seq<char>) -> Seq<char> {
    unquoted(trimmed(l))
}

/// A line ended by a line feed loses one carriage return before it.
pub open spec fn without_cr(l: Seq<char>) -> Seq<char> {
    if l.len() > 0 && l.last() == '\r' { l.drop_last() } else { l }
}

/// The lines of `s` after the partial line `cur`: split at each line feed,
/// a final line feed opening no empty line.
pub open spec fn lines_after(cur: Seq<char>, s: Seq<char>) -> Seq<Seq<char>>
    decreases s.len(),
{
    if s.len() == 0 {
        if cur.len() == 0 { Seq::empty() } else { seq![cur] }
    } else if s[0] == '\n' {
        seq![without_cr(cur)] + lines_after(Seq::empty(), s.drop_first())
    } else {
        lines_after(cur.push(s[0]), s.drop_first())
    }
}

/// The lines of `s`, as `str::lines` gives them.
pub open spec fn lines_of(s: Seq<char>) -> Seq<Seq<char>> {
    lines_after(Seq::empty(), s)
}

/// The branch names in the output of the branch listing, in order.
pub open spec fn branches_of(s: Seq<char>) -> Seq<Seq<char>> {
    lines_of(s).map_values(|l: Seq<char>| branch_of_line(l))
}

fn unquote(l: &str) -> (r: String)
    ensures
        r@ == unquoted(l@),
{
    let n = l.unicode_len();
    let mut from: usize = 0;
    if n > 0 && l.get_char(0) == '\'' {
        from = 1;
    }
    let mut to: usize = n;
    if from < n && l.get_char(n - 1) == '\'' {
        to = n - 1;
    }
    let r = String::from_str(l.substring_char(from, to));
    proof {
        let a = if l@.len() > 0 && l@[0] == '\'' { l@.drop_first() } else { l@ };
        assert(a =~= l@.subrange(from as int, n as int));
        if from < n && l@[n - 1] == '\'' {
            assert(a.drop_last() =~= l@.subrange(from as int, to as int));
        }
    }
    r
}

/// Splits the output of `git branch --format='%(refname:short)'` into
/// branch names: one per line, trimmed, without the quotes of the format.
pub fn parse_branches(stdout: &str) -> (r: Vec<String>)
    ensures
        r@.map_values(|b: String| b@) == branches_of(stdout@),
{
    let n = stdout.unicode_len();
    let mut out: Vec<String> = Vec::new();
    let mut start: usize = 0;
    let mut i: usize = 0;
    proof {
        assert(stdout@.subrange(0, 0) =~= Seq::<char>::empty());
        assert(stdout@.subrange(0, n as int) =~= stdout@);
        assert(out@.map_values(|b: String| b@) =~= Seq::<Seq<char>>::empty());
        assert(Seq::<Seq<char>>::empty() + branches_of(stdout@) =~= branches_of(stdout@));
    }
    while i < n
        invariant
            n == stdout@.len(),
            start <= i <= n,
            out@.map_values(|b: String| b@) + lines_after(
                stdout@.subrange(start as int, i as int),
                stdout@.subrange(i as int, n as int),
            ).map_values(|l: Seq<char>| branch_of_line(l)) == branches_of(stdout@),
        decreases n - i,
    {
        let c = stdout.get_char(i);
        let ghost cur = stdout@.subrange(start as int, i as int);
        let ghost rest = stdout@.subrange(i as int, n as int);
        let ghost before = out@.map_values(|b: String| b@);
        proof {
            assert(rest[0] == c);
            assert(rest.drop_first() =~= stdout@.subrange(i + 1, n as int));
        }
        if c == '\n' {
            let mut end = i;
            if start < i && stdout.get_char(i - 1) == '\r' {
                end = i - 1;
            }
            let line = stdout.substring_char(start, end);
            let b = unquote(trim(line));
            out.push(b);
            proof {
                assert(line@ =~= without_cr(cur));
                let tail = lines_after(Seq::empty(), rest.drop_first());
                assert(lines_after(cur, rest) == seq![without_cr(cur)] + tail);
                assert((seq![without_cr(cur)] + tail).map_values(|l: Seq<char>| branch_of_line(l))
                    =~= seq![branch_of_line(without_cr(cur))] + tail.map_values(|l: Seq<char>| branch_of_line(l)));
                assert(out@.map_values(|b: String| b@) =~= before.push(branch_of_line(without_cr(cur))));
                assert(stdout@.subrange(i + 1, i + 1) =~= Seq::<char>::empty());
                assert(before.push(branch_of_line(without_cr(cur))) + tail.map_values(|l: Seq<char>| branch_of_line(l))
                    =~= before + (seq![branch_of_line(without_cr(cur))] + tail.map_values(|l: Seq<char>| branch_of_line(l))));
            }
            start = i + 1;
        } else {
            proof {
                assert(cur.push(c) =~= stdout@.subrange(start as int, i + 1));
                assert(lines_after(cur, rest) == lines_after(cur.push(c), rest.drop_first()));
            }
        }
        i = i + 1;
    }
    let ghost before = out@.map_values(|b: String| b@);
    let ghost cur = stdout@.subrange(start as int, n as int);
    proof {
        assert(stdout@.subrange(n as int, n as int) =~= Seq::<char>::empty());
    }
    if start < n {
        let line = stdout.substring_char(start, n);
        let b = unquote(trim(line));
        out.push(b);
        proof {
            assert(seq![cur].map_values(|l: Seq<char>| branch_of_line(l)) =~= seq![branch_of_line(cur)]);
            assert(out@.map_values(|b: String| b@) =~= before + seq![branch_of_line(cur)]);
        }
    } else {
        proof {
            assert(before + Seq::<Seq<char>>::empty() =~= before);
        }
    }
    out
}

/// The owner and name of the hosted repository.
pub struct GitHubRepository {
    pub owner: String,
    pub repo: String,
}

/// What the user reads when the remote names no repository.
pub const UNPARSEABLE_REMOTE: &'static str =
    "unable to parse git remote. Please supply the owner and repository name manually with `--owner` and `--repo`";

/// What the user reads when a ref does not name a commit.
pub const UNKNOWN_REF: &'static str = "unknown revision or ref: not found in the repository";

/// What the user reads when git cannot be found.
pub const GIT_UNAVAILABLE: &'static str = "unable to find the `git` executable on the search path";

/// Failures of the version-control queries.
#[derive(Clone, Copy, Debug, PartialEq, Eq, Structural)]
pub enum VcsError {
    /// The `origin` remote does not name an owner and a repository.
    UnparseableRemote,
    /// No version-control executable was found on the search path.
    GitUnavailable,
    /// The ref does not exist in the repository.
    UnknownRef,
}

impl VcsError {
    /// The text shown to the user, with the remedy.
    pub fn message(&self) -> (r: String)
        ensures
            r@ == match self {
                VcsError::UnparseableRemote => UNPARSEABLE_REMOTE@,
                VcsError::GitUnavailable => GIT_UNAVAILABLE@,
                VcsError::UnknownRef => UNKNOWN_REF@,
            },
    {
        match self {
            VcsError::UnparseableRemote => String::from_str(UNPARSEABLE_REMOTE),
            VcsError::GitUnavailable => String::from_str(GIT_UNAVAILABLE),
            VcsError::UnknownRef => String::from_str(UNKNOWN_REF),
        }
    }
}

/// The ref that a `rev-parse` query resolved to: its output without the
/// surrounding white space where the query succeeded and printed a ref;
/// an unknown ref otherwise.
pub fn ref_from_query(succeeded: bool, stdout: &str) -> (r: Result<String, VcsError>)
    ensures
        succeeded && trimmed(stdout@).len() > 0 ==> (r matches Ok(s) && s@ == trimmed(stdout@)),
        !(succeeded && trimmed(stdout@).len() > 0) ==> r == Err::<String, VcsError>(VcsError::UnknownRef),
{
    let t = trim(stdout);
    if succeeded && t.unicode_len() > 0 {
        Ok(String::from_str(t))
    } else {
        Err(VcsError::UnknownRef)
    }
}

pub(crate) fn same_text(a: &str, b: &str) -> (r: bool)
    ensures
        r == (a@ == b@),
{
    let n = a.unicode_len();
    if n != b.unicode_len() {
        return false;
    }
    let mut i: usize = 0;
    while i < n
        invariant
            n == a@.len(),
            n == b@.len(),
            i <= n,
            forall|k: int| 0 <= k < i ==> a@[k] == b@[k],
        decreases n - i,
    {
        if a.get_char(i) != b.get_char(i) {
            return false;
        }
        i = i + 1;
    }
    assert(a@ =~= b@);
    true
}

/// The scheme, host and path of the URL that `git_url_parse` builds from a
/// remote URL before it reads owner and name out of it; nothing where it
/// refuses the URL.
pub uninterp spec fn normalized_remote(url: Seq<char>) -> Option<(Seq<char>, Option<Seq<char>>, Seq<char>)>;

pub open spec fn normalized_view(n: Option<(String, Option<String>, String)>) -> Option<(Seq<char>, Option<Seq<char>>, Seq<char>)> {
    match n {
        Some((scheme, Some(host), path)) => Some((scheme@, Some(host@), path@)),
        Some((scheme, None, path)) => Some((scheme@, None, path@)),
        None => None,
    }
}

/// Relies on `git_url_parse::normalize_url`: the scheme, host and path of
/// the `Url` it returns, or nothing where it returns an error.
#[verifier::external_body]
fn normalize_remote(url: &str) -> (r: Option<(String, Option<String>, String)>)
    ensures
        normalized_view(r) == normalized_remote(url@),
{
    match git_url_parse::normalize_url(url) {
        Ok(u) => Some((u.scheme().to_string(), u.host_str().map(|h| h.to_string()), u.path().to_string())),
        Err(_) => None,
    }
}

/// How many `/` characters `s` holds.
pub open spec fn slash_count(s: Seq<char>) -> nat
    decreases s.len(),
{
    if s.len() == 0 {
        0
    } else {
        slash_count(s.drop_last()) + if s.last() == '/' { 1nat } else { 0nat }
    }
}

/// How many pieces `str::rsplit_terminator('/')` gives for `s`.
pub open spec fn segment_count(s: Seq<char>) -> nat {
    if s.len() == 0 {
        0
    } else if s.last() == '/' {
        slash_count(s)
    } else {
        slash_count(s) + 1
    }
}

/// The schemes that `git_url_parse` knows.
pub open spec fn known_scheme(s: Seq<char>) -> bool {
    s == "file"@ || s == "ftp"@ || s == "ftps"@ || s == "git"@ || s == "git+ssh"@ || s == "http"@
        || s == "https"@ || s == "ssh"@ || s == "unspecified"@
}

/// The hosts whose paths `git_url_parse` reads with an organization.
pub open spec fn organization_host(h: Option<Seq<char>>) -> bool {
    h == Some("dev.azure.com"@) || h == Some("ssh.dev.azure.com"@)
}

/// The normalized URLs on which `git_url_parse::GitUrl::parse` indexes past
/// the end of the path's pieces: an ssh path that is empty once its leading
/// `/` is cut, and an organization host with fewer pieces than it reads.
pub open spec fn parser_panics(n: Option<(Seq<char>, Option<Seq<char>>, Seq<char>)>) -> bool {
    match n {
        None => false,
        Some((scheme, host, path)) => {
            let pieces = segment_count(if scheme == "ssh"@ { path.drop_first() } else { path });
            &&& known_scheme(scheme)
            &&& path.len() > 0
            &&& (pieces == 0 || (scheme != "file"@ && organization_host(host) && ((scheme == "ssh"@
                && pieces < 3) || (scheme == "https"@ && pieces < 4))))
        },
    }
}

fn count_slashes(s: &str, from: usize) -> (r: usize)
    requires
        from <= s@.len(),
    ensures
        r == slash_count(s@.subrange(from as int, s@.len() as int)),
        s@.len() > from && s@.last() != '/' ==> r < s@.len() - from,
{
    let n = s.unicode_len();
    let mut c: usize = 0;
    let mut i: usize = from;
    assert(s@.subrange(from as int, from as int) =~= Seq::<char>::empty());
    while i < n
        invariant
            n == s@.len(),
            from <= i <= n,
            c == slash_count(s@.subrange(from as int, i as int)),
            c <= i - from,
            i > from && s@[i - 1] != '/' ==> c < i - from,
        decreases n - i,
    {
        assert(s@.subrange(from as int, i + 1).drop_last() =~= s@.subrange(from as int, i as int));
        if s.get_char(i) == '/' {
            c = c + 1;
        }
        i = i + 1;
    }
    c
}

fn would_panic(n: &Option<(String, Option<String>, String)>) -> (r: bool)
    ensures
        r == parser_panics(normalized_view(*n)),
{
    proof {
        reveal_strlit("file");
        reveal_strlit("ftp");
        reveal_strlit("ftps");
        reveal_strlit("git");
        reveal_strlit("git+ssh");
        reveal_strlit("http");
        reveal_strlit("https");
        reveal_strlit("ssh");
        reveal_strlit("unspecified");
        reveal_strlit("dev.azure.com");
        reveal_strlit("ssh.dev.azure.com");
    }
    match n {
        None => false,
        Some((scheme, host, path)) => {
            let scheme = scheme.as_str();
            let path = path.as_str();
            let known = same_text(scheme, "file") || same_text(scheme, "ftp") || same_text(scheme, "ftps")
                || same_text(scheme, "git") || same_text(scheme, "git+ssh") || same_text(scheme, "http")
                || same_text(scheme, "https") || same_text(scheme, "ssh") || same_text(scheme, "unspecified");
            let len = path.unicode_len();
            if !known || len == 0 {
                return false;
            }
            let ssh = same_text(scheme, "ssh");
            let from: usize = if ssh { 1 } else { 0 };
            let slashes = count_slashes(path, from);
            let pieces: usize = if from == len {
                0
            } else if path.get_char(len - 1) == '/' {
                slashes
            } else {
                slashes + 1
            };
            proof {
                let cut = if ssh { path@.drop_first() } else { path@ };
                assert(cut =~= path@.subrange(from as int, len as int));
            }
            let org = match host {
                Some(h) => same_text(h.as_str(), "dev.azure.com") || same_text(h.as_str(), "ssh.dev.azure.com"),
                None => false,
            };
            pieces == 0 || (!same_text(scheme, "file") && org && ((ssh && pieces < 3) || (same_text(scheme, "https") && pieces < 4)))
        },
    }
}

/// What `git_url_parse` makes of a remote URL: its owner, if any, and its
/// repository name; nothing where it refuses the URL.
pub uninterp spec fn git_url_parts(url: Seq<char>) -> Option<(Option<Seq<char>>, Seq<char>)>;

/// The owner and name of parsed parts, as character sequences.
pub open spec fn parts_view(p: Option<(Option<String>, String)>) -> Option<(Option<Seq<char>>, Seq<char>)> {
    match p {
        Some((Some(o), n)) => Some((Some(o@), n@)),
        Some((None, n)) => Some((None, n@)),
        None => None,
    }
}

/// Relies on `git_url_parse::GitUrl::parse`: the `owner` and `name` fields of
/// the parsed URL, or nothing where it returns an error. It first builds the
/// URL that `normalize_url` gives, and panics exactly on the ones that
/// `parser_panics` describes.
#[verifier::external_body]
fn parse_git_url(url: &str) -> (r: Option<(Option<String>, String)>)
    requires
        !parser_panics(normalized_remote(url@)),
    ensures
        parts_view(r) == git_url_parts(url@),
{
    match git_url_parse::GitUrl::parse(url) {
        Ok(u) => Some((u.owner, u.name)),
        Err(_) => None,
    }
}

/// The repository that parsed remote parts name: the owner must be there.
pub open spec fn repository_spec(parts: Option<(Option<Seq<char>>, Seq<char>)>) -> Option<(Seq<char>, Seq<char>)> {
    match parts {
        Some((Some(o), n)) => Some((o, n)),
        _ => None,
    }
}

/// The repository of a parsed remote URL; an error where the parser refused
/// the URL or found no owner in it.
pub fn repository_from_parts(parts: Option<(Option<String>, String)>) -> (r: Result<GitHubRepository, VcsError>)
    ensures
        match repository_spec(parts_view(parts)) {
            Some((o, n)) => r matches Ok(g) && g.owner@ == o && g.repo@ == n,
            None => r == Err::<GitHubRepository, VcsError>(VcsError::UnparseableRemote),
        },
{
    match parts {
        Some((Some(owner), repo)) => Ok(GitHubRepository { owner, repo }),
        _ => Err(VcsError::UnparseableRemote),
    }
}

/// The repository named by the output of `git config --get remote.origin.url`:
/// the owner and name that the URL parser finds in the trimmed URL; an
/// error where it refuses the URL, finds no owner, or could not read the URL
/// without indexing past its path.
pub fn remote_repository(stdout: &str) -> (r: Result<GitHubRepository, VcsError>)
    ensures
        ({
            let url = trimmed(stdout@);
            match (if parser_panics(normalized_remote(url)) { None } else { repository_spec(git_url_parts(url)) }) {
                Some((o, n)) => r matches Ok(g) && g.owner@ == o && g.repo@ == n,
                None => r == Err::<GitHubRepository, VcsError>(VcsError::UnparseableRemote),
            }
        }),
{
    let url = trim(stdout);
    if would_panic(&normalize_remote(url)) {
        return Err(VcsError::UnparseableRemote);
    }
    repository_from_parts(parse_git_url(url))
}

} // verus!
