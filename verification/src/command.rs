//! The exec request grammar.
//!
//! A client's exec request is classified into either a Git helper
//! invocation or a Git-LFS authentication request:
//!
//! - Git: `git-upload-pack '/~USER/REPO'` or `git-receive-pack '/~USER/REPO'`,
//!   where the slash before the tilde may be omitted;
//! - LFS: `git-lfs-authenticate '/~USER/REPO' download` (or `upload`), where
//!   the quotes may be omitted as a pair and the slash may be omitted.
//!
//! `USER` is one or more ASCII alphanumerics; `REPO` is one or more of
//! alphanumerics, `.` and `-`, and ends in `.git`. A request whose leading
//! word is none of the three binaries is unsupported; one whose leading word
//! is known but whose remainder does not fit the grammar is invalid.

use vstd::prelude::*;

verus! {

pub enum LfsOperation {
    Download,
    Upload,
}

pub enum Command {
    LfsAuth { user: String, repo: String, operation: LfsOperation },
    Git { bin: String, user: String, repo: String },
}

pub enum CommandError {
    InvalidCommand,
    UnsupportedCommand,
}

pub open spec fn is_user_char(c: char) -> bool {
    ('a' <= c && c <= 'z') || ('A' <= c && c <= 'Z') || ('0' <= c && c <= '9')
}

pub open spec fn is_repo_char(c: char) -> bool {
    is_user_char(c) || c == '.' || c == '-'
}

pub open spec fn valid_user(s: Seq<char>) -> bool {
    s.len() > 0 && (forall|i: int| 0 <= i < s.len() ==> is_user_char(#[trigger] s[i]))
}

pub open spec fn valid_repo(s: Seq<char>) -> bool {
    &&& s.len() > 4
    &&& (forall|i: int| 0 <= i < s.len() ==> is_repo_char(#[trigger] s[i]))
    &&& s[s.len() - 4] == '.'
    &&& s[s.len() - 3] == 'g'
    &&& s[s.len() - 2] == 'i'
    &&& s[s.len() - 1] == 't'
}

pub open spec fn upload_pack_chars() -> Seq<char> {
    seq!['g', 'i', 't', '-', 'u', 'p', 'l', 'o', 'a', 'd', '-', 'p', 'a', 'c', 'k']
}

pub open spec fn receive_pack_chars() -> Seq<char> {
    seq!['g', 'i', 't', '-', 'r', 'e', 'c', 'e', 'i', 'v', 'e', '-', 'p', 'a', 'c', 'k']
}

pub open spec fn lfs_authenticate_chars() -> Seq<char> {
    seq![
        'g', 'i', 't', '-', 'l', 'f', 's', '-', 'a', 'u', 't', 'h', 'e', 'n', 't', 'i', 'c', 'a',
        't', 'e',
    ]
}

pub open spec fn op_chars(op: LfsOperation) -> Seq<char> {
    match op {
        LfsOperation::Download => seq!['d', 'o', 'w', 'n', 'l', 'o', 'a', 'd'],
        LfsOperation::Upload => seq!['u', 'p', 'l', 'o', 'a', 'd'],
    }
}

pub open spec fn is_git_bin(b: Seq<char>) -> bool {
    b == upload_pack_chars() || b == receive_pack_chars()
}

pub open spec fn known_bin(b: Seq<char>) -> bool {
    is_git_bin(b) || b == lfs_authenticate_chars()
}

/// The repository path as it appears between the binary name and, for LFS,
/// the operation: an optional slash, a tilde, the user, a slash, the repo.
pub open spec fn tilde_path_chars(user: Seq<char>, repo: Seq<char>, with_slash: bool) -> Seq<
    char,
> {
    (if with_slash {
        seq!['/']
    } else {
        Seq::<char>::empty()
    }) + seq!['~'] + user + seq!['/'] + repo
}

/// A full Git helper command; the path is always single-quoted.
pub open spec fn git_cmd_chars(
    bin: Seq<char>,
    user: Seq<char>,
    repo: Seq<char>,
    with_slash: bool,
) -> Seq<char> {
    bin + seq![' ', '\''] + tilde_path_chars(user, repo, with_slash) + seq!['\'']
}

/// The LFS path argument: the tilde path, quoted or not.
pub open spec fn quoted_path_chars(
    user: Seq<char>,
    repo: Seq<char>,
    quoted: bool,
    with_slash: bool,
) -> Seq<char> {
    (if quoted {
        seq!['\'']
    } else {
        Seq::<char>::empty()
    }) + tilde_path_chars(user, repo, with_slash) + (if quoted {
        seq!['\'']
    } else {
        Seq::<char>::empty()
    })
}

/// A full LFS authentication command; the quotes may be omitted as a pair.
pub open spec fn lfs_cmd_chars(
    user: Seq<char>,
    repo: Seq<char>,
    op: LfsOperation,
    quoted: bool,
    with_slash: bool,
) -> Seq<char> {
    lfs_authenticate_chars() + seq![' '] + quoted_path_chars(user, repo, quoted, with_slash)
        + seq![' '] + op_chars(op)
}

pub open spec fn matches_git(s: Seq<char>, bin: Seq<char>, user: Seq<char>, repo: Seq<char>) -> bool {
    &&& is_git_bin(bin)
    &&& valid_user(user)
    &&& valid_repo(repo)
    &&& (s == git_cmd_chars(bin, user, repo, true) || s == git_cmd_chars(bin, user, repo, false))
}

pub open spec fn matches_lfs(s: Seq<char>, user: Seq<char>, repo: Seq<char>, op: LfsOperation) -> bool {
    &&& valid_user(user)
    &&& valid_repo(repo)
    &&& (s == lfs_cmd_chars(user, repo, op, true, true) || s == lfs_cmd_chars(
        user,
        repo,
        op,
        true,
        false,
    ) || s == lfs_cmd_chars(user, repo, op, false, true) || s == lfs_cmd_chars(
        user,
        repo,
        op,
        false,
        false,
    ))
}

/// Length of the leading word: the index of the first space, or the whole
/// length if there is none.
pub open spec fn head_len(s: Seq<char>) -> int
    decreases s.len(),
{
    if s.len() == 0 {
        0
    } else if s[0] == ' ' {
        0
    } else {
        1 + head_len(s.drop_first())
    }
}

pub open spec fn head(s: Seq<char>) -> Seq<char> {
    s.take(head_len(s))
}

pub proof fn lemma_head_len(s: Seq<char>)
    ensures
        0 <= head_len(s) <= s.len(),
        forall|j: int| 0 <= j < head_len(s) ==> s[j] != ' ',
        head_len(s) < s.len() ==> s[head_len(s)] == ' ',
    decreases s.len(),
{
    if s.len() > 0 && s[0] != ' ' {
        lemma_head_len(s.drop_first());
        assert forall|j: int| 0 <= j < head_len(s) implies s[j] != ' ' by {
            if j > 0 {
                assert(s.drop_first()[j - 1] != ' ');
            }
        }
    }
}

/// Any index with no space before it that sits on a space (or at the end)
/// is the head length: the head is uniquely determined.
pub proof fn lemma_head_end_unique(s: Seq<char>, i: int)
    requires
        0 <= i <= s.len(),
        forall|j: int| 0 <= j < i ==> s[j] != ' ',
        i == s.len() || s[i] == ' ',
    ensures
        i == head_len(s),
{
    lemma_head_len(s);
    if i < head_len(s) {
        assert(s[i] != ' ');
        assert(i < s.len());
    } else if i > head_len(s) {
        assert(s[head_len(s)] == ' ');
    }
}

/// No character of a tilde path is a space: every segment draws from
/// alphabets that exclude it.
proof fn lemma_tilde_path_space_free(u: Seq<char>, rp: Seq<char>, sl: bool)
    requires
        valid_user(u),
        valid_repo(rp),
    ensures
        forall|i: int|
            0 <= i < tilde_path_chars(u, rp, sl).len() ==> #[trigger] tilde_path_chars(
                u,
                rp,
                sl,
            )[i] != ' ',
{
    let t = tilde_path_chars(u, rp, sl);
    let o = if sl {
        1int
    } else {
        0int
    };
    assert forall|i: int| 0 <= i < t.len() implies #[trigger] t[i] != ' ' by {
        if o < i < o + 1 + u.len() {
            assert(t[i] == u[i - o - 1]);
            assert(is_user_char(t[i]));
        } else if i > o + 1 + u.len() {
            assert(t[i] == rp[i - o - 2 - u.len()]);
            assert(is_repo_char(t[i]));
        }
    }
}

/// Positions and framing of a rendered Git helper command.
proof fn lemma_git_shape(s: Seq<char>, b: Seq<char>, u: Seq<char>, rp: Seq<char>, sl: bool)
    requires
        is_git_bin(b),
        valid_user(u),
        valid_repo(rp),
        s == git_cmd_chars(b, u, rp, sl),
    ensures
        head_len(s) == b.len(),
        head(s) == b,
        s.len() == b.len() + 3 + tilde_path_chars(u, rp, sl).len(),
        b.len() + 2 < s.len(),
        s[b.len() + 1 as int] == '\'',
        s[s.len() - 1] == '\'',
        s.subrange(b.len() + 2 as int, s.len() - 1) == tilde_path_chars(u, rp, sl),
{
    let t = tilde_path_chars(u, rp, sl);
    assert(head_len(upload_pack_chars()) == 15) by {
        reveal_with_fuel(head_len, 17);
    }
    assert(head_len(receive_pack_chars()) == 16) by {
        reveal_with_fuel(head_len, 18);
    }
    lemma_head_len(b);
    lemma_head_end_unique(s, b.len() as int);
    assert(s.subrange(b.len() + 2 as int, s.len() - 1) =~= t);
    assert(head(s) =~= b);
}

/// Positions and framing of a rendered LFS authentication command.
proof fn lemma_lfs_shape(
    s: Seq<char>,
    u: Seq<char>,
    rp: Seq<char>,
    op: LfsOperation,
    q: bool,
    sl: bool,
)
    requires
        valid_user(u),
        valid_repo(rp),
        s == lfs_cmd_chars(u, rp, op, q, sl),
    ensures
        head_len(s) == 20,
        head(s) == lfs_authenticate_chars(),
        s.len() == 22 + quoted_path_chars(u, rp, q, sl).len() + op_chars(op).len(),
        ({
            let rest = s.subrange(21, s.len() as int);
            let qp = quoted_path_chars(u, rp, q, sl);
            &&& head_len(rest) == qp.len()
            &&& rest.subrange(0, qp.len() as int) == qp
            &&& rest.subrange(qp.len() + 1 as int, rest.len() as int) == op_chars(op)
            &&& rest.len() == qp.len() + 1 + op_chars(op).len()
        }),
{
    let qp = quoted_path_chars(u, rp, q, sl);
    let t = tilde_path_chars(u, rp, sl);
    let rest = s.subrange(21, s.len() as int);
    assert(head_len(lfs_authenticate_chars()) == 20) by {
        reveal_with_fuel(head_len, 22);
    }
    lemma_head_len(lfs_authenticate_chars());
    lemma_head_end_unique(s, 20);
    assert(head(s) =~= lfs_authenticate_chars());
    lemma_tilde_path_space_free(u, rp, sl);
    assert forall|j: int| 0 <= j < qp.len() implies rest[j] != ' ' by {
        assert(rest[j] == qp[j]);
        let qo = if q {
            1int
        } else {
            0int
        };
        if q && (j == 0 || j == qp.len() - 1) {
            assert(qp[j] == '\'');
        } else {
            assert(qp[j] == t[j - qo]);
        }
    }
    assert(rest[qp.len() as int] == ' ');
    lemma_head_end_unique(rest, qp.len() as int);
    assert(rest.subrange(0, qp.len() as int) =~= qp);
    assert(rest.subrange(qp.len() + 1 as int, rest.len() as int) =~= op_chars(op));
}

fn user_char(c: char) -> (r: bool)
    ensures
        r == is_user_char(c),
{
    ('a' <= c && c <= 'z') || ('A' <= c && c <= 'Z') || ('0' <= c && c <= '9')
}

fn repo_char(c: char) -> (r: bool)
    ensures
        r == is_repo_char(c),
{
    user_char(c) || c == '.' || c == '-'
}

/// Character-for-character equality of two string slices.
pub fn chars_eq(a: &str, b: &str) -> (r: bool)
    ensures
        r == (a@ == b@),
{
    let alen = a.unicode_len();
    let blen = b.unicode_len();
    if alen != blen {
        proof {
            assert(a@.len() != b@.len());
        }
        return false;
    }
    let mut i: usize = 0;
    while i < alen
        invariant
            alen == a@.len(),
            alen == b@.len(),
            i <= alen,
            forall|j: int| 0 <= j < i ==> a@[j] == b@[j],
        decreases alen - i,
    {
        if a.get_char(i) != b.get_char(i) {
            return false;
        }
        i = i + 1;
    }
    proof {
        assert(a@ =~= b@);
    }
    true
}

/// Whole-string repo-name check: nonempty name from the repo alphabet,
/// ending in `.git`.
pub fn check_repo(s: &str) -> (r: bool)
    ensures
        r == valid_repo(s@),
{
    let n = s.unicode_len();
    if n <= 4 {
        return false;
    }
    let mut i: usize = 0;
    while i < n
        invariant
            n == s@.len(),
            n > 4,
            i <= n,
            forall|j: int| 0 <= j < i ==> is_repo_char(#[trigger] s@[j]),
        decreases n - i,
    {
        if !repo_char(s.get_char(i)) {
            return false;
        }
        i = i + 1;
    }
    s.get_char(n - 4) == '.' && s.get_char(n - 3) == 'g' && s.get_char(n - 2) == 'i'
        && s.get_char(n - 1) == 't'
}

/// Whole-string user-name check: nonempty and alphanumeric.
pub fn check_user(s: &str) -> (r: bool)
    ensures
        r == valid_user(s@),
{
    let n = s.unicode_len();
    if n == 0 {
        return false;
    }
    let mut i: usize = 0;
    while i < n
        invariant
            n == s@.len(),
            i <= n,
            forall|j: int| 0 <= j < i ==> is_user_char(#[trigger] s@[j]),
        decreases n - i,
    {
        if !user_char(s.get_char(i)) {
            return false;
        }
        i = i + 1;
    }
    true
}

/// Parse `[/]~USER/REPO`, the path form shared by both command kinds.
fn parse_tilde_path(s: &str) -> (r: Option<(String, String)>)
    ensures
        (r matches Some(p) ==> valid_user(p.0@) && valid_repo(p.1@) && (s@ == tilde_path_chars(
            p.0@,
            p.1@,
            true,
        ) || s@ == tilde_path_chars(p.0@, p.1@, false))),
        r is None ==> forall|u: Seq<char>, rp: Seq<char>, sl: bool|
            !(valid_user(u) && valid_repo(rp) && s@ == tilde_path_chars(u, rp, sl)),
{
    let n = s.unicode_len();
    if n == 0 {
        return None;
    }
    let with_slash = s.get_char(0) == '/';
    let off: usize = if with_slash {
        1
    } else {
        0
    };
    if off >= n || s.get_char(off) != '~' {
        proof {
            assert forall|u: Seq<char>, rp: Seq<char>, sl: bool| !(valid_user(u) && valid_repo(rp)
                && s@ == tilde_path_chars(u, rp, sl)) by {
                if valid_user(u) && valid_repo(rp) && s@ == tilde_path_chars(u, rp, sl) {
                    if sl {
                        assert(s@[0] == '/');
                        assert(s@[1] == '~');
                    } else {
                        assert(s@[0] == '~');
                    }
                }
            }
        }
        return None;
    }
    // maximal run of user characters after the tilde
    let mut p: usize = off + 1;
    while p < n && user_char(s.get_char(p))
        invariant
            n == s@.len(),
            off + 1 <= p <= n,
            forall|j: int| off + 1 <= j < p ==> is_user_char(#[trigger] s@[j]),
        decreases n - p,
    {
        p = p + 1;
    }
    let run_failed = p == off + 1 || p >= n || s.get_char(p) != '/';
    if run_failed {
        proof {
            assert forall|u: Seq<char>, rp: Seq<char>, sl: bool| !(valid_user(u) && valid_repo(rp)
                && s@ == tilde_path_chars(u, rp, sl)) by {
                if valid_user(u) && valid_repo(rp) && s@ == tilde_path_chars(u, rp, sl) {
                    let o = if sl {
                        1int
                    } else {
                        0int
                    };
                    assert(o == off) by {
                        if sl {
                            assert(s@[0] == '/');
                        } else {
                            assert(s@[0] == '~');
                            assert(!with_slash) by {
                                assert(s@[0] != '/');
                            }
                        }
                    }
                    // the maximal run must stop exactly at the user's end
                    assert(forall|i: int| 0 <= i < u.len() ==> s@[o + 1 + i] == u[i]);
                    assert(s@[o + 1 + u.len()] == '/');
                    assert(p == o + 1 + u.len()) by {
                        if p < o + 1 + u.len() {
                            assert(is_user_char(u[p - o - 1]));
                            assert(s@[p as int] == u[p - o - 1]);
                            assert(p < n && is_user_char(s@[p as int]));
                        } else if p > o + 1 + u.len() {
                            assert(is_user_char(s@[o + 1 + u.len()]));
                        }
                    }
                }
            }
        }
        return None;
    }
    let user = s.substring_char(off + 1, p).to_owned();
    let repo_str = s.substring_char(p + 1, n);
    if !check_repo(repo_str) {
        proof {
            assert forall|u: Seq<char>, rp: Seq<char>, sl: bool| !(valid_user(u) && valid_repo(rp)
                && s@ == tilde_path_chars(u, rp, sl)) by {
                if valid_user(u) && valid_repo(rp) && s@ == tilde_path_chars(u, rp, sl) {
                    let o = if sl {
                        1int
                    } else {
                        0int
                    };
                    assert(o == off) by {
                        if sl {
                            assert(s@[0] == '/');
                        } else {
                            assert(s@[0] == '~');
                        }
                    }
                    assert(forall|i: int| 0 <= i < u.len() ==> s@[o + 1 + i] == u[i]);
                    assert(s@[o + 1 + u.len()] == '/');
                    assert(p == o + 1 + u.len()) by {
                        if p < o + 1 + u.len() {
                            assert(is_user_char(u[p - o - 1]));
                            assert(s@[p as int] == u[p - o - 1]);
                        } else if p > o + 1 + u.len() {
                            assert(is_user_char(s@[o + 1 + u.len()]));
                        }
                    }
                    assert(forall|i: int| 0 <= i < rp.len() ==> s@[o + 2 + u.len() + i] == rp[i]);
                    assert(repo_str@ =~= rp);
                }
            }
        }
        return None;
    }
    let repo = repo_str.to_owned();
    proof {
        let sl = with_slash;
        let o = if sl {
            1int
        } else {
            0int
        };
        assert(user@ == s@.subrange(off + 1, p as int));
        assert(repo@ == s@.subrange(p + 1, n as int));
        assert(valid_user(user@));
        assert(s@ =~= tilde_path_chars(user@, repo@, sl));
    }
    Some((user, repo))
}

/// Classify an exec request. The leading word picks the command kind; the
/// remainder must fit that kind's grammar exactly.
#[verifier::rlimit(100)]
pub fn parse_command(command: &str) -> (r: Result<Command, CommandError>)
    ensures
        (r == Err::<Command, CommandError>(CommandError::UnsupportedCommand)) <==> !known_bin(
            head(command@),
        ),
        r == Err::<Command, CommandError>(CommandError::InvalidCommand) ==> known_bin(
            head(command@),
        ),
        (r is Err) ==> (forall|b: Seq<char>, u: Seq<char>, rp: Seq<char>|
            !matches_git(command@, b, u, rp)) && (forall|
            u: Seq<char>,
            rp: Seq<char>,
            op: LfsOperation,
        |
            !matches_lfs(command@, u, rp, op)),
        (r matches Ok(c) ==> (match c {
            Command::Git { bin, user, repo } => matches_git(command@, bin@, user@, repo@),
            Command::LfsAuth { user, repo, operation } => matches_lfs(
                command@,
                user@,
                repo@,
                operation,
            ),
        })),
{
    let ghost s = command@;
    let n = command.unicode_len();
    let mut he: usize = 0;
    while he < n && command.get_char(he) != ' '
        invariant
            n == s.len(),
            s == command@,
            he <= n,
            forall|j: int| 0 <= j < he ==> s[j] != ' ',
        decreases n - he,
    {
        he = he + 1;
    }
    proof {
        lemma_head_end_unique(s, he as int);
        assert(head(s) == s.subrange(0, he as int));
    }
    let head_str = command.substring_char(0, he);
    let is_up = chars_eq(head_str, "git-upload-pack");
    let is_rp = chars_eq(head_str, "git-receive-pack");
    let is_lfs = chars_eq(head_str, "git-lfs-authenticate");
    proof {
        reveal_strlit("git-upload-pack");
        reveal_strlit("git-receive-pack");
        reveal_strlit("git-lfs-authenticate");
        assert("git-upload-pack"@ =~= upload_pack_chars());
        assert("git-receive-pack"@ =~= receive_pack_chars());
        assert("git-lfs-authenticate"@ =~= lfs_authenticate_chars());
    }
    if !(is_up || is_rp || is_lfs) {
        proof {
            assert forall|b2: Seq<char>, u2: Seq<char>, rp2: Seq<char>| !matches_git(
                s,
                b2,
                u2,
                rp2,
            ) by {
                if matches_git(s, b2, u2, rp2) {
                    lemma_git_match_head(s, b2, u2, rp2);
                }
            }
            assert forall|u2: Seq<char>, rp2: Seq<char>, op: LfsOperation| !matches_lfs(
                s,
                u2,
                rp2,
                op,
            ) by {
                if matches_lfs(s, u2, rp2, op) {
                    lemma_lfs_match_head(s, u2, rp2, op);
                }
            }
        }
        return Err(CommandError::UnsupportedCommand);
    }
    if is_up || is_rp {
        let ghost b = head_str@;
        // any Git reading of the input must use this binary, and any LFS
        // reading is ruled out by the leading word's length
        proof {
            assert forall|u2: Seq<char>, rp2: Seq<char>, op: LfsOperation| !matches_lfs(
                s,
                u2,
                rp2,
                op,
            ) by {
                if matches_lfs(s, u2, rp2, op) {
                    lemma_lfs_match_head(s, u2, rp2, op);
                    assert(b.len() == 20);
                }
            }
        }
        if he >= n {
            proof {
                assert forall|b2: Seq<char>, u2: Seq<char>, rp2: Seq<char>| !matches_git(
                    s,
                    b2,
                    u2,
                    rp2,
                ) by {
                    if matches_git(s, b2, u2, rp2) {
                        lemma_git_match_head(s, b2, u2, rp2);
                    }
                }
            }
            return Err(CommandError::InvalidCommand);
        }
        let rest = command.substring_char(he + 1, n);
        let rn = n - he - 1;
        proof {
            assert(rest@.len() == rn);
        }
        if rn < 2 || rest.get_char(0) != '\'' || rest.get_char(rn - 1) != '\'' {
            proof {
                assert forall|b2: Seq<char>, u2: Seq<char>, rp2: Seq<char>| !matches_git(
                    s,
                    b2,
                    u2,
                    rp2,
                ) by {
                    if matches_git(s, b2, u2, rp2) {
                        lemma_git_match_head(s, b2, u2, rp2);
                        assert(b2 == b);
                        assert(s[he + 1] == '\'');
                        assert(s[s.len() - 1] == '\'');
                        assert(rest@[0] == '\'');
                        assert(rest@[rn - 1] == '\'');
                    }
                }
            }
            return Err(CommandError::InvalidCommand);
        }
        let inner = rest.substring_char(1, rn - 1);
        proof {
            assert(inner@ =~= s.subrange(he + 2, n - 1));
        }
        match parse_tilde_path(inner) {
            Some((user, repo)) => {
                let bin = head_str.to_owned();
                proof {
                    if inner@ == tilde_path_chars(user@, repo@, true) {
                        assert(s =~= git_cmd_chars(b, user@, repo@, true));
                    } else {
                        assert(s =~= git_cmd_chars(b, user@, repo@, false));
                    }
                }
                return Ok(Command::Git { bin, user, repo });
            },
            None => {
                proof {
                    assert forall|b2: Seq<char>, u2: Seq<char>, rp2: Seq<char>| !matches_git(
                        s,
                        b2,
                        u2,
                        rp2,
                    ) by {
                        if matches_git(s, b2, u2, rp2) {
                            lemma_git_match_head(s, b2, u2, rp2);
                            let sl = if s == git_cmd_chars(b2, u2, rp2, true) {
                                true
                            } else {
                                false
                            };
                            lemma_git_shape(s, b2, u2, rp2, sl);
                            assert(inner@ == tilde_path_chars(u2, rp2, sl));
                        }
                    }
                }
                return Err(CommandError::InvalidCommand);
            },
        }
    }
    // LFS authentication
    proof {
        assert forall|b2: Seq<char>, u2: Seq<char>, rp2: Seq<char>| !matches_git(
            s,
            b2,
            u2,
            rp2,
        ) by {
            if matches_git(s, b2, u2, rp2) {
                lemma_git_match_head(s, b2, u2, rp2);
                assert(b2 == lfs_authenticate_chars());
                assert(b2.len() == 15 || b2.len() == 16);
            }
        }
    }
    if he >= n {
        proof {
            assert forall|u2: Seq<char>, rp2: Seq<char>, op: LfsOperation| !matches_lfs(
                s,
                u2,
                rp2,
                op,
            ) by {
                if matches_lfs(s, u2, rp2, op) {
                    lemma_lfs_match_head(s, u2, rp2, op);
                }
            }
        }
        return Err(CommandError::InvalidCommand);
    }
    let rest = command.substring_char(he + 1, n);
    let rn = n - he - 1;
    proof {
        assert(rest@.len() == rn);
        assert(rest@ =~= s.subrange(21, n as int));
    }
    // the space before the operation word
    let mut sp: usize = 0;
    while sp < rn && rest.get_char(sp) != ' '
        invariant
            rn == rest@.len(),
            sp <= rn,
            forall|j: int| 0 <= j < sp ==> rest@[j] != ' ',
        decreases rn - sp,
    {
        sp = sp + 1;
    }
    proof {
        lemma_head_end_unique(rest@, sp as int);
    }
    if sp >= rn {
        proof {
            assert forall|u2: Seq<char>, rp2: Seq<char>, op: LfsOperation| !matches_lfs(
                s,
                u2,
                rp2,
                op,
            ) by {
                if matches_lfs(s, u2, rp2, op) {
                    lemma_lfs_match_rest(s, u2, rp2, op, rest@);
                }
            }
        }
        return Err(CommandError::InvalidCommand);
    }
    let op_str = rest.substring_char(sp + 1, rn);
    let is_download = chars_eq(op_str, "download");
    let is_upload = chars_eq(op_str, "upload");
    proof {
        reveal_strlit("download");
        reveal_strlit("upload");
        assert("download"@ =~= op_chars(LfsOperation::Download));
        assert("upload"@ =~= op_chars(LfsOperation::Upload));
    }
    if !(is_download || is_upload) {
        proof {
            assert forall|u2: Seq<char>, rp2: Seq<char>, op: LfsOperation| !matches_lfs(
                s,
                u2,
                rp2,
                op,
            ) by {
                if matches_lfs(s, u2, rp2, op) {
                    lemma_lfs_match_rest(s, u2, rp2, op, rest@);
                    assert(op_str@ == op_chars(op));
                }
            }
        }
        return Err(CommandError::InvalidCommand);
    }
    let operation = if is_download {
        LfsOperation::Download
    } else {
        LfsOperation::Upload
    };
    let path_str = rest.substring_char(0, sp);
    proof {
        assert(path_str@ =~= rest@.subrange(0, sp as int));
    }
    if sp == 0 {
        proof {
            assert forall|u2: Seq<char>, rp2: Seq<char>, op: LfsOperation| !matches_lfs(
                s,
                u2,
                rp2,
                op,
            ) by {
                if matches_lfs(s, u2, rp2, op) {
                    lemma_lfs_match_rest(s, u2, rp2, op, rest@);
                    lemma_quoted_path_ends(u2, rp2, path_str@);
                }
            }
        }
        return Err(CommandError::InvalidCommand);
    }
    let quoted = path_str.get_char(0) == '\'';
    if quoted {
        if sp < 2 || path_str.get_char(sp - 1) != '\'' {
            proof {
                assert forall|u2: Seq<char>, rp2: Seq<char>, op: LfsOperation| !matches_lfs(
                    s,
                    u2,
                    rp2,
                    op,
                ) by {
                    if matches_lfs(s, u2, rp2, op) {
                        lemma_lfs_match_rest(s, u2, rp2, op, rest@);
                        lemma_quoted_path_ends(u2, rp2, path_str@);
                    }
                }
            }
            return Err(CommandError::InvalidCommand);
        }
        let inner = path_str.substring_char(1, sp - 1);
        match parse_tilde_path(inner) {
            Some((user, repo)) => {
                proof {
                    let sl = if inner@ == tilde_path_chars(user@, repo@, true) {
                        true
                    } else {
                        false
                    };
                    assert(path_str@ =~= quoted_path_chars(user@, repo@, true, sl));
                    assert(s =~= lfs_cmd_chars(user@, repo@, operation, true, sl));
                }
                return Ok(Command::LfsAuth { user, repo, operation });
            },
            None => {
                proof {
                    assert forall|u2: Seq<char>, rp2: Seq<char>, op: LfsOperation| !matches_lfs(
                        s,
                        u2,
                        rp2,
                        op,
                    ) by {
                        if matches_lfs(s, u2, rp2, op) {
                            lemma_lfs_match_rest(s, u2, rp2, op, rest@);
                            lemma_quoted_path_ends(u2, rp2, path_str@);
                            assert(inner@ =~= path_str@.subrange(1, sp - 1));
                        }
                    }
                }
                return Err(CommandError::InvalidCommand);
            },
        }
    }
    match parse_tilde_path(path_str) {
        Some((user, repo)) => {
            proof {
                let sl = if path_str@ == tilde_path_chars(user@, repo@, true) {
                    true
                } else {
                    false
                };
                assert(path_str@ =~= quoted_path_chars(user@, repo@, false, sl));
                assert(s =~= lfs_cmd_chars(user@, repo@, operation, false, sl));
            }
            return Ok(Command::LfsAuth { user, repo, operation });
        },
        None => {
            proof {
                assert forall|u2: Seq<char>, rp2: Seq<char>, op: LfsOperation| !matches_lfs(
                    s,
                    u2,
                    rp2,
                    op,
                ) by {
                    if matches_lfs(s, u2, rp2, op) {
                        lemma_lfs_match_rest(s, u2, rp2, op, rest@);
                        lemma_quoted_path_ends(u2, rp2, path_str@);
                    }
                }
            }
            return Err(CommandError::InvalidCommand);
        },
    }
}

/// Render a Git helper command in its canonical form, with the quoted,
/// slash-led path.
pub fn render_git_command(bin: &str, user: &str, repo: &str) -> (r: String)
    ensures
        r@ == git_cmd_chars(bin@, user@, repo@, true),
{
    let mut out = bin.to_owned();
    out.append(" '/~");
    out.append(user);
    out.append("/");
    out.append(repo);
    out.append("'");
    proof {
        reveal_strlit(" '/~");
        reveal_strlit("/");
        reveal_strlit("'");
        assert(out@ =~= git_cmd_chars(bin@, user@, repo@, true));
    }
    out
}

/// Two tilde paths that render the same characters agree in every part.
proof fn lemma_tilde_path_unique(
    t: Seq<char>,
    u1: Seq<char>,
    rp1: Seq<char>,
    sl1: bool,
    u2: Seq<char>,
    rp2: Seq<char>,
    sl2: bool,
)
    requires
        valid_user(u1),
        valid_repo(rp1),
        valid_user(u2),
        valid_repo(rp2),
        t == tilde_path_chars(u1, rp1, sl1),
        t == tilde_path_chars(u2, rp2, sl2),
    ensures
        u1 == u2,
        rp1 == rp2,
        sl1 == sl2,
{
    if sl1 != sl2 {
        if sl1 {
            assert(t[0] == '/');
            assert(t[0] == '~');
        } else {
            assert(t[0] == '~');
            assert(t[0] == '/');
        }
    }
    let o = if sl1 {
        1int
    } else {
        0int
    };
    if u1.len() < u2.len() {
        assert(t[o + 1 + u1.len()] == '/');
        assert(t[o + 1 + u1.len()] == u2[u1.len() as int]);
        assert(is_user_char(u2[u1.len() as int]));
    } else if u2.len() < u1.len() {
        assert(t[o + 1 + u2.len()] == '/');
        assert(t[o + 1 + u2.len()] == u1[u2.len() as int]);
        assert(is_user_char(u1[u2.len() as int]));
    }
    assert(u1.len() == u2.len());
    assert forall|i: int| 0 <= i < u1.len() implies u1[i] == u2[i] by {
        assert(t[o + 1 + i] == u1[i]);
        assert(t[o + 1 + i] == u2[i]);
    }
    assert(u1 =~= u2);
    assert(t.len() == o + 2 + u1.len() + rp1.len());
    assert(t.len() == o + 2 + u2.len() + rp2.len());
    assert(rp1.len() == rp2.len());
    assert forall|i: int| 0 <= i < rp1.len() implies rp1[i] == rp2[i] by {
        assert(t[o + 2 + u1.len() + i] == rp1[i]);
        assert(t[o + 2 + u2.len() + i] == rp2[i]);
    }
    assert(rp1 =~= rp2);
}

/// Round trip: every command accepted as a Git invocation, re-rendered from
/// its triple, parses back to that same triple. Concretely: a single
/// character sequence matches at most one Git reading, so re-rendering and
/// re-parsing cannot move to a different binary, user or repository.
pub proof fn lemma_git_round_trip(
    s: Seq<char>,
    b1: Seq<char>,
    u1: Seq<char>,
    rp1: Seq<char>,
    b2: Seq<char>,
    u2: Seq<char>,
    rp2: Seq<char>,
)
    requires
        matches_git(s, b1, u1, rp1),
        matches_git(s, b2, u2, rp2),
    ensures
        b1 == b2,
        u1 == u2,
        rp1 == rp2,
{
    lemma_git_match_head(s, b1, u1, rp1);
    lemma_git_match_head(s, b2, u2, rp2);
    assert(b1 == b2);
    let t = s.subrange(b1.len() + 2 as int, s.len() - 1);
    let sl1 = if t == tilde_path_chars(u1, rp1, true) {
        true
    } else {
        false
    };
    let sl2 = if t == tilde_path_chars(u2, rp2, true) {
        true
    } else {
        false
    };
    lemma_tilde_path_unique(t, u1, rp1, sl1, u2, rp2, sl2);
}

/// A string matched as a Git command carries its binary as its leading word.
proof fn lemma_git_match_head(s: Seq<char>, b: Seq<char>, u: Seq<char>, rp: Seq<char>)
    requires
        matches_git(s, b, u, rp),
    ensures
        head(s) == b,
        head_len(s) == b.len(),
        b.len() + 2 < s.len(),
        s[b.len() + 1 as int] == '\'',
        s[s.len() - 1] == '\'',
        s.subrange(b.len() + 2 as int, s.len() - 1) == tilde_path_chars(u, rp, true) || s.subrange(
            b.len() + 2 as int,
            s.len() - 1,
        ) == tilde_path_chars(u, rp, false),
{
    if s == git_cmd_chars(b, u, rp, true) {
        lemma_git_shape(s, b, u, rp, true);
    } else {
        lemma_git_shape(s, b, u, rp, false);
    }
}

/// A string matched as an LFS command carries `git-lfs-authenticate` as its
/// leading word.
proof fn lemma_lfs_match_head(s: Seq<char>, u: Seq<char>, rp: Seq<char>, op: LfsOperation)
    requires
        matches_lfs(s, u, rp, op),
    ensures
        head(s) == lfs_authenticate_chars(),
        head_len(s) == 20,
        s.len() > 21,
{
    if s == lfs_cmd_chars(u, rp, op, true, true) {
        lemma_lfs_shape(s, u, rp, op, true, true);
    } else if s == lfs_cmd_chars(u, rp, op, true, false) {
        lemma_lfs_shape(s, u, rp, op, true, false);
    } else if s == lfs_cmd_chars(u, rp, op, false, true) {
        lemma_lfs_shape(s, u, rp, op, false, true);
    } else {
        lemma_lfs_shape(s, u, rp, op, false, false);
    }
}

/// In a matched LFS command, the remainder after the leading word splits at
/// its first space into the path argument and the operation word.
proof fn lemma_lfs_match_rest(
    s: Seq<char>,
    u: Seq<char>,
    rp: Seq<char>,
    op: LfsOperation,
    rest: Seq<char>,
)
    requires
        matches_lfs(s, u, rp, op),
        rest == s.subrange(21, s.len() as int),
    ensures
        s.len() > 21,
        exists|q: bool, sl: bool|
            {
                let qp = #[trigger] quoted_path_chars(u, rp, q, sl);
                &&& head_len(rest) == qp.len()
                &&& rest.subrange(0, qp.len() as int) == qp
                &&& rest.subrange(qp.len() + 1 as int, rest.len() as int) == op_chars(op)
                &&& rest.len() == qp.len() + 1 + op_chars(op).len()
                &&& head_len(rest) < rest.len()
            },
{
    if s == lfs_cmd_chars(u, rp, op, true, true) {
        lemma_lfs_shape(s, u, rp, op, true, true);
        assert(quoted_path_chars(u, rp, true, true).len() >= 0);
    } else if s == lfs_cmd_chars(u, rp, op, true, false) {
        lemma_lfs_shape(s, u, rp, op, true, false);
    } else if s == lfs_cmd_chars(u, rp, op, false, true) {
        lemma_lfs_shape(s, u, rp, op, false, true);
    } else {
        lemma_lfs_shape(s, u, rp, op, false, false);
    }
}

/// A quoted path begins and ends with a quote; an unquoted one begins with
/// a slash or a tilde and holds no quote at either end.
proof fn lemma_quoted_path_ends(u: Seq<char>, rp: Seq<char>, qp: Seq<char>)
    requires
        valid_user(u),
        valid_repo(rp),
        exists|q: bool, sl: bool| qp == #[trigger] quoted_path_chars(u, rp, q, sl),
    ensures
        qp.len() > 0,
        (qp[0] == '\'') ==> {
            &&& qp.len() >= 2
            &&& qp[qp.len() - 1] == '\''
            &&& (qp == quoted_path_chars(u, rp, true, true) || qp == quoted_path_chars(
                u,
                rp,
                true,
                false,
            ))
            &&& qp.subrange(1, qp.len() - 1) == tilde_path_chars(u, rp, true) || qp.subrange(
                1,
                qp.len() - 1,
            ) == tilde_path_chars(u, rp, false)
        },
        (qp[0] != '\'') ==> (qp == tilde_path_chars(u, rp, true) || qp == tilde_path_chars(
            u,
            rp,
            false,
        )),
{
    let (q, sl) = choose|q: bool, sl: bool| qp == #[trigger] quoted_path_chars(u, rp, q, sl);
    let t = tilde_path_chars(u, rp, sl);
    if q {
        assert(qp[0] == '\'');
        assert(qp.subrange(1, qp.len() - 1) =~= t);
    } else {
        assert(qp =~= t);
        if sl {
            assert(qp[0] == '/');
        } else {
            assert(qp[0] == '~');
        }
    }
}

} // verus!
