//! From an accepted exec request to a plan the driver carries out: spawn
//! a Git helper, answer an LFS authentication request, or reply with a
//! one-line error and close.

use vstd::prelude::*;
use crate::command::{head, known_bin, matches_git, matches_lfs, parse_command, Command,
    CommandError, LfsOperation};
use crate::config::Config;
use crate::lfs::repo_path;

verus! {

/// What the driver does with the channel after the exec request.
pub enum ExecPlan {
    /// Spawn this helper binary with the repository directory as its one
    /// argument, and proxy the channel to it.
    RunGit { bin: String, repo_dir: String },
    /// Answer the LFS token handshake for this user and repository.
    LfsAuth { user: String, repo: String, operation: LfsOperation },
    /// Deliver this one-line stderr reply with exit status 1 and close.
    Reply { stderr: String, exit_code: i32 },
}

/// Classify the exec command and resolve the repository directory. A
/// command that fits no reading earns a one-line error reply.
pub fn plan_exec(config: &Config, command: &str) -> (r: ExecPlan)
    ensures
        (r is RunGit ==> exists|u: Seq<char>, rp: Seq<char>|
            #[trigger] matches_git(command@, r->RunGit_bin@, u, rp) && r->RunGit_repo_dir@
                == config.git.repository_path@ + "/"@ + u + "/"@ + rp),
        (r matches ExecPlan::LfsAuth { user, repo, operation } ==> matches_lfs(
            command@,
            user@,
            repo@,
            operation,
        )),
        (r matches ExecPlan::Reply { stderr, exit_code } ==> {
            &&& exit_code == 1
            &&& (forall|b: Seq<char>, u: Seq<char>, rp: Seq<char>|
                !matches_git(command@, b, u, rp))
            &&& (forall|u: Seq<char>, rp: Seq<char>, op: LfsOperation|
                !matches_lfs(command@, u, rp, op))
            &&& stderr@ == (if known_bin(head(command@)) {
                "invalid command\n"@
            } else {
                "unsupported command\n"@
            })
        }),
{
    match parse_command(command) {
        Ok(Command::Git { bin, user, repo }) => {
            let repo_dir = repo_path(config, user.as_str(), repo.as_str());
            let plan = ExecPlan::RunGit { bin, repo_dir };
            proof {
                assert(plan is RunGit);
                assert(matches_git(command@, plan->RunGit_bin@, user@, repo@));
                assert(plan->RunGit_repo_dir@ == config.git.repository_path@ + "/"@ + user@
                    + "/"@ + repo@);
                assert(exists|u: Seq<char>, rp: Seq<char>|
                    #[trigger] matches_git(command@, plan->RunGit_bin@, u, rp)
                        && plan->RunGit_repo_dir@ == config.git.repository_path@ + "/"@ + u
                        + "/"@ + rp);
            }
            plan
        },
        Ok(Command::LfsAuth { user, repo, operation }) => {
            ExecPlan::LfsAuth { user, repo, operation }
        },
        Err(CommandError::UnsupportedCommand) => {
            ExecPlan::Reply { stderr: "unsupported command\n".to_owned(), exit_code: 1 }
        },
        Err(CommandError::InvalidCommand) => {
            ExecPlan::Reply { stderr: "invalid command\n".to_owned(), exit_code: 1 }
        },
    }
}

} // verus!
