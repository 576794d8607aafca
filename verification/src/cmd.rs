//! Outcomes of external tool invocations.
//!
//! The tools themselves (the tile extractor, the decompressor) run outside
//! this crate; these types and functions decide what a run's observed exit
//! status and output mean, and which required tools are missing.

use crate::text::spec_join_comma;
use vstd::prelude::*;

verus! {

/// Why a tool invocation failed.
#[derive(Debug)]
pub enum CmdError {
    CommandNotFound(String),
    IoError(String),
    NonZeroExit(i32),
}

/// What a finished tool printed.
#[derive(Debug)]
pub struct CommandOutput {
    pub stdout: String,
    pub stderr: String,
}

/// Judge a finished command: a zero exit status carries the captured
/// output through; any other is an error naming the exit code, with `-1`
/// standing for a command killed without one.
pub fn command_outcome(success: bool, exit_code: Option<i32>, stdout: String, stderr: String) -> (r:
    Result<CommandOutput, CmdError>)
    ensures
        success ==> (r matches Ok(o) && o.stdout == stdout && o.stderr == stderr),
        !success ==> (r matches Err(CmdError::NonZeroExit(c)) && c == (match exit_code {
            Some(c) => c,
            None => -1i32,
        })),
{
    if success {
        Ok(CommandOutput { stdout, stderr })
    } else {
        match exit_code {
            Some(c) => Err(CmdError::NonZeroExit(c)),
            None => Err(CmdError::NonZeroExit(-1)),
        }
    }
}

/// The names among `checks` whose tool was not found.
pub open spec fn spec_missing_tools(checks: Seq<(Seq<char>, bool)>) -> Seq<Seq<char>>
    decreases checks.len(),
{
    if checks.len() == 0 {
        Seq::empty()
    } else {
        let rest = spec_missing_tools(checks.drop_last());
        if checks.last().1 {
            rest
        } else {
            rest.push(checks.last().0)
        }
    }
}

/// The view of availability checks: each tool's name with whether it was
/// found.
pub open spec fn spec_checks_view(checks: Seq<(String, bool)>) -> Seq<(Seq<char>, bool)> {
    checks.map_values(|c: (String, bool)| (c.0@, c.1))
}

/// Decide whether a run may begin, from each required tool's availability:
/// it may exactly when every tool was found; otherwise the error names the
/// missing ones, comma separated, in the order given.
pub fn ensure_tools_are_present(checks: &Vec<(String, bool)>) -> (r: Result<(), CmdError>)
    ensures
        spec_missing_tools(spec_checks_view(checks@)).len() == 0 <==> r is Ok,
        r matches Err(e) ==> (e matches CmdError::CommandNotFound(msg) && msg@
            == "Required tools not found: "@ + spec_join_comma(
            spec_missing_tools(spec_checks_view(checks@)),
        )),
{
    let ghost cv = spec_checks_view(checks@);
    let n = checks.len();
    let mut missing: Vec<String> = Vec::new();
    let mut i: usize = 0;
    proof {
        assert(cv.take(0) =~~= Seq::<(Seq<char>, bool)>::empty());
        assert(missing.deep_view() =~~= spec_missing_tools(cv.take(0)));
    }
    while i < n
        invariant
            n == cv.len(),
            i <= n,
            cv == spec_checks_view(checks@),
            missing.deep_view() == spec_missing_tools(cv.take(i as int)),
        decreases n - i,
    {
        proof {
            assert(cv.take(i + 1).drop_last() =~~= cv.take(i as int));
            assert(cv.take(i + 1).last() == cv[i as int]);
            assert(cv[i as int] == (checks@[i as int].0@, checks@[i as int].1));
        }
        if !checks[i].1 {
            missing.push(checks[i].0.clone());
            proof {
                assert(spec_missing_tools(cv.take(i + 1)).len() == spec_missing_tools(
                    cv.take(i as int),
                ).len() + 1);
                assert(missing.deep_view() =~~= spec_missing_tools(cv.take(i + 1)));
            }
        }
        i = i + 1;
    }
    proof {
        assert(cv.take(n as int) =~~= cv);
    }
    if missing.len() == 0 {
        proof {
            assert(missing.deep_view().len() == 0);
        }
        Ok(())
    } else {
        let mut msg = String::from_str("Required tools not found: ");
        let joined = crate::text::join_comma(&missing);
        msg.append(joined.as_str());
        proof {
            assert(missing.deep_view().len() > 0);
        }
        Err(CmdError::CommandNotFound(msg))
    }
}

} // verus!
