//! The steps that pin a Python project's dependencies into a lock file: with
//! `uv` (from `pyproject.toml`, else from `requirements.txt`), or with
//! `pip-tools` in the build's virtual environment. The caller runs each
//! command in the source directory and reports how it went.
use crate::build_systems::common::owned;
use crate::build_systems::context::BuildSystemContext;
use crate::errors::BuildError;
use crate::paths::{join, path_join};
use crate::text::{concat, string_views};
use vstd::prelude::*;

verus! {

/// Where the lock-file procedure stands.
#[derive(Clone, Copy, Debug, PartialEq, Eq, Structural)]
pub enum LockfileStage {
    /// `uv pip compile` of `pyproject.toml` is running.
    UvPyproject,
    /// `uv pip compile` of `requirements.txt` is running.
    UvRequirements,
    /// `pip install pip-tools` is running.
    PipInstallTools,
    /// `pip-compile` of `pyproject.toml` is running.
    PipCompile,
    /// The procedure has ended.
    Done,
}

/// What the caller does next.
#[derive(Debug)]
pub enum LockfileStep {
    /// Run a program with arguments in the source directory.
    Run { program: String, args: Vec<String> },
    /// The procedure ended: the lock file's path, or why it failed.
    Finished(Result<String, BuildError>),
}

/// The lock-file procedure of one build.
#[derive(Clone, Debug)]
pub struct LockfilePlan {
    /// Where it stands
    pub stage: LockfileStage,
    /// The lock file to write
    pub lockfile: String,
    /// The virtual environment whose pip-tools it uses
    pub venv: String,
}

/// The lock file of a build: `requirements.lock.txt` in its build directory.
pub open spec fn lockfile_of(ctx: BuildSystemContext) -> Seq<char> {
    path_join(ctx.build_dir@, "requirements.lock.txt"@)
}

/// The virtual environment of a build: the one its extra variables name,
/// else `venv` in its build directory.
pub open spec fn venv_of(ctx: BuildSystemContext) -> Seq<char> {
    if ctx.extra_env@.contains_key("PYTHON_VENV_PATH"@) {
        ctx.extra_env@["PYTHON_VENV_PATH"@]
    } else {
        path_join(ctx.build_dir@, "venv"@)
    }
}

/// The arguments of `uv pip compile` of an input into the lock file.
pub open spec fn uv_args(lockfile: Seq<char>, input: Seq<char>) -> Seq<Seq<char>> {
    seq!["pip"@, "compile"@, "--output-file"@, lockfile, input]
}

/// Whether a step runs the given program with the given arguments.
pub open spec fn runs(step: LockfileStep, program: Seq<char>, args: Seq<Seq<char>>) -> bool {
    step matches LockfileStep::Run { program: p, args: a } && p@ == program && string_views(a@) == args
}

/// Whether a step ends the procedure with the lock file.
pub open spec fn finishes_ok(step: LockfileStep, lockfile: Seq<char>) -> bool {
    step matches LockfileStep::Finished(Ok(p)) && p@ == lockfile
}

/// Whether a step ends the procedure with a compilation failure whose
/// message is the given text.
pub open spec fn finishes_failed(step: LockfileStep, message: Seq<char>) -> bool {
    step matches LockfileStep::Finished(Err(BuildError::CompilationFailed { message: m })) && m@ == message
}

fn uv_run(lockfile: &String, input: &str) -> (r: LockfileStep)
    ensures
        runs(r, "uv"@, uv_args(lockfile@, input@)),
{
    let mut args: Vec<String> = Vec::new();
    args.push(owned("pip"));
    args.push(owned("compile"));
    args.push(owned("--output-file"));
    args.push(lockfile.clone());
    args.push(owned(input));
    assert(string_views(args@) =~= uv_args(lockfile@, input@));
    LockfileStep::Run { program: owned("uv"), args }
}

impl LockfilePlan {
    /// Starts the procedure: `uv pip compile pyproject.toml` with uv, else
    /// `pip install pip-tools` in the virtual environment.
    pub fn start(ctx: &BuildSystemContext, use_uv: bool) -> (r: (Self, LockfileStep))
        requires
            ctx.wf(),
        ensures
            r.0.lockfile@ == lockfile_of(*ctx),
            r.0.venv@ == venv_of(*ctx),
            use_uv ==> r.0.stage == LockfileStage::UvPyproject && runs(r.1, "uv"@, uv_args(lockfile_of(*ctx), "pyproject.toml"@)),
            !use_uv ==> r.0.stage == LockfileStage::PipInstallTools && runs(
                r.1,
                path_join(venv_of(*ctx), "bin/pip"@),
                seq!["install"@, "pip-tools"@],
            ),
    {
        let lockfile = join(ctx.build_dir.as_str(), "requirements.lock.txt");
        let venv = match ctx.extra_env.get("PYTHON_VENV_PATH") {
            Some(p) => p.clone(),
            None => join(ctx.build_dir.as_str(), "venv"),
        };
        if use_uv {
            let step = uv_run(&lockfile, "pyproject.toml");
            (LockfilePlan { stage: LockfileStage::UvPyproject, lockfile, venv }, step)
        } else {
            let mut args: Vec<String> = Vec::new();
            args.push(owned("install"));
            args.push(owned("pip-tools"));
            assert(string_views(args@) =~= seq!["install"@, "pip-tools"@]);
            let program = join(venv.as_str(), "bin/pip");
            (LockfilePlan { stage: LockfileStage::PipInstallTools, lockfile, venv }, LockfileStep::Run { program, args })
        }
    }

    /// Takes the outcome of the command the last step ran, with whether the
    /// source directory has a `requirements.txt`, and gives the next step.
    /// A failed uv run of `pyproject.toml` falls back to `requirements.txt`
    /// where there is one; the outcome of installing pip-tools is not
    /// looked at; any other failure ends the procedure with the command's
    /// error output. Once ended, the procedure stays ended.
    pub fn advance(&mut self, success: bool, stderr: &str, requirements_exists: bool) -> (r: LockfileStep)
        ensures
            final(self).lockfile == old(self).lockfile,
            final(self).venv == old(self).venv,
            match old(self).stage {
                LockfileStage::UvPyproject => if success {
                    final(self).stage == LockfileStage::Done && finishes_ok(r, old(self).lockfile@)
                } else if requirements_exists {
                    final(self).stage == LockfileStage::UvRequirements
                        && runs(r, "uv"@, uv_args(old(self).lockfile@, "requirements.txt"@))
                } else {
                    final(self).stage == LockfileStage::Done
                        && finishes_failed(r, "Failed to generate lockfile with uv: "@ + stderr@)
                },
                LockfileStage::UvRequirements => final(self).stage == LockfileStage::Done && if success {
                    finishes_ok(r, old(self).lockfile@)
                } else {
                    finishes_failed(r, "Failed to generate lockfile with uv: "@ + stderr@)
                },
                LockfileStage::PipInstallTools => final(self).stage == LockfileStage::PipCompile && runs(
                    r,
                    path_join(old(self).venv@, "bin/pip-compile"@),
                    seq!["--output-file"@, old(self).lockfile@, "pyproject.toml"@],
                ),
                LockfileStage::PipCompile => final(self).stage == LockfileStage::Done && if success {
                    finishes_ok(r, old(self).lockfile@)
                } else {
                    finishes_failed(r, "Failed to generate lockfile: "@ + stderr@)
                },
                LockfileStage::Done => final(self).stage == LockfileStage::Done && finishes_failed(
                    r,
                    "lockfile generation already finished"@,
                ),
            },
    {
        match self.stage {
            LockfileStage::UvPyproject => {
                if success {
                    self.stage = LockfileStage::Done;
                    LockfileStep::Finished(Ok(self.lockfile.clone()))
                } else if requirements_exists {
                    self.stage = LockfileStage::UvRequirements;
                    uv_run(&self.lockfile, "requirements.txt")
                } else {
                    self.stage = LockfileStage::Done;
                    LockfileStep::Finished(
                        Err(BuildError::CompilationFailed { message: concat("Failed to generate lockfile with uv: ", stderr) }),
                    )
                }
            },
            LockfileStage::UvRequirements => {
                self.stage = LockfileStage::Done;
                if success {
                    LockfileStep::Finished(Ok(self.lockfile.clone()))
                } else {
                    LockfileStep::Finished(
                        Err(BuildError::CompilationFailed { message: concat("Failed to generate lockfile with uv: ", stderr) }),
                    )
                }
            },
            LockfileStage::PipInstallTools => {
                self.stage = LockfileStage::PipCompile;
                let mut args: Vec<String> = Vec::new();
                args.push(owned("--output-file"));
                args.push(self.lockfile.clone());
                args.push(owned("pyproject.toml"));
                assert(string_views(args@) =~= seq!["--output-file"@, self.lockfile@, "pyproject.toml"@]);
                LockfileStep::Run { program: join(self.venv.as_str(), "bin/pip-compile"), args }
            },
            LockfileStage::PipCompile => {
                self.stage = LockfileStage::Done;
                if success {
                    LockfileStep::Finished(Ok(self.lockfile.clone()))
                } else {
                    LockfileStep::Finished(
                        Err(BuildError::CompilationFailed { message: concat("Failed to generate lockfile: ", stderr) }),
                    )
                }
            },
            LockfileStage::Done => {
                LockfileStep::Finished(
                    Err(BuildError::CompilationFailed { message: owned("lockfile generation already finished") }),
                )
            },
        }
    }
}

} // verus!
