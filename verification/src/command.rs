//! Turning a run request into the exact argument list, working directory and
//! environment for the resolved worker executable.

use vstd::prelude::*;
use crate::fspath::FsPath;

verus! {

/// Whether the worker runs with its mock data source or for real.
pub enum RunMode {
    Mock,
    Normal,
}

/// Whether the worker is an importable package run through an interpreter
/// (development) or a bundled executable invoked directly (packaged).
pub enum DeploymentMode {
    Development,
    Packaged,
}

/// One logical invocation of the worker.
pub struct RunRequest {
    pub inputs: Vec<String>,
    pub output_location: Option<String>,
    pub mode: RunMode,
}

impl RunRequest {
    /// A request is well formed when it names at least one input.
    pub open spec fn wf(&self) -> bool {
        self.inputs@.len() >= 1
    }
}

/// A ready-to-spawn invocation: the executable, its arguments in order, and
/// (in development mode) the working directory and one environment override
/// that let the interpreter find the worker's package.
pub struct ResolvedCommand {
    pub executable: FsPath,
    pub arguments: Vec<String>,
    pub working_directory: Option<FsPath>,
    pub environment_overrides: Vec<(String, FsPath)>,
}

/// Arguments that select module execution under an interpreter; none are
/// needed for a directly invoked executable.
pub open spec fn mode_args(mode: DeploymentMode) -> Seq<Seq<char>> {
    match mode {
        DeploymentMode::Development => seq!["-m"@, "sidecar.main"@],
        DeploymentMode::Packaged => seq![],
    }
}

/// The mock-indicator flag, present exactly in mock mode.
pub open spec fn mock_args(mode: RunMode) -> Seq<Seq<char>> {
    match mode {
        RunMode::Mock => seq!["--mock"@],
        RunMode::Normal => seq![],
    }
}

/// The input part: a single-input flag with the one path, or the multi-input
/// flag followed by every path in the given order.
pub open spec fn input_args(inputs: Seq<Seq<char>>) -> Seq<Seq<char>>
    recommends
        inputs.len() >= 1,
{
    if inputs.len() == 1 {
        seq!["--input"@, inputs[0]]
    } else {
        seq!["--inputs"@] + inputs
    }
}

/// The output part: nothing without an output location; with one, the
/// single-output flag for one input and the output-directory flag otherwise.
pub open spec fn output_args(n_inputs: nat, out: Option<Seq<char>>) -> Seq<Seq<char>> {
    match out {
        None => seq![],
        Some(o) => if n_inputs == 1 {
            seq!["--output"@, o]
        } else {
            seq!["--output-dir"@, o]
        },
    }
}

/// The whole argument list for a request: module selection, then the mock
/// flag, then inputs, then the output option.
pub open spec fn sidecar_args(mode: DeploymentMode, req: RunRequest) -> Seq<Seq<char>> {
    mode_args(mode) + mock_args(req.mode) + input_args(req.inputs.deep_view()) + output_args(
        req.inputs@.len(),
        match req.output_location {
            Some(o) => Some(o@),
            None => None,
        },
    )
}

/// Builds the argument list of `sidecar_args` for the request.
pub fn build_arguments(mode: &DeploymentMode, req: &RunRequest) -> (r: Vec<String>)
    requires
        req.wf(),
    ensures
        r.deep_view() == sidecar_args(*mode, *req),
{
    let mut args: Vec<String> = Vec::new();
    match mode {
        DeploymentMode::Development => {
            args.push("-m".to_owned());
            args.push("sidecar.main".to_owned());
        },
        DeploymentMode::Packaged => {},
    }
    proof {
        assert(args.deep_view() =~= mode_args(*mode));
    }
    match req.mode {
        RunMode::Mock => {
            args.push("--mock".to_owned());
        },
        RunMode::Normal => {},
    }
    proof {
        assert(args.deep_view() =~= mode_args(*mode) + mock_args(req.mode));
    }
    let ghost head = mode_args(*mode) + mock_args(req.mode);
    if req.inputs.len() == 1 {
        args.push("--input".to_owned());
        args.push(req.inputs[0].clone());
        proof {
            assert(args.deep_view() =~= head + input_args(req.inputs.deep_view()));
        }
    } else {
        args.push("--inputs".to_owned());
        let ghost mid = args.deep_view();
        let ghost mid_vec = args@;
        proof {
            assert(mid =~= head + seq!["--inputs"@]);
        }
        let n = req.inputs.len();
        let mut i: usize = 0;
        while i < n
            invariant
                n == req.inputs@.len(),
                i <= n,
                args@ == mid_vec + req.inputs@.take(i as int),
            decreases n - i,
        {
            args.push(req.inputs[i].clone());
            proof {
                assert(args@ =~= mid_vec + req.inputs@.take(i as int + 1));
            }
            i += 1;
        }
        proof {
            assert(req.inputs@.take(n as int) =~= req.inputs@);
            let ghost dv = req.inputs.deep_view();
            let ghost goal = head + input_args(dv);
            assert(args@.len() == mid_vec.len() + n);
            assert forall|j: int| 0 <= j < args@.len() implies args.deep_view()[j] == goal[j] by {
                if j < mid_vec.len() {
                    assert(args@[j] == mid_vec[j]);
                    assert(args.deep_view()[j] == args@[j]@);
                    assert(mid[j] == mid_vec[j]@);
                } else {
                    assert(args@[j] == req.inputs@[j - mid_vec.len()]);
                    assert(dv[j - mid_vec.len()] == req.inputs@[j - mid_vec.len()]@);
                }
            }
            assert(args.deep_view() =~= goal);
        }
    }
    match &req.output_location {
        None => {},
        Some(out) => {
            if req.inputs.len() == 1 {
                args.push("--output".to_owned());
            } else {
                args.push("--output-dir".to_owned());
            }
            args.push(out.clone());
        },
    }
    proof {
        assert(args.deep_view() =~= sidecar_args(*mode, *req));
    }
    args
}

/// Builds the full invocation for the request: in development mode the
/// interpreter runs the worker as a module from the project root, with one
/// environment override pointing the module search path at that root; in
/// packaged mode the bundled executable is invoked directly, with no working
/// directory and no environment change.
pub fn build_command(
    mode: &DeploymentMode,
    req: &RunRequest,
    executable: FsPath,
    project_root: Option<&FsPath>,
) -> (r: ResolvedCommand)
    requires
        req.wf(),
        mode is Development ==> project_root is Some,
    ensures
        r.executable@ == executable@,
        r.arguments.deep_view() == sidecar_args(*mode, *req),
        mode is Packaged ==> r.working_directory is None && r.environment_overrides@.len() == 0,
        mode is Development ==> {
            &&& r.working_directory matches Some(w) && w@ == project_root.unwrap()@
            &&& r.environment_overrides@.len() == 1
            &&& r.environment_overrides@[0].0@ == "PYTHONPATH"@
            &&& r.environment_overrides@[0].1@ == project_root.unwrap()@
        },
{
    let arguments = build_arguments(mode, req);
    match mode {
        DeploymentMode::Development => {
            let root = project_root.unwrap();
            let root_for_cwd = FsPath { segments: root.segments.clone() };
            let root_for_env = FsPath { segments: root.segments.clone() };
            let mut environment_overrides: Vec<(String, FsPath)> = Vec::new();
            environment_overrides.push(("PYTHONPATH".to_owned(), root_for_env));
            ResolvedCommand {
                executable,
                arguments,
                working_directory: Some(root_for_cwd),
                environment_overrides,
            }
        },
        DeploymentMode::Packaged => {
            ResolvedCommand {
                executable,
                arguments,
                working_directory: None,
                environment_overrides: Vec::new(),
            }
        },
    }
}

/// Holds when none of the request's own strings spells an input-selection
/// flag itself, so that flag occurrences in the argument list come only from
/// the builder's rules.
pub open spec fn no_flag_collision(req: RunRequest) -> bool {
    &&& forall|i: int|
        0 <= i < req.inputs.deep_view().len() ==> req.inputs.deep_view()[i] != "--input"@
            && req.inputs.deep_view()[i] != "--inputs"@
    &&& req.output_location matches Some(o) ==> o@ != "--input"@ && o@ != "--inputs"@
}

proof fn lemma_flag_literals_distinct()
    ensures
        "--input"@ != "--inputs"@,
        "--input"@ != "-m"@,
        "--input"@ != "sidecar.main"@,
        "--input"@ != "--mock"@,
        "--input"@ != "--output"@,
        "--input"@ != "--output-dir"@,
        "--inputs"@ != "-m"@,
        "--inputs"@ != "sidecar.main"@,
        "--inputs"@ != "--mock"@,
        "--inputs"@ != "--output"@,
        "--inputs"@ != "--output-dir"@,
        "--mock"@ != "-m"@,
        "--mock"@ != "sidecar.main"@,
{
    reveal_strlit("--input");
    reveal_strlit("--inputs");
    reveal_strlit("-m");
    reveal_strlit("sidecar.main");
    reveal_strlit("--mock");
    reveal_strlit("--output");
    reveal_strlit("--output-dir");
    assert("--input"@.len() == 7);
    assert("--inputs"@.len() == 8);
    assert("-m"@.len() == 2);
    assert("sidecar.main"@.len() == 12);
    assert("--mock"@.len() == 6);
    assert("--output"@.len() == 8);
    assert("--output-dir"@.len() == 12);
    assert("--inputs"@[2] != "--output"@[2]);
    assert("--inputs"@[0] != "sidecar.main"@[0]);
    assert("--output-dir"@[0] != "sidecar.main"@[0]);
}

/// With exactly one input the argument list holds the single-input flag and
/// never the multi-input flag; with more than one input, the reverse.
pub proof fn lemma_input_flag_matches_count(mode: DeploymentMode, req: RunRequest)
    requires
        req.wf(),
        no_flag_collision(req),
    ensures
        req.inputs@.len() == 1 ==> sidecar_args(mode, req).contains("--input"@) && !sidecar_args(
            mode,
            req,
        ).contains("--inputs"@),
        req.inputs@.len() > 1 ==> sidecar_args(mode, req).contains("--inputs"@) && !sidecar_args(
            mode,
            req,
        ).contains("--input"@),
{
    lemma_flag_literals_distinct();
    let args = sidecar_args(mode, req);
    let dv = req.inputs.deep_view();
    assert(dv.len() == req.inputs@.len());
    let flag_pos = mode_args(mode).len() + mock_args(req.mode).len();
    assert(args[flag_pos as int] == input_args(dv)[0]);
    if req.inputs@.len() == 1 {
        assert(args.contains("--input"@)) by {
            assert(args[flag_pos as int] == "--input"@);
        }
        assert forall|k: int| 0 <= k < args.len() implies args[k] != "--inputs"@ by {
            lemma_flag_literals_distinct();
        }
        assert(!args.contains("--inputs"@));
    } else {
        assert(args.contains("--inputs"@)) by {
            assert(args[flag_pos as int] == "--inputs"@);
        }
        assert forall|k: int| 0 <= k < args.len() implies args[k] != "--input"@ by {
            lemma_flag_literals_distinct();
        }
        assert(!args.contains("--input"@));
    }
}

/// In mock mode the mock flag stands before every occurrence of an
/// input-selection flag in the argument list.
pub proof fn lemma_mock_flag_precedes_inputs(mode: DeploymentMode, req: RunRequest)
    requires
        req.wf(),
        req.mode is Mock,
        no_flag_collision(req),
    ensures
        forall|j: int|
            0 <= j < sidecar_args(mode, req).len() && (sidecar_args(mode, req)[j] == "--input"@
                || sidecar_args(mode, req)[j] == "--inputs"@) ==> exists|i: int|
                0 <= i < j && sidecar_args(mode, req)[i] == "--mock"@,
{
    lemma_flag_literals_distinct();
    let args = sidecar_args(mode, req);
    let dv = req.inputs.deep_view();
    assert(dv.len() == req.inputs@.len());
    let mock_pos = mode_args(mode).len() as int;
    assert(args[mock_pos] == "--mock"@);
    assert forall|j: int|
        0 <= j < args.len() && (args[j] == "--input"@ || args[j] == "--inputs"@) implies exists|
        i: int,
    | 0 <= i < j && args[i] == "--mock"@ by {
        lemma_flag_literals_distinct();
        assert(j > mock_pos);
        assert(0 <= mock_pos < j && args[mock_pos] == "--mock"@);
    }
}

/// The fixed request that a mock run uses: one placeholder input, no output
/// location, mock mode.
pub fn mock_request() -> (r: RunRequest)
    ensures
        r.wf(),
        r.inputs.deep_view() =~= seq!["tmp/a.pdf"@],
        r.output_location is None,
        r.mode is Mock,
{
    let mut inputs: Vec<String> = Vec::new();
    inputs.push("tmp/a.pdf".to_owned());
    RunRequest { inputs, output_location: None, mode: RunMode::Mock }
}

/// Checks a caller-supplied input list: a request is made exactly when the
/// list is non-empty, as an empty run is a caller error, not a spawn failure.
pub fn new_run_request(inputs: Vec<String>, output_location: Option<String>, mode: RunMode) -> (r:
    Result<RunRequest, ()>)
    ensures
        inputs@.len() == 0 <==> r is Err,
        r matches Ok(q) ==> {
            &&& q.wf()
            &&& q.inputs@ == inputs@
            &&& q.output_location == output_location
            &&& q.mode == mode
        },
{
    if inputs.len() == 0 {
        Err(())
    } else {
        Ok(RunRequest { inputs, output_location, mode })
    }
}

} // verus!
