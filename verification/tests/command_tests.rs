use examparse::command::{build_arguments, build_command, mock_request, new_run_request, DeploymentMode, RunMode, RunRequest};
use examparse::fspath::FsPath;

fn req(inputs: &[&str], output: Option<&str>, mode: RunMode) -> RunRequest {
    RunRequest {
        inputs: inputs.iter().map(|s| s.to_string()).collect(),
        output_location: output.map(|s| s.to_string()),
        mode,
    }
}

#[test]
fn multi_input_scenario() {
    let r = req(&["a.pdf", "b.pdf"], Some("out/"), RunMode::Normal);
    let args = build_arguments(&DeploymentMode::Packaged, &r);
    assert_eq!(args, vec!["--inputs", "a.pdf", "b.pdf", "--output-dir", "out/"]);
}

#[test]
fn single_input_uses_single_flags() {
    let r = req(&["a.pdf"], Some("out.json"), RunMode::Normal);
    let args = build_arguments(&DeploymentMode::Packaged, &r);
    assert_eq!(args, vec!["--input", "a.pdf", "--output", "out.json"]);
    assert!(!args.iter().any(|a| a == "--inputs"));
}

#[test]
fn multi_input_never_single_flag() {
    let r = req(&["a.pdf", "b.pdf", "c.pdf"], None, RunMode::Normal);
    let args = build_arguments(&DeploymentMode::Packaged, &r);
    assert_eq!(args, vec!["--inputs", "a.pdf", "b.pdf", "c.pdf"]);
    assert!(!args.iter().any(|a| a == "--input"));
}

#[test]
fn mock_flag_before_inputs() {
    let r = req(&["x.pdf"], None, RunMode::Mock);
    let args = build_arguments(&DeploymentMode::Development, &r);
    assert_eq!(args, vec!["-m", "sidecar.main", "--mock", "--input", "x.pdf"]);
    let mock_pos = args.iter().position(|a| a == "--mock").unwrap();
    let input_pos = args.iter().position(|a| a == "--input").unwrap();
    assert!(mock_pos < input_pos);
}

#[test]
fn development_command_sets_root_and_env() {
    let root = FsPath { segments: vec!["home".to_string(), "proj".to_string()] };
    let exec = root.child(".venv").child("bin").child("python");
    let r = req(&["a.pdf"], None, RunMode::Normal);
    let cmd = build_command(&DeploymentMode::Development, &r, exec, Some(&root));
    assert_eq!(cmd.arguments, vec!["-m", "sidecar.main", "--input", "a.pdf"]);
    let wd = cmd.working_directory.expect("development mode sets a working directory");
    assert_eq!(wd.segments, root.segments);
    assert_eq!(cmd.environment_overrides.len(), 1);
    assert_eq!(cmd.environment_overrides[0].0, "PYTHONPATH");
    assert_eq!(cmd.environment_overrides[0].1.segments, root.segments);
}

#[test]
fn packaged_command_has_no_env() {
    let exec = FsPath { segments: vec!["opt".to_string(), "examparse-sidecar".to_string()] };
    let r = req(&["a.pdf", "b.pdf"], None, RunMode::Mock);
    let cmd = build_command(&DeploymentMode::Packaged, &r, exec, None);
    assert_eq!(cmd.arguments, vec!["--mock", "--inputs", "a.pdf", "b.pdf"]);
    assert!(cmd.working_directory.is_none());
    assert!(cmd.environment_overrides.is_empty());
}

#[test]
fn mock_request_is_fixed() {
    let r = mock_request();
    assert_eq!(r.inputs, vec!["tmp/a.pdf"]);
    assert!(r.output_location.is_none());
    assert!(matches!(r.mode, RunMode::Mock));
}

#[test]
fn empty_inputs_are_a_caller_error() {
    assert!(new_run_request(vec![], None, RunMode::Normal).is_err());
    let ok = new_run_request(vec!["a.pdf".to_string()], None, RunMode::Normal);
    assert!(ok.is_ok());
}
