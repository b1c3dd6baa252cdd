//! Tests of the inference pipeline state machine: one scenario per
//! failure mode, the happy path, and thread-count independence.

use tflite_inference::descriptor::TfLiteInferenceService;
use tflite_inference::pipeline::InferenceError;
use tflite_inference::pipeline::InferenceRunner;
use tflite_inference::pipeline::Stage;

fn job(threads: i32) -> TfLiteInferenceService {
    TfLiteInferenceService {
        input_tensor_path: b"in.bin".to_vec(),
        model_path: b"model.tflite".to_vec(),
        output_tensor_path: b"out.bin".to_vec(),
        num_threads: threads,
    }
}

/// Drives one runner through a run in which every backend step succeeds
/// and the model computes the identity, and returns the persisted bytes.
fn drive_identity(runner: &mut InferenceRunner, input: &[u8]) -> Vec<u8> {
    runner.model_load_result(true);
    runner.interpreter_build_result(true);
    let _threads = runner.threads_to_configure();
    runner.allocation_result(true);
    runner.bind_input(1, input.len(), Some(input));
    runner.invoke_result(true);
    runner.extract_output(1, Some(input.to_vec()));
    let out = runner.output_to_write().clone();
    runner.persist_result(true);
    out
}

#[test]
fn happy_path_identity() {
    let input = vec![1u8, 2, 3, 4];
    let mut runner = InferenceRunner::new(job(1));
    assert_eq!(runner.current_stage(), Stage::Created);
    assert_eq!(runner.job().num_threads, 1);
    assert_eq!(runner.job().model_path, b"model.tflite".to_vec());
    let out = drive_identity(&mut runner, &input);
    assert_eq!(runner.current_stage(), Stage::OutputWritten);
    assert_eq!(out, input);
    assert!(runner.error().is_none());
}

#[test]
fn happy_path_empty_tensor() {
    let mut runner = InferenceRunner::new(job(-1));
    let out = drive_identity(&mut runner, &[]);
    assert_eq!(runner.current_stage(), Stage::OutputWritten);
    assert!(out.is_empty());
}

#[test]
fn two_input_tensors_violate_cardinality() {
    let mut runner = InferenceRunner::new(job(1));
    runner.model_load_result(true);
    runner.interpreter_build_result(true);
    runner.allocation_result(true);
    runner.bind_input(2, 4, Some(&[1u8, 2, 3, 4][..]));
    assert_eq!(runner.error(), Some(InferenceError::CardinalityViolation));
    assert_eq!(
        runner.current_stage(),
        Stage::Failed(InferenceError::CardinalityViolation),
    );
}

#[test]
fn zero_input_tensors_violate_cardinality() {
    let mut runner = InferenceRunner::new(job(1));
    runner.model_load_result(true);
    runner.interpreter_build_result(true);
    runner.allocation_result(true);
    runner.bind_input(0, 0, None);
    assert_eq!(runner.error(), Some(InferenceError::CardinalityViolation));
}

#[test]
fn two_output_tensors_violate_cardinality() {
    let mut runner = InferenceRunner::new(job(1));
    runner.model_load_result(true);
    runner.interpreter_build_result(true);
    runner.allocation_result(true);
    runner.bind_input(1, 2, Some(&[7u8, 8][..]));
    runner.invoke_result(true);
    runner.extract_output(2, Some(vec![7, 8]));
    assert_eq!(runner.error(), Some(InferenceError::CardinalityViolation));
}

#[test]
fn short_input_is_shape_mismatch() {
    let mut runner = InferenceRunner::new(job(1));
    runner.model_load_result(true);
    runner.interpreter_build_result(true);
    runner.allocation_result(true);
    runner.bind_input(1, 4, Some(&[1u8, 2, 3][..]));
    assert_eq!(runner.error(), Some(InferenceError::ShapeMismatchError));
}

#[test]
fn long_input_is_shape_mismatch() {
    let mut runner = InferenceRunner::new(job(1));
    runner.model_load_result(true);
    runner.interpreter_build_result(true);
    runner.allocation_result(true);
    runner.bind_input(1, 4, Some(&[1u8, 2, 3, 4, 5][..]));
    assert_eq!(runner.error(), Some(InferenceError::ShapeMismatchError));
}

#[test]
fn unreadable_input_is_file_error() {
    let mut runner = InferenceRunner::new(job(1));
    runner.model_load_result(true);
    runner.interpreter_build_result(true);
    runner.allocation_result(true);
    runner.bind_input(1, 4, None);
    assert_eq!(runner.error(), Some(InferenceError::FileIOError));
}

#[test]
fn missing_model_is_model_load_error() {
    let mut runner = InferenceRunner::new(job(1));
    runner.model_load_result(false);
    assert_eq!(runner.error(), Some(InferenceError::ModelLoadError));
    assert_eq!(
        runner.current_stage(),
        Stage::Failed(InferenceError::ModelLoadError),
    );
}

#[test]
fn rejected_graph_is_interpreter_build_error() {
    let mut runner = InferenceRunner::new(job(1));
    runner.model_load_result(true);
    runner.interpreter_build_result(false);
    assert_eq!(runner.error(), Some(InferenceError::InterpreterBuildError));
}

#[test]
fn failed_allocation_is_allocation_error() {
    let mut runner = InferenceRunner::new(job(1));
    runner.model_load_result(true);
    runner.interpreter_build_result(true);
    runner.allocation_result(false);
    assert_eq!(runner.error(), Some(InferenceError::AllocationError));
}

#[test]
fn failed_invocation_is_invocation_error() {
    let mut runner = InferenceRunner::new(job(1));
    runner.model_load_result(true);
    runner.interpreter_build_result(true);
    runner.allocation_result(true);
    runner.bind_input(1, 1, Some(&[9u8][..]));
    runner.invoke_result(false);
    assert_eq!(runner.error(), Some(InferenceError::InvocationError));
}

#[test]
fn withheld_output_is_invocation_error() {
    let mut runner = InferenceRunner::new(job(1));
    runner.model_load_result(true);
    runner.interpreter_build_result(true);
    runner.allocation_result(true);
    runner.bind_input(1, 1, Some(&[9u8][..]));
    runner.invoke_result(true);
    runner.extract_output(1, None);
    assert_eq!(runner.error(), Some(InferenceError::InvocationError));
}

#[test]
fn failed_write_is_file_error() {
    let mut runner = InferenceRunner::new(job(1));
    runner.model_load_result(true);
    runner.interpreter_build_result(true);
    runner.allocation_result(true);
    runner.bind_input(1, 1, Some(&[9u8][..]));
    runner.invoke_result(true);
    runner.extract_output(1, Some(vec![5]));
    runner.persist_result(false);
    assert_eq!(runner.error(), Some(InferenceError::FileIOError));
}

#[test]
fn thread_count_is_passed_through_and_changes_nothing() {
    let input = vec![10u8, 20, 30];
    let mut stages = Vec::new();
    let mut outputs = Vec::new();
    for threads in [-1, 1, 2, 8] {
        let mut runner = InferenceRunner::new(job(threads));
        runner.model_load_result(true);
        runner.interpreter_build_result(true);
        assert_eq!(runner.threads_to_configure(), threads);
        runner.allocation_result(true);
        runner.bind_input(1, input.len(), Some(&input[..]));
        runner.invoke_result(true);
        runner.extract_output(1, Some(input.clone()));
        let out = runner.output_to_write().clone();
        runner.persist_result(true);
        stages.push(runner.current_stage());
        outputs.push(out);
    }
    for k in 1..stages.len() {
        assert_eq!(stages[k], stages[0]);
        assert_eq!(outputs[k], outputs[0]);
    }
}
