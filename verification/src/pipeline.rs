//! The inference pipeline: a linear state machine that sequences one run.
//!
//! One run walks `Created → ModelLoaded → InterpreterReady →
//! TensorsAllocated → InputBound → Invoked → OutputExtracted →
//! OutputWritten`; the failure of any step moves it to the terminal
//! `Failed` state carrying the originating error.  The backend itself
//! (model parsing, kernels) and all file access are opaque: the
//! surrounding binary performs each step and reports its outcome, and the
//! machine decides what that outcome means.  Everything the machine
//! guarantees — which error each kind of outcome yields, that a failed run
//! never reaches the output step, that the persisted bytes are exactly the
//! backend's output, and that the thread count never influences the run's
//! result — is stated and proved here.

use vstd::prelude::*;

use crate::descriptor::JobView;
use crate::descriptor::TfLiteInferenceService;

verus! {

/// Why a run failed, by originating pipeline step.
#[derive(Clone, Copy, Debug, PartialEq, Eq, Structural)]
pub enum InferenceError {
    /// A file could not be read or written.
    FileIOError,
    /// The model file was missing, unreadable or not a valid model.
    ModelLoadError,
    /// The backend rejected the model graph or its operators.
    InterpreterBuildError,
    /// Tensor allocation failed.
    AllocationError,
    /// The input file's byte length differs from the input tensor's.
    ShapeMismatchError,
    /// The backend's forward computation failed.
    InvocationError,
    /// The model does not have exactly one input and one output tensor.
    CardinalityViolation,
}

/// Where in the run a pipeline stands.
#[derive(Clone, Copy, Debug, PartialEq, Eq, Structural)]
pub enum Stage {
    Created,
    ModelLoaded,
    InterpreterReady,
    TensorsAllocated,
    InputBound,
    Invoked,
    OutputExtracted,
    OutputWritten,
    Failed(InferenceError),
}

/// Outcome of one backend or file-system step, as the surrounding binary
/// reports it to the machine.
pub enum EventSpec {
    /// The model file was loaded and parsed, or not.
    ModelLoad(bool),
    /// The interpreter was built from the model, or not.
    Build(bool),
    /// Tensor memory was allocated, or not.
    Allocate(bool),
    /// The input side was inspected: how many input tensors the model has,
    /// how many bytes the single input tensor expects, and the input
    /// file's bytes (`None` when the file could not be read).
    BindInput { n_inputs: int, expected: int, data: Option<Seq<u8>> },
    /// The forward computation ran, or failed.
    Invoke(bool),
    /// The output side was inspected: how many output tensors the model
    /// has, and the single output tensor's bytes (`None` when the backend
    /// would not hand them out).
    Extract { n_outputs: int, data: Option<Seq<u8>> },
    /// The output bytes were written to their destination, or not.
    Persist(bool),
}

/// The machine's mathematical state: the stage, the configured thread
/// count, and the output bytes captured for persistence.
#[verifier::ext_equal]
pub struct StateSpec {
    pub stage: Stage,
    pub threads: int,
    pub output: Seq<u8>,
}

/// State of a freshly created run.
pub open spec fn init_state(threads: int) -> StateSpec {
    StateSpec { stage: Stage::Created, threads, output: Seq::empty() }
}

/// One transition of the machine.  An event that does not belong to the
/// current stage changes nothing; in particular both terminal stages
/// absorb every event.
pub open spec fn step_spec(st: StateSpec, e: EventSpec) -> StateSpec {
    match (st.stage, e) {
        (Stage::Created, EventSpec::ModelLoad(ok)) => StateSpec {
            stage: if ok {
                Stage::ModelLoaded
            } else {
                Stage::Failed(InferenceError::ModelLoadError)
            },
            ..st
        },
        (Stage::ModelLoaded, EventSpec::Build(ok)) => StateSpec {
            stage: if ok {
                Stage::InterpreterReady
            } else {
                Stage::Failed(InferenceError::InterpreterBuildError)
            },
            ..st
        },
        (Stage::InterpreterReady, EventSpec::Allocate(ok)) => StateSpec {
            stage: if ok {
                Stage::TensorsAllocated
            } else {
                Stage::Failed(InferenceError::AllocationError)
            },
            ..st
        },
        (Stage::TensorsAllocated, EventSpec::BindInput { n_inputs, expected, data }) => StateSpec {
            stage: if n_inputs != 1 {
                Stage::Failed(InferenceError::CardinalityViolation)
            } else {
                match data {
                    None => Stage::Failed(InferenceError::FileIOError),
                    Some(d) => if d.len() == expected {
                        Stage::InputBound
                    } else {
                        Stage::Failed(InferenceError::ShapeMismatchError)
                    },
                }
            },
            ..st
        },
        (Stage::InputBound, EventSpec::Invoke(ok)) => StateSpec {
            stage: if ok {
                Stage::Invoked
            } else {
                Stage::Failed(InferenceError::InvocationError)
            },
            ..st
        },
        (Stage::Invoked, EventSpec::Extract { n_outputs, data }) => {
            if n_outputs != 1 {
                StateSpec { stage: Stage::Failed(InferenceError::CardinalityViolation), ..st }
            } else {
                match data {
                    None => StateSpec { stage: Stage::Failed(InferenceError::InvocationError), ..st },
                    Some(d) => StateSpec { stage: Stage::OutputExtracted, output: d, ..st },
                }
            }
        },
        (Stage::OutputExtracted, EventSpec::Persist(ok)) => StateSpec {
            stage: if ok {
                Stage::OutputWritten
            } else {
                Stage::Failed(InferenceError::FileIOError)
            },
            ..st
        },
        _ => st,
    }
}

/// The machine after a whole sequence of events.
pub open spec fn run_spec(st: StateSpec, events: Seq<EventSpec>) -> StateSpec
    decreases events.len(),
{
    if events.len() == 0 {
        st
    } else {
        run_spec(step_spec(st, events[0]), events.drop_first())
    }
}

// ---------------------------------------------------------------------------
// The runner
// ---------------------------------------------------------------------------

/// Owns one run: the job description and the machine's state.  The
/// surrounding binary performs each backend step and reports its outcome
/// through the methods; every method refines `step_spec`.
pub struct InferenceRunner {
    stage: Stage,
    job: TfLiteInferenceService,
    output: Vec<u8>,
}

impl InferenceRunner {
    /// The machine state this runner is in.
    pub closed spec fn state(&self) -> StateSpec {
        StateSpec {
            stage: self.stage,
            threads: self.job@.threads as int,
            output: self.output@,
        }
    }

    /// The job description this runner was created for.
    pub closed spec fn job_view(&self) -> JobView {
        self.job@
    }

    /// Starts a run for one job description.
    pub fn new(job: TfLiteInferenceService) -> (r: Self)
        ensures
            r.state() == init_state(job@.threads as int),
            r.job_view() == job@,
    {
        let r = InferenceRunner { stage: Stage::Created, job, output: Vec::new() };
        proof {
            assert(r.state() =~= init_state(r.job@.threads as int));
        }
        r
    }

    /// The stage the run stands in.
    pub fn current_stage(&self) -> (r: Stage)
        ensures
            r == self.state().stage,
    {
        self.stage
    }

    /// The job description, for the binary to take paths from.
    pub fn job(&self) -> (r: &TfLiteInferenceService)
        ensures
            r@ == self.job_view(),
    {
        &self.job
    }

    /// The error a failed run carries, if any.
    pub fn error(&self) -> (r: Option<InferenceError>)
        ensures
            (match self.state().stage {
                Stage::Failed(e) => r == Some(e),
                _ => r is None,
            }),
    {
        match self.stage {
            Stage::Failed(e) => Some(e),
            _ => None,
        }
    }

    /// Reports whether the model file was loaded and parsed.
    pub fn model_load_result(&mut self, ok: bool)
        requires
            old(self).state().stage == Stage::Created,
        ensures
            final(self).state() == step_spec(old(self).state(), EventSpec::ModelLoad(ok)),
            final(self).state().stage == (if ok {
                Stage::ModelLoaded
            } else {
                Stage::Failed(InferenceError::ModelLoadError)
            }),
            final(self).job_view() == old(self).job_view(),
    {
        self.stage = if ok {
            Stage::ModelLoaded
        } else {
            Stage::Failed(InferenceError::ModelLoadError)
        };
        proof {
            assert(self.state() =~= step_spec(old(self).state(), EventSpec::ModelLoad(ok)));
        }
    }

    /// Reports whether the interpreter was built from the model.
    pub fn interpreter_build_result(&mut self, ok: bool)
        requires
            old(self).state().stage == Stage::ModelLoaded,
        ensures
            final(self).state() == step_spec(old(self).state(), EventSpec::Build(ok)),
            final(self).state().stage == (if ok {
                Stage::InterpreterReady
            } else {
                Stage::Failed(InferenceError::InterpreterBuildError)
            }),
            final(self).job_view() == old(self).job_view(),
    {
        self.stage = if ok {
            Stage::InterpreterReady
        } else {
            Stage::Failed(InferenceError::InterpreterBuildError)
        };
        proof {
            assert(self.state() =~= step_spec(old(self).state(), EventSpec::Build(ok)));
        }
    }

    /// The worker thread count to hand to the backend, read between
    /// interpreter construction and tensor allocation.
    pub fn threads_to_configure(&self) -> (r: i32)
        requires
            self.state().stage == Stage::InterpreterReady,
        ensures
            r == self.job_view().threads,
            r as int == self.state().threads,
    {
        self.job.num_threads
    }

    /// Reports whether tensor memory was allocated.
    pub fn allocation_result(&mut self, ok: bool)
        requires
            old(self).state().stage == Stage::InterpreterReady,
        ensures
            final(self).state() == step_spec(old(self).state(), EventSpec::Allocate(ok)),
            final(self).state().stage == (if ok {
                Stage::TensorsAllocated
            } else {
                Stage::Failed(InferenceError::AllocationError)
            }),
            final(self).job_view() == old(self).job_view(),
    {
        self.stage = if ok {
            Stage::TensorsAllocated
        } else {
            Stage::Failed(InferenceError::AllocationError)
        };
        proof {
            assert(self.state() =~= step_spec(old(self).state(), EventSpec::Allocate(ok)));
        }
    }

    /// Reports the input side: how many input tensors the model has, how
    /// many bytes the single input tensor expects, and the bytes read from
    /// the input file (`None` when reading failed).  Exactly one input
    /// tensor is demanded, the file must have been readable, and its
    /// length must equal the tensor's, in that order of precedence.
    pub fn bind_input(&mut self, n_inputs: usize, expected_len: usize, data: Option<&[u8]>)
        requires
            old(self).state().stage == Stage::TensorsAllocated,
        ensures
            final(self).state() == step_spec(
                old(self).state(),
                EventSpec::BindInput {
                    n_inputs: n_inputs as int,
                    expected: expected_len as int,
                    data: opt_slice_view(data),
                },
            ),
            final(self).state().stage == (if n_inputs != 1 {
                Stage::Failed(InferenceError::CardinalityViolation)
            } else {
                match data {
                    None => Stage::Failed(InferenceError::FileIOError),
                    Some(d) => if d@.len() == expected_len {
                        Stage::InputBound
                    } else {
                        Stage::Failed(InferenceError::ShapeMismatchError)
                    },
                }
            }),
            final(self).job_view() == old(self).job_view(),
    {
        self.stage = if n_inputs != 1 {
            Stage::Failed(InferenceError::CardinalityViolation)
        } else {
            match data {
                None => Stage::Failed(InferenceError::FileIOError),
                Some(d) => if d.len() == expected_len {
                    Stage::InputBound
                } else {
                    Stage::Failed(InferenceError::ShapeMismatchError)
                },
            }
        };
        proof {
            assert(self.state() =~= step_spec(
                old(self).state(),
                EventSpec::BindInput {
                    n_inputs: n_inputs as int,
                    expected: expected_len as int,
                    data: opt_slice_view(data),
                },
            ));
        }
    }

    /// Reports whether the forward computation succeeded.
    pub fn invoke_result(&mut self, ok: bool)
        requires
            old(self).state().stage == Stage::InputBound,
        ensures
            final(self).state() == step_spec(old(self).state(), EventSpec::Invoke(ok)),
            final(self).state().stage == (if ok {
                Stage::Invoked
            } else {
                Stage::Failed(InferenceError::InvocationError)
            }),
            final(self).job_view() == old(self).job_view(),
    {
        self.stage = if ok {
            Stage::Invoked
        } else {
            Stage::Failed(InferenceError::InvocationError)
        };
        proof {
            assert(self.state() =~= step_spec(old(self).state(), EventSpec::Invoke(ok)));
        }
    }

    /// Reports the output side: how many output tensors the model has and
    /// the single output tensor's bytes.  Exactly one output tensor is
    /// demanded; on success the machine captures the bytes for
    /// persistence.
    pub fn extract_output(&mut self, n_outputs: usize, data: Option<Vec<u8>>)
        requires
            old(self).state().stage == Stage::Invoked,
        ensures
            final(self).state() == step_spec(
                old(self).state(),
                EventSpec::Extract { n_outputs: n_outputs as int, data: opt_vec_view(data) },
            ),
            final(self).state().stage == (if n_outputs != 1 {
                Stage::Failed(InferenceError::CardinalityViolation)
            } else if data is None {
                Stage::Failed(InferenceError::InvocationError)
            } else {
                Stage::OutputExtracted
            }),
            (n_outputs == 1 && data is Some) ==> final(self).state().output == data.unwrap()@,
            final(self).job_view() == old(self).job_view(),
    {
        if n_outputs != 1 {
            self.stage = Stage::Failed(InferenceError::CardinalityViolation);
        } else {
            match data {
                None => {
                    self.stage = Stage::Failed(InferenceError::InvocationError);
                },
                Some(d) => {
                    self.output = d;
                    self.stage = Stage::OutputExtracted;
                },
            }
        }
        proof {
            assert(self.state() =~= step_spec(
                old(self).state(),
                EventSpec::Extract { n_outputs: n_outputs as int, data: opt_vec_view(data) },
            ));
        }
    }

    /// The bytes to persist, available exactly when the run extracted an
    /// output and has not yet written it.
    pub fn output_to_write(&self) -> (r: &Vec<u8>)
        requires
            self.state().stage == Stage::OutputExtracted,
        ensures
            r@ == self.state().output,
    {
        &self.output
    }

    /// Reports whether the output bytes reached their destination.
    pub fn persist_result(&mut self, ok: bool)
        requires
            old(self).state().stage == Stage::OutputExtracted,
        ensures
            final(self).state() == step_spec(old(self).state(), EventSpec::Persist(ok)),
            final(self).state().stage == (if ok {
                Stage::OutputWritten
            } else {
                Stage::Failed(InferenceError::FileIOError)
            }),
            final(self).state().output == old(self).state().output,
            final(self).job_view() == old(self).job_view(),
    {
        self.stage = if ok {
            Stage::OutputWritten
        } else {
            Stage::Failed(InferenceError::FileIOError)
        };
        proof {
            assert(self.state() =~= step_spec(old(self).state(), EventSpec::Persist(ok)));
        }
    }
}

// ---------------------------------------------------------------------------
// Laws of the machine
// ---------------------------------------------------------------------------

/// A failed run is terminal: no sequence of later events moves it
/// anywhere, so it never reaches the output step and its captured output
/// never changes.
pub proof fn lemma_failed_terminal(st: StateSpec, events: Seq<EventSpec>)
    requires
        st.stage matches Stage::Failed(_),
    ensures
        run_spec(st, events) == st,
    decreases events.len(),
{
    if events.len() > 0 {
        assert(step_spec(st, events[0]) == st);
        lemma_failed_terminal(st, events.drop_first());
    }
}

/// A model with other than exactly one input tensor fails the run with a
/// cardinality violation, whatever was read from the input file, and no
/// later events can reach the stage at which output bytes are handed out
/// for writing.
pub proof fn lemma_input_cardinality_violation_is_fatal(
    st: StateSpec,
    n_inputs: int,
    expected: int,
    data: Option<Seq<u8>>,
    rest: Seq<EventSpec>,
)
    requires
        st.stage == Stage::TensorsAllocated,
        n_inputs != 1,
    ensures
        ({
            let st1 = step_spec(st, EventSpec::BindInput { n_inputs, expected, data });
            &&& st1.stage == Stage::Failed(InferenceError::CardinalityViolation)
            &&& st1.output == st.output
            &&& run_spec(st1, rest) == st1
        }),
{
    lemma_failed_terminal(step_spec(st, EventSpec::BindInput { n_inputs, expected, data }), rest);
}

/// A model with other than exactly one output tensor likewise fails the
/// run with a cardinality violation, terminally.
pub proof fn lemma_output_cardinality_violation_is_fatal(
    st: StateSpec,
    n_outputs: int,
    data: Option<Seq<u8>>,
    rest: Seq<EventSpec>,
)
    requires
        st.stage == Stage::Invoked,
        n_outputs != 1,
    ensures
        ({
            let st1 = step_spec(st, EventSpec::Extract { n_outputs, data });
            &&& st1.stage == Stage::Failed(InferenceError::CardinalityViolation)
            &&& st1.output == st.output
            &&& run_spec(st1, rest) == st1
        }),
{
    lemma_failed_terminal(step_spec(st, EventSpec::Extract { n_outputs, data }), rest);
}

/// An input file whose byte length differs from the input tensor's fails
/// the run with a shape mismatch, terminally.
pub proof fn lemma_shape_mismatch_is_fatal(
    st: StateSpec,
    expected: int,
    data: Seq<u8>,
    rest: Seq<EventSpec>,
)
    requires
        st.stage == Stage::TensorsAllocated,
        data.len() != expected,
    ensures
        ({
            let st1 = step_spec(
                st,
                EventSpec::BindInput { n_inputs: 1, expected, data: Some(data) },
            );
            &&& st1.stage == Stage::Failed(InferenceError::ShapeMismatchError)
            &&& st1.output == st.output
            &&& run_spec(st1, rest) == st1
        }),
{
    lemma_failed_terminal(
        step_spec(st, EventSpec::BindInput { n_inputs: 1, expected, data: Some(data) }),
        rest,
    );
}

/// A model file that cannot be loaded fails the run at its first step,
/// terminally: nothing is ever written.
pub proof fn lemma_model_load_failure_is_fatal(st: StateSpec, rest: Seq<EventSpec>)
    requires
        st.stage == Stage::Created,
    ensures
        ({
            let st1 = step_spec(st, EventSpec::ModelLoad(false));
            &&& st1.stage == Stage::Failed(InferenceError::ModelLoadError)
            &&& st1.output == st.output
            &&& run_spec(st1, rest) == st1
        }),
{
    lemma_failed_terminal(step_spec(st, EventSpec::ModelLoad(false)), rest);
}

/// An unreadable input file fails the run with a file error, terminally.
pub proof fn lemma_unreadable_input_is_fatal(st: StateSpec, expected: int, rest: Seq<EventSpec>)
    requires
        st.stage == Stage::TensorsAllocated,
    ensures
        ({
            let st1 = step_spec(st, EventSpec::BindInput { n_inputs: 1, expected, data: None });
            &&& st1.stage == Stage::Failed(InferenceError::FileIOError)
            &&& st1.output == st.output
            &&& run_spec(st1, rest) == st1
        }),
{
    lemma_failed_terminal(
        step_spec(st, EventSpec::BindInput { n_inputs: 1, expected, data: None }),
        rest,
    );
}

/// The events of a run in which every step succeeds, the model has one
/// input tensor whose byte length the input file matches, and one output
/// tensor whose bytes are `out`.
pub open spec fn all_success_events(input: Seq<u8>, out: Seq<u8>) -> Seq<EventSpec> {
    seq![
        EventSpec::ModelLoad(true),
        EventSpec::Build(true),
        EventSpec::Allocate(true),
        EventSpec::BindInput { n_inputs: 1, expected: input.len() as int, data: Some(input) },
        EventSpec::Invoke(true),
        EventSpec::Extract { n_outputs: 1, data: Some(out) },
        EventSpec::Persist(true),
    ]
}

/// The happy path: when every step succeeds, the run walks the whole
/// pipeline, finishes in the written state, and the bytes it persisted
/// are exactly the backend's output bytes, unaltered.
pub proof fn lemma_successful_run(st: StateSpec, input: Seq<u8>, out: Seq<u8>)
    requires
        st.stage == Stage::Created,
    ensures
        run_spec(st, all_success_events(input, out)).stage == Stage::OutputWritten,
        run_spec(st, all_success_events(input, out)).output == out,
{
    let e = all_success_events(input, out);
    let s1 = step_spec(st, e[0]);
    let s2 = step_spec(s1, e[1]);
    let s3 = step_spec(s2, e[2]);
    let s4 = step_spec(s3, e[3]);
    let s5 = step_spec(s4, e[4]);
    let s6 = step_spec(s5, e[5]);
    let s7 = step_spec(s6, e[6]);
    assert(s1.stage == Stage::ModelLoaded);
    assert(s2.stage == Stage::InterpreterReady);
    assert(s3.stage == Stage::TensorsAllocated);
    assert(s4.stage == Stage::InputBound);
    assert(s5.stage == Stage::Invoked);
    assert(s6.stage == Stage::OutputExtracted && s6.output == out);
    assert(s7.stage == Stage::OutputWritten && s7.output == out);
    let r1 = e.drop_first();
    let r2 = r1.drop_first();
    let r3 = r2.drop_first();
    let r4 = r3.drop_first();
    let r5 = r4.drop_first();
    let r6 = r5.drop_first();
    let r7 = r6.drop_first();
    assert(r7.len() == 0);
    assert(run_spec(st, e) == run_spec(s1, r1));
    assert(run_spec(s1, r1) == run_spec(s2, r2));
    assert(run_spec(s2, r2) == run_spec(s3, r3));
    assert(run_spec(s3, r3) == run_spec(s4, r4));
    assert(run_spec(s4, r4) == run_spec(s5, r5));
    assert(run_spec(s5, r5) == run_spec(s6, r6));
    assert(run_spec(s6, r6) == run_spec(s7, r7));
    assert(run_spec(s7, r7) == s7);
}

/// The thread count influences nothing but itself: two machine states
/// that agree on stage and output but differ in thread count evolve to
/// the same stage and the same output under every event sequence.
pub proof fn lemma_threads_do_not_affect_run(
    st1: StateSpec,
    st2: StateSpec,
    events: Seq<EventSpec>,
)
    requires
        st1.stage == st2.stage,
        st1.output == st2.output,
    ensures
        run_spec(st1, events).stage == run_spec(st2, events).stage,
        run_spec(st1, events).output == run_spec(st2, events).output,
    decreases events.len(),
{
    if events.len() > 0 {
        let n1 = step_spec(st1, events[0]);
        let n2 = step_spec(st2, events[0]);
        assert(n1.stage == n2.stage && n1.output == n2.output);
        lemma_threads_do_not_affect_run(n1, n2, events.drop_first());
    }
}

/// View of an optional byte slice as an optional byte sequence.
pub open spec fn opt_slice_view(data: Option<&[u8]>) -> Option<Seq<u8>> {
    match data {
        None => None,
        Some(d) => Some(d@),
    }
}

/// View of an optional byte vector as an optional byte sequence.
pub open spec fn opt_vec_view(data: Option<Vec<u8>>) -> Option<Seq<u8>> {
    match data {
        None => None,
        Some(d) => Some(d@),
    }
}

} // verus!

