//! The request handler: validates a request, materializes its inputs, and
//! drives the stage interpreter against the executor. The two calls only the
//! sandbox backend can make — creating a sandbox and spawning a child — are
//! handed out as progress values, and their outcomes handed back in; every
//! other step completes locally.
use vstd::prelude::*;
use vstd::seq_lib::*;
use vstd::set_lib::*;

use crate::api::{
    Action, ActionResult, Input, InputSource, InvokeRequest, InvokeResponse, Output, OutputData,
    OutputRequest, OutputRequestTarget, SpawnOutcome,
};
use crate::error::Error;
use crate::executor::{command_result, spec_input_content, Executor, SpawnSpec};
use crate::file::File;
use crate::interp::{spec_order_in_phase, trace_respects_order, Interpreter};
use crate::path_resolver::path_join;
use crate::sandbox::{BackendSandboxOptions, SandboxGlobalSettings};
use crate::sys;
use crate::validate::{spec_request_has_extensions, validate_request};

verus! {

/// Configuration of the handler: where per-request work directories live.
pub struct HandlerConfig {
    pub work_dir: String,
}

/// Creates one run per request under the configured work directory.
pub struct Handler {
    cfg: HandlerConfig,
}

impl Handler {
    pub fn new(config: HandlerConfig) -> (r: Handler)
        ensures
            r.work_dir_spec() == config.work_dir@,
    {
        Handler { cfg: config }
    }

    /// The configured work directory.
    pub closed spec fn work_dir_spec(self) -> Seq<char> {
        self.cfg.work_dir@
    }

    /// The work directory of one request, under the configured root.
    pub fn request_work_dir(&self, name: &str) -> (r: String)
        ensures
            r@ == crate::path_resolver::spec_path_join(self.work_dir_spec(), name@),
    {
        path_join(self.cfg.work_dir.as_str(), name)
    }
}

/// The stages of the request's steps, by index.
pub open spec fn stages_of(steps: Seq<crate::api::Step>) -> Seq<u32> {
    steps.map_values(|s: crate::api::Step| s.stage)
}

/// The action classes of the request's steps, by index.
pub open spec fn classes_of(steps: Seq<crate::api::Step>) -> Seq<u8> {
    steps.map_values(|s: crate::api::Step| spec_order_in_phase(s.action))
}

/// What the run asks of its caller next.
pub enum Progress {
    /// The backend must create a sandbox with these options; the warnings
    /// are advisory, for the log.
    NeedSandbox { step_id: usize, options: BackendSandboxOptions, warnings: Vec<String> },
    /// The backend must spawn this child and report what became of it.
    NeedSpawn { step_id: usize, spec: SpawnSpec },
    /// Every step ran and the outputs were collected.
    Finished(InvokeResponse),
}

/// Which outside call the run is waiting on, if any.
pub enum Awaiting {
    Idle,
    Sandbox(usize),
    Spawn(usize),
}

/// The recorded result of an action carries that action's tag; a command's
/// result carries its outcome.
pub open spec fn result_matches_action(r: ActionResult, a: Action) -> bool {
    match a {
        Action::CreatePipe { .. } => r is CreatePipe,
        Action::CreateFile { .. } => r is CreateFile,
        Action::OpenFile { .. } => r is OpenFile,
        Action::OpenNullFile { .. } => r is OpenNullFile,
        Action::ExecuteCommand(..) => r is ExecuteCommand,
        Action::CreateSandbox(..) => r is CreateSandbox,
        Action::CreateVolume(..) => r is CreateVolume,
    }
}

/// Whether the sequence holds the index `x`.
pub open spec fn holds_index(s: Seq<usize>, x: int) -> bool {
    exists|k: int| 0 <= k < s.len() && s[k] as int == x
}



/// An input whose inline base64 data does not decode.
pub open spec fn input_undecodable(inp: Input) -> bool {
    match inp.source {
        InputSource::InlineBase64 { data } => crate::sys::b64_decode_of(data@) is None,
        _ => false,
    }
}

/// Whether any input's inline base64 data does not decode.
pub open spec fn inputs_have_undecodable(inputs: Seq<Input>) -> bool {
    exists|i: int| 0 <= i < inputs.len() && input_undecodable(#[trigger] inputs[i])
}

/// Whether two inputs bind the same file id.
pub open spec fn inputs_have_duplicate(inputs: Seq<Input>) -> bool {
    exists|i: int, j: int|
        0 <= i < j < inputs.len() && (#[trigger] inputs[i]).file_id@ == (
        #[trigger] inputs[j]).file_id@
}

/// Every input of the request stays bound to its id, and inline data keeps
/// exactly its bytes, whatever later actions do.
pub open spec fn inputs_bound(engine_exec: Executor, inputs: Seq<crate::api::Input>) -> bool {
    forall|k: int|
        0 <= k < inputs.len() ==> {
            &&& engine_exec.files_spec().contains_id(#[trigger] inputs[k].file_id@)
            &&& (spec_input_content(inputs[k].source) is Some ==> engine_exec.files_spec().file_of(
                inputs[k].file_id@,
            ).content_spec() == spec_input_content(inputs[k].source))
            &&& engine_exec.files_spec().file_of(inputs[k].file_id@).is_readable()
        }
}

/// The id a null-file action binds, when the action is one.
pub open spec fn action_null_id(a: Action) -> Option<Seq<char>> {
    match a {
        Action::OpenNullFile { id } => Some(id@),
        _ => None,
    }
}

/// Every null-file binding made by a started step stays an empty source.
pub open spec fn null_steps_bound(engine_exec: Executor, steps: Seq<crate::api::Step>, started: Seq<usize>) -> bool {
    forall|b: int|
        0 <= b < started.len() && (started[b] as int) < steps.len() && (#[trigger] action_null_id(
            steps[started[b] as int].action,
        )) is Some ==> {
            let id = action_null_id(steps[started[b] as int].action)->0;
            &&& engine_exec.files_spec().contains_id(id)
            &&& engine_exec.files_spec().file_of(id).content_spec() == Some(Seq::<u8>::empty())
            &&& engine_exec.files_spec().file_of(id).is_readable()
        }
}

/// An output request whose success is owed: its target is a bound id that is
/// readable and whose bytes the model knows (a buffer or the null source) —
/// nothing outside the model can then fail its export.
pub open spec fn output_target_known(engine_exec: Executor, oreq: OutputRequest) -> bool {
    match oreq.target {
        OutputRequestTarget::File(id) => {
            &&& engine_exec.files_spec().contains_id(id@)
            &&& engine_exec.files_spec().file_of(id@).is_readable()
            &&& engine_exec.files_spec().file_of(id@).content_spec() is Some
        },
        OutputRequestTarget::Path(_) => false,
    }
}

/// One returned output against its request: the bytes of a file-id target
/// whose contents the model knows come back as their base64 encoding, and
/// decode back to exactly those bytes.
pub open spec fn output_data_matches(out: Output, engine_exec: Executor, oreq: OutputRequest) -> bool {
    match oreq.target {
        OutputRequestTarget::File(id) => {
            let c = engine_exec.files_spec().file_of(id@).content_spec();
            (engine_exec.files_spec().contains_id(id@) && c is Some) ==> {
                let bytes = c->0;
                match out.data {
                    OutputData::InlineBase64(s) => s@ == sys::b64_of(bytes) && sys::b64_decode_of(
                        s@,
                    ) == Some(bytes),
                }
            }
        },
        OutputRequestTarget::Path(_) => out.data is InlineBase64,
    }
}

/// The response against its request: the same id; one result per step; the
/// outputs exactly as many as requested, under the requested names and in
/// request order, with file-id data as `output_data_matches` says.
pub open spec fn response_matches(resp: InvokeResponse, req: InvokeRequest, engine_exec: Executor) -> bool {
    &&& resp.id == req.id
    &&& resp.actions@.len() == req.steps@.len()
    &&& resp.outputs@.len() == req.outputs@.len()
    &&& forall|k: int|
        0 <= k < req.outputs@.len() ==> (#[trigger] resp.outputs@[k]).name@
            == req.outputs@[k].name@ && output_data_matches(resp.outputs@[k], engine_exec, req.outputs@[k])
}

/// One request being driven to completion.
pub struct RequestRun {
    req: InvokeRequest,
    engine_exec: Executor,
    interp: Interpreter,
    started: Vec<usize>,
    actions: Vec<ActionResult>,
    queue: Vec<usize>,
    done_buf: Vec<usize>,
    awaiting: Awaiting,
    finished: bool,
}

impl RequestRun {
    /// The request being run.
    pub closed spec fn req_spec(self) -> InvokeRequest {
        self.req
    }

    /// The executor state.
    pub closed spec fn exec_spec(self) -> Executor {
        self.engine_exec
    }

    /// The step indices in start order.
    pub closed spec fn started_spec(self) -> Seq<usize> {
        self.started@
    }

    /// The recorded results, in start order.
    pub closed spec fn actions_spec(self) -> Seq<ActionResult> {
        self.actions@
    }

    /// Whether the run waits on no outside call.
    pub closed spec fn idle(self) -> bool {
        self.awaiting is Idle
    }

    /// Which step the run waits on, if any.
    pub closed spec fn awaiting_spec(self) -> Awaiting {
        self.awaiting
    }

    /// Whether the run has delivered its response.
    pub closed spec fn done_spec(self) -> bool {
        self.finished
    }

    /// The shape of a run that just started `step_id` and has not yet booked
    /// it: everything of the invariant except that the last started step has
    /// neither a recorded result nor an outside call in flight yet.
    pub closed spec fn mid_step(self, step_id: usize) -> bool {
        let n = self.req.steps@.len() as int;
        &&& self.engine_exec.wf()
        &&& self.interp.wf()
        &&& self.interp.n() == n
        &&& forall|i: int|
            0 <= i < n ==> self.interp.stage_of(i) == self.req.steps@[i].stage
                && self.interp.class_of(i) == spec_order_in_phase(self.req.steps@[i].action)
        &&& trace_respects_order(
            stages_of(self.req.steps@),
            classes_of(self.req.steps@),
            self.started@,
        )
        &&& self.started@.no_duplicates()
        &&& forall|k: int| 0 <= k < self.started@.len() ==> (self.started@[k] as int) < n
        &&& forall|x: int| self.interp.completed().contains(x) ==> holds_index(self.started@, x)
        &&& forall|k: int|
            0 <= k < self.done_buf@.len() ==> (self.done_buf@[k] as int) < n && holds_index(
                self.started@,
                self.done_buf@[k] as int,
            )
        &&& forall|k: int|
            0 <= k < self.started@.len() - 1 ==> self.accounted(
                #[trigger] self.started@[k] as int,
            )
        &&& forall|k: int|
            0 <= k < self.queue@.len() ==> ((#[trigger] self.queue@[k] as int) < n
                && self.interp.spec_can_run(self.queue@[k] as int) && !self.started@.contains(
                self.queue@[k],
            ))
        &&& self.queue@.no_duplicates()
        &&& self.awaiting is Idle
        &&& self.actions@.len() + 1 == self.started@.len()
        &&& self.started@.len() > 0
        &&& self.started@.last() == step_id
        &&& (step_id as int) < n
        &&& forall|k: int|
            0 <= k < self.actions@.len() ==> result_matches_action(
                #[trigger] self.actions@[k],
                self.req.steps@[self.started@[k] as int].action,
            )
        &&& !self.finished
    }

    /// A run that owes its caller completion: every step has started, and
    /// every output names a bound readable id whose bytes the model knows,
    /// so nothing outside the model can refuse the finish.
    pub open spec fn completion_owed(self) -> bool {
        &&& self.started_spec().len() == self.req_spec().steps@.len()
        &&& forall|k: int|
            0 <= k < self.req_spec().outputs@.len() ==> output_target_known(
                self.exec_spec(),
                #[trigger] self.req_spec().outputs@[k],
            )
    }

    /// The start order respects stages and intra-stage classes.
    pub open spec fn trace_ok(self) -> bool {
        trace_respects_order(
            stages_of(self.req_spec().steps@),
            classes_of(self.req_spec().steps@),
            self.started_spec(),
        )
    }

    /// A step index is accounted for: reported to the interpreter, waiting
    /// in the feedback buffer, or the one outside call in flight.
    pub closed spec fn accounted(self, x: int) -> bool {
        ||| self.interp.completed().contains(x)
        ||| holds_index(self.done_buf@, x)
        ||| match self.awaiting {
            Awaiting::Idle => false,
            Awaiting::Sandbox(s) => s as int == x,
            Awaiting::Spawn(s) => s as int == x,
        }
    }

    /// The run's internal invariant.
    pub closed spec fn inv(self) -> bool {
        let n = self.req.steps@.len() as int;
        &&& self.engine_exec.wf()
        &&& self.interp.wf()
        &&& self.interp.n() == n
        &&& forall|i: int|
            0 <= i < n ==> self.interp.stage_of(i) == self.req.steps@[i].stage
                && self.interp.class_of(i) == spec_order_in_phase(self.req.steps@[i].action)
        &&& trace_respects_order(
            stages_of(self.req.steps@),
            classes_of(self.req.steps@),
            self.started@,
        )
        &&& self.started@.no_duplicates()
        &&& forall|k: int| 0 <= k < self.started@.len() ==> (self.started@[k] as int) < n
        &&& forall|x: int| self.interp.completed().contains(x) ==> holds_index(self.started@, x)
        &&& forall|k: int|
            0 <= k < self.done_buf@.len() ==> (self.done_buf@[k] as int) < n && holds_index(
                self.started@,
                self.done_buf@[k] as int,
            )
        &&& forall|k: int|
            0 <= k < self.started@.len() ==> self.accounted(#[trigger] self.started@[k] as int)
        &&& forall|k: int|
            0 <= k < self.queue@.len() ==> ((#[trigger] self.queue@[k] as int) < n
                && self.interp.spec_can_run(self.queue@[k] as int) && !self.started@.contains(
                self.queue@[k],
            ))
        &&& self.queue@.no_duplicates()
        &&& match self.awaiting {
            Awaiting::Idle => self.actions@.len() == self.started@.len(),
            Awaiting::Sandbox(s) => self.actions@.len() + 1 == self.started@.len() && (
            s as int) < n && self.started@.len() > 0 && self.started@.last() == s
                && self.req.steps@[s as int].action is CreateSandbox,
            Awaiting::Spawn(s) => self.actions@.len() + 1 == self.started@.len() && (s as int)
                < n && self.started@.len() > 0 && self.started@.last() == s
                && self.req.steps@[s as int].action is ExecuteCommand,
        }
        &&& forall|k: int|
            0 <= k < self.actions@.len() ==> result_matches_action(
                #[trigger] self.actions@[k],
                self.req.steps@[self.started@[k] as int].action,
            )
        &&& inputs_bound(self.engine_exec, self.req.inputs@)
        &&& null_steps_bound(self.engine_exec, self.req.steps@, self.started@)
    }

    /// Validates the request, materializes its inputs and readies the
    /// interpreter. A request that still carries extensions anywhere is
    /// rejected before any action runs.
    pub fn new(req: InvokeRequest, work_dir: &str, global: SandboxGlobalSettings) -> (r: Result<
        RequestRun,
        Error,
    >)
        ensures
            spec_request_has_extensions(req) <==> r == Err::<RequestRun, Error>(
                Error::NonEmptyExtensions,
            ),
            !spec_request_has_extensions(req) && req.inputs@.len() == 0 ==> r is Ok,
            inputs_have_duplicate(req.inputs@) ==> r is Err,
            r == Err::<RequestRun, Error>(Error::DuplicateFileId) ==> inputs_have_duplicate(
                req.inputs@,
            ),
            inputs_have_undecodable(req.inputs@) ==> r is Err,
            r == Err::<RequestRun, Error>(Error::InvalidBase64) ==> inputs_have_undecodable(
                req.inputs@,
            ),
            r matches Err(e) ==> e == Error::NonEmptyExtensions || e == Error::DuplicateFileId
                || e == Error::InvalidBase64 || e is Sys || e is ShortWrite,
            r is Ok ==> {
                let run = r.unwrap();
                &&& run.inv()
                &&& run.req_spec() == req
                &&& run.started_spec().len() == 0
                &&& run.idle()
                &&& !run.done_spec()
            },
    {
        validate_request(&req)?;
        let mut engine_exec = Executor::new(work_dir, global);
        let n_inputs: usize = req.inputs.len();
        let mut k: usize = 0;
        while k < n_inputs
            invariant
                0 <= k <= n_inputs,
                n_inputs == req.inputs@.len(),
                !spec_request_has_extensions(req),
                engine_exec.wf(),
                forall|x: Seq<char>|
                    #[trigger] engine_exec.files_spec().contains_id(x) <==> exists|t: int|
                        0 <= t < k && (#[trigger] req.inputs@[t].file_id@) == x,
                forall|i: int, j: int|
                    0 <= i < j < k ==> (#[trigger] req.inputs@[i]).file_id@ != (
                    #[trigger] req.inputs@[j]).file_id@,
                forall|t: int| 0 <= t < k ==> !input_undecodable(#[trigger] req.inputs@[t]),
                forall|t: int|
                    0 <= t < k ==> {
                        &&& engine_exec.files_spec().contains_id(#[trigger] req.inputs@[t].file_id@)
                        &&& (spec_input_content(req.inputs@[t].source) is Some
                            ==> engine_exec.files_spec().file_of(req.inputs@[t].file_id@).content_spec()
                            == spec_input_content(req.inputs@[t].source))
                        &&& engine_exec.files_spec().file_of(req.inputs@[t].file_id@).is_readable()
                    },
            decreases n_inputs - k,
        {
            let ghost pre = engine_exec;
            match engine_exec.add_input(&req.inputs[k]) {
                Ok(()) => {},
                Err(e) => {
                    proof {
                        if e == Error::DuplicateFileId {
                            assert(pre.files_spec().contains_id(req.inputs@[k as int].file_id@));
                            let t = choose|t: int|
                                0 <= t < k && (#[trigger] req.inputs@[t].file_id@)
                                    == req.inputs@[k as int].file_id@;
                            assert(inputs_have_duplicate(req.inputs@));
                        }
                        if e == Error::InvalidBase64 {
                            assert(input_undecodable(req.inputs@[k as int]));
                            assert(inputs_have_undecodable(req.inputs@));
                        }
                    }
                    return Err(e);
                },
            }
            proof {
                assert forall|t: int|
                    0 <= t < k + 1 implies {
                    &&& engine_exec.files_spec().contains_id(#[trigger] req.inputs@[t].file_id@)
                    &&& (spec_input_content(req.inputs@[t].source) is Some
                        ==> engine_exec.files_spec().file_of(req.inputs@[t].file_id@).content_spec()
                        == spec_input_content(req.inputs@[t].source))
                    &&& engine_exec.files_spec().file_of(req.inputs@[t].file_id@).is_readable()
                } by {
                    if t < k {
                        assert(pre.files_spec().contains_id(req.inputs@[t].file_id@));
                        if req.inputs@[t].file_id@ != req.inputs@[k as int].file_id@ {
                            assert(engine_exec.files_spec().file_of(req.inputs@[t].file_id@)
                                == pre.files_spec().file_of(req.inputs@[t].file_id@));
                        }
                    }
                }
                assert(!pre.files_spec().contains_id(req.inputs@[k as int].file_id@));
                assert forall|x: Seq<char>|
                    #[trigger] engine_exec.files_spec().contains_id(x) <==> exists|t: int|
                        0 <= t < k + 1 && (#[trigger] req.inputs@[t].file_id@) == x by {
                    if engine_exec.files_spec().contains_id(x) {
                        if pre.files_spec().contains_id(x) {
                            let t = choose|t: int|
                                0 <= t < k && (#[trigger] req.inputs@[t].file_id@) == x;
                            assert(req.inputs@[t].file_id@ == x);
                        } else {
                            assert(req.inputs@[k as int].file_id@ == x);
                        }
                    } else {
                        if exists|t: int|
                            0 <= t < k + 1 && (#[trigger] req.inputs@[t].file_id@) == x {
                            let t = choose|t: int|
                                0 <= t < k + 1 && (#[trigger] req.inputs@[t].file_id@) == x;
                            if t < k {
                                assert(pre.files_spec().contains_id(x));
                            }
                            assert(false);
                        }
                    }
                }
                assert forall|i: int, j: int|
                    0 <= i < j < k + 1 implies (#[trigger] req.inputs@[i]).file_id@ != (
                #[trigger] req.inputs@[j]).file_id@ by {
                    if j == k {
                        if req.inputs@[i].file_id@ == req.inputs@[k as int].file_id@ {
                            assert(pre.files_spec().contains_id(req.inputs@[k as int].file_id@));
                            assert(false);
                        }
                    }
                }
            }
            k = k + 1;
        }
        proof {
            if inputs_have_duplicate(req.inputs@) {
                let (i, j) = choose|i: int, j: int|
                    0 <= i < j < req.inputs@.len() && (#[trigger] req.inputs@[i]).file_id@ == (
                    #[trigger] req.inputs@[j]).file_id@;
                assert(req.inputs@[i].file_id@ != req.inputs@[j].file_id@);
                assert(false);
            }
            if inputs_have_undecodable(req.inputs@) {
                let i = choose|i: int|
                    0 <= i < req.inputs@.len() && input_undecodable(#[trigger] req.inputs@[i]);
                assert(!input_undecodable(req.inputs@[i]));
                assert(false);
            }
        }
        let interp = Interpreter::new(&req);
        let run = RequestRun {
            req,
            engine_exec,
            interp,
            started: Vec::new(),
            actions: Vec::new(),
            queue: Vec::new(),
            done_buf: Vec::new(),
            awaiting: Awaiting::Idle,
            finished: false,
        };
        Ok(run)
    }

    /// Runs ready steps until the backend must act or everything is done.
    /// Stage order and intra-stage class order hold of every step started.
    pub fn advance(&mut self) -> (r: Result<Progress, Error>)
        requires
            old(self).inv(),
            old(self).idle(),
            !old(self).done_spec(),
        ensures
            final(self).req_spec() == old(self).req_spec(),
            r is Ok ==> final(self).inv() && final(self).trace_ok(),
            old(self).completion_owed() ==> (r matches Ok(p) && p is Finished),
            r matches Err(e) ==> e != Error::InterpreterStuck,
            r matches Ok(Progress::Finished(resp)) ==> {
                &&& final(self).done_spec()
                &&& final(self).idle()
                &&& response_matches(resp, final(self).req_spec(), final(self).exec_spec())
                &&& resp.actions@ == final(self).actions_spec()
                &&& inputs_bound(final(self).exec_spec(), final(self).req_spec().inputs@)
                &&& null_steps_bound(
                    final(self).exec_spec(),
                    final(self).req_spec().steps@,
                    final(self).started_spec(),
                )
            },
            r matches Ok(Progress::NeedSandbox { step_id, .. }) ==> final(self).awaiting_spec()
                matches Awaiting::Sandbox(s) && s == step_id && !final(self).done_spec(),
            r matches Ok(Progress::NeedSpawn { step_id, .. }) ==> final(self).awaiting_spec()
                matches Awaiting::Spawn(s) && s == step_id && !final(self).done_spec(),
    {
        let n: usize = self.req.steps.len();
        loop
            invariant
                self.inv(),
                self.idle(),
                !self.done_spec(),
                n == self.req.steps@.len(),
                self.req == old(self).req,
                old(self).completion_owed() ==> *self == *old(self),
            decreases n - self.started@.len(), self.queue@.len() + 1,
        {
            proof {
                if old(self).completion_owed() && self.queue@.len() > 0 {
                    lemma_distinct_bounded_strict(self.started@, n as int, self.queue@[0]);
                    assert(false);
                }
            }
            if self.queue.len() == 0 {
                let ghost pre_poll = *self;
                let ready = self.interp.poll(&self.done_buf);
                self.done_buf = Vec::new();
                proof {
                    if old(self).completion_owed() {
                        self.lemma_owed_run_is_complete(pre_poll, n as int);
                    }
                }
                if ready.len() == 0 {
                    if self.interp.is_completed() {
                        proof {
                            self.lemma_all_started(n as int);
                        }
                        let outputs = self.collect_outputs()?;
                        let actions = copy_actions(&self.actions);
                        let resp = InvokeResponse { id: self.req.id, outputs, actions };
                        self.engine_exec.teardown();
                        self.finished = true;
                        return Ok(Progress::Finished(resp));
                    }
                    proof {
                        self.lemma_ready_is_never_empty(ready@, n as int);
                    }
                    return Err(Error::InterpreterStuck);
                }
                proof {
                    if old(self).completion_owed() {
                        assert(self.interp.spec_can_run(ready@[0] as int));
                        assert(false);
                    }
                }
                proof {
                    assert forall|k: int|
                        0 <= k < ready@.len() implies ((#[trigger] ready@[k] as int)
                        < self.interp.n() && self.interp.spec_can_run(ready@[k] as int)
                        && !self.started@.contains(ready@[k])) by {
                        assert(self.interp.spec_can_run(ready@[k] as int));
                        if self.started@.contains(ready@[k]) {
                            let t = choose|t: int|
                                0 <= t < self.started@.len() && self.started@[t] == ready@[k];
                            assert(self.accounted(self.started@[t] as int));
                            assert(self.interp.completed().contains(ready@[k] as int));
                        }
                    }
                    assert forall|a: int, b: int|
                        0 <= a < b < ready@.len() implies ready@[a] != ready@[b] by {
                        assert(ready@[a] < ready@[b]);
                    }
                }
                self.queue = ready;
            }
            proof {
                if self.queue@.len() == 0 {
                    assert(false);
                }
            }
            let ghost pre = *self;
            let step_id = self.queue.remove(0);
            proof {
                lemma_distinct_bounded_strict(self.started@, n as int, step_id);
            }
            self.started.push(step_id);
            proof {
                self.lemma_start_preserves(pre, step_id);
                assert(self.started@.drop_last() =~= pre.started@);
            }
            let progress = self.dispatch(step_id)?;
            match progress {
                None => {},
                Some(p) => {
                    return Ok(p);
                },
            }
        }
    }

    /// After feeding the interpreter everything it was owed, a run whose
    /// steps have all started is completed: every step index was reported.
    proof fn lemma_owed_run_is_complete(&self, pre: RequestRun, n: int)
        requires
            pre.inv(),
            pre.idle(),
            n == pre.req.steps@.len(),
            0 <= n <= usize::MAX,
            pre.started@.len() == n,
            pre.interp.n() == n,
            self.interp.wf(),
            self.interp.n() == n,
            self.interp.completed() =~= pre.interp.completed().union(
                Set::new(
                    |i: int|
                        exists|k: int| 0 <= k < pre.done_buf@.len() && pre.done_buf@[k] as int
                            == i,
                ),
            ),
        ensures
            self.interp.completed() =~= Set::new(|i: int| 0 <= i < self.interp.n()),
    {
        pre.interp.lemma_completed_in_range();
        assert forall|x: int| self.interp.completed().contains(x) implies 0 <= x < n by {
            if pre.interp.completed().contains(x) {
            } else {
                let k = choose|k: int|
                    0 <= k < pre.done_buf@.len() && pre.done_buf@[k] as int == x;
                assert((pre.done_buf@[k] as int) < n);
            }
        }
        assert forall|x: int| 0 <= x < n implies self.interp.completed().contains(x) by {
            assert((x as usize) as int == x);
            if !pre.started@.contains(x as usize) {
                lemma_distinct_bounded_strict(pre.started@, n, x as usize);
                assert(false);
            }
            let k = choose|k: int|
                0 <= k < pre.started@.len() && pre.started@[k] == x as usize;
            assert(pre.accounted(pre.started@[k] as int));
            assert(pre.started@[k] as int == x);
            if pre.interp.completed().contains(x) {
            } else {
                assert(holds_index(pre.done_buf@, x));
            }
        }
        assert(self.interp.completed() =~= Set::new(|i: int| 0 <= i < self.interp.n()));
    }

    /// While the interpreter reports unfinished steps, a poll never comes
    /// back empty: among the unfinished steps one of minimal stage and class
    /// is always ready.
    proof fn lemma_ready_is_never_empty(&self, ready: Seq<usize>, n: int)
        requires
            self.interp.wf(),
            self.interp.n() == n,
            !(self.interp.completed() =~= Set::new(|i: int| 0 <= i < self.interp.n())),
            forall|i: int|
                0 <= i < self.interp.n() && self.interp.spec_can_run(i) ==> ready.contains(
                    i as usize,
                ),
        ensures
            ready.len() > 0,
    {
        self.interp.lemma_completed_in_range();
        let full = Set::new(|i: int| 0 <= i < self.interp.n());
        assert(exists|x: int| self.interp.completed().contains(x) != full.contains(x)) by {
            if forall|x: int|
                self.interp.completed().contains(x) == #[trigger] full.contains(x) {
                assert(self.interp.completed() =~= full);
                assert(false);
            }
        }
        let x = choose|x: int| self.interp.completed().contains(x) != full.contains(x);
        if self.interp.completed().contains(x) {
            assert(0 <= x < n);
            assert(full.contains(x));
            assert(false);
        }
        assert(full.contains(x) && !self.interp.completed().contains(x));
        self.interp.lemma_some_step_ready(x);
        let i = choose|i: int| #[trigger] self.interp.spec_can_run(i);
        assert(0 <= i < self.interp.n());
        assert(ready.contains(i as usize));
    }

    /// Starting a ready step keeps every ordering and accounting invariant
    /// except the action count, which the dispatch restores.
    proof fn lemma_start_preserves(&self, pre: RequestRun, step_id: usize)
        requires
            pre.inv(),
            pre.idle(),
            pre.queue@.len() > 0,
            step_id == pre.queue@[0],
            self.req == pre.req,
            self.engine_exec == pre.engine_exec,
            self.interp == pre.interp,
            self.actions == pre.actions,
            self.done_buf == pre.done_buf,
            self.awaiting == pre.awaiting,
            self.finished == pre.finished,
            self.queue@ == pre.queue@.remove(0),
            self.started@ == pre.started@.push(step_id),
        ensures
            self.started@.no_duplicates(),
            forall|k: int|
                0 <= k < self.started@.len() ==> (self.started@[k] as int)
                    < self.req.steps@.len(),
            trace_respects_order(
                stages_of(self.req.steps@),
                classes_of(self.req.steps@),
                self.started@,
            ),
            forall|x: int| self.interp.completed().contains(x) ==> holds_index(self.started@, x),
            forall|k: int|
                0 <= k < self.done_buf@.len() ==> holds_index(
                    self.started@,
                    self.done_buf@[k] as int,
                ),
            forall|k: int|
                0 <= k < self.queue@.len() ==> ((#[trigger] self.queue@[k] as int)
                    < self.req.steps@.len() && self.interp.spec_can_run(self.queue@[k] as int)
                    && !self.started@.contains(self.queue@[k])),
            self.queue@.no_duplicates(),
            null_steps_bound(self.engine_exec, self.req.steps@, pre.started@),
    {
        let n = self.req.steps@.len() as int;
        let m = pre.started@.len() as int;
        assert(self.interp.spec_can_run(step_id as int));
        assert(!pre.started@.contains(step_id));
        assert forall|a: int, b: int|
            0 <= a < b < self.started@.len() implies self.started@[a] != self.started@[b] by {
            if b == m {
                if self.started@[a] == step_id {
                    assert(pre.started@.contains(step_id));
                }
            }
        }
        let stages = stages_of(self.req.steps@);
        let classes = classes_of(self.req.steps@);
        assert forall|b: int, j: int|
            0 <= b < self.started@.len() && 0 <= j < stages.len() && 0 <= #[trigger] self.started@[b]
                < stages.len() && (#[trigger] stages[j] < stages[self.started@[b] as int] || (
            stages[j] == stages[self.started@[b] as int] && classes[j] < classes[self.started@[b] as int]))
            implies exists|a: int| 0 <= a < b && self.started@[a] as int == j by {
            if b < m {
                assert(pre.started@[b] == self.started@[b]);
                assert(exists|a: int| 0 <= a < b && pre.started@[a] as int == j);
                let a = choose|a: int| 0 <= a < b && pre.started@[a] as int == j;
                assert(self.started@[a] as int == j);
            } else {
                assert(self.started@[b] == step_id);
                assert(stages[step_id as int] == self.interp.stage_of(step_id as int));
                assert(classes[step_id as int] == self.interp.class_of(step_id as int));
                assert(stages[j] == self.interp.stage_of(j));
                assert(classes[j] == self.interp.class_of(j));
                if !self.interp.completed().contains(j) {
                    assert(self.interp.stage_of(j) > self.interp.stage_of(step_id as int) || (
                    self.interp.stage_of(j) == self.interp.stage_of(step_id as int)
                        && self.interp.class_of(j) >= self.interp.class_of(step_id as int)));
                    assert(false);
                }
                assert(holds_index(pre.started@, j));
                let a = choose|a: int| 0 <= a < pre.started@.len() && pre.started@[a] as int == j;
                assert(self.started@[a] as int == j);
            }
        }
        assert forall|x: int| self.interp.completed().contains(x) implies holds_index(
            self.started@,
            x,
        ) by {
            assert(holds_index(pre.started@, x));
            let k = choose|k: int| 0 <= k < pre.started@.len() && pre.started@[k] as int == x;
            assert(self.started@[k] as int == x);
        }
        assert forall|k: int| 0 <= k < self.done_buf@.len() implies holds_index(
            self.started@,
            self.done_buf@[k] as int,
        ) by {
            assert(holds_index(pre.started@, pre.done_buf@[k] as int));
            let t = choose|t: int|
                0 <= t < pre.started@.len() && pre.started@[t] as int == pre.done_buf@[k] as int;
            assert(self.started@[t] as int == self.done_buf@[k] as int);
        }
        assert forall|k: int|
            0 <= k < self.queue@.len() implies ((#[trigger] self.queue@[k] as int) < n
            && self.interp.spec_can_run(self.queue@[k] as int) && !self.started@.contains(
            self.queue@[k],
        )) by {
            assert(self.queue@[k] == pre.queue@[k + 1]);
            if self.started@.contains(self.queue@[k]) {
                let t = choose|t: int|
                    0 <= t < self.started@.len() && self.started@[t] == self.queue@[k];
                if t < m {
                    assert(pre.started@.contains(pre.queue@[k + 1]));
                    assert(false);
                } else {
                    assert(pre.queue@[k + 1] == pre.queue@[0]);
                    assert(false);
                }
            }
        }
        assert forall|a: int, b: int|
            0 <= a < b < self.queue@.len() implies self.queue@[a] != self.queue@[b] by {
            assert(self.queue@[a] == pre.queue@[a + 1] && self.queue@[b] == pre.queue@[b + 1]);
        }
    }

    /// When the interpreter reports everything finished and nothing is in
    /// flight, one result was recorded per step.
    proof fn lemma_all_started(&self, n: int)
        requires
            self.inv(),
            self.idle(),
            self.done_buf@.len() == 0,
            n == self.req.steps@.len(),
            self.interp.completed() =~= Set::new(|i: int| 0 <= i < self.interp.n()),
        ensures
            self.actions@.len() == n,
            self.started@.len() == n,
    {
        let s = self.started@;
        lemma_distinct_bounded(s, n);
        let si = s.map_values(|x: usize| x as int);
        assert forall|a: int, b: int| 0 <= a < b < si.len() implies si[a] != si[b] by {
            assert(s[a] != s[b]);
        }
        assert(si.no_duplicates());
        si.unique_seq_to_set();
        assert forall|x: int| set_int_range(0, n).contains(x) implies si.to_set().contains(x) by {
            assert(self.interp.completed().contains(x));
            assert(holds_index(s, x));
            let k = choose|k: int| 0 <= k < s.len() && s[k] as int == x;
            assert(si[k] == x);
        }
        lemma_int_range(0, n);
        lemma_len_subset(set_int_range(0, n), si.to_set());
        assert(si.to_set().len() >= n);
        assert(s.len() >= n);
    }

    /// Runs one started step. A local action completes now; a sandbox or a
    /// spawn is handed out and left in flight.
    fn dispatch(&mut self, step_id: usize) -> (r: Result<Option<Progress>, Error>)
        requires
            old(self).mid_step(step_id),
            inputs_bound(old(self).engine_exec, old(self).req.inputs@),
            null_steps_bound(old(self).engine_exec, old(self).req.steps@, old(self).started@.drop_last()),
        ensures
            final(self).req == old(self).req,
            final(self).started@ == old(self).started@,
            final(self).interp == old(self).interp,
            final(self).queue@ == old(self).queue@,
            final(self).finished == old(self).finished,
            r is Ok ==> final(self).inv() && !final(self).done_spec(),
            r matches Err(e) ==> e != Error::InterpreterStuck && e != Error::NonEmptyExtensions
                && e != Error::BackendFailed,
            r matches Ok(None) ==> final(self).idle(),
            r matches Ok(Some(p)) ==> match p {
                Progress::NeedSandbox { step_id: s, .. } => final(self).awaiting_spec() matches
                    Awaiting::Sandbox(t) && t == s && s == step_id,
                Progress::NeedSpawn { step_id: s, .. } => final(self).awaiting_spec() matches
                    Awaiting::Spawn(t) && t == s && s == step_id,
                Progress::Finished(..) => false,
            },
    {
        let ghost pre = *self;
        let step = &self.req.steps[step_id];
        match &step.action {
            Action::CreateFile { id, readable, writeable } => {
                let res = self.engine_exec.create_file(id, *readable, *writeable)?;
                proof {
                    assert forall|x: Seq<char>|
                        pre.engine_exec.files_spec().contains_id(x) implies
                        self.engine_exec.files_spec().contains_id(x)
                        && self.engine_exec.files_spec().file_of(x)
                        == pre.engine_exec.files_spec().file_of(x) by {
                        assert(x != id@);
                    }
                    self.lemma_dispatch_restores(pre, step_id);
                }
                self.finish_local(step_id, res);
                Ok(None)
            },
            Action::OpenFile { path, id } => {
                let res = self.engine_exec.open_file(path, id)?;
                proof {
                    assert forall|x: Seq<char>|
                        pre.engine_exec.files_spec().contains_id(x) implies
                        self.engine_exec.files_spec().contains_id(x)
                        && self.engine_exec.files_spec().file_of(x)
                        == pre.engine_exec.files_spec().file_of(x) by {
                        assert(x != id@);
                    }
                    self.lemma_dispatch_restores(pre, step_id);
                }
                self.finish_local(step_id, res);
                Ok(None)
            },
            Action::OpenNullFile { id } => {
                let res = self.engine_exec.open_null_file(id)?;
                proof {
                    assert forall|x: Seq<char>|
                        pre.engine_exec.files_spec().contains_id(x) implies
                        self.engine_exec.files_spec().contains_id(x)
                        && self.engine_exec.files_spec().file_of(x)
                        == pre.engine_exec.files_spec().file_of(x) by {
                        assert(x != id@);
                    }
                    assert(action_null_id(self.req.steps@[step_id as int].action) == Some(id@));
                    self.lemma_dispatch_restores(pre, step_id);
                }
                self.finish_local(step_id, res);
                Ok(None)
            },
            Action::CreatePipe { read, write } => {
                let res = self.engine_exec.create_pipe(read, write)?;
                proof {
                    assert forall|x: Seq<char>|
                        pre.engine_exec.files_spec().contains_id(x) implies
                        self.engine_exec.files_spec().contains_id(x)
                        && self.engine_exec.files_spec().file_of(x)
                        == pre.engine_exec.files_spec().file_of(x) by {
                        assert(x != read@ && x != write@);
                    }
                    self.lemma_dispatch_restores(pre, step_id);
                }
                self.finish_local(step_id, res);
                Ok(None)
            },
            Action::CreateVolume(settings) => {
                let res = self.engine_exec.create_volume(settings)?;
                proof {
                    self.lemma_dispatch_restores(pre, step_id);
                }
                self.finish_local(step_id, res);
                Ok(None)
            },
            Action::CreateSandbox(settings) => {
                let (options, warnings) = self.engine_exec.create_sandbox(settings)?;
                proof {
                    self.lemma_dispatch_restores(pre, step_id);
                }
                self.enter_wait(Awaiting::Sandbox(step_id));
                Ok(Some(Progress::NeedSandbox { step_id, options, warnings }))
            },
            Action::ExecuteCommand(cmd) => {
                let spec = self.engine_exec.prepare_command(cmd)?;
                proof {
                    self.lemma_dispatch_restores(pre, step_id);
                }
                self.enter_wait(Awaiting::Spawn(step_id));
                Ok(Some(Progress::NeedSpawn { step_id, spec }))
            },
        }
    }

    /// Books one locally completed step: its result is recorded and its
    /// index queued for the next interpreter poll.
    fn finish_local(&mut self, step_id: usize, res: ActionResult)
        requires
            old(self).mid_step(step_id),
            inputs_bound(old(self).engine_exec, old(self).req.inputs@),
            null_steps_bound(old(self).engine_exec, old(self).req.steps@, old(self).started@),
            result_matches_action(res, old(self).req.steps@[step_id as int].action),
        ensures
            final(self).req == old(self).req,
            final(self).started@ == old(self).started@,
            final(self).interp == old(self).interp,
            final(self).queue@ == old(self).queue@,
            final(self).finished == old(self).finished,
            final(self).inv(),
            final(self).idle(),
    {
        self.actions.push(res);
        self.done_buf.push(step_id);
        proof {
            let pre = *old(self);
            let n = self.req.steps@.len() as int;
            assert forall|k: int|
                0 <= k < self.done_buf@.len() implies (self.done_buf@[k] as int) < n
                && holds_index(self.started@, self.done_buf@[k] as int) by {
                if k < pre.done_buf@.len() {
                    assert(self.done_buf@[k] == pre.done_buf@[k]);
                } else {
                    assert(self.done_buf@[k] == step_id);
                    assert(self.started@[self.started@.len() - 1] == step_id);
                }
            }
            assert forall|k: int|
                0 <= k < self.started@.len() implies self.accounted(
                #[trigger] self.started@[k] as int,
            ) by {
                if k < self.started@.len() - 1 {
                    assert(pre.accounted(pre.started@[k] as int));
                    if holds_index(pre.done_buf@, pre.started@[k] as int) {
                        let t = choose|t: int|
                            0 <= t < pre.done_buf@.len() && pre.done_buf@[t] as int
                                == pre.started@[k] as int;
                        assert(self.done_buf@[t] as int == self.started@[k] as int);
                        assert(holds_index(self.done_buf@, self.started@[k] as int));
                    }
                } else {
                    assert(self.started@[k] == step_id);
                    assert(self.done_buf@[self.done_buf@.len() - 1] == step_id);
                    assert(holds_index(self.done_buf@, step_id as int));
                }
            }
            assert forall|k: int|
                0 <= k < self.actions@.len() implies result_matches_action(
                #[trigger] self.actions@[k],
                self.req.steps@[self.started@[k] as int].action,
            ) by {
                if k < pre.actions@.len() {
                    assert(self.actions@[k] == pre.actions@[k]);
                    assert(result_matches_action(
                        pre.actions@[k],
                        pre.req.steps@[pre.started@[k] as int].action,
                    ));
                } else {
                    assert(self.actions@[k] == res);
                    assert(k == self.started@.len() - 1);
                    assert(self.started@[k] == step_id);
                }
            }
        }
    }

    /// Marks the one outside call in flight.
    fn enter_wait(&mut self, aw: Awaiting)
        requires
            match aw {
                Awaiting::Idle => false,
                Awaiting::Sandbox(s) => old(self).mid_step(s) && old(self).req.steps@[
                    s as int
                ].action is CreateSandbox,
                Awaiting::Spawn(s) => old(self).mid_step(s) && old(self).req.steps@[
                    s as int
                ].action is ExecuteCommand,
            },
            inputs_bound(old(self).engine_exec, old(self).req.inputs@),
            null_steps_bound(old(self).engine_exec, old(self).req.steps@, old(self).started@),
        ensures
            final(self).req == old(self).req,
            final(self).started@ == old(self).started@,
            final(self).interp == old(self).interp,
            final(self).queue@ == old(self).queue@,
            final(self).finished == old(self).finished,
            final(self).inv(),
            final(self).awaiting_spec() == aw,
    {
        self.awaiting = aw;
        proof {
            let pre = *old(self);
            assert forall|k: int|
                0 <= k < self.started@.len() implies self.accounted(
                #[trigger] self.started@[k] as int,
            ) by {
                if k < self.started@.len() - 1 {
                    assert(pre.accounted(pre.started@[k] as int));
                    if holds_index(pre.done_buf@, pre.started@[k] as int) {
                        assert(holds_index(self.done_buf@, self.started@[k] as int));
                    }
                } else {
                    match self.awaiting {
                        Awaiting::Idle => {
                            assert(false);
                        },
                        Awaiting::Sandbox(s) => {
                            assert(self.started@[k] == s);
                        },
                        Awaiting::Spawn(s) => {
                            assert(self.started@[k] == s);
                        },
                    }
                }
            }
        }
    }

    /// After a step's local effects, the accounting, binding and recording
    /// clauses of the invariant hold again.
    proof fn lemma_dispatch_restores(&self, pre: RequestRun, step_id: usize)
        requires
            pre.started@.len() > 0,
            pre.started@.last() == step_id,
            (step_id as int) < pre.req.steps@.len(),
            self.req == pre.req,
            self.interp == pre.interp,
            self.started@ == pre.started@,
            self.queue@ == pre.queue@,
            inputs_bound(pre.engine_exec, pre.req.inputs@),
            null_steps_bound(pre.engine_exec, pre.req.steps@, pre.started@.drop_last()),
            forall|x: Seq<char>|
                pre.engine_exec.files_spec().contains_id(x) ==> self.engine_exec.files_spec().contains_id(x)
                    && self.engine_exec.files_spec().file_of(x) == pre.engine_exec.files_spec().file_of(x),
            action_null_id(self.req.steps@[step_id as int].action) is Some ==> {
                let id = action_null_id(self.req.steps@[step_id as int].action)->0;
                &&& self.engine_exec.files_spec().contains_id(id)
                &&& self.engine_exec.files_spec().file_of(id).content_spec() == Some(
                    Seq::<u8>::empty(),
                )
                &&& self.engine_exec.files_spec().file_of(id).is_readable()
            },
        ensures
            inputs_bound(self.engine_exec, self.req.inputs@),
            null_steps_bound(self.engine_exec, self.req.steps@, pre.started@),
    {
        assert forall|k: int|
            0 <= k < self.req.inputs@.len() implies {
            &&& self.engine_exec.files_spec().contains_id(#[trigger] self.req.inputs@[k].file_id@)
            &&& (spec_input_content(self.req.inputs@[k].source) is Some
                ==> self.engine_exec.files_spec().file_of(self.req.inputs@[k].file_id@).content_spec()
                == spec_input_content(self.req.inputs@[k].source))
            &&& self.engine_exec.files_spec().file_of(self.req.inputs@[k].file_id@).is_readable()
        } by {
            assert(pre.engine_exec.files_spec().contains_id(self.req.inputs@[k].file_id@));
        }
        let dropped = pre.started@.drop_last();
        assert forall|b: int|
            0 <= b < pre.started@.len() && (pre.started@[b] as int) < self.req.steps@.len() && (
            #[trigger] action_null_id(self.req.steps@[pre.started@[b] as int].action)) is Some implies {
            let id = action_null_id(self.req.steps@[pre.started@[b] as int].action)->0;
            &&& self.engine_exec.files_spec().contains_id(id)
            &&& self.engine_exec.files_spec().file_of(id).content_spec() == Some(
                Seq::<u8>::empty(),
            )
            &&& self.engine_exec.files_spec().file_of(id).is_readable()
        } by {
            let id = action_null_id(self.req.steps@[pre.started@[b] as int].action)->0;
            if b < pre.started@.len() - 1 {
                assert(dropped[b] == pre.started@[b]);
                assert(action_null_id(self.req.steps@[dropped[b] as int].action) is Some);
                assert(pre.engine_exec.files_spec().contains_id(id));
            } else {
                assert(pre.started@[b] == step_id);
            }
        }
    }

    /// Records the backend's answer on the sandbox in flight. A backend
    /// failure aborts the whole request.
    pub fn provide_sandbox(&mut self, ok: bool) -> (r: Result<(), Error>)
        requires
            old(self).inv(),
            old(self).awaiting_spec() is Sandbox,
            !old(self).done_spec(),
        ensures
            final(self).req_spec() == old(self).req_spec(),
            !ok <==> r == Err::<(), Error>(Error::BackendFailed),
            r is Ok ==> final(self).inv() && final(self).idle() && !final(self).done_spec()
                && final(self).started_spec() == old(self).started_spec(),
    {
        if !ok {
            return Err(Error::BackendFailed);
        }
        let step_id = match self.awaiting {
            Awaiting::Sandbox(s) => s,
            _ => {
                proof {
                    assert(false);
                }
                0
            },
        };
        self.finish_step(step_id, ActionResult::CreateSandbox);
        Ok(())
    }

    /// Records what became of the spawn in flight: a failure marker with the
    /// sentinel exit code and no usage, or the exit code with its usage.
    pub fn provide_spawn(&mut self, outcome: &SpawnOutcome)
        requires
            old(self).inv(),
            old(self).awaiting_spec() is Spawn,
            !old(self).done_spec(),
        ensures
            final(self).req_spec() == old(self).req_spec(),
            final(self).inv() && final(self).idle() && !final(self).done_spec(),
            final(self).started_spec() == old(self).started_spec(),
            final(self).actions_spec().len() > 0 && match *outcome {
                SpawnOutcome::SpawnFailed => final(self).actions_spec().last() matches
                    ActionResult::ExecuteCommand(cr) && cr.spawn_error is Some && cr.exit_code
                    == i64::MAX && cr.cpu_time is None && cr.memory is None,
                SpawnOutcome::Exited { exit_code, cpu_time, memory } => final(self).actions_spec().last() matches ActionResult::ExecuteCommand(cr) && cr.spawn_error
                    is None && cr.exit_code == exit_code && cr.cpu_time == cpu_time && cr.memory
                    == memory,
            },
    {
        let step_id = match self.awaiting {
            Awaiting::Spawn(s) => s,
            _ => {
                proof {
                    assert(false);
                }
                0
            },
        };
        let res = command_result(outcome);
        self.finish_step(step_id, res);
    }

    /// Books one awaited step as finished under the given result.
    fn finish_step(&mut self, step_id: usize, res: ActionResult)
        requires
            old(self).inv(),
            !old(self).done_spec(),
            match old(self).awaiting_spec() {
                Awaiting::Idle => false,
                Awaiting::Sandbox(s) => s == step_id && res is CreateSandbox,
                Awaiting::Spawn(s) => s == step_id && res is ExecuteCommand,
            },
        ensures
            final(self).req_spec() == old(self).req_spec(),
            final(self).inv(),
            final(self).idle(),
            !final(self).done_spec(),
            final(self).started_spec() == old(self).started_spec(),
            final(self).actions_spec() == old(self).actions_spec().push(res),
    {
        let ghost pre = *self;
        self.actions.push(res);
        self.done_buf.push(step_id);
        self.awaiting = Awaiting::Idle;
        proof {
            let n = self.req.steps@.len() as int;
            assert(self.actions@.len() == self.started@.len());
            assert forall|k: int|
                0 <= k < self.started@.len() implies self.accounted(
                #[trigger] self.started@[k] as int,
            ) by {
                if pre.accounted(self.started@[k] as int) {
                    if pre.interp.completed().contains(self.started@[k] as int) {
                    } else if holds_index(pre.done_buf@, self.started@[k] as int) {
                        let t = choose|t: int|
                            0 <= t < pre.done_buf@.len() && pre.done_buf@[t] as int
                                == self.started@[k] as int;
                        assert(self.done_buf@[t] as int == self.started@[k] as int);
                        assert(holds_index(self.done_buf@, self.started@[k] as int));
                    } else {
                        assert(self.started@[k] as int == step_id as int);
                        assert(self.done_buf@[self.done_buf@.len() - 1] as int == step_id as int);
                        assert(holds_index(self.done_buf@, self.started@[k] as int));
                    }
                }
            }
            assert forall|k: int|
                0 <= k < self.done_buf@.len() implies (self.done_buf@[k] as int) < n
                && holds_index(self.started@, self.done_buf@[k] as int) by {
                if k < pre.done_buf@.len() {
                    assert(pre.done_buf@[k] == self.done_buf@[k]);
                } else {
                    assert(self.done_buf@[k] == step_id);
                    assert(holds_index(self.started@, step_id as int));
                }
            }
            assert forall|k: int|
                0 <= k < self.actions@.len() implies result_matches_action(
                #[trigger] self.actions@[k],
                self.req.steps@[self.started@[k] as int].action,
            ) by {
                if k < pre.actions@.len() {
                    assert(self.actions@[k] == pre.actions@[k]);
                    assert(result_matches_action(
                        pre.actions@[k],
                        pre.req.steps@[pre.started@[k] as int].action,
                    ));
                } else {
                    assert(self.actions@[k] == res);
                    assert(self.started@[k] == pre.started@.last());
                    assert(holds_index(pre.started@, step_id as int));
                    assert(k == pre.started@.len() - 1);
                    assert(self.started@[k] == step_id);
                    assert(result_matches_action(
                        res,
                        self.req.steps@[step_id as int].action,
                    ));
                }
            }
        }
    }

    /// Collects the requested outputs, in request order and under the
    /// requested names, each as the base64 of the bytes read.
    fn collect_outputs(&self) -> (r: Result<Vec<Output>, Error>)
        requires
            self.engine_exec.wf(),
        ensures
            r matches Ok(v) ==> {
                &&& v@.len() == self.req.outputs@.len()
                &&& forall|k: int|
                    0 <= k < v@.len() ==> (#[trigger] v@[k]).name@ == self.req.outputs@[k].name@
                        && output_data_matches(v@[k], self.engine_exec, self.req.outputs@[k])
            },
            (forall|k: int|
                0 <= k < self.req.outputs@.len() ==> output_target_known(
                    self.engine_exec,
                    #[trigger] self.req.outputs@[k],
                )) ==> r is Ok,
            r matches Err(e) ==> e == Error::UnknownFileId || e == Error::NotReadable || e is Sys,
    {
        let ghost all_known = forall|k: int|
            0 <= k < self.req.outputs@.len() ==> output_target_known(
                self.engine_exec,
                #[trigger] self.req.outputs@[k],
            );
        let n: usize = self.req.outputs.len();
        let mut outputs: Vec<Output> = Vec::new();
        let mut k: usize = 0;
        while k < n
            invariant
                0 <= k <= n,
                n == self.req.outputs@.len(),
                self.engine_exec.wf(),
                all_known == (forall|t: int|
                    0 <= t < self.req.outputs@.len() ==> output_target_known(
                        self.engine_exec,
                        #[trigger] self.req.outputs@[t],
                    )),
                outputs@.len() == k,
                forall|t: int|
                    0 <= t < k ==> (#[trigger] outputs@[t]).name@ == self.req.outputs@[t].name@
                        && output_data_matches(outputs@[t], self.engine_exec, self.req.outputs@[t]),
            decreases n - k,
        {
            let oreq = &self.req.outputs[k];
            let bytes: Vec<u8> = match &oreq.target {
                OutputRequestTarget::File(id) => {
                    match self.engine_exec.export(id) {
                        Ok(b) => b,
                        Err(e) => {
                            proof {
                                if all_known {
                                    assert(output_target_known(
                                        self.engine_exec,
                                        self.req.outputs@[k as int],
                                    ));
                                    assert(false);
                                }
                            }
                            return Err(e);
                        },
                    }
                },
                OutputRequestTarget::Path(p) => {
                    proof {
                        if all_known {
                            assert(output_target_known(
                                self.engine_exec,
                                self.req.outputs@[k as int],
                            ));
                            assert(false);
                        }
                    }
                    let f = File::open_read(p.as_str())?;
                    f.read_all()?
                },
            };
            let encoded = sys::b64_encode(&bytes);
            outputs.push(
                Output { name: oreq.name.clone(), data: OutputData::InlineBase64(encoded) },
            );
            k = k + 1;
        }
        Ok(outputs)
    }
}

/// A distinct sequence of indices below `n` has at most `n` entries; with
/// one more index still free, strictly fewer.
proof fn lemma_distinct_bounded_strict(s: Seq<usize>, n: int, q: usize)
    requires
        s.no_duplicates(),
        forall|k: int| 0 <= k < s.len() ==> (s[k] as int) < n,
        (q as int) < n,
        !s.contains(q),
        n >= 0,
    ensures
        s.len() < n,
{
    let si = s.map_values(|x: usize| x as int);
    assert forall|a: int, b: int| 0 <= a < b < si.len() implies si[a] != si[b] by {
        assert(s[a] != s[b]);
    }
    assert(si.no_duplicates());
    si.unique_seq_to_set();
    let with_q = si.to_set().insert(q as int);
    assert forall|x: int| with_q.contains(x) implies set_int_range(0, n).contains(x) by {
        if x == q as int {
        } else {
            assert(si.to_set().contains(x));
            let t = choose|t: int| 0 <= t < si.len() && si[t] == x;
            assert((s[t] as int) < n && s[t] as int >= 0);
        }
    }
    if si.to_set().contains(q as int) {
        let t = choose|t: int| 0 <= t < si.len() && si[t] == q as int;
        assert(s[t] == q);
        assert(s.contains(q));
        assert(false);
    }
    lemma_int_range(0, n);
    lemma_len_subset(with_q, set_int_range(0, n));
    assert(with_q.len() == si.to_set().len() + 1);
    assert(s.len() + 1 <= n);
}

/// A distinct sequence of indices below `n` has at most `n` entries.
proof fn lemma_distinct_bounded(s: Seq<usize>, n: int)
    requires
        s.no_duplicates(),
        forall|k: int| 0 <= k < s.len() ==> (s[k] as int) < n,
        n >= 0,
    ensures
        s.len() <= n,
{
    let si = s.map_values(|x: usize| x as int);
    assert forall|a: int, b: int| 0 <= a < b < si.len() implies si[a] != si[b] by {
        assert(s[a] != s[b]);
    }
    assert(si.no_duplicates());
    si.unique_seq_to_set();
    assert forall|x: int| si.to_set().contains(x) implies set_int_range(0, n).contains(x) by {
        let t = choose|t: int| 0 <= t < si.len() && si[t] == x;
        assert((s[t] as int) < n && s[t] as int >= 0);
    }
    lemma_int_range(0, n);
    lemma_len_subset(si.to_set(), set_int_range(0, n));
}

/// A copy of the recorded results.
fn copy_actions(v: &Vec<ActionResult>) -> (r: Vec<ActionResult>)
    ensures
        r@ == v@,
{
    let n: usize = v.len();
    let mut out: Vec<ActionResult> = Vec::new();
    let mut i: usize = 0;
    while i < n
        invariant
            0 <= i <= n,
            n == v@.len(),
            out@.len() == i,
            forall|t: int| 0 <= t < i ==> out@[t] == v@[t],
        decreases n - i,
    {
        out.push(v[i]);
        i = i + 1;
    }
    proof {
        assert(out@ =~= v@);
    }
    out
}

/// Round trip for buffers: when an input was bound from inline data and an
/// output request names the same id, the returned base64 decodes back to
/// exactly the input's bytes.
pub proof fn lemma_buffer_round_trip(
    resp: InvokeResponse,
    req: InvokeRequest,
    engine_exec: Executor,
    i: int,
    k: int,
)
    requires
        response_matches(resp, req, engine_exec),
        inputs_bound(engine_exec, req.inputs@),
        0 <= i < req.inputs@.len(),
        0 <= k < req.outputs@.len(),
        target_file_id(req.outputs@[k].target) == Some(req.inputs@[i].file_id@),
        spec_input_content(req.inputs@[i].source) is Some,
    ensures
        resp.outputs@[k].data matches OutputData::InlineBase64(s) && sys::b64_decode_of(s@)
            == spec_input_content(req.inputs@[i].source),
{
    assert(engine_exec.files_spec().contains_id(req.inputs@[i].file_id@));
    assert(engine_exec.files_spec().file_of(req.inputs@[i].file_id@).content_spec()
        == spec_input_content(req.inputs@[i].source));
    assert(output_data_matches(resp.outputs@[k], engine_exec, req.outputs@[k]));
}

/// The id an output request exports, when its target is a file id.
pub open spec fn target_file_id(t: OutputRequestTarget) -> Option<Seq<char>> {
    match t {
        OutputRequestTarget::File(id) => Some(id@),
        OutputRequestTarget::Path(_) => None,
    }
}

/// Null file: when a started step bound an id to the empty source and an
/// output request names that id, the returned base64 decodes to no bytes.
pub proof fn lemma_null_file_output(
    resp: InvokeResponse,
    req: InvokeRequest,
    engine_exec: Executor,
    started: Seq<usize>,
    b: int,
    k: int,
)
    requires
        response_matches(resp, req, engine_exec),
        null_steps_bound(engine_exec, req.steps@, started),
        0 <= b < started.len(),
        (started[b] as int) < req.steps@.len(),
        action_null_id(req.steps@[started[b] as int].action) is Some,
        0 <= k < req.outputs@.len(),
        target_file_id(req.outputs@[k].target) == action_null_id(
            req.steps@[started[b] as int].action,
        ),
    ensures
        resp.outputs@[k].data matches OutputData::InlineBase64(s) && sys::b64_decode_of(s@)
            == Some(Seq::<u8>::empty()),
{
    let nid = action_null_id(req.steps@[started[b] as int].action)->0;
    assert(engine_exec.files_spec().contains_id(nid));
    assert(engine_exec.files_spec().file_of(nid).content_spec() == Some(Seq::<u8>::empty()));
    assert(output_data_matches(resp.outputs@[k], engine_exec, req.outputs@[k]));
}

} // verus!
