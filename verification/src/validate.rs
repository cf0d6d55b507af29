//! Request validation: the shim must consume and strip every extension bag,
//! so a request that still carries one anywhere is rejected before any
//! action runs.
use vstd::prelude::*;

use crate::api::{Action, Command, Extensions, InvokeRequest, SandboxSettings, Step, VolumeSettings};
use crate::error::Error;

verus! {

/// Whether any extension bag anywhere in the request is non-empty.
pub open spec fn spec_request_has_extensions(req: InvokeRequest) -> bool {
    ||| !req.ext.is_empty_spec()
    ||| exists|i: int| 0 <= i < req.steps@.len() && spec_step_has_extensions(req.steps@[i])
    ||| exists|i: int| 0 <= i < req.inputs@.len() && !req.inputs@[i].ext.is_empty_spec()
    ||| exists|i: int| 0 <= i < req.outputs@.len() && !req.outputs@[i].ext.is_empty_spec()
}

/// Whether a step or its action carries a non-empty extension bag.
pub open spec fn spec_step_has_extensions(step: Step) -> bool {
    ||| !step.ext.is_empty_spec()
    ||| match step.action {
        Action::CreateSandbox(sb) => spec_sandbox_has_extensions(sb),
        Action::CreatePipe { .. } => false,
        Action::CreateFile { .. } => false,
        Action::OpenFile { .. } => false,
        Action::OpenNullFile { .. } => false,
        Action::ExecuteCommand(cmd) => spec_command_has_extensions(cmd),
        Action::CreateVolume(vol) => spec_volume_has_extensions(vol),
    }
}

/// Whether a command, its stdio or one of its variables carries a non-empty bag.
pub open spec fn spec_command_has_extensions(cmd: Command) -> bool {
    ||| !cmd.ext.is_empty_spec()
    ||| !cmd.stdio.ext.is_empty_spec()
    ||| exists|i: int| 0 <= i < cmd.env@.len() && !cmd.env@[i].ext.is_empty_spec()
}

/// Whether sandbox settings, their limits or an exposed entry carries a
/// non-empty bag.
pub open spec fn spec_sandbox_has_extensions(sb: SandboxSettings) -> bool {
    ||| !sb.ext.is_empty_spec()
    ||| !sb.limits.ext.is_empty_spec()
    ||| exists|i: int| 0 <= i < sb.expose@.len() && !sb.expose@[i].ext.is_empty_spec()
}

/// Whether volume settings carry a non-empty bag.
pub open spec fn spec_volume_has_extensions(vol: VolumeSettings) -> bool {
    !vol.ext.is_empty_spec()
}

pub fn request_has_extensions(req: &InvokeRequest) -> (r: bool)
    ensures
        r == spec_request_has_extensions(*req),
{
    if !req.ext.is_empty() {
        return true;
    }
    let n_steps: usize = req.steps.len();
    let mut i: usize = 0;
    while i < n_steps
        invariant
            0 <= i <= n_steps,
            n_steps == req.steps@.len(),
            forall|k: int| 0 <= k < i ==> !spec_step_has_extensions(req.steps@[k]),
        decreases n_steps - i,
    {
        if step_has_extensions(&req.steps[i]) {
            return true;
        }
        i = i + 1;
    }
    let n_inputs: usize = req.inputs.len();
    let mut i: usize = 0;
    while i < n_inputs
        invariant
            0 <= i <= n_inputs,
            n_inputs == req.inputs@.len(),
            forall|k: int| 0 <= k < i ==> req.inputs@[k].ext.is_empty_spec(),
        decreases n_inputs - i,
    {
        if !req.inputs[i].ext.is_empty() {
            return true;
        }
        i = i + 1;
    }
    let n_outputs: usize = req.outputs.len();
    let mut i: usize = 0;
    while i < n_outputs
        invariant
            0 <= i <= n_outputs,
            n_outputs == req.outputs@.len(),
            forall|k: int| 0 <= k < i ==> req.outputs@[k].ext.is_empty_spec(),
        decreases n_outputs - i,
    {
        if !req.outputs[i].ext.is_empty() {
            return true;
        }
        i = i + 1;
    }
    false
}

pub fn step_has_extensions(step: &Step) -> (r: bool)
    ensures
        r == spec_step_has_extensions(*step),
{
    if !step.ext.is_empty() {
        return true;
    }
    match &step.action {
        Action::CreateSandbox(sb) => sandbox_has_extensions(sb),
        Action::CreatePipe { .. } => false,
        Action::CreateFile { .. } => false,
        Action::OpenFile { .. } => false,
        Action::OpenNullFile { .. } => false,
        Action::ExecuteCommand(cmd) => command_has_extensions(cmd),
        Action::CreateVolume(vol) => volume_has_extensions(vol),
    }
}

pub fn command_has_extensions(cmd: &Command) -> (r: bool)
    ensures
        r == spec_command_has_extensions(*cmd),
{
    if !cmd.ext.is_empty() {
        return true;
    }
    if !cmd.stdio.ext.is_empty() {
        return true;
    }
    let n: usize = cmd.env.len();
    let mut i: usize = 0;
    while i < n
        invariant
            0 <= i <= n,
            n == cmd.env@.len(),
            forall|k: int| 0 <= k < i ==> cmd.env@[k].ext.is_empty_spec(),
        decreases n - i,
    {
        if !cmd.env[i].ext.is_empty() {
            return true;
        }
        i = i + 1;
    }
    false
}

pub fn sandbox_has_extensions(sb: &SandboxSettings) -> (r: bool)
    ensures
        r == spec_sandbox_has_extensions(*sb),
{
    if !sb.ext.is_empty() {
        return true;
    }
    if !sb.limits.ext.is_empty() {
        return true;
    }
    let n: usize = sb.expose.len();
    let mut i: usize = 0;
    while i < n
        invariant
            0 <= i <= n,
            n == sb.expose@.len(),
            forall|k: int| 0 <= k < i ==> sb.expose@[k].ext.is_empty_spec(),
        decreases n - i,
    {
        if !sb.expose[i].ext.is_empty() {
            return true;
        }
        i = i + 1;
    }
    false
}

pub fn volume_has_extensions(vol: &VolumeSettings) -> (r: bool)
    ensures
        r == spec_volume_has_extensions(*vol),
{
    !vol.ext.is_empty()
}

/// Rejects a request that still carries extensions anywhere; accepts it
/// otherwise.
pub fn validate_request(req: &InvokeRequest) -> (r: Result<(), Error>)
    ensures
        r is Err <==> spec_request_has_extensions(*req),
        r is Err ==> r == Err::<(), Error>(Error::NonEmptyExtensions),
{
    if request_has_extensions(req) {
        Err(Error::NonEmptyExtensions)
    } else {
        Ok(())
    }
}

} // verus!
