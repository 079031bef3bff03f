use vstd::prelude::*;

verus! {

/// An operation that runs over every selected target.
#[derive(Clone, Copy, Debug, PartialEq, Eq, Structural)]
pub enum Operation {
    Check,
    Build,
    Archive,
}

/// One stage of work on one target.
#[derive(Clone, Copy, Debug, PartialEq, Eq, Structural)]
pub enum Step {
    Check,
    Build,
    Archive,
}

/// The stages an operation runs on each target, in order: archiving always
/// builds first.
pub open spec fn steps_spec(op: Operation) -> Seq<Step> {
    match op {
        Operation::Check => seq![Step::Check],
        Operation::Build => seq![Step::Build],
        Operation::Archive => seq![Step::Build, Step::Archive],
    }
}

pub fn steps(op: Operation) -> (r: Vec<Step>)
    ensures
        r@ == steps_spec(op),
{
    let r = match op {
        Operation::Check => vec![Step::Check],
        Operation::Build => vec![Step::Build],
        Operation::Archive => vec![Step::Build, Step::Archive],
    };
    assert(r@ =~= steps_spec(op));
    r
}

/// What the caller does next.
#[derive(Clone, Copy, Debug, PartialEq, Eq, Structural)]
pub enum Action {
    /// Run `step` on the target at index `target` and report how it went.
    Run { target: usize, step: Step },
    /// Every step on every target succeeded.
    Done,
    /// A step failed; its error is the outcome and nothing more runs.
    Abort,
}

/// Progress of one operation over `n_targets` targets, run one after the
/// other, stage by stage, stopping at the first failure.
#[derive(Clone, Copy, Debug)]
pub struct Batch {
    pub op: Operation,
    pub n_targets: usize,
    /// The target whose stage runs next.
    pub target: usize,
    /// The index, within `steps_spec(op)`, of the stage that runs next.
    pub step: usize,
    pub failed: bool,
}

impl Batch {
    pub open spec fn wf(&self) -> bool {
        &&& self.target <= self.n_targets
        &&& self.step < steps_spec(self.op).len()
        &&& self.target == self.n_targets ==> self.step == 0
    }

    pub open spec fn action_spec(&self) -> Action {
        if self.failed {
            Action::Abort
        } else if self.target >= self.n_targets {
            Action::Done
        } else {
            Action::Run { target: self.target, step: steps_spec(self.op)[self.step as int] }
        }
    }

    /// The batch once the running stage has been reported.
    pub open spec fn after(&self, succeeded: bool) -> Batch {
        if !succeeded {
            Batch { failed: true, ..*self }
        } else if self.step + 1 < steps_spec(self.op).len() {
            Batch { step: (self.step + 1) as usize, ..*self }
        } else {
            Batch { target: (self.target + 1) as usize, step: 0, ..*self }
        }
    }

    /// A batch at the first stage of the first target.
    pub fn new(op: Operation, n_targets: usize) -> (r: Batch)
        ensures
            r.wf(),
            r.op == op,
            r.n_targets == n_targets,
            r.target == 0,
            r.step == 0,
            !r.failed,
    {
        Batch { op, n_targets, target: 0, step: 0, failed: false }
    }

    pub fn next_action(&self) -> (r: Action)
        requires
            self.wf(),
        ensures
            r == self.action_spec(),
    {
        if self.failed {
            Action::Abort
        } else if self.target >= self.n_targets {
            Action::Done
        } else {
            let steps = steps(self.op);
            Action::Run { target: self.target, step: steps[self.step] }
        }
    }

    /// Records how the stage that `next_action` asked for went.
    pub fn record(&mut self, succeeded: bool)
        requires
            old(self).wf(),
            old(self).action_spec() is Run,
        ensures
            *final(self) == old(self).after(succeeded),
            final(self).wf(),
            !succeeded ==> final(self).action_spec() == Action::Abort,
    {
        if !succeeded {
            self.failed = true;
        } else {
            let n = steps(self.op).len();
            if self.step + 1 < n {
                self.step = self.step + 1;
            } else {
                self.target = self.target + 1;
                self.step = 0;
            }
        }
    }
}

/// Once a stage has failed nothing more runs, whatever is reported after.
pub proof fn lemma_failure_is_final(b: Batch, succeeded: bool)
    requires
        b.wf(),
        b.failed,
    ensures
        b.action_spec() == Action::Abort,
        b.after(succeeded).action_spec() == Action::Abort,
{
}

/// Archiving a target always builds it first: an archive stage comes right
/// after a successful build stage of the same target, and a failed build
/// stops the batch before the archive stage.
pub proof fn lemma_archive_follows_build(b: Batch, t: usize)
    requires
        b.wf(),
    ensures
        b.action_spec() == (Action::Run { target: t, step: Step::Archive }) ==> {
            &&& b.op == Operation::Archive
            &&& b.step == 1
            &&& steps_spec(b.op)[0] == Step::Build
        },
        b.op == Operation::Archive && b.action_spec() == (Action::Run { target: t, step: Step::Build }) ==> {
            &&& b.after(true).action_spec() == (Action::Run { target: t, step: Step::Archive })
            &&& b.after(false).action_spec() == Action::Abort
        },
{
}

} // verus!
