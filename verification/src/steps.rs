//! Steps: the unit in which this library tells its host what to do.
//!
//! A step names one operation on the host, the path whose presence decides
//! whether it runs at all, the tag under which its failure is reported, and
//! whether a failure ends the plan. The host carries the steps out in order;
//! [`advance`] decides after each one how the plan goes on.

use vstd::prelude::*;
use vstd::string::*;

verus! {

/// The flags of one mount call.
#[derive(Clone, Copy, Debug, PartialEq, Eq)]
pub struct MountFlags {
    pub bind: bool,
    pub recursive: bool,
    pub remount: bool,
    pub read_only: bool,
    pub no_suid: bool,
    pub no_dev: bool,
    pub no_exec: bool,
}

/// No flag set.
pub open spec fn no_flags() -> MountFlags {
    MountFlags {
        bind: false,
        recursive: false,
        remount: false,
        read_only: false,
        no_suid: false,
        no_dev: false,
        no_exec: false,
    }
}

/// One operation on the host.
#[derive(Debug, PartialEq, Eq)]
pub enum Op {
    /// Create the directory and every missing parent.
    MakeDir { path: String },
    /// Create every missing directory above `path`, not `path` itself.
    MakeParentDirs { path: String },
    /// Set the permission bits of `path`.
    SetMode { path: String, mode: u32 },
    /// Create `path` as an empty regular file.
    Touch { path: String },
    /// Write `content` to `path`, replacing what is there.
    WriteFile { path: String, content: Vec<u8> },
    /// Read the whole of `path`.
    ReadFile { path: String },
    /// Mount `source` at `target`.
    Mount {
        source: Option<String>,
        target: String,
        fstype: Option<String>,
        flags: MountFlags,
        data: Option<String>,
    },
    /// Unmount `target`, detaching lazily so that a busy mount goes too.
    Unmount { target: String },
    /// Remove `path` and everything below it.
    RemoveTree { path: String },
}

/// An operation as contracts see it.
pub enum OpView {
    MakeDir { path: Seq<char> },
    MakeParentDirs { path: Seq<char> },
    SetMode { path: Seq<char>, mode: u32 },
    Touch { path: Seq<char> },
    WriteFile { path: Seq<char>, content: Seq<u8> },
    ReadFile { path: Seq<char> },
    Mount {
        source: Option<Seq<char>>,
        target: Seq<char>,
        fstype: Option<Seq<char>>,
        flags: MountFlags,
        data: Option<Seq<char>>,
    },
    Unmount { target: Seq<char> },
    RemoveTree { path: Seq<char> },
}

/// The path that an operation works on: for a mount, where it mounts.
pub open spec fn path_of(op: OpView) -> Seq<char> {
    match op {
        OpView::MakeDir { path } => path,
        OpView::MakeParentDirs { path } => path,
        OpView::SetMode { path, .. } => path,
        OpView::Touch { path } => path,
        OpView::WriteFile { path, .. } => path,
        OpView::ReadFile { path } => path,
        OpView::Mount { target, .. } => target,
        OpView::Unmount { target } => target,
        OpView::RemoveTree { path } => path,
    }
}

/// The text of an optional string.
pub open spec fn text_of(s: Option<String>) -> Option<Seq<char>> {
    match s {
        Some(s) => Some(s@),
        None => None,
    }
}

impl View for Op {
    type V = OpView;

    open spec fn view(&self) -> OpView {
        match *self {
            Op::MakeDir { path } => OpView::MakeDir { path: path@ },
            Op::MakeParentDirs { path } => OpView::MakeParentDirs { path: path@ },
            Op::SetMode { path, mode } => OpView::SetMode { path: path@, mode },
            Op::Touch { path } => OpView::Touch { path: path@ },
            Op::WriteFile { path, content } => OpView::WriteFile { path: path@, content: content@ },
            Op::ReadFile { path } => OpView::ReadFile { path: path@ },
            Op::Mount { source, target, fstype, flags, data } => OpView::Mount {
                source: text_of(source),
                target: target@,
                fstype: text_of(fstype),
                flags,
                data: text_of(data),
            },
            Op::Unmount { target } => OpView::Unmount { target: target@ },
            Op::RemoveTree { path } => OpView::RemoveTree { path: path@ },
        }
    }
}

/// One step of a plan.
#[derive(Debug, PartialEq, Eq)]
pub struct Step {
    /// The step runs only if this path exists on the host; `None` means it
    /// always runs.
    pub guard: Option<String>,
    /// What to do.
    pub op: Op,
    /// The tag that a failure of this step is reported under.
    pub label: String,
    /// Whether a failure ends the plan.
    pub fatal: bool,
}

/// A step as contracts see it.
pub struct StepView {
    pub guard: Option<Seq<char>>,
    pub op: OpView,
    pub label: Seq<char>,
    pub fatal: bool,
}

impl View for Step {
    type V = StepView;

    open spec fn view(&self) -> StepView {
        StepView { guard: text_of(self.guard), op: self.op@, label: self.label@, fatal: self.fatal }
    }
}

/// A plan as contracts see it.
pub open spec fn plan_of(steps: Seq<Step>) -> Seq<StepView> {
    steps.map_values(|s: Step| s@)
}

/// What became of one step.
#[derive(Debug, PartialEq, Eq)]
pub enum Outcome {
    /// The guard path was absent, so nothing was done.
    Skipped,
    /// The operation succeeded.
    Done,
    /// The operation failed; the text is the platform's description of why.
    Failed(String),
}

/// An outcome as contracts see it.
pub enum OutcomeView {
    Skipped,
    Done,
    Failed(Seq<char>),
}

impl View for Outcome {
    type V = OutcomeView;

    open spec fn view(&self) -> OutcomeView {
        match *self {
            Outcome::Skipped => OutcomeView::Skipped,
            Outcome::Done => OutcomeView::Done,
            Outcome::Failed(detail) => OutcomeView::Failed(detail@),
        }
    }
}

/// How a plan goes on after a step.
#[derive(Debug, PartialEq, Eq)]
pub enum Progress {
    /// Carry out the step at this position next.
    Continue(usize),
    /// Every step has been dealt with.
    Complete,
    /// The plan has failed with this message; no further step runs.
    Abort(String),
}

/// Progress as contracts see it.
pub enum ProgressView {
    Continue(int),
    Complete,
    Abort(Seq<char>),
}

impl View for Progress {
    type V = ProgressView;

    open spec fn view(&self) -> ProgressView {
        match *self {
            Progress::Continue(at) => ProgressView::Continue(at as int),
            Progress::Complete => ProgressView::Complete,
            Progress::Abort(message) => ProgressView::Abort(message@),
        }
    }
}

/// The message for a failure under `label` whose cause reads `detail`.
pub open spec fn failure_text(label: Seq<char>, detail: Seq<char>) -> Seq<char> {
    label + ": "@ + detail
}

/// True when the step at `at` is fatal and has failed.
pub open spec fn stops(plan: Seq<StepView>, at: int, outcome: OutcomeView) -> bool {
    0 <= at < plan.len() && plan[at].fatal && outcome is Failed
}

/// How a plan starts: with its first step, or complete at once where it has
/// none.
pub open spec fn first_of(plan: Seq<StepView>) -> ProgressView {
    if plan.len() > 0 {
        ProgressView::Continue(0)
    } else {
        ProgressView::Complete
    }
}

/// How a plan goes on once the step at `at` has ended in `outcome`: a failed
/// fatal step aborts it with the step's label and the cause; anything else
/// moves on to the following step, or completes the plan after the last.
pub open spec fn next_of(plan: Seq<StepView>, at: int, outcome: OutcomeView) -> ProgressView {
    if stops(plan, at, outcome) {
        ProgressView::Abort(failure_text(plan[at].label, outcome->Failed_0))
    } else if at + 1 < plan.len() {
        ProgressView::Continue(at + 1)
    } else {
        ProgressView::Complete
    }
}

/// What comes of carrying out `plan` from the step at `at` on, where the
/// step at each position ends as `outcomes` says: the message of the abort,
/// or `None` where the plan runs to its end.
pub open spec fn failure_from(plan: Seq<StepView>, outcomes: Seq<OutcomeView>, at: int) -> Option<
    Seq<char>,
>
    decreases plan.len() - at,
{
    if at < 0 || at >= plan.len() {
        None
    } else {
        match next_of(plan, at, outcomes[at]) {
            ProgressView::Abort(message) => Some(message),
            _ => failure_from(plan, outcomes, at + 1),
        }
    }
}

/// What comes of carrying out the whole of `plan`.
pub open spec fn failure_of(plan: Seq<StepView>, outcomes: Seq<OutcomeView>) -> Option<Seq<char>> {
    failure_from(plan, outcomes, 0)
}

/// A plan fails exactly where one of its fatal steps fails, and then with
/// the message of the first of them: no step after that one has any part in
/// the result.
pub proof fn lemma_first_failure_decides(
    plan: Seq<StepView>,
    outcomes: Seq<OutcomeView>,
    at: int,
)
    requires
        0 <= at,
    ensures
        failure_from(plan, outcomes, at) is None <==> forall|i: int|
            at <= i < plan.len() ==> !stops(plan, i, #[trigger] outcomes[i]),
        failure_from(plan, outcomes, at) matches Some(message) ==> exists|i: int|
            at <= i < plan.len() && stops(plan, i, #[trigger] outcomes[i]) && message
                == failure_text(plan[i].label, outcomes[i]->Failed_0) && forall|j: int|
                at <= j < i ==> !stops(plan, j, #[trigger] outcomes[j]),
    decreases plan.len() - at,
{
    if at < plan.len() {
        lemma_first_failure_decides(plan, outcomes, at + 1);
        if stops(plan, at, outcomes[at]) {
            assert(failure_from(plan, outcomes, at) == Some(
                failure_text(plan[at].label, outcomes[at]->Failed_0),
            ));
        } else {
            assert(failure_from(plan, outcomes, at) == failure_from(plan, outcomes, at + 1));
            if failure_from(plan, outcomes, at) is Some {
                let message = failure_from(plan, outcomes, at)->0;
                let i = choose|i: int|
                    at + 1 <= i < plan.len() && stops(plan, i, #[trigger] outcomes[i]) && message
                        == failure_text(plan[i].label, outcomes[i]->Failed_0) && forall|j: int|
                        at + 1 <= j < i ==> !stops(plan, j, #[trigger] outcomes[j]);
                assert(forall|j: int| at <= j < i ==> !stops(plan, j, #[trigger] outcomes[j]));
            }
        }
    }
}

/// A plan without a fatal step runs to its end whatever becomes of its
/// steps.
pub proof fn lemma_no_fatal_step_no_failure(plan: Seq<StepView>, outcomes: Seq<OutcomeView>)
    requires
        forall|i: int| 0 <= i < plan.len() ==> !(#[trigger] plan[i]).fatal,
    ensures
        failure_of(plan, outcomes) is None,
{
    lemma_first_failure_decides(plan, outcomes, 0);
}

/// The message for a failure under `label` whose cause reads `detail`.
pub fn failure_message(label: &str, detail: &str) -> (message: String)
    ensures
        message@ == failure_text(label@, detail@),
{
    let mut message = String::from_str(label);
    message.append(": ");
    message.append(detail);
    message
}

/// Appends `step` to `steps`.
pub fn push_step(steps: &mut Vec<Step>, step: Step)
    ensures
        plan_of(final(steps)@) == plan_of(old(steps)@).push(step@),
{
    steps.push(step);
    assert(plan_of(steps@) =~= plan_of(old(steps)@).push(step@));
}

/// Whether the step runs, given whether its guard path exists.
pub fn applies(step: &Step, guard_present: bool) -> (runs: bool)
    ensures
        runs == (step@.guard is None || guard_present),
{
    match &step.guard {
        Some(_) => guard_present,
        None => true,
    }
}

/// How the plan `steps` starts.
pub fn begin(steps: &Vec<Step>) -> (first: Progress)
    ensures
        first@ == first_of(plan_of(steps@)),
{
    if steps.len() > 0 {
        Progress::Continue(0)
    } else {
        Progress::Complete
    }
}

/// How the plan `steps` goes on once the step at `at` has ended in `outcome`.
pub fn advance(steps: &Vec<Step>, at: usize, outcome: &Outcome) -> (next: Progress)
    requires
        at < steps@.len(),
    ensures
        next@ == next_of(plan_of(steps@), at as int, outcome@),
        next matches Progress::Continue(i) ==> i < steps@.len(),
{
    let count = steps.len();
    let step = &steps[at];
    match outcome {
        Outcome::Failed(detail) => {
            if step.fatal {
                return Progress::Abort(failure_message(step.label.as_str(), detail.as_str()));
            }
        },
        _ => {},
    }
    if at + 1 < count {
        Progress::Continue(at + 1)
    } else {
        Progress::Complete
    }
}

} // verus!
