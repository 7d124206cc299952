//! The workflows start, finish, drop and track, as a state machine. Each
//! call of `advance` takes the reply to the previous request and returns the
//! next request to the version-control tool or the hook runner, or the end.
use vstd::prelude::*;
use vstd::string::*;
use crate::config::{contains_string, copy_strings, strs, BranchType, Command, Strategy, TargetBranch};
use crate::hook::{exec_hook, hook_args_of, hook_of, Hook};
use crate::matcher::{expand_targets, match_targets, targets_view};

verus! {

/// The workflow to run on a branch.
#[derive(Clone, Copy, Debug, PartialEq, Eq, Structural)]
pub enum Task {
    Start,
    Finish,
    Drop,
    Track,
}

/// Where a workflow stands: what it asked last and now waits for.
#[derive(Clone, Copy, Debug, PartialEq, Eq, Structural)]
pub enum Stage {
    /// Nothing asked yet.
    Begin,
    /// The list of local branches.
    Branches,
    /// The gating hook before the action.
    BeforeHook,
    /// Creating the new branch.
    Create,
    /// Switching to the new branch.
    SwitchNew,
    /// The commits that the current cherry-pick target lacks.
    TargetDiff,
    /// The report that the current cherry-pick target was skipped.
    Skipped,
    /// Switching to the current target.
    TargetSwitch,
    /// Integrating into the current target.
    Integrate,
    /// Switching back to the source branch.
    SourceSwitch,
    /// Deleting the branch.
    Delete,
    /// The best-effort hook after the action.
    AfterHook,
    /// The commits ahead of the source branch.
    Ahead,
    /// Showing those commits.
    Log,
    /// Finished: nothing more is asked.
    Done,
}

/// How a workflow ended.
#[derive(Clone, Copy, Debug, PartialEq, Eq, Structural)]
pub enum Ending {
    Completed,
    /// The action completed; the hook after it failed, with this detail.
    AfterHookFailed,
    /// Track found no commits ahead of the source branch.
    NothingAhead,
    /// The version-control tool failed, with this detail.
    VcsFailed,
    /// The source branch, named in the detail, does not exist.
    SourceMissing,
    /// The branch to create, named in the detail, exists already.
    BranchExists,
    /// The branch, named in the detail, does not exist.
    BranchMissing,
    /// The gating hook failed, with this detail.
    HookFailed,
    /// Merging into the target named in the detail met conflicts.
    MergeConflict,
}

pub open spec fn ending_ok(e: Ending) -> bool {
    e == Ending::Completed || e == Ending::AfterHookFailed || e == Ending::NothingAhead
}

impl Ending {
    /// Whether the workflow's action completed.
    pub fn is_ok(&self) -> (r: bool)
        ensures
            r == ending_ok(*self),
    {
        match self {
            Ending::Completed | Ending::AfterHookFailed | Ending::NothingAhead => true,
            _ => false,
        }
    }
}

/// What a workflow asks for next.
#[derive(Debug)]
pub enum Step {
    ListLocalBranches,
    RunHook { command: String, args: Vec<String> },
    CreateLocalBranch { source: String, name: String },
    Switch { branch: String },
    /// Merge `source` into the checked-out branch.
    Merge { source: String },
    /// Rebase the checked-out branch onto `base`.
    Rebase { base: String },
    /// The commits on `source` that `target` lacks, oldest first.
    DiffCommits { source: String, target: String },
    /// Apply these commits, in this order, to the checked-out branch.
    CherryPick { commits: Vec<String> },
    DeleteLocalBranch { branch: String },
    /// Show the log of the commits on `source` that `target` lacks.
    ShowLog { source: String, target: String },
    /// Report that `target` has nothing to cherry-pick and is skipped.
    NothingToPick { target: String },
    Finished { ending: Ending, detail: String },
}

/// A step as plain values.
pub enum StepV {
    ListLocalBranches,
    RunHook(Seq<char>, Seq<Seq<char>>),
    CreateLocalBranch(Seq<char>, Seq<char>),
    Switch(Seq<char>),
    Merge(Seq<char>),
    Rebase(Seq<char>),
    DiffCommits(Seq<char>, Seq<char>),
    CherryPick(Seq<Seq<char>>),
    DeleteLocalBranch(Seq<char>),
    ShowLog(Seq<char>, Seq<char>),
    NothingToPick(Seq<char>),
    Finished(Ending, Seq<char>),
}

impl View for Step {
    type V = StepV;

    open spec fn view(&self) -> StepV {
        match self {
            Step::ListLocalBranches => StepV::ListLocalBranches,
            Step::RunHook { command, args } => StepV::RunHook(command@, strs(args@)),
            Step::CreateLocalBranch { source, name } => StepV::CreateLocalBranch(source@, name@),
            Step::Switch { branch } => StepV::Switch(branch@),
            Step::Merge { source } => StepV::Merge(source@),
            Step::Rebase { base } => StepV::Rebase(base@),
            Step::DiffCommits { source, target } => StepV::DiffCommits(source@, target@),
            Step::CherryPick { commits } => StepV::CherryPick(strs(commits@)),
            Step::DeleteLocalBranch { branch } => StepV::DeleteLocalBranch(branch@),
            Step::ShowLog { source, target } => StepV::ShowLog(source@, target@),
            Step::NothingToPick { target } => StepV::NothingToPick(target@),
            Step::Finished { ending, detail } => StepV::Finished(*ending, detail@),
        }
    }
}

/// The answer to the last step: done, the branches or commits it listed, or
/// the failure with the error text that was captured.
#[derive(Debug)]
pub enum Reply {
    Done,
    Branches(Vec<String>),
    Commits(Vec<String>),
    Failed(String),
}

/// The branch or commit list that a reply carries; empty for the others.
pub open spec fn reply_list(r: Reply) -> Seq<Seq<char>> {
    match r {
        Reply::Branches(v) => strs(v@),
        Reply::Commits(v) => strs(v@),
        _ => seq![],
    }
}

/// The error text of a failed reply; empty for the others.
pub open spec fn reply_text(r: Reply) -> Seq<char> {
    match r {
        Reply::Failed(e) => e@,
        _ => seq![],
    }
}

/// One workflow on one branch of one branch type.
pub struct Flow {
    pub task: Task,
    pub branch_type: BranchType,
    pub short_name: String,
    pub full_name: String,
    pub stage: Stage,
    /// The expanded targets of a finish, once the branches are known.
    pub targets: Vec<TargetBranch>,
    /// The position of the target being integrated.
    pub current: usize,
    /// The commits to cherry-pick into the current target.
    pub commits: Vec<String>,
}

pub open spec fn hook_step(c: Option<Command>, short: Seq<char>) -> StepV
    recommends
        c is Some,
{
    StepV::RunHook(c->0.command@, hook_args_of(strs(c->0.args@), short))
}

pub open spec fn finished(e: Ending, detail: Seq<char>) -> (Stage, int, StepV) {
    (Stage::Done, 0, StepV::Finished(e, detail))
}

/// The first request for target `i` of `tv`, or the switch back to the
/// source branch once every target is done.
pub open spec fn begin_target(
    tv: Seq<(Seq<char>, Strategy)>,
    full: Seq<char>,
    from: Seq<char>,
    i: int,
) -> (Stage, int, StepV) {
    if i >= tv.len() {
        (Stage::SourceSwitch, i, StepV::Switch(from))
    } else if tv[i].1 == Strategy::CherryPick {
        (Stage::TargetDiff, i, StepV::DiffCommits(full, tv[i].0))
    } else {
        (Stage::TargetSwitch, i, StepV::Switch(tv[i].0))
    }
}

/// The hook at `c` if there is one, else `otherwise`.
pub open spec fn gate(
    c: Option<Command>,
    short: Seq<char>,
    otherwise: (Stage, int, StepV),
) -> (Stage, int, StepV) {
    match c {
        Some(_) => (Stage::BeforeHook, 0, hook_step(c, short)),
        None => otherwise,
    }
}

/// The best-effort hook at `c` if there is one, else the end.
pub open spec fn after_hook(c: Option<Command>, short: Seq<char>, cur: int) -> (Stage, int, StepV) {
    match c {
        Some(_) => (Stage::AfterHook, cur, hook_step(c, short)),
        None => finished(Ending::Completed, seq![]),
    }
}

/// The action that the gating hook guards.
pub open spec fn after_gate(f: Flow, tv: Seq<(Seq<char>, Strategy)>) -> (Stage, int, StepV) {
    let full = f.full_name@;
    let from = f.branch_type.from@;
    match f.task {
        Task::Start => (Stage::Create, 0, StepV::CreateLocalBranch(from, full)),
        Task::Finish => begin_target(tv, full, from, 0),
        _ => (Stage::SourceSwitch, 0, StepV::Switch(from)),
    }
}

/// What follows the list `bs` of local branches.
pub open spec fn on_branches(f: Flow, bs: Seq<Seq<char>>, tv: Seq<(Seq<char>, Strategy)>) -> (
    Stage,
    int,
    StepV,
) {
    let bt = f.branch_type;
    let full = f.full_name@;
    let from = bt.from@;
    let short = f.short_name@;
    match f.task {
        Task::Start => if !bs.contains(from) {
            finished(Ending::SourceMissing, from)
        } else if bs.contains(full) {
            finished(Ending::BranchExists, full)
        } else {
            gate(hook_of(bt, Hook::BeforeStart), short, after_gate(f, tv))
        },
        Task::Finish => if !bs.contains(full) {
            finished(Ending::BranchMissing, full)
        } else {
            gate(hook_of(bt, Hook::BeforeFinish), short, after_gate(f, tv))
        },
        Task::Drop => if !bs.contains(full) {
            finished(Ending::BranchMissing, full)
        } else {
            gate(hook_of(bt, Hook::BeforeDrop), short, after_gate(f, tv))
        },
        Task::Track => if !bs.contains(full) {
            finished(Ending::BranchMissing, full)
        } else {
            (Stage::Ahead, 0, StepV::DiffCommits(full, from))
        },
    }
}

/// The integration of the branch `full` with `strategy`.
pub open spec fn integrate(strategy: Strategy, full: Seq<char>, commits: Seq<Seq<char>>) -> StepV {
    match strategy {
        Strategy::Merge => StepV::Merge(full),
        Strategy::Rebase => StepV::Rebase(full),
        Strategy::CherryPick => StepV::CherryPick(commits),
    }
}

/// A failed integration into `target`: a merge that failed without a word
/// met conflicts; otherwise the tool's error stands.
pub open spec fn integration_failure(strategy: Strategy, target: Seq<char>, text: Seq<char>) -> (
    Stage,
    int,
    StepV,
) {
    if strategy == Strategy::Merge && text.len() == 0 {
        finished(Ending::MergeConflict, target)
    } else {
        finished(Ending::VcsFailed, text)
    }
}

/// The targets of `f` after `reply`: expanded when a finish learns the
/// branches, unchanged otherwise.
pub open spec fn next_targets(f: Flow, reply: Reply) -> Seq<(Seq<char>, Strategy)> {
    if f.stage == Stage::Branches && f.task == Task::Finish && !(reply is Failed) {
        expand_targets(targets_view(f.branch_type.to@), reply_list(reply))
    } else {
        targets_view(f.targets@)
    }
}

/// The commits of `f` after `reply`: those that a cherry-pick target lacks,
/// once learnt.
pub open spec fn next_commits(f: Flow, reply: Reply) -> Seq<Seq<char>> {
    if f.stage == Stage::TargetDiff && !(reply is Failed) {
        reply_list(reply)
    } else {
        strs(f.commits@)
    }
}

/// The stage, target position and step that follow `reply` in `f`.
pub open spec fn next_of(f: Flow, reply: Reply) -> (Stage, int, StepV) {
    let bt = f.branch_type;
    let full = f.full_name@;
    let from = bt.from@;
    let short = f.short_name@;
    let cur = f.current as int;
    let tv = next_targets(f, reply);
    let failed = reply is Failed;
    let text = reply_text(reply);
    match f.stage {
        Stage::Begin => (Stage::Branches, cur, StepV::ListLocalBranches),
        Stage::Branches => if failed {
            finished(Ending::VcsFailed, text)
        } else {
            on_branches(f, reply_list(reply), tv)
        },
        Stage::BeforeHook => if failed {
            finished(Ending::HookFailed, text)
        } else {
            after_gate(f, tv)
        },
        Stage::Create => if failed {
            finished(Ending::VcsFailed, text)
        } else {
            (Stage::SwitchNew, cur, StepV::Switch(full))
        },
        Stage::SwitchNew => if failed {
            finished(Ending::VcsFailed, text)
        } else {
            after_hook(hook_of(bt, Hook::AfterStart), short, cur)
        },
        Stage::TargetDiff => if failed {
            finished(Ending::VcsFailed, text)
        } else if reply_list(reply).len() == 0 {
            (Stage::Skipped, cur, StepV::NothingToPick(tv[cur].0))
        } else {
            (Stage::TargetSwitch, cur, StepV::Switch(tv[cur].0))
        },
        Stage::Skipped => begin_target(tv, full, from, cur + 1),
        Stage::TargetSwitch => if failed {
            finished(Ending::VcsFailed, text)
        } else {
            (Stage::Integrate, cur, integrate(tv[cur].1, full, next_commits(f, reply)))
        },
        Stage::Integrate => if failed {
            integration_failure(tv[cur].1, tv[cur].0, text)
        } else {
            begin_target(tv, full, from, cur + 1)
        },
        Stage::SourceSwitch => if failed {
            finished(Ending::VcsFailed, text)
        } else {
            (Stage::Delete, cur, StepV::DeleteLocalBranch(full))
        },
        Stage::Delete => if failed {
            finished(Ending::VcsFailed, text)
        } else if f.task == Task::Finish {
            after_hook(hook_of(bt, Hook::AfterFinish), short, cur)
        } else {
            after_hook(hook_of(bt, Hook::AfterDrop), short, cur)
        },
        Stage::AfterHook => if failed {
            finished(Ending::AfterHookFailed, text)
        } else {
            finished(Ending::Completed, seq![])
        },
        Stage::Ahead => if failed {
            finished(Ending::VcsFailed, text)
        } else if reply_list(reply).len() == 0 {
            finished(Ending::NothingAhead, seq![])
        } else {
            (Stage::Log, cur, StepV::ShowLog(full, from))
        },
        Stage::Log => if failed {
            finished(Ending::VcsFailed, text)
        } else {
            finished(Ending::Completed, seq![])
        },
        Stage::Done => finished(Ending::Completed, seq![]),
    }
}

/// `g` and `s` are the flow and the step that follow `reply` in `f`.
pub open spec fn advances(f: Flow, reply: Reply, g: Flow, s: StepV) -> bool {
    &&& g.task == f.task
    &&& g.branch_type == f.branch_type
    &&& g.short_name@ == f.short_name@
    &&& g.full_name@ == f.full_name@
    &&& targets_view(g.targets@) == next_targets(f, reply)
    &&& strs(g.commits@) == next_commits(f, reply)
    &&& (g.stage, g.current as int, s) == next_of(f, reply)
}

fn finish_with(ending: Ending, detail: String) -> (r: (Stage, usize, Step))
    ensures
        (r.0, r.1 as int, r.2@) == finished(ending, detail@),
{
    (Stage::Done, 0, Step::Finished { ending, detail })
}

fn begin_target_step(targets: &Vec<TargetBranch>, full: &String, from: &String, i: usize) -> (r: (
    Stage,
    usize,
    Step,
))
    requires
        i <= targets@.len(),
    ensures
        (r.0, r.1 as int, r.2@) == begin_target(targets_view(targets@), full@, from@, i as int),
        r.1 <= targets@.len(),
        r.0 == Stage::TargetDiff || r.0 == Stage::TargetSwitch ==> r.1 < targets@.len(),
{
    if i >= targets.len() {
        (Stage::SourceSwitch, i, Step::Switch { branch: from.clone() })
    } else if targets[i].strategy == Strategy::CherryPick {
        (
            Stage::TargetDiff,
            i,
            Step::DiffCommits { source: full.clone(), target: targets[i].name.clone() },
        )
    } else {
        (Stage::TargetSwitch, i, Step::Switch { branch: targets[i].name.clone() })
    }
}

fn split_reply(reply: Reply) -> (r: (bool, String, Vec<String>))
    ensures
        r.0 == reply is Failed,
        r.1@ == reply_text(reply),
        strs(r.2@) == reply_list(reply),
{
    match reply {
        Reply::Done => (false, String::new(), Vec::new()),
        Reply::Branches(v) => (false, String::new(), v),
        Reply::Commits(v) => (false, String::new(), v),
        Reply::Failed(e) => (true, e, Vec::new()),
    }
}

impl Flow {
    /// The target position stays within the targets, and points at one while
    /// a target is worked on; each stage belongs to the tasks that pass it.
    pub open spec fn wf(&self) -> bool {
        let s = self.stage;
        let t = self.task;
        &&& self.current <= self.targets@.len()
        &&& (s == Stage::TargetDiff || s == Stage::Skipped || s == Stage::TargetSwitch || s
            == Stage::Integrate) ==> self.current < self.targets@.len() && t == Task::Finish
        &&& (s == Stage::Create || s == Stage::SwitchNew) ==> t == Task::Start
        &&& (s == Stage::SourceSwitch || s == Stage::Delete) ==> (t == Task::Finish || t
            == Task::Drop)
        &&& (s == Stage::Ahead || s == Stage::Log) ==> t == Task::Track
        &&& (s == Stage::BeforeHook || s == Stage::AfterHook) ==> t != Task::Track
    }

    /// A workflow of `task` on the branch `full_name`, whose short name is
    /// `short_name`, of `branch_type`. Nothing is asked yet.
    pub fn new(task: Task, branch_type: BranchType, short_name: String, full_name: String) -> (r:
        Flow)
        ensures
            r.task == task,
            r.branch_type == branch_type,
            r.short_name == short_name,
            r.full_name == full_name,
            r.stage == Stage::Begin,
            r.current == 0,
            r.targets@.len() == 0,
            r.commits@.len() == 0,
            r.wf(),
    {
        Flow {
            task,
            branch_type,
            short_name,
            full_name,
            stage: Stage::Begin,
            targets: Vec::new(),
            current: 0,
            commits: Vec::new(),
        }
    }

    pub open spec fn is_done(&self) -> bool {
        self.stage == Stage::Done
    }

    fn gate_step(&self, hook: Hook, otherwise: (Stage, usize, Step)) -> (r: (Stage, usize, Step))
        ensures
            (r.0, r.1 as int, r.2@) == gate(
                hook_of(self.branch_type, hook),
                self.short_name@,
                (otherwise.0, otherwise.1 as int, otherwise.2@),
            ),
            r.1 == 0 || r == otherwise,
    {
        match exec_hook(&self.branch_type, hook, self.short_name.as_str()) {
            Some(c) => (Stage::BeforeHook, 0, Step::RunHook { command: c.command, args: c.args }),
            None => otherwise,
        }
    }

    fn after_hook_step(&self, hook: Hook) -> (r: (Stage, usize, Step))
        ensures
            (r.0, r.1 as int, r.2@) == after_hook(
                hook_of(self.branch_type, hook),
                self.short_name@,
                self.current as int,
            ),
    {
        match exec_hook(&self.branch_type, hook, self.short_name.as_str()) {
            Some(c) => (
                Stage::AfterHook,
                self.current,
                Step::RunHook { command: c.command, args: c.args },
            ),
            None => finish_with(Ending::Completed, String::new()),
        }
    }

    fn after_gate_step(&self) -> (r: (Stage, usize, Step))
        ensures
            (r.0, r.1 as int, r.2@) == after_gate(*self, targets_view(self.targets@)),
            r.1 <= self.targets@.len(),
            r.0 == Stage::TargetDiff || r.0 == Stage::TargetSwitch ==> r.1 < self.targets@.len(),
    {
        match self.task {
            Task::Start => (
                Stage::Create,
                0,
                Step::CreateLocalBranch {
                    source: self.branch_type.from.clone(),
                    name: self.full_name.clone(),
                },
            ),
            Task::Finish => begin_target_step(
                &self.targets,
                &self.full_name,
                &self.branch_type.from,
                0,
            ),
            _ => (Stage::SourceSwitch, 0, Step::Switch { branch: self.branch_type.from.clone() }),
        }
    }

    fn branches_step(&self, bs: &Vec<String>) -> (r: (Stage, usize, Step))
        ensures
            (r.0, r.1 as int, r.2@) == on_branches(*self, strs(bs@), targets_view(self.targets@)),
            r.1 <= self.targets@.len(),
            r.0 == Stage::TargetDiff || r.0 == Stage::TargetSwitch ==> r.1 < self.targets@.len(),
    {
        let from = &self.branch_type.from;
        let full = &self.full_name;
        match self.task {
            Task::Start => {
                if !contains_string(bs, from) {
                    finish_with(Ending::SourceMissing, from.clone())
                } else if contains_string(bs, full) {
                    finish_with(Ending::BranchExists, full.clone())
                } else {
                    self.gate_step(Hook::BeforeStart, self.after_gate_step())
                }
            },
            Task::Finish => {
                if !contains_string(bs, full) {
                    finish_with(Ending::BranchMissing, full.clone())
                } else {
                    self.gate_step(Hook::BeforeFinish, self.after_gate_step())
                }
            },
            Task::Drop => {
                if !contains_string(bs, full) {
                    finish_with(Ending::BranchMissing, full.clone())
                } else {
                    self.gate_step(Hook::BeforeDrop, self.after_gate_step())
                }
            },
            Task::Track => {
                if !contains_string(bs, full) {
                    finish_with(Ending::BranchMissing, full.clone())
                } else {
                    (Stage::Ahead, 0, Step::DiffCommits { source: full.clone(), target: from.clone() })
                }
            },
        }
    }

    /// Takes the reply to the last step and returns the next one.
    pub fn advance(&mut self, reply: Reply) -> (step: Step)
        requires
            old(self).wf(),
            !old(self).is_done(),
        ensures
            final(self).wf(),
            advances(*old(self), reply, *final(self), step@),
            final(self).is_done() <==> step is Finished,
    {
        let ghost f = *self;
        let (failed, text, list) = split_reply(reply);
        let cur = self.current;
        let next: (Stage, usize, Step) = match self.stage {
            Stage::Begin => (Stage::Branches, cur, Step::ListLocalBranches),
            Stage::Branches => {
                if failed {
                    finish_with(Ending::VcsFailed, text)
                } else {
                    if self.task == Task::Finish {
                        self.targets = match_targets(&self.branch_type.to, &list);
                    }
                    self.branches_step(&list)
                }
            },
            Stage::BeforeHook => {
                if failed {
                    finish_with(Ending::HookFailed, text)
                } else {
                    self.after_gate_step()
                }
            },
            Stage::Create => {
                if failed {
                    finish_with(Ending::VcsFailed, text)
                } else {
                    (Stage::SwitchNew, cur, Step::Switch { branch: self.full_name.clone() })
                }
            },
            Stage::SwitchNew => {
                if failed {
                    finish_with(Ending::VcsFailed, text)
                } else {
                    self.after_hook_step(Hook::AfterStart)
                }
            },
            Stage::TargetDiff => {
                if failed {
                    finish_with(Ending::VcsFailed, text)
                } else if list.len() == 0 {
                    self.commits = list;
                    (
                        Stage::Skipped,
                        cur,
                        Step::NothingToPick { target: self.targets[cur].name.clone() },
                    )
                } else {
                    self.commits = list;
                    (Stage::TargetSwitch, cur, Step::Switch { branch: self.targets[cur].name.clone() })
                }
            },
            Stage::Skipped => {
                let n = self.targets.len();
                assert(cur < n);
                begin_target_step(&self.targets, &self.full_name, &self.branch_type.from, cur + 1)
            },
            Stage::TargetSwitch => {
                if failed {
                    finish_with(Ending::VcsFailed, text)
                } else {
                    let step = match self.targets[cur].strategy {
                        Strategy::Merge => Step::Merge { source: self.full_name.clone() },
                        Strategy::Rebase => Step::Rebase { base: self.full_name.clone() },
                        Strategy::CherryPick => Step::CherryPick {
                            commits: copy_strings(&self.commits),
                        },
                    };
                    (Stage::Integrate, cur, step)
                }
            },
            Stage::Integrate => {
                if failed {
                    if self.targets[cur].strategy == Strategy::Merge && text.unicode_len() == 0 {
                        finish_with(Ending::MergeConflict, self.targets[cur].name.clone())
                    } else {
                        finish_with(Ending::VcsFailed, text)
                    }
                } else {
                    let n = self.targets.len();
                    assert(cur < n);
                    begin_target_step(
                        &self.targets,
                        &self.full_name,
                        &self.branch_type.from,
                        cur + 1,
                    )
                }
            },
            Stage::SourceSwitch => {
                if failed {
                    finish_with(Ending::VcsFailed, text)
                } else {
                    (Stage::Delete, cur, Step::DeleteLocalBranch { branch: self.full_name.clone() })
                }
            },
            Stage::Delete => {
                if failed {
                    finish_with(Ending::VcsFailed, text)
                } else if self.task == Task::Finish {
                    self.after_hook_step(Hook::AfterFinish)
                } else {
                    self.after_hook_step(Hook::AfterDrop)
                }
            },
            Stage::AfterHook => {
                if failed {
                    finish_with(Ending::AfterHookFailed, text)
                } else {
                    finish_with(Ending::Completed, String::new())
                }
            },
            Stage::Ahead => {
                if failed {
                    finish_with(Ending::VcsFailed, text)
                } else if list.len() == 0 {
                    finish_with(Ending::NothingAhead, String::new())
                } else {
                    (
                        Stage::Log,
                        cur,
                        Step::ShowLog {
                            source: self.full_name.clone(),
                            target: self.branch_type.from.clone(),
                        },
                    )
                }
            },
            Stage::Log => {
                if failed {
                    finish_with(Ending::VcsFailed, text)
                } else {
                    finish_with(Ending::Completed, String::new())
                }
            },
            Stage::Done => finish_with(Ending::Completed, String::new()),
        };
        self.stage = next.0;
        self.current = next.1;
        next.2
    }
}

/// A start of `full_name`, whose short name is `short_name`, of `branch_type`.
pub fn start_task(branch_type: BranchType, short_name: String, full_name: String) -> (r: Flow)
    ensures
        r.task == Task::Start,
        r.branch_type == branch_type,
        r.short_name == short_name,
        r.full_name == full_name,
        r.stage == Stage::Begin,
        r.wf(),
{
    Flow::new(Task::Start, branch_type, short_name, full_name)
}

/// A finish of `full_name`, whose short name is `short_name`, of `branch_type`.
pub fn finish_task(branch_type: BranchType, short_name: String, full_name: String) -> (r: Flow)
    ensures
        r.task == Task::Finish,
        r.branch_type == branch_type,
        r.short_name == short_name,
        r.full_name == full_name,
        r.stage == Stage::Begin,
        r.wf(),
{
    Flow::new(Task::Finish, branch_type, short_name, full_name)
}

/// A drop of `full_name`, whose short name is `short_name`, of `branch_type`.
pub fn drop_task(branch_type: BranchType, short_name: String, full_name: String) -> (r: Flow)
    ensures
        r.task == Task::Drop,
        r.branch_type == branch_type,
        r.short_name == short_name,
        r.full_name == full_name,
        r.stage == Stage::Begin,
        r.wf(),
{
    Flow::new(Task::Drop, branch_type, short_name, full_name)
}

/// A track of `full_name`, whose short name is `short_name`, of `branch_type`.
pub fn track_task(branch_type: BranchType, short_name: String, full_name: String) -> (r: Flow)
    ensures
        r.task == Task::Track,
        r.branch_type == branch_type,
        r.short_name == short_name,
        r.full_name == full_name,
        r.stage == Stage::Begin,
        r.wf(),
{
    Flow::new(Task::Track, branch_type, short_name, full_name)
}

/// A cherry-pick target that lacks no commit is skipped with a report and
/// the workflow goes on: whatever answers the report, the next step starts
/// the following target, or switches back to the source branch after the
/// last one.
pub proof fn empty_cherry_pick_is_skipped(
    f: Flow,
    reply: Reply,
    g: Flow,
    s: StepV,
    reply2: Reply,
    h: Flow,
    s2: StepV,
)
    requires
        f.wf(),
        f.stage == Stage::TargetDiff,
        !(reply is Failed),
        reply_list(reply).len() == 0,
        advances(f, reply, g, s),
        advances(g, reply2, h, s2),
    ensures
        s == StepV::NothingToPick(f.targets@[f.current as int].name@),
        !g.is_done(),
        f.current + 1 < f.targets@.len() ==> h.current == f.current + 1 && (s2 == StepV::Switch(
            f.targets@[f.current + 1].name@,
        ) || s2 == StepV::DiffCommits(f.full_name@, f.targets@[f.current + 1].name@)),
        f.current + 1 == f.targets@.len() ==> s2 == StepV::Switch(f.branch_type.from@),
{
    assert(targets_view(f.targets@)[f.current as int] == (
        f.targets@[f.current as int].name@,
        f.targets@[f.current as int].strategy,
    ));
    if f.current + 1 < f.targets@.len() {
        assert(targets_view(g.targets@)[f.current + 1] == (
            f.targets@[f.current + 1].name@,
            f.targets@[f.current + 1].strategy,
        ));
    }
}

/// A start creates its branch only right after the hook before start
/// succeeded, or right after the branch check when no such hook is set.
pub proof fn creation_follows_before_start_hook(f: Flow, reply: Reply, g: Flow, s: StepV)
    requires
        f.wf(),
        f.task == Task::Start,
        advances(f, reply, g, s),
        s is CreateLocalBranch,
    ensures
        !(reply is Failed),
        f.stage == Stage::BeforeHook || (f.stage == Stage::Branches && hook_of(
            f.branch_type,
            Hook::BeforeStart,
        ) is None),
{
}

/// A failing hook after finish ends the workflow as a success that reports
/// the failure, and asks for nothing more: the branch is not re-created.
pub proof fn failing_after_finish_hook_keeps_deletion(f: Flow, reply: Reply, g: Flow, s: StepV)
    requires
        f.task == Task::Finish,
        f.stage == Stage::AfterHook,
        reply is Failed,
        advances(f, reply, g, s),
    ensures
        g.is_done(),
        s == StepV::Finished(Ending::AfterHookFailed, reply_text(reply)),
        ending_ok(Ending::AfterHookFailed),
{
}

/// In a finish, the hook after it runs only once the branch was deleted.
pub proof fn after_finish_hook_follows_deletion(f: Flow, reply: Reply, g: Flow, s: StepV)
    requires
        f.wf(),
        f.task == Task::Finish,
        advances(f, reply, g, s),
        g.stage == Stage::AfterHook,
    ensures
        f.stage == Stage::Delete,
        !(reply is Failed),
{
}

/// `flows`, `replies` and `steps` are a run: each step is what `advance`
/// returned for the reply in the flow before it, from well-formed flows that
/// had not finished.
pub open spec fn is_run(flows: Seq<Flow>, replies: Seq<Reply>, steps: Seq<StepV>) -> bool {
    &&& flows.len() == steps.len() + 1
    &&& replies.len() == steps.len()
    &&& forall|i: int| 0 <= i < flows.len() ==> #[trigger] flows[i].wf()
    &&& forall|i: int|
        0 <= i < steps.len() ==> !flows[i].is_done() && advances(
            flows[i],
            replies[i],
            flows[i + 1],
            #[trigger] steps[i],
        )
}

/// How far a start has come.
pub open spec fn start_rank(s: Stage) -> int {
    match s {
        Stage::Begin => 0,
        Stage::Branches => 1,
        Stage::BeforeHook => 2,
        Stage::Create => 3,
        Stage::SwitchNew => 4,
        Stage::AfterHook => 5,
        _ => 6,
    }
}

proof fn lemma_start_moves_on(f: Flow, reply: Reply, g: Flow, s: StepV)
    requires
        f.wf(),
        g.wf(),
        f.task == Task::Start,
        !f.is_done(),
        advances(f, reply, g, s),
    ensures
        start_rank(g.stage) > start_rank(f.stage),
        s is CreateLocalBranch ==> g.stage == Stage::Create,
{
}

proof fn lemma_start_rank_grows(flows: Seq<Flow>, replies: Seq<Reply>, steps: Seq<StepV>, j: int, i: int)
    requires
        is_run(flows, replies, steps),
        flows[0].task == Task::Start,
        0 <= j < i < flows.len(),
    ensures
        start_rank(flows[j].stage) < start_rank(flows[i].stage),
        flows[i].task == Task::Start,
    decreases i - j,
{
    assert(flows[i - 1].wf() && flows[i].wf());
    assert(advances(flows[i - 1], replies[i - 1], flows[i], steps[i - 1]));
    lemma_task_kept(flows, replies, steps, i - 1);
    if j < i - 1 {
        lemma_start_rank_grows(flows, replies, steps, j, i - 1);
    }
    lemma_start_moves_on(flows[i - 1], replies[i - 1], flows[i], steps[i - 1]);
}

/// In a run of a start, once the hook before start fails, the run ends with
/// that failure and no step of the run, before or after, creates the branch.
pub proof fn failing_before_start_hook_stops_the_run(
    flows: Seq<Flow>,
    replies: Seq<Reply>,
    steps: Seq<StepV>,
    i: int,
)
    requires
        is_run(flows, replies, steps),
        flows[0].task == Task::Start,
        0 <= i < steps.len(),
        flows[i].stage == Stage::BeforeHook,
        replies[i] is Failed,
    ensures
        steps.len() == i + 1,
        steps[i] == StepV::Finished(Ending::HookFailed, reply_text(replies[i])),
        forall|k: int| 0 <= k < steps.len() ==> !(#[trigger] steps[k] is CreateLocalBranch),
{
    if i > 0 {
        lemma_start_rank_grows(flows, replies, steps, 0, i);
    }
    assert(advances(flows[i], replies[i], flows[i + 1], steps[i]));
    if steps.len() > i + 1 {
        assert(advances(flows[i + 1], replies[i + 1], flows[i + 2], steps[i + 1]));
    }
    assert forall|k: int| 0 <= k < steps.len() implies !(#[trigger] steps[k] is CreateLocalBranch) by {
        if k < i {
            assert(flows[k].wf() && flows[k + 1].wf());
            assert(advances(flows[k], replies[k], flows[k + 1], steps[k]));
            if k > 0 {
                lemma_start_rank_grows(flows, replies, steps, 0, k);
            }
            if k + 1 < i {
                lemma_start_rank_grows(flows, replies, steps, k + 1, i);
            }
            lemma_start_moves_on(flows[k], replies[k], flows[k + 1], steps[k]);
        }
    }
}

/// No step of a finish creates a branch: in particular a failing hook after
/// finish, which ends the run as a success, leaves the deleted branch deleted.
pub proof fn finish_never_creates(flows: Seq<Flow>, replies: Seq<Reply>, steps: Seq<StepV>)
    requires
        is_run(flows, replies, steps),
        flows[0].task == Task::Finish,
    ensures
        forall|k: int| 0 <= k < steps.len() ==> !(#[trigger] steps[k] is CreateLocalBranch),
{
    assert forall|k: int| 0 <= k < steps.len() implies !(#[trigger] steps[k] is CreateLocalBranch) by {
        lemma_task_kept(flows, replies, steps, k);
        assert(advances(flows[k], replies[k], flows[k + 1], steps[k]));
    }
}

proof fn lemma_task_kept(flows: Seq<Flow>, replies: Seq<Reply>, steps: Seq<StepV>, k: int)
    requires
        is_run(flows, replies, steps),
        0 <= k < flows.len(),
    ensures
        flows[k].task == flows[0].task,
    decreases k,
{
    if k > 0 {
        lemma_task_kept(flows, replies, steps, k - 1);
        assert(advances(flows[k - 1], replies[k - 1], flows[k], steps[k - 1]));
    }
}

} // verus!
