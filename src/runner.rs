//! Running scripts: up in order, down in reverse, stopping at the first failure.

use vstd::prelude::*;

use crate::config::{LoadedScript, ScriptCommand};
use crate::error::ForceError;

verus! {

/// One step of a pipeline: a script's command, or nothing to run.
pub struct PlannedStep {
    pub name: String,
    pub category: String,
    pub description: String,
    /// The shell command to run; `None` for a teardown step of a script without `down`.
    pub command: Option<String>,
}

/// The description to show for a command: its own, else the script's name.
pub open spec fn description_of(c: ScriptCommand, name: String) -> Seq<char> {
    match c.description {
        Some(d) => d@,
        None => name@,
    }
}

/// `st` is the up step of script `s`.
pub open spec fn is_up_step(s: LoadedScript, st: PlannedStep) -> bool {
    &&& st.name@ == s.name@
    &&& st.category@ == s.script.meta.category@
    &&& st.description@ == description_of(s.script.up, s.name)
    &&& st.command matches Some(c) && c@ == s.script.up.run@
}

/// `st` is the teardown step of script `s`.
pub open spec fn is_down_step(s: LoadedScript, st: PlannedStep) -> bool {
    &&& st.name@ == s.name@
    &&& st.category@ == s.script.meta.category@
    &&& match s.script.down {
        Some(d) => st.description@ == description_of(d, s.name) && (st.command matches Some(c)
            && c@ == d.run@),
        None => st.command is None,
    }
}

/// The line shown before a step runs.
pub open spec fn header_of(st: PlannedStep) -> Seq<char> {
    "["@ + st.category@ + "/"@ + st.name@ + "] "@ + st.description@
}

/// The line shown for a step that is skipped.
pub open spec fn skip_notice_of(st: PlannedStep) -> Seq<char> {
    "["@ + st.category@ + "/"@ + st.name@ + "] (no down script, skipping)"@
}

/// What the caller is asked to do next.
pub enum StepAction {
    /// Show `header`, then run `command` with the session's environment.
    Run { header: String, command: String },
    /// Show `notice`; nothing runs.
    Skip { notice: String },
    /// Every step has been taken.
    Succeeded,
    /// A step failed; nothing more runs.
    Failed,
}

/// A run of scripts, one at a time, stopping at the first that fails.
pub struct Pipeline {
    pub steps: Vec<PlannedStep>,
    /// The index of the step to take next.
    pub next: usize,
    /// Why the run stopped, once a step has failed.
    pub failure: Option<ForceError>,
    /// Whether this run tears a session down.
    pub down: bool,
}

/// The status a step's exit code gives: success on zero, and `-1` where there is no code.
pub open spec fn exit_code_of(exit: Option<i32>) -> i32 {
    match exit {
        Some(c) => c,
        None => -1i32,
    }
}

impl Pipeline {
    /// The steps of `p` are the up steps of `scripts`, in the same order, none taken yet.
    pub open spec fn plans_up(self, scripts: Seq<LoadedScript>) -> bool {
        &&& self.steps@.len() == scripts.len()
        &&& forall|i: int| 0 <= i < scripts.len() ==> is_up_step(scripts[i], #[trigger] self.steps@[i])
        &&& self.next == 0
        &&& self.failure is None
        &&& !self.down
    }

    /// The steps of `p` are the teardown steps of `scripts`, in reverse order, none taken yet.
    pub open spec fn plans_down(self, scripts: Seq<LoadedScript>) -> bool {
        &&& self.steps@.len() == scripts.len()
        &&& forall|i: int|
            0 <= i < scripts.len() ==> is_down_step(
                scripts[scripts.len() - 1 - i],
                #[trigger] self.steps@[i],
            )
        &&& self.next == 0
        &&& self.failure is None
        &&& self.down
    }

    /// The step to take next runs a command.
    pub open spec fn runs_command(self) -> bool {
        &&& self.failure is None
        &&& self.next < self.steps@.len()
        &&& self.steps@[self.next as int].command is Some
    }

    /// The pipeline after the step it is at has exited with `exit`.
    pub open spec fn advanced(self, exit: Option<i32>) -> Pipeline {
        if self.failure is Some || self.next >= self.steps@.len() {
            self
        } else if self.steps@[self.next as int].command is None || exit == Some(0i32) {
            Pipeline { next: (self.next + 1) as usize, ..self }
        } else {
            Pipeline {
                failure: Some(
                    ForceError::ScriptFailed {
                        name: self.steps@[self.next as int].name,
                        code: exit_code_of(exit),
                        down: self.down,
                    },
                ),
                ..self
            }
        }
    }

    /// Plans the up run: every script's `up` command, in the given order.
    pub fn up(scripts: &Vec<LoadedScript>) -> (r: Pipeline)
        ensures
            r.plans_up(scripts@),
    {
        let mut steps: Vec<PlannedStep> = Vec::new();
        let mut i: usize = 0;
        while i < scripts.len()
            invariant
                i <= scripts@.len(),
                steps@.len() == i,
                forall|j: int| 0 <= j < i ==> is_up_step(scripts@[j], #[trigger] steps@[j]),
            decreases scripts@.len() - i,
        {
            let s = &scripts[i];
            steps.push(
                PlannedStep {
                    name: s.name.clone(),
                    category: s.script.meta.category.clone(),
                    description: describe(&s.script.up, &s.name),
                    command: Some(s.script.up.run.clone()),
                },
            );
            i = i + 1;
        }
        Pipeline { steps, next: 0, failure: None, down: false }
    }

    /// Plans the teardown run: every script's `down` command, in reverse order; a script
    /// without one becomes a step that is skipped.
    pub fn down(scripts: &Vec<LoadedScript>) -> (r: Pipeline)
        ensures
            r.plans_down(scripts@),
    {
        let mut steps: Vec<PlannedStep> = Vec::new();
        let n = scripts.len();
        let mut i: usize = 0;
        while i < n
            invariant
                n == scripts@.len(),
                i <= n,
                steps@.len() == i,
                forall|j: int| 0 <= j < i ==> is_down_step(scripts@[n - 1 - j], #[trigger] steps@[j]),
            decreases n - i,
        {
            let s = &scripts[n - 1 - i];
            let step = match &s.script.down {
                Some(d) => PlannedStep {
                    name: s.name.clone(),
                    category: s.script.meta.category.clone(),
                    description: describe(d, &s.name),
                    command: Some(d.run.clone()),
                },
                None => PlannedStep {
                    name: s.name.clone(),
                    category: s.script.meta.category.clone(),
                    description: s.name.clone(),
                    command: None,
                },
            };
            steps.push(step);
            i = i + 1;
        }
        Pipeline { steps, next: 0, failure: None, down: true }
    }

    /// The action that the pipeline calls for now.
    pub fn next_action(&self) -> (r: StepAction)
        ensures
            self.failure is Some <==> r is Failed,
            (self.failure is None && self.next >= self.steps@.len()) <==> r is Succeeded,
            r is Run <==> self.runs_command(),
            self.runs_command() ==> (r matches StepAction::Run { header, command } && header@
                == header_of(self.steps@[self.next as int]) && Some(command)
                == self.steps@[self.next as int].command),
            (self.failure is None && self.next < self.steps@.len() && self.steps@[self.next as int].command is None)
                ==> (r matches StepAction::Skip { notice } && notice@ == skip_notice_of(
                self.steps@[self.next as int],
            )),
    {
        if self.failure.is_some() {
            return StepAction::Failed;
        }
        if self.next >= self.steps.len() {
            return StepAction::Succeeded;
        }
        let st = &self.steps[self.next];
        match &st.command {
            Some(c) => StepAction::Run { header: header(st), command: c.clone() },
            None => StepAction::Skip { notice: skip_notice(st) },
        }
    }

    /// Takes in how the current step ended: its exit code, or `None` where the process
    /// gave none. The code is ignored for a step that is skipped.
    pub fn advance(&mut self, exit: Option<i32>)
        ensures
            *final(self) == old(self).advanced(exit),
    {
        if self.failure.is_some() || self.next >= self.steps.len() {
            return;
        }
        let skipped = self.steps[self.next].command.is_none();
        let ok = match exit {
            Some(c) => c == 0,
            None => false,
        };
        if skipped || ok {
            self.next = self.next + 1;
        } else {
            let code = match exit {
                Some(c) => c,
                None => -1,
            };
            let name = self.steps[self.next].name.clone();
            self.failure = Some(ForceError::ScriptFailed { name, code, down: self.down });
        }
    }

    /// Whether the run is over, by success or by failure.
    pub fn is_finished(&self) -> (r: bool)
        ensures
            r == (self.failure is Some || self.next >= self.steps@.len()),
    {
        self.failure.is_some() || self.next >= self.steps.len()
    }

    /// How the run ended: `Ok` once every step has been taken, the failure once one failed,
    /// `None` while steps remain.
    pub fn outcome(self) -> (r: Option<Result<(), ForceError>>)
        ensures
            self.failure matches Some(e) ==> r == Some(Err::<(), ForceError>(e)),
            self.failure is None && self.next >= self.steps@.len() ==> r == Some(
                Ok::<(), ForceError>(()),
            ),
            self.failure is None && self.next < self.steps@.len() ==> r is None,
    {
        match self.failure {
            Some(e) => Some(Err(e)),
            None => if self.next >= self.steps.len() {
                Some(Ok(()))
            } else {
                None
            },
        }
    }
}

fn describe(c: &ScriptCommand, name: &String) -> (r: String)
    ensures
        r@ == description_of(*c, *name),
{
    match &c.description {
        Some(d) => d.clone(),
        None => name.clone(),
    }
}

fn bracketed(st: &PlannedStep) -> (r: String)
    ensures
        r@ == "["@ + st.category@ + "/"@ + st.name@ + "] "@,
{
    let mut s = String::from_str("[");
    s.append(st.category.as_str());
    s.append("/");
    s.append(st.name.as_str());
    s.append("] ");
    s
}

fn header(st: &PlannedStep) -> (r: String)
    ensures
        r@ == header_of(*st),
{
    let mut s = bracketed(st);
    s.append(st.description.as_str());
    s
}

fn skip_notice(st: &PlannedStep) -> (r: String)
    ensures
        r@ == skip_notice_of(*st),
{
    let mut s = String::from_str("[");
    s.append(st.category.as_str());
    s.append("/");
    s.append(st.name.as_str());
    s.append("] (no down script, skipping)");
    s
}

/// The pipeline after each of `exits` in turn.
pub open spec fn run_all(p: Pipeline, exits: Seq<Option<i32>>) -> Pipeline
    decreases exits.len(),
{
    if exits.len() == 0 {
        p
    } else {
        run_all(p.advanced(exits[0]), exits.drop_first())
    }
}

/// A stopped pipeline stays as it is, whatever comes in.
pub proof fn lemma_failed_pipeline_stays(p: Pipeline, exits: Seq<Option<i32>>)
    requires
        p.failure is Some,
    ensures
        run_all(p, exits) == p,
    decreases exits.len(),
{
    if exits.len() > 0 {
        lemma_failed_pipeline_stays(p.advanced(exits[0]), exits.drop_first());
    }
}

/// A script that exits unsuccessfully stops the run: the pipeline fails with that script's
/// name and status, and whatever comes in afterwards, no further command is run.
pub proof fn lemma_failure_stops_pipeline(p: Pipeline, exit: Option<i32>, later: Seq<Option<i32>>)
    requires
        p.runs_command(),
        exit != Some(0i32),
    ensures
        ({
            let q = run_all(p.advanced(exit), later);
            &&& q.failure == Some(
                ForceError::ScriptFailed {
                    name: p.steps@[p.next as int].name,
                    code: exit_code_of(exit),
                    down: p.down,
                },
            )
            &&& q.next == p.next
            &&& !q.runs_command()
        }),
{
    lemma_failed_pipeline_stays(p.advanced(exit), later);
}

/// A run succeeds when every step it takes exits with zero.
pub proof fn lemma_all_zero_succeeds(p: Pipeline, exits: Seq<Option<i32>>)
    requires
        p.failure is None,
        p.next <= p.steps@.len() <= usize::MAX,
        exits.len() == p.steps@.len() - p.next,
        forall|i: int| 0 <= i < exits.len() ==> exits[i] == Some(0i32),
    ensures
        run_all(p, exits).failure is None,
        run_all(p, exits).next == p.steps@.len(),
    decreases exits.len(),
{
    if exits.len() > 0 {
        lemma_all_zero_succeeds(p.advanced(exits[0]), exits.drop_first());
    }
}

/// On teardown a script without a `down` command is skipped, not failed: its step runs
/// nothing and the run moves on to the next step, whatever exit is reported for it.
pub proof fn lemma_missing_down_is_skipped(
    scripts: Seq<LoadedScript>,
    p: Pipeline,
    i: int,
    exit: Option<i32>,
)
    requires
        p.plans_down(scripts),
        p.steps@.len() <= usize::MAX,
        0 <= i < scripts.len(),
        scripts[scripts.len() - 1 - i].script.down is None,
    ensures
        p.steps@[i].command is None,
        ({
            let q = Pipeline { next: i as usize, ..p };
            &&& !q.runs_command()
            &&& q.advanced(exit).failure is None
            &&& q.advanced(exit).next == i + 1
        }),
{
    assert(is_down_step(scripts[scripts.len() - 1 - i], p.steps@[i]));
}

/// Teardown takes the scripts in exactly the reverse of the order in which they were
/// brought up.
pub proof fn lemma_down_reverses_up(scripts: Seq<LoadedScript>, up: Pipeline, down: Pipeline)
    requires
        up.plans_up(scripts),
        down.plans_down(scripts),
    ensures
        up.steps@.len() == down.steps@.len(),
        forall|i: int|
            0 <= i < scripts.len() ==> (#[trigger] down.steps@[i]).name@ == up.steps@[scripts.len()
                - 1 - i].name@ && down.steps@[i].category@ == up.steps@[scripts.len() - 1 - i].category@,
{
    assert forall|i: int| 0 <= i < scripts.len() implies (#[trigger] down.steps@[i]).name@
        == up.steps@[scripts.len() - 1 - i].name@ && down.steps@[i].category@ == up.steps@[scripts.len()
        - 1 - i].category@ by {
        assert(is_down_step(scripts[scripts.len() - 1 - i], down.steps@[i]));
        assert(is_up_step(scripts[scripts.len() - 1 - i], up.steps@[scripts.len() - 1 - i]));
    }
}

} // verus!
