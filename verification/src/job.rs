//! Work on the host that consists of several steps.
//!
//! A job is a list of groups of tasks. The tasks of a group are done in order
//! until one fails. Where a group that is required fails, what it left behind
//! is undone and the job fails; the failure of any other group is passed over.
//! A job only tells what to do next: the caller does it and hands back what
//! became of it.

use crate::host::{step_error, steps_view, under, with_context, HostOutput, Step, StepView};
use crate::network::nftables::{
    chain_listing, list_chain, listing, rule_deletion, rule_deletions, selected_handles, Selector,
    SelectorView,
};
use crate::text::{lines, opt_text, owned};
use vstd::prelude::*;

verus! {

/// A piece of work.
#[derive(Debug)]
pub enum Task {
    /// Run a step.
    Run(Step),
    /// Run a step that tells how things are, then other steps according to
    /// whether it ended well. If it cannot be run, the task fails if that is
    /// required, else nothing more is done.
    Choose { check: Step, must_run: bool, passed: Vec<Step>, failed: Vec<Step> },
    /// List a chain of the firewall and delete the rules that are meant.
    DeleteRules { chain: String, selector: Selector },
    /// Write a file, whatever becomes of it.
    Write { path: String, content: String },
}

/// The contents of a [`Task`].
pub enum TaskView {
    Run(StepView),
    Choose { check: StepView, must_run: bool, passed: Seq<StepView>, failed: Seq<StepView> },
    DeleteRules { chain: Seq<char>, selector: SelectorView },
    Write { path: Seq<char>, content: Seq<char> },
}

impl View for Task {
    type V = TaskView;

    open spec fn view(&self) -> TaskView {
        match *self {
            Task::Run(s) => TaskView::Run(s@),
            Task::Choose { check, must_run, passed, failed } => TaskView::Choose {
                check: check@,
                must_run,
                passed: steps_view(passed@),
                failed: steps_view(failed@),
            },
            Task::DeleteRules { chain, selector } => TaskView::DeleteRules {
                chain: chain@,
                selector: selector@,
            },
            Task::Write { path, content } => TaskView::Write { path: path@, content: content@ },
        }
    }
}

/// The contents of a list of tasks.
pub open spec fn tasks_view(s: Seq<Task>) -> Seq<TaskView> {
    Seq::new(s.len(), |i: int| s[i]@)
}

/// Tasks that are done in order until one fails.
#[derive(Debug)]
pub struct Group {
    pub tasks: Vec<Task>,
    /// Whether the job fails if the group does.
    pub required: bool,
    /// What the error of the group is put under.
    pub heading: Option<String>,
    /// What is run if the group is required and fails, whatever becomes of it.
    pub undo: Vec<Step>,
}

/// The contents of a [`Group`].
pub struct GroupView {
    pub tasks: Seq<TaskView>,
    pub required: bool,
    pub heading: Option<Seq<char>>,
    pub undo: Seq<StepView>,
}

impl View for Group {
    type V = GroupView;

    open spec fn view(&self) -> GroupView {
        GroupView {
            tasks: tasks_view(self.tasks@),
            required: self.required,
            heading: opt_text(self.heading),
            undo: steps_view(self.undo@),
        }
    }
}

/// The contents of a list of groups.
pub open spec fn groups_view(s: Seq<Group>) -> Seq<GroupView> {
    Seq::new(s.len(), |i: int| s[i]@)
}

/// A group whose failure fails the job.
pub open spec fn must(
    tasks: Seq<TaskView>,
    heading: Seq<char>,
    undo: Seq<StepView>,
) -> GroupView {
    GroupView { tasks, required: true, heading: Some(heading), undo }
}

/// A group whose failure is passed over.
pub open spec fn may(tasks: Seq<TaskView>) -> GroupView {
    GroupView { tasks, required: false, heading: None, undo: seq![] }
}

/// A job and how far it has come.
#[derive(Debug)]
pub enum Job {
    /// The groups that are left.
    Working(Vec<Group>),
    /// A group failed; the steps that are left to undo it.
    Undoing { steps: Vec<Step>, error: String },
}

/// The contents of a [`Job`].
pub enum JobView {
    Working(Seq<GroupView>),
    Undoing { steps: Seq<StepView>, error: Seq<char> },
}

impl View for Job {
    type V = JobView;

    open spec fn view(&self) -> JobView {
        match *self {
            Job::Working(groups) => JobView::Working(groups_view(groups@)),
            Job::Undoing { steps, error } => JobView::Undoing {
                steps: steps_view(steps@),
                error: error@,
            },
        }
    }
}

/// A job whose next group, if there is one, has something left to do.
pub open spec fn job_ok(v: JobView) -> bool {
    match v {
        JobView::Working(groups) => groups.len() > 0 ==> groups[0].tasks.len() > 0,
        JobView::Undoing { .. } => true,
    }
}

/// The groups from the first one on that has something left to do.
pub open spec fn settled(groups: Seq<GroupView>) -> Seq<GroupView>
    decreases groups.len(),
{
    if groups.len() > 0 && groups[0].tasks.len() == 0 {
        settled(groups.skip(1))
    } else {
        groups
    }
}

/// The job that consists of these groups.
pub open spec fn job_of(groups: Seq<GroupView>) -> JobView {
    JobView::Working(settled(groups))
}

/// Steps as tasks.
pub open spec fn runs(steps: Seq<StepView>) -> Seq<TaskView> {
    Seq::new(steps.len(), |i: int| TaskView::Run(steps[i]))
}

/// The commands that delete the rules that are meant from a chain.
pub open spec fn deletions(
    chain: Seq<char>,
    selector: SelectorView,
    shown: Seq<char>,
) -> Seq<StepView> {
    let handles = selected_handles(lines(shown), selector);
    Seq::new(handles.len(), |i: int| rule_deletion(chain, handles[i]))
}

/// What is left of a task after a reply, or why it failed.
pub open spec fn task_after(t: TaskView, reply: Result<HostOutput, String>) -> Result<
    Seq<TaskView>,
    Seq<char>,
> {
    match t {
        TaskView::Run(s) => match step_error(s, reply) {
            Some(e) => if s.required {
                Err(e)
            } else {
                Ok(seq![])
            },
            None => Ok(seq![]),
        },
        TaskView::Choose { check, must_run, passed, failed } => match reply {
            Ok(o) => Ok(
                runs(
                    if o.success {
                        passed
                    } else {
                        failed
                    },
                ),
            ),
            Err(e) => if must_run {
                Err(under(check.context, check.unavailable + ": "@ + e@))
            } else {
                Ok(seq![])
            },
        },
        TaskView::DeleteRules { chain, selector } => Ok(
            runs(deletions(chain, selector, listing(reply))),
        ),
        TaskView::Write { .. } => Ok(seq![]),
    }
}

/// A job after a reply to what it asked for.
pub open spec fn job_after(v: JobView, reply: Result<HostOutput, String>) -> JobView {
    match v {
        JobView::Working(groups) => if groups.len() == 0 || groups[0].tasks.len() == 0 {
            v
        } else {
            let g = groups[0];
            match task_after(g.tasks[0], reply) {
                Ok(more) => job_of(
                    seq![GroupView { tasks: more + g.tasks.skip(1), ..g }] + groups.skip(1),
                ),
                Err(e) => if g.required {
                    JobView::Undoing { steps: g.undo, error: under(g.heading, e) }
                } else {
                    job_of(groups.skip(1))
                },
            }
        },
        JobView::Undoing { steps, error } => if steps.len() == 0 {
            v
        } else {
            JobView::Undoing { steps: steps.skip(1), error }
        },
    }
}

/// What a job asks for.
#[derive(Debug)]
pub enum Action {
    Run(Step),
    Write { path: String, content: String },
    /// All is done.
    Done,
    /// The job failed, and why.
    Failed(String),
}

/// The contents of an [`Action`].
pub enum ActionView {
    Run(StepView),
    Write { path: Seq<char>, content: Seq<char> },
    Done,
    Failed(Seq<char>),
}

impl View for Action {
    type V = ActionView;

    open spec fn view(&self) -> ActionView {
        match *self {
            Action::Run(s) => ActionView::Run(s@),
            Action::Write { path, content } => ActionView::Write { path: path@, content: content@ },
            Action::Done => ActionView::Done,
            Action::Failed(e) => ActionView::Failed(e@),
        }
    }
}

/// What a task asks for first.
pub open spec fn task_action(t: TaskView) -> ActionView {
    match t {
        TaskView::Run(s) => ActionView::Run(s),
        TaskView::Choose { check, .. } => ActionView::Run(check),
        TaskView::DeleteRules { chain, .. } => ActionView::Run(chain_listing(chain)),
        TaskView::Write { path, content } => ActionView::Write { path, content },
    }
}

/// What a job asks for.
pub open spec fn job_action(v: JobView) -> ActionView {
    match v {
        JobView::Working(groups) => if groups.len() == 0 {
            ActionView::Done
        } else {
            task_action(groups[0].tasks[0])
        },
        JobView::Undoing { steps, error } => if steps.len() == 0 {
            ActionView::Failed(error)
        } else {
            ActionView::Run(steps[0])
        },
    }
}

/// A group whose failure fails the job.
pub fn must_do(tasks: Vec<Task>, heading: &str, undo: Vec<Step>) -> (g: Group)
    ensures
        g@ == must(tasks_view(tasks@), heading@, steps_view(undo@)),
{
    Group { tasks, required: true, heading: Some(owned(heading)), undo }
}

/// A group whose failure is passed over.
pub fn may_do(tasks: Vec<Task>) -> (g: Group)
    ensures
        g@ == may(tasks_view(tasks@)),
{
    let undo: Vec<Step> = Vec::new();
    proof {
        assert(steps_view(undo@) =~= seq![]);
    }
    Group { tasks, required: false, heading: None, undo }
}

/// Steps as tasks.
pub fn run_all(steps: Vec<Step>) -> (r: Vec<Task>)
    ensures
        tasks_view(r@) == runs(steps_view(steps@)),
{
    let ghost all = steps@;
    let mut out: Vec<Task> = Vec::new();
    for s in it: steps
        invariant
            it.seq() == all,
            out@.len() == it.index(),
            forall|i: int| 0 <= i < it.index() ==> (#[trigger] out@[i])@ == TaskView::Run(all[i]@),
    {
        out.push(Task::Run(s));
    }
    proof {
        assert(tasks_view(out@) =~= runs(steps_view(all)));
    }
    out
}

/// Drop the groups in front that have nothing left to do.
fn settle(groups: Vec<Group>) -> (r: Vec<Group>)
    ensures
        groups_view(r@) == settled(groups_view(groups@)),
        job_ok(JobView::Working(groups_view(r@))),
    decreases groups@.len(),
{
    let mut rest: Vec<Group> = groups;
    if rest.len() > 0 && rest[0].tasks.len() == 0 {
        let ghost before = rest@;
        let gone: Group = rest.remove(0);
        proof {
            assert(groups_view(rest@) =~= groups_view(before).skip(1));
        }
        settle(rest)
    } else {
        rest
    }
}

/// What is left of a task after a reply, or why it failed.
fn go_on(t: Task, reply: &Result<HostOutput, String>) -> (r: Result<Vec<Task>, String>)
    ensures
        match task_after(t@, *reply) {
            Ok(more) => r is Ok && tasks_view(r->Ok_0@) == more,
            Err(e) => r is Err && r->Err_0@ == e,
        },
{
    let none: Vec<Task> = Vec::new();
    proof {
        assert(tasks_view(none@) =~= seq![]);
    }
    match t {
        Task::Run(s) => match s.judge(reply) {
            Ok(()) => Ok(none),
            Err(e) => Err(e),
        },
        Task::Choose { check, must_run, passed, failed } => match check.probe(reply) {
            Ok(success) => if success {
                Ok(run_all(passed))
            } else {
                Ok(run_all(failed))
            },
            Err(e) => if must_run {
                Err(e)
            } else {
                Ok(none)
            },
        },
        Task::DeleteRules { chain, selector } => Ok(
            run_all(rule_deletions(chain.as_str(), &selector, reply)),
        ),
        Task::Write { .. } => Ok(none),
    }
}

impl Job {
    /// A job that consists of these groups.
    pub fn new(groups: Vec<Group>) -> (r: Job)
        ensures
            r@ == job_of(groups_view(groups@)),
            job_ok(r@),
    {
        Job::Working(settle(groups))
    }

    /// What the job asks for.
    pub fn action(&self) -> (r: Action)
        requires
            job_ok(self@),
        ensures
            r@ == job_action(self@),
    {
        match self {
            Job::Working(groups) => if groups.len() == 0 {
                Action::Done
            } else {
                proof {
                    assert(groups_view(groups@)[0] == groups@[0]@);
                    assert(tasks_view(groups@[0].tasks@)[0] == groups@[0].tasks@[0]@);
                }
                match &groups[0].tasks[0] {
                    Task::Run(s) => Action::Run(s.copy()),
                    Task::Choose { check, .. } => Action::Run(check.copy()),
                    Task::DeleteRules { chain, .. } => Action::Run(list_chain(chain.as_str())),
                    Task::Write { path, content } => Action::Write {
                        path: owned(path.as_str()),
                        content: owned(content.as_str()),
                    },
                }
            },
            Job::Undoing { steps, error } => if steps.len() == 0 {
                Action::Failed(owned(error.as_str()))
            } else {
                Action::Run(steps[0].copy())
            },
        }
    }

    /// Go on after a reply to what the job asked for. What a written file
    /// replies does not matter.
    pub fn resume(self, reply: &Result<HostOutput, String>) -> (r: Job)
        requires
            job_ok(self@),
        ensures
            r@ == job_after(self@, *reply),
            job_ok(r@),
    {
        match self {
            Job::Working(groups) => {
                let mut rest: Vec<Group> = groups;
                if rest.len() == 0 {
                    return Job::Working(rest);
                }
                let ghost all = groups_view(rest@);
                let mut g: Group = rest.remove(0);
                proof {
                    assert(groups_view(rest@) =~= all.skip(1));
                    assert(all[0] == g@);
                }
                let ghost tasks = tasks_view(g.tasks@);
                let t: Task = g.tasks.remove(0);
                proof {
                    assert(tasks_view(g.tasks@) =~= tasks.skip(1));
                    assert(t@ == tasks[0]);
                }
                match go_on(t, reply) {
                    Ok(more) => {
                        let mut tasks_left: Vec<Task> = more;
                        let ghost a = tasks_left@;
                        let ghost b = g.tasks@;
                        tasks_left.append(&mut g.tasks);
                        let now: Group = Group {
                            tasks: tasks_left,
                            required: g.required,
                            heading: g.heading,
                            undo: g.undo,
                        };
                        let ghost before = rest@;
                        rest.insert(0, now);
                        proof {
                            assert(tasks_view(tasks_left@) =~= tasks_view(a) + tasks_view(b));
                            assert(groups_view(rest@) =~= seq![now@] + groups_view(before));
                        }
                        Job::Working(settle(rest))
                    },
                    Err(e) => if g.required {
                        Job::Undoing { steps: g.undo, error: with_context(&g.heading, e) }
                    } else {
                        Job::Working(settle(rest))
                    },
                }
            },
            Job::Undoing { steps, error } => {
                let mut rest: Vec<Step> = steps;
                if rest.len() > 0 {
                    let ghost before = rest@;
                    let done: Step = rest.remove(0);
                    proof {
                        assert(steps_view(rest@) =~= steps_view(before).skip(1));
                    }
                }
                Job::Undoing { steps: rest, error }
            },
        }
    }
}

/// Run a step unless the check ends well.
pub fn add_unless(check: Step, add: Step) -> (t: Task)
    ensures
        t@ == (TaskView::Choose {
            check: check@,
            must_run: true,
            passed: seq![],
            failed: seq![add@],
        }),
{
    let passed: Vec<Step> = Vec::new();
    let failed: Vec<Step> = vec![add];
    proof {
        assert(steps_view(passed@) =~= seq![]);
        assert(steps_view(failed@) =~= seq![add@]);
    }
    Task::Choose { check, must_run: true, passed, failed }
}

/// Run a step if the check ends well.
pub fn remove_if(check: Step, delete: Step) -> (t: Task)
    ensures
        t@ == (TaskView::Choose {
            check: check@,
            must_run: false,
            passed: seq![delete@],
            failed: seq![],
        }),
{
    let passed: Vec<Step> = vec![delete];
    let failed: Vec<Step> = Vec::new();
    proof {
        assert(steps_view(passed@) =~= seq![delete@]);
        assert(steps_view(failed@) =~= seq![]);
    }
    Task::Choose { check, must_run: false, passed, failed }
}

/// A job of one group that is required.
pub fn single(tasks: Vec<Task>, heading: &str) -> (r: Job)
    ensures
        job_ok(r@),
        r@ == job_of(seq![must(tasks_view(tasks@), heading@, seq![])]),
{
    let groups: Vec<Group> = vec![must_do(tasks, heading, Vec::new())];
    proof {
        assert(steps_view(Seq::<Step>::empty()) =~= seq![]);
        assert(groups_view(groups@) =~= seq![must(tasks_view(tasks@), heading@, seq![])]);
    }
    Job::new(groups)
}

// ---------------------------------------------------------------------------
// Laws
// ---------------------------------------------------------------------------

/// The number of tasks that may turn into others.
pub open spec fn open_tasks(tasks: Seq<TaskView>) -> nat
    decreases tasks.len(),
{
    if tasks.len() == 0 {
        0
    } else {
        open_tasks(tasks.drop_last()) + if tasks.last() is Choose || tasks.last() is DeleteRules {
            1nat
        } else {
            0nat
        }
    }
}

/// The number of tasks that may turn into others, in all groups.
pub open spec fn open_in(groups: Seq<GroupView>) -> nat
    decreases groups.len(),
{
    if groups.len() == 0 {
        0
    } else {
        open_tasks(groups[0].tasks) + open_in(groups.skip(1))
    }
}

/// The number of tasks in all groups.
pub open spec fn size_of(groups: Seq<GroupView>) -> nat
    decreases groups.len(),
{
    if groups.len() == 0 {
        0
    } else {
        groups[0].tasks.len() + size_of(groups.skip(1))
    }
}

/// How much is left to do: first whether the job may still go well, then the
/// number of tasks that may turn into others, then the number of tasks.
pub open spec fn rank(v: JobView) -> (nat, nat, nat) {
    match v {
        JobView::Working(groups) => (1, open_in(groups), size_of(groups)),
        JobView::Undoing { steps, .. } => (0, 0, steps.len()),
    }
}

/// Less is left to do.
pub open spec fn less(a: (nat, nat, nat), b: (nat, nat, nat)) -> bool {
    a.0 < b.0 || (a.0 == b.0 && (a.1 < b.1 || (a.1 == b.1 && a.2 < b.2)))
}

/// Nothing is lost where groups without tasks are dropped.
proof fn lemma_settled(groups: Seq<GroupView>)
    ensures
        open_in(settled(groups)) == open_in(groups),
        size_of(settled(groups)) == size_of(groups),
        settled(groups).len() > 0 ==> settled(groups)[0].tasks.len() > 0,
    decreases groups.len(),
{
    if groups.len() > 0 && groups[0].tasks.len() == 0 {
        lemma_settled(groups.skip(1));
    }
}

/// Where tasks are joined, those that may turn into others add up.
proof fn lemma_open_joined(a: Seq<TaskView>, b: Seq<TaskView>)
    ensures
        open_tasks(a + b) == open_tasks(a) + open_tasks(b),
    decreases b.len(),
{
    if b.len() == 0 {
        assert(a + b =~= a);
    } else {
        lemma_open_joined(a, b.drop_last());
        assert((a + b).drop_last() =~= a + b.drop_last());
    }
}

/// Steps do not turn into other tasks.
proof fn lemma_runs_closed(steps: Seq<StepView>)
    ensures
        open_tasks(runs(steps)) == 0,
    decreases steps.len(),
{
    if steps.len() > 0 {
        lemma_runs_closed(steps.drop_last());
        assert(runs(steps).drop_last() =~= runs(steps.drop_last()));
    }
}

/// Every job ends, whatever the replies are: each reply leaves less to do.
pub proof fn law_job_ends(v: JobView, reply: Result<HostOutput, String>)
    requires
        job_ok(v),
        job_action(v) is Run || job_action(v) is Write,
    ensures
        less(rank(job_after(v, reply)), rank(v)),
        job_ok(job_after(v, reply)),
{
    match v {
        JobView::Working(groups) => {
            let g = groups[0];
            let t = g.tasks[0];
            assert(g.tasks =~= seq![t] + g.tasks.skip(1));
            lemma_open_joined(seq![t], g.tasks.skip(1));
            assert(seq![t].drop_last() =~= seq![]);
            match task_after(t, reply) {
                Ok(more) => {
                    let now = GroupView { tasks: more + g.tasks.skip(1), ..g };
                    let next = seq![now] + groups.skip(1);
                    lemma_settled(next);
                    assert(next.skip(1) =~= groups.skip(1));
                    lemma_open_joined(more, g.tasks.skip(1));
                    match t {
                        TaskView::Choose { passed, failed, .. } => {
                            lemma_runs_closed(passed);
                            lemma_runs_closed(failed);
                        },
                        TaskView::DeleteRules { chain, selector } => {
                            lemma_runs_closed(deletions(chain, selector, listing(reply)));
                        },
                        _ => {},
                    }
                },
                Err(e) => {
                    if !g.required {
                        lemma_settled(groups.skip(1));
                    }
                },
            }
        },
        JobView::Undoing { .. } => {},
    }
}

/// No group is required.
pub open spec fn all_optional(groups: Seq<GroupView>) -> bool {
    forall|i: int| 0 <= i < groups.len() ==> !(#[trigger] groups[i]).required
}

/// The groups that are left are among those that there were.
pub proof fn lemma_settled_optional(groups: Seq<GroupView>)
    requires
        all_optional(groups),
    ensures
        all_optional(settled(groups)),
    decreases groups.len(),
{
    if groups.len() > 0 && groups[0].tasks.len() == 0 {
        let rest = groups.skip(1);
        assert forall|i: int| 0 <= i < rest.len() implies !(#[trigger] rest[i]).required by {
            assert(rest[i] == groups[i + 1]);
        }
        lemma_settled_optional(rest);
    }
}

/// A job without required groups never fails, whatever the replies are.
pub proof fn law_optional_work_never_fails(
    groups: Seq<GroupView>,
    reply: Result<HostOutput, String>,
)
    requires
        all_optional(groups),
    ensures
        !(job_action(JobView::Working(groups)) is Failed),
        job_after(JobView::Working(groups), reply) is Working,
        all_optional(job_after(JobView::Working(groups), reply)->Working_0),
{
    if groups.len() > 0 && groups[0].tasks.len() > 0 {
        let g = groups[0];
        let rest = groups.skip(1);
        assert forall|i: int| 0 <= i < rest.len() implies !(#[trigger] rest[i]).required by {
            assert(rest[i] == groups[i + 1]);
        }
        match task_after(g.tasks[0], reply) {
            Ok(more) => {
                let now = GroupView { tasks: more + g.tasks.skip(1), ..g };
                let next = seq![now] + rest;
                assert forall|i: int| 0 <= i < next.len() implies !(
                #[trigger] next[i]).required by {
                    if i > 0 {
                        assert(next[i] == rest[i - 1]);
                    }
                }
                lemma_settled_optional(next);
            },
            Err(_) => {
                lemma_settled_optional(rest);
            },
        }
    }
}

/// A job after several replies.
pub open spec fn job_after_all(v: JobView, replies: Seq<Result<HostOutput, String>>) -> JobView
    decreases replies.len(),
{
    if replies.len() == 0 {
        v
    } else {
        job_after_all(job_after(v, replies[0]), replies.skip(1))
    }
}

/// Where a required group failed, its undo steps are run to the last, whatever
/// becomes of them, and then the job fails with the group's error.
pub proof fn law_failure_is_undone(
    steps: Seq<StepView>,
    error: Seq<char>,
    replies: Seq<Result<HostOutput, String>>,
)
    requires
        replies.len() <= steps.len(),
    ensures
        ({
            let v = job_after_all(JobView::Undoing { steps, error }, replies);
            job_action(v) == if replies.len() < steps.len() {
                ActionView::Run(steps[replies.len() as int])
            } else {
                ActionView::Failed(error)
            }
        }),
    decreases replies.len(),
{
    if replies.len() > 0 {
        law_failure_is_undone(steps.skip(1), error, replies.skip(1));
    }
}

/// All tasks of groups, in order.
pub open spec fn all_tasks(groups: Seq<GroupView>) -> Seq<TaskView>
    decreases groups.len(),
{
    if groups.len() == 0 {
        seq![]
    } else {
        groups[0].tasks + all_tasks(groups.skip(1))
    }
}

/// Groups without tasks make no difference.
proof fn lemma_settled_tasks(groups: Seq<GroupView>)
    ensures
        all_tasks(settled(groups)) == all_tasks(groups),
    decreases groups.len(),
{
    if groups.len() > 0 && groups[0].tasks.len() == 0 {
        lemma_settled_tasks(groups.skip(1));
        assert(all_tasks(groups) =~= all_tasks(groups.skip(1)));
    }
}

/// The program ran and succeeded.
pub open spec fn went_well(reply: Result<HostOutput, String>) -> bool {
    reply is Ok && reply->Ok_0.success
}

/// A job does its tasks one after the other: a step is done, and so is one that
/// failed where it need not succeed; a choice goes on with the one or the other
/// steps by whether its check went well; removing rules goes on with a deletion
/// for each rule that is meant; and a file is written once. A step that had to
/// succeed ends its group: one that is required undoes what it did and fails,
/// and any other is passed over.
#[verifier::rlimit(40)]
pub proof fn law_job_does_its_tasks_in_order(
    job: Job,
    reply: &Result<HostOutput, String>,
    next: Job,
)
    requires
        job@ is Working,
        job@->Working_0.len() > 0,
        job_ok(job@),
        call_ensures(Job::resume, (job, reply), next),
    ensures
        ({
            let groups = job@->Working_0;
            let group = groups[0];
            let rest = all_tasks(groups).skip(1);
            match all_tasks(groups)[0] {
                TaskView::Run(step) => if went_well(*reply) || !step.required {
                    next@ is Working && all_tasks(next@->Working_0) == rest
                } else if group.required {
                    &&& next@ is Undoing
                    &&& next@->steps == group.undo
                    &&& group.heading matches Some(heading) ==> (heading + ": "@).is_prefix_of(
                        next@->error,
                    )
                } else {
                    next@ is Working && all_tasks(next@->Working_0) == all_tasks(groups.skip(1))
                },
                TaskView::Choose { passed, failed, must_run, .. } => match *reply {
                    Ok(o) => next@ is Working && all_tasks(next@->Working_0) == runs(
                        if o.success {
                            passed
                        } else {
                            failed
                        },
                    ) + rest,
                    Err(_) => if !must_run {
                        next@ is Working && all_tasks(next@->Working_0) == rest
                    } else if group.required {
                        next@ is Undoing && next@->steps == group.undo
                    } else {
                        next@ is Working && all_tasks(next@->Working_0) == all_tasks(
                            groups.skip(1),
                        )
                    },
                },
                TaskView::DeleteRules { chain, selector } => {
                    let shown = if went_well(*reply) {
                        reply->Ok_0.stdout@
                    } else {
                        Seq::<char>::empty()
                    };
                    next@ is Working && all_tasks(next@->Working_0) == runs(
                        deletions(chain, selector, shown),
                    ) + rest
                },
                TaskView::Write { .. } => next@ is Working && all_tasks(next@->Working_0) == rest,
            }
        }),
{
    let groups = job@->Working_0;
    let group = groups[0];
    let later = groups.skip(1);
    let rest = all_tasks(groups).skip(1);
    assert(rest =~= group.tasks.skip(1) + all_tasks(later));
    assert(all_tasks(groups)[0] == group.tasks[0]);
    match task_after(group.tasks[0], *reply) {
        Ok(more) => {
            let now = GroupView { tasks: more + group.tasks.skip(1), ..group };
            let all = seq![now] + later;
            lemma_settled_tasks(all);
            assert(all.skip(1) =~= later);
            assert(all_tasks(all) =~= more + rest);
            assert(runs(seq![]) =~= Seq::<TaskView>::empty());
            assert(Seq::<TaskView>::empty() + rest =~= rest);
        },
        Err(e) => {
            lemma_settled_tasks(later);
            match group.heading {
                Some(heading) => {
                    let p = heading + ": "@;
                    assert((p + e).take(p.len() as int) =~= p);
                },
                None => {},
            }
        },
    }
}

/// What a job asks for next is what its first task says.
pub proof fn law_job_asks_for_its_first_task(job: Job, action: Action)
    requires
        job_ok(job@),
        call_ensures(Job::action, (&job,), action),
    ensures
        job@ is Working ==> match all_tasks(job@->Working_0) {
            tasks => if tasks.len() == 0 {
                action@ == ActionView::Done
            } else {
                match tasks[0] {
                    TaskView::Run(step) => action@ == ActionView::Run(step),
                    TaskView::Choose { check, .. } => action@ == ActionView::Run(check),
                    TaskView::DeleteRules { chain, .. } => action@ is Run && action@->Run_0.program
                        == "nft"@ && action@->Run_0.args == seq![
                        "-a"@,
                        "list"@,
                        "chain"@,
                        "inet"@,
                        "agentiso"@,
                        chain,
                    ],
                    TaskView::Write { path, content } => action@ == (ActionView::Write {
                        path,
                        content,
                    }),
                }
            },
        },
        job@ is Undoing ==> action@ == if job@->steps.len() == 0 {
            ActionView::Failed(job@->error)
        } else {
            ActionView::Run(job@->steps[0])
        },
{
}

} // verus!
