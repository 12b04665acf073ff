//! Commands for the host, and what their outcome means.
//!
//! An operation on the host is a list of steps. Each step says which program
//! to run, whether the operation can go on if it fails, and how a failure is
//! reported.

use crate::text;
use crate::text::{cat2, cat3, cat4, opt_text, owned, texts, trim, trimmed};
use vstd::prelude::*;
use vstd::string::*;

verus! {

/// One command of an operation.
#[derive(Debug)]
pub struct Step {
    /// The program to run.
    pub program: String,
    /// Its arguments.
    pub args: Vec<String>,
    /// What it reads from its standard input, if anything.
    pub stdin: Option<String>,
    /// Whether the operation fails if this step does.
    pub required: bool,
    /// What to say if the program cannot be run.
    pub unavailable: String,
    /// What to say before the standard error of the program if it fails.
    pub failure: String,
    /// What the step was for.
    pub context: Option<String>,
}

/// The contents of a [`Step`].
pub struct StepView {
    pub program: Seq<char>,
    pub args: Seq<Seq<char>>,
    pub stdin: Option<Seq<char>>,
    pub required: bool,
    pub unavailable: Seq<char>,
    pub failure: Seq<char>,
    pub context: Option<Seq<char>>,
}

impl View for Step {
    type V = StepView;

    open spec fn view(&self) -> StepView {
        StepView {
            program: self.program@,
            args: texts(self.args@),
            stdin: opt_text(self.stdin),
            required: self.required,
            unavailable: self.unavailable@,
            failure: self.failure@,
            context: opt_text(self.context),
        }
    }
}

/// The contents of a list of steps.
pub open spec fn steps_view(s: Seq<Step>) -> Seq<StepView> {
    Seq::new(s.len(), |i: int| s[i]@)
}

/// What a program left behind when it ended.
#[derive(Debug)]
pub struct HostOutput {
    pub success: bool,
    pub stdout: String,
    pub stderr: String,
}

/// An error under the heading of what failed.
pub open spec fn under(context: Option<Seq<char>>, error: Seq<char>) -> Seq<char> {
    match context {
        Some(c) => c + ": "@ + error,
        None => error,
    }
}

/// Why a step failed, if it did: it could not be run, or it ended with an
/// error.
pub open spec fn step_error(step: StepView, reply: Result<HostOutput, String>) -> Option<
    Seq<char>,
> {
    match reply {
        Err(e) => Some(under(step.context, step.unavailable + ": "@ + e@)),
        Ok(o) => if o.success {
            None
        } else {
            Some(under(step.context, step.failure + trim(o.stderr@)))
        },
    }
}

/// A copy of an optional text.
fn copied(o: &Option<String>) -> (r: Option<String>)
    ensures
        opt_text(r) == opt_text(*o),
{
    match o {
        Some(s) => Some(owned(s.as_str())),
        None => None,
    }
}

/// Put an error under a heading.
pub fn with_context(context: &Option<String>, error: String) -> (r: String)
    ensures
        r@ == under(opt_text(*context), error@),
{
    match context {
        Some(c) => cat3(c.as_str(), ": ", error.as_str()),
        None => error,
    }
}

impl Step {
    /// A copy of the step.
    pub fn copy(&self) -> (r: Step)
        ensures
            r@ == self@,
    {
        let mut args: Vec<String> = Vec::new();
        let mut i: usize = 0;
        while i < self.args.len()
            invariant
                i <= self.args@.len(),
                args@.len() == i,
                forall|k: int| 0 <= k < i ==> (#[trigger] args@[k])@ == self.args@[k]@,
            decreases self.args.len() - i,
        {
            args.push(owned(self.args[i].as_str()));
            i = i + 1;
        }
        proof {
            assert(texts(args@) =~= texts(self.args@));
        }
        Step {
            program: owned(self.program.as_str()),
            args,
            stdin: copied(&self.stdin),
            required: self.required,
            unavailable: owned(self.unavailable.as_str()),
            failure: owned(self.failure.as_str()),
            context: copied(&self.context),
        }
    }

    /// What a step printed, or why it failed.
    pub fn outcome(&self, reply: &Result<HostOutput, String>) -> (r: Result<String, String>)
        ensures
            match step_error(self@, *reply) {
                None => r is Ok && r->Ok_0@ == reply->Ok_0.stdout@,
                Some(e) => r is Err && r->Err_0@ == e,
            },
    {
        match reply {
            Err(e) => Err(
                with_context(&self.context, cat3(self.unavailable.as_str(), ": ", e.as_str())),
            ),
            Ok(o) => if o.success {
                Ok(owned(o.stdout.as_str()))
            } else {
                let detail: String = trimmed(o.stderr.as_str());
                Err(
                    with_context(&self.context, cat2(self.failure.as_str(), detail.as_str())),
                )
            },
        }
    }

    /// Whether the program ended well; it fails only if it cannot be run.
    pub fn probe(&self, reply: &Result<HostOutput, String>) -> (r: Result<bool, String>)
        ensures
            match *reply {
                Ok(o) => r == Ok::<bool, String>(o.success),
                Err(e) => r is Err && r->Err_0@ == under(
                    self@.context,
                    self@.unavailable + ": "@ + e@,
                ),
            },
    {
        match reply {
            Err(e) => Err(
                with_context(&self.context, cat3(self.unavailable.as_str(), ": ", e.as_str())),
            ),
            Ok(o) => Ok(o.success),
        }
    }

    /// Whether an operation can go on after a step, or why not.
    pub fn judge(&self, reply: &Result<HostOutput, String>) -> (r: Result<(), String>)
        ensures
            match step_error(self@, *reply) {
                None => r is Ok,
                Some(e) => if self@.required {
                    r is Err && r->Err_0@ == e
                } else {
                    r is Ok
                },
            },
    {
        match self.outcome(reply) {
            Ok(_) => Ok(()),
            Err(e) => if self.required {
                Err(e)
            } else {
                Ok(())
            },
        }
    }
}

/// An argument list from its parts, in order.
pub fn args_from(parts: &[&str]) -> (v: Vec<String>)
    ensures
        texts(v@) == Seq::new(parts@.len(), |i: int| parts@[i]@),
{
    let mut v: Vec<String> = Vec::new();
    let mut i: usize = 0;
    proof {
        assert(texts(v@) =~= seq![]);
    }
    while i < parts.len()
        invariant
            i <= parts@.len(),
            texts(v@) == Seq::new(i as nat, |k: int| parts@[k]@),
        decreases parts.len() - i,
    {
        let s: String = owned(parts[i]);
        proof {
            text::lemma_texts_push(v@, s);
            assert(texts(v@).push(s@) =~= Seq::new((i + 1) as nat, |k: int| parts@[k]@));
        }
        v.push(s);
        i = i + 1;
    }
    v
}

/// A command whose failure is reported as `<program> <subcommand> failed`.
pub open spec fn command_step(
    program: Seq<char>,
    args: Seq<Seq<char>>,
    required: bool,
    context: Option<Seq<char>>,
) -> StepView {
    StepView {
        program,
        args,
        stdin: None,
        required,
        unavailable: "failed to execute "@ + program + " command"@,
        failure: program + " "@ + args[0] + " failed: "@,
        context,
    }
}

/// A command whose failure is reported as `<program> <subcommand> failed`.
pub fn command(program: &str, args: Vec<String>, required: bool, context: Option<String>) -> (s:
    Step)
    requires
        args@.len() > 0,
    ensures
        s@ == command_step(program@, texts(args@), required, opt_text(context)),
{
    let failure: String = cat4(program, " ", args[0].as_str(), " failed: ");
    Step {
        program: owned(program),
        args,
        stdin: None,
        required,
        unavailable: cat3("failed to execute ", program, " command"),
        failure,
        context,
    }
}

/// A step under a heading.
pub open spec fn headed(s: StepView, heading: Seq<char>) -> StepView {
    StepView {
        context: Some(
            match s.context {
                Some(c) => heading + ": "@ + c,
                None => heading,
            },
        ),
        ..s
    }
}

/// Steps under a heading.
pub open spec fn all_headed(s: Seq<StepView>, heading: Seq<char>) -> Seq<StepView> {
    Seq::new(s.len(), |i: int| headed(s[i], heading))
}

/// Put a step under a heading.
pub fn head_step(s: Step, heading: &str) -> (r: Step)
    ensures
        r@ == headed(s@, heading@),
{
    let context: String = match s.context {
        Some(c) => cat3(heading, ": ", c.as_str()),
        None => owned(heading),
    };
    Step {
        program: s.program,
        args: s.args,
        stdin: s.stdin,
        required: s.required,
        unavailable: s.unavailable,
        failure: s.failure,
        context: Some(context),
    }
}

/// Put steps under a heading.
pub fn head_steps(steps: Vec<Step>, heading: &str) -> (r: Vec<Step>)
    ensures
        steps_view(r@) == all_headed(steps_view(steps@), heading@),
{
    let ghost all = steps@;
    let mut out: Vec<Step> = Vec::new();
    for s in it: steps
        invariant
            it.seq() == all,
            out@.len() == it.index(),
            forall|i: int| 0 <= i < it.index() ==> (#[trigger] out@[i])@ == headed(
                all[i]@,
                heading@,
            ),
    {
        out.push(head_step(s, heading));
    }
    proof {
        assert(steps_view(out@) =~= all_headed(steps_view(all), heading@));
    }
    out
}

// ---------------------------------------------------------------------------
// Laws
// ---------------------------------------------------------------------------

/// A step succeeded exactly if its program ran and ended well; then its output
/// is what the program printed. Otherwise the error ends with what the program
/// complained of, or with why it could not run, and begins with the step's
/// context, if it has one.
pub proof fn law_step_tells_what_became_of_it(
    step: &Step,
    reply: &Result<HostOutput, String>,
    r: Result<String, String>,
    judged: Result<(), String>,
    probed: Result<bool, String>,
)
    requires
        call_ensures(Step::outcome, (step, reply), r),
        call_ensures(Step::judge, (step, reply), judged),
        call_ensures(Step::probe, (step, reply), probed),
    ensures
        r is Ok <==> reply is Ok && reply->Ok_0.success,
        r is Ok ==> r->Ok_0@ == reply->Ok_0.stdout@,
        r matches Err(e) ==> match *reply {
            Ok(o) => trim(o.stderr@).is_suffix_of(e@),
            Err(why) => why@.is_suffix_of(e@),
        },
        r matches Err(e) ==> (step.context matches Some(c) ==> (c@ + ": "@).is_prefix_of(e@)),
        judged is Ok <==> r is Ok || !step.required,
        judged is Err ==> r is Err && judged->Err_0@ == r->Err_0@,
        probed is Ok <==> reply is Ok,
        probed matches Ok(b) ==> b == reply->Ok_0.success,
{
    if r is Err {
        let e = r->Err_0@;
        let tail = match *reply {
            Ok(o) => trim(o.stderr@),
            Err(why) => why@,
        };
        assert(e.subrange(e.len() - tail.len(), e.len() as int) =~= tail);
        match step.context {
            Some(c) => {
                let p = c@ + ": "@;
                assert(e.take(p.len() as int) =~= p);
            },
            None => {},
        }
    }
}

/// A step under a heading does the same, and tells its errors under the
/// heading.
pub proof fn law_heading_changes_only_the_context(s: Step, heading: &str, r: Step)
    requires
        call_ensures(head_step, (s, heading), r),
    ensures
        r@.program == s@.program,
        r@.args == s@.args,
        r@.stdin == s@.stdin,
        r@.required == s@.required,
        r@.unavailable == s@.unavailable,
        r@.failure == s@.failure,
        r@.context is Some,
        heading@.is_prefix_of(r@.context->0),
        s@.context matches Some(c) ==> c.is_suffix_of(r@.context->0),
{
    let c = r@.context->0;
    assert(c.take(heading@.len() as int) =~= heading@);
    match s@.context {
        Some(inner) => {
            assert(c.subrange(c.len() - inner.len(), c.len() as int) =~= inner);
        },
        None => {},
    }
}

} // verus!
