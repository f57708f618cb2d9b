use vstd::prelude::*;

use crate::args::ParsedArgs;
use crate::registry::{action_for, lookup, Action, ActionView};
use crate::text::texts;

verus! {

/// Outcome of provisioning one directory.
#[derive(PartialEq, Eq, Clone, Debug)]
pub enum ProvisionResult {
    /// The directory was absent and has been created, with any missing parents.
    Created,
    /// The path was already present: it is left exactly as it was.
    AlreadyExists,
    /// Creation failed, with the system's description of why.
    CreationFailed(String),
}

/// Mathematical form of a [`ProvisionResult`].
pub enum ProvisionView {
    Created,
    AlreadyExists,
    CreationFailed(Seq<char>),
}

impl View for ProvisionResult {
    type V = ProvisionView;

    open spec fn view(&self) -> ProvisionView {
        match self {
            ProvisionResult::Created => ProvisionView::Created,
            ProvisionResult::AlreadyExists => ProvisionView::AlreadyExists,
            ProvisionResult::CreationFailed(e) => ProvisionView::CreationFailed(e@),
        }
    }
}

/// The outcome for one directory, from whether its path was present and, when it
/// was not, how the attempt to create it went.
pub open spec fn provision_outcome(present: bool, creation: Result<(), Seq<char>>) -> ProvisionView {
    if present {
        ProvisionView::AlreadyExists
    } else {
        match creation {
            Ok(_) => ProvisionView::Created,
            Err(e) => ProvisionView::CreationFailed(e),
        }
    }
}

/// Mathematical form of how an attempt to create a directory went.
pub open spec fn creation_view(result: Result<(), String>) -> Result<(), Seq<char>> {
    match result {
        Ok(_) => Ok(()),
        Err(e) => Err(e@),
    }
}

/// One thing to do to a freshly created directory.
#[derive(PartialEq, Eq, Clone, Debug)]
pub enum Step {
    /// Set the directory's permission bits to this mode.
    SetMode(u32),
    /// Carry out an initialization action in the directory.
    Perform(Action),
    /// Report that this flag selects no action.
    Unknown(String),
}

/// Mathematical form of a [`Step`].
pub enum StepView {
    SetMode(u32),
    Perform(ActionView),
    Unknown(Seq<char>),
}

impl View for Step {
    type V = StepView;

    open spec fn view(&self) -> StepView {
        match self {
            Step::SetMode(m) => StepView::SetMode(*m),
            Step::Perform(a) => StepView::Perform(a@),
            Step::Unknown(f) => StepView::Unknown(f@),
        }
    }
}

/// The views of a list of steps.
pub open spec fn step_views(v: Seq<Step>) -> Seq<StepView> {
    v.map_values(|s: Step| s@)
}

/// The step a flag asks for in directory `dir`.
pub open spec fn step_for(flag: Seq<char>, dir: Seq<char>) -> StepView {
    match action_for(flag, dir) {
        Some(a) => StepView::Perform(a),
        None => StepView::Unknown(flag),
    }
}

/// The permission step, when a mode was given.
pub open spec fn mode_steps(mode: Option<u32>) -> Seq<StepView> {
    match mode {
        Some(m) => seq![StepView::SetMode(m)],
        None => seq![],
    }
}

/// What is done to `dir` after provisioning it: nothing unless it was created;
/// otherwise the permission mode first, if any, then one step per flag in order,
/// repeats included.
pub open spec fn planned_steps(
    outcome: ProvisionView,
    mode: Option<u32>,
    flags: Seq<Seq<char>>,
    dir: Seq<char>,
) -> Seq<StepView> {
    if outcome is Created {
        mode_steps(mode) + flags.map_values(|f: Seq<char>| step_for(f, dir))
    } else {
        seq![]
    }
}

/// Lists what to do to `dir` once provisioning it gave `outcome`.
pub fn plan_steps(outcome: &ProvisionResult, mode: Option<u32>, flags: &Vec<String>, dir: &str) -> (r:
    Vec<Step>)
    ensures
        step_views(r@) == planned_steps(outcome@, mode, texts(flags@), dir@),
{
    let mut steps: Vec<Step> = Vec::new();
    match outcome {
        ProvisionResult::Created => {},
        _ => {
            assert(step_views(steps@) =~= seq![]);
            return steps;
        },
    }
    if let Some(m) = mode {
        steps.push(Step::SetMode(m));
    }
    let ghost fs = texts(flags@);
    let ghost to_step = |f: Seq<char>| step_for(f, dir@);
    assert(step_views(steps@) =~= mode_steps(mode) + fs.take(0).map_values(to_step));
    let mut i: usize = 0;
    while i < flags.len()
        invariant
            fs == texts(flags@),
            to_step == (|f: Seq<char>| step_for(f, dir@)),
            i <= flags.len(),
            step_views(steps@) == mode_steps(mode) + fs.take(i as int).map_values(to_step),
        decreases flags.len() - i,
    {
        let flag = &flags[i];
        let step = match lookup(flag.as_str(), dir) {
            Some(a) => Step::Perform(a),
            None => Step::Unknown(flag.clone()),
        };
        let ghost before = steps@;
        steps.push(step);
        proof {
            assert(fs.take(i as int + 1).map_values(to_step) =~= fs.take(i as int).map_values(
                to_step,
            ).push(step_for(flag@, dir@)));
            assert(step_views(steps@) =~= step_views(before).push(step@));
        }
        i += 1;
    }
    assert(fs.take(flags.len() as int) =~= fs);
    steps
}

/// Mathematical form of a [`Session`].
pub struct SessionView {
    pub directories: Seq<Seq<char>>,
    pub flags: Seq<Seq<char>>,
    pub mode: Option<u32>,
    pub verbose: bool,
    /// One outcome per directory handled so far, in order.
    pub outcomes: Seq<ProvisionView>,
    /// Whether the current directory was found absent and its creation is awaited.
    pub awaiting_creation: bool,
}

impl SessionView {
    /// Whether every directory has been handled.
    pub open spec fn finished(self) -> bool {
        self.outcomes.len() >= self.directories.len()
    }

    /// The directory now being provisioned.
    pub open spec fn current(self) -> Seq<char> {
        self.directories[self.outcomes.len() as int]
    }
}

/// Decisions of one run over its directories, in the order given. Each directory
/// is first probed: a present one is recorded as already existing and left alone;
/// an absent one is created, and only once created does it get its steps. No
/// outcome for one directory changes what is done to another.
pub struct Session {
    directories: Vec<String>,
    flags: Vec<String>,
    mode: Option<u32>,
    verbose: bool,
    outcomes: Vec<ProvisionResult>,
    awaiting_creation: bool,
}

impl View for Session {
    type V = SessionView;

    closed spec fn view(&self) -> SessionView {
        SessionView {
            directories: texts(self.directories@),
            flags: texts(self.flags@),
            mode: self.mode,
            verbose: self.verbose,
            outcomes: self.outcomes@.map_values(|o: ProvisionResult| o@),
            awaiting_creation: self.awaiting_creation,
        }
    }
}

impl Session {
    /// Well-formed: creation is awaited only while a directory is current.
    pub closed spec fn wf(&self) -> bool {
        self.awaiting_creation ==> self.outcomes@.len() < self.directories@.len()
    }

    /// Starts a run over the classified arguments.
    pub fn new(args: ParsedArgs) -> (s: Session)
        ensures
            s.wf(),
            s@.directories == texts(args.directories@),
            s@.flags == texts(args.flags@),
            s@.mode == args.permission_mode,
            s@.verbose == args.verbose,
            s@.outcomes == Seq::<ProvisionView>::empty(),
            !s@.awaiting_creation,
    {
        let s = Session {
            directories: args.directories,
            flags: args.flags,
            mode: args.permission_mode,
            verbose: args.verbose,
            outcomes: Vec::new(),
            awaiting_creation: false,
        };
        assert(s@.outcomes =~= Seq::<ProvisionView>::empty());
        s
    }

    /// Whether detailed reporting was asked for.
    pub fn verbose(&self) -> (r: bool)
        ensures
            r == self@.verbose,
    {
        self.verbose
    }

    /// The directory to provision next; `None` once all have been handled.
    pub fn current_directory(&self) -> (r: Option<String>)
        requires
            self.wf(),
        ensures
            match r {
                Some(d) => !self@.finished() && d@ == self@.current(),
                None => self@.finished(),
            },
    {
        let k = self.outcomes.len();
        if k < self.directories.len() {
            Some(self.directories[k].clone())
        } else {
            None
        }
    }

    /// The outcomes recorded so far, one per handled directory.
    pub fn outcomes(&self) -> (r: &Vec<ProvisionResult>)
        ensures
            r@.map_values(|o: ProvisionResult| o@) == self@.outcomes,
    {
        &self.outcomes
    }

    /// Takes in whether the current directory's path is present, and returns
    /// whether it is to be created. A present path is recorded as already
    /// existing, and the run moves on to the next directory without touching it.
    pub fn probed(&mut self, present: bool) -> (create: bool)
        requires
            old(self).wf(),
            !old(self)@.finished(),
            !old(self)@.awaiting_creation,
        ensures
            final(self).wf(),
            create == !present,
            final(self)@.directories == old(self)@.directories,
            final(self)@.flags == old(self)@.flags,
            final(self)@.mode == old(self)@.mode,
            final(self)@.verbose == old(self)@.verbose,
            final(self)@.awaiting_creation == create,
            present ==> final(self)@.outcomes == old(self)@.outcomes.push(
                provision_outcome(true, Ok(())),
            ),
            !present ==> final(self)@.outcomes == old(self)@.outcomes,
    {
        if present {
            let ghost before = self.outcomes@;
            self.outcomes.push(ProvisionResult::AlreadyExists);
            assert(self.outcomes@.map_values(|o: ProvisionResult| o@) =~= before.map_values(
                |o: ProvisionResult| o@,
            ).push(ProvisionView::AlreadyExists));
            false
        } else {
            self.awaiting_creation = true;
            true
        }
    }

    /// Takes in how creating the current directory went, records the outcome and
    /// returns what to do to the directory: its steps if it was created, nothing
    /// if creation failed. The run then moves on to the next directory.
    pub fn created(&mut self, result: Result<(), String>) -> (steps: Vec<Step>)
        requires
            old(self).wf(),
            old(self)@.awaiting_creation,
        ensures
            final(self).wf(),
            !final(self)@.awaiting_creation,
            final(self)@.directories == old(self)@.directories,
            final(self)@.flags == old(self)@.flags,
            final(self)@.mode == old(self)@.mode,
            final(self)@.verbose == old(self)@.verbose,
            final(self)@.outcomes == old(self)@.outcomes.push(
                provision_outcome(false, creation_view(result)),
            ),
            step_views(steps@) == planned_steps(
                final(self)@.outcomes.last(),
                old(self)@.mode,
                old(self)@.flags,
                old(self)@.current(),
            ),
    {
        let outcome = match result {
            Ok(_) => ProvisionResult::Created,
            Err(e) => ProvisionResult::CreationFailed(e),
        };
        let k = self.outcomes.len();
        let steps = plan_steps(&outcome, self.mode, &self.flags, self.directories[k].as_str());
        let ghost before = self.outcomes@;
        self.outcomes.push(outcome);
        self.awaiting_creation = false;
        assert(self.outcomes@.map_values(|o: ProvisionResult| o@) =~= before.map_values(
            |o: ProvisionResult| o@,
        ).push(outcome@));
        steps
    }
}

} // verus!
