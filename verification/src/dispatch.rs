//! Working through the directories, one after the other. The dispatcher
//! decides what is done next; the caller does it and reports what came of
//! it. A directory that fails never ends the run.

use vstd::prelude::*;
use crate::aggregate::{aggregate, run_outcome};
use crate::command::{
    build, built, copy_texts, CommandTemplate, InvocationView, ResolvedInvocation, TemplateView,
};
use crate::distinct::{distinct, drop_repeated, lemma_distinct_no_duplicates};
use crate::error::ErrorKind;
use crate::status::{ExecutionResult, ExitStatus, Outcome, ResultView};

verus! {

/// What the caller reports.
#[derive(Debug)]
pub enum Event {
    /// Nothing has happened: the caller starts, or asks again.
    Start,
    /// The directory was announced. With it comes the directory's canonical
    /// form, where it was asked for and the directory has one.
    Visited(Option<String>),
    /// The child ran and ended with this status, having written this to
    /// its standard output and this to its standard error.
    Exited(ExitStatus, Vec<u8>, Vec<u8>),
    /// No child could be started.
    SpawnFailed,
}

/// What an event holds.
pub ghost enum EventView {
    Start,
    Visited(Option<Seq<char>>),
    Exited(ExitStatus, Seq<u8>, Seq<u8>),
    SpawnFailed,
}

impl View for Event {
    type V = EventView;

    open spec fn view(&self) -> EventView {
        match self {
            Event::Start => EventView::Start,
            Event::Visited(canonical) => EventView::Visited(canonical.deep_view()),
            Event::Exited(status, stdout, stderr) => EventView::Exited(*status, stdout@, stderr@),
            Event::SpawnFailed => EventView::SpawnFailed,
        }
    }
}

/// What the caller is to do next.
#[derive(Debug)]
pub enum Action {
    /// Announce the directory, and report `Visited`: with the directory's
    /// canonical form, where `canonicalize` asks for it.
    Visit { directory: String, canonicalize: bool },
    /// Run the invocation, wait for the child and capture what it writes,
    /// and report `Exited`, or `SpawnFailed` where no child started.
    Run { directory: String, invocation: ResolvedInvocation },
    /// Every directory has been dealt with: end with this exit code.
    Exit { code: i32 },
}

/// What an action holds.
pub ghost enum ActionView {
    Visit { directory: Seq<char>, canonicalize: bool },
    Run { directory: Seq<char>, invocation: InvocationView },
    Exit { code: i32 },
}

impl View for Action {
    type V = ActionView;

    open spec fn view(&self) -> ActionView {
        match self {
            Action::Visit { directory, canonicalize } => ActionView::Visit {
                directory: directory@,
                canonicalize: *canonicalize,
            },
            Action::Run { directory, invocation } => ActionView::Run {
                directory: directory@,
                invocation: invocation@,
            },
            Action::Exit { code } => ActionView::Exit { code: *code },
        }
    }
}

/// The state of a run.
pub ghost struct DispatcherView {
    /// The directories to visit, in the order of the visit.
    pub directories: Seq<Seq<char>>,
    /// The command line.
    pub template: TemplateView,
    /// How the command is bound to a directory.
    pub manifest_mode: bool,
    /// What the directories dealt with so far left behind, in their order.
    pub results: Seq<ResultView>,
    /// The invocation whose child the caller is running, if it runs one.
    pub running: Option<InvocationView>,
}

impl DispatcherView {
    /// Whether the state is one that a run can be in: no directory is
    /// there twice, the results are those of the first directories, in
    /// their order, and a child runs only while a directory is left.
    pub open spec fn well_formed(self) -> bool {
        &&& self.template.args.len() > 0
        &&& self.directories.no_duplicates()
        &&& self.results.len() <= self.directories.len()
        &&& forall|i: int|
            0 <= i < self.results.len() ==> (#[trigger] self.results[i]).directory
                == self.directories[i]
        &&& self.running is Some ==> self.results.len() < self.directories.len()
    }

    /// Whether every directory has been dealt with.
    pub open spec fn finished(self) -> bool {
        self.results.len() >= self.directories.len()
    }

    /// The directory that is dealt with now.
    pub open spec fn current(self) -> Seq<char>
        recommends
            !self.finished(),
    {
        self.directories[self.results.len() as int]
    }

    /// The state after the current directory left `outcome` and the two
    /// captured streams behind.
    pub open spec fn recorded(self, outcome: Outcome, stdout: Seq<u8>, stderr: Seq<u8>) -> DispatcherView
        recommends
            !self.finished(),
    {
        DispatcherView {
            results: self.results.push(
                ResultView { directory: self.current(), outcome, stdout, stderr },
            ),
            running: None,
            ..self
        }
    }

    /// What the caller is to do in this state: run the child that is due;
    /// else visit the next directory; else, when none is left, end with the
    /// exit code of the run.
    pub open spec fn pending(self) -> ActionView {
        if !self.finished() {
            match self.running {
                Some(invocation) => ActionView::Run { directory: self.current(), invocation },
                None => ActionView::Visit {
                    directory: self.current(),
                    canonicalize: self.manifest_mode,
                },
            }
        } else {
            ActionView::Exit { code: run_outcome(self.results) }
        }
    }

    /// The state after `event`. A report that is not due changes nothing.
    /// A visit leads to the run of the invocation built for the directory,
    /// or, where none can be built, to a failed result. The end of a child,
    /// and a child that did not start, lead to a result.
    pub open spec fn stepped(self, event: EventView) -> DispatcherView {
        match event {
            EventView::Start => self,
            EventView::Visited(canonical) => if !self.finished() && self.running is None {
                match built(self.template, self.current(), self.manifest_mode, canonical) {
                    Ok(invocation) => DispatcherView { running: Some(invocation), ..self },
                    Err(kind) => self.recorded(Err(kind), Seq::empty(), Seq::empty()),
                }
            } else {
                self
            },
            EventView::Exited(status, stdout, stderr) => if !self.finished() && self.running
                is Some {
                self.recorded(Ok(status), stdout, stderr)
            } else {
                self
            },
            EventView::SpawnFailed => if !self.finished() && self.running is Some {
                self.recorded(Err(ErrorKind::SpawnFailure), Seq::empty(), Seq::empty())
            } else {
                self
            },
        }
    }
}

/// The state in which a run starts: nothing has been dealt with, and each
/// directory is there once, where it first occurs.
pub open spec fn initial(
    directories: Seq<Seq<char>>,
    template: TemplateView,
    manifest_mode: bool,
) -> DispatcherView {
    DispatcherView {
        directories: distinct(directories),
        template,
        manifest_mode,
        results: Seq::empty(),
        running: None,
    }
}

/// A copy of `invocation`.
pub fn copy_invocation(invocation: &ResolvedInvocation) -> (copy: ResolvedInvocation)
    ensures
        copy@ == invocation@,
{
    let working_dir = match &invocation.working_dir {
        Some(dir) => Some(dir.clone()),
        None => None,
    };
    ResolvedInvocation {
        program: invocation.program.clone(),
        args: copy_texts(&invocation.args),
        working_dir,
    }
}

/// A run of one command line through a list of directories.
#[derive(Debug)]
pub struct Dispatcher {
    directories: Vec<String>,
    template: CommandTemplate,
    manifest_mode: bool,
    results: Vec<ExecutionResult>,
    running: Option<ResolvedInvocation>,
}

impl View for Dispatcher {
    type V = DispatcherView;

    closed spec fn view(&self) -> DispatcherView {
        DispatcherView {
            directories: self.directories.deep_view(),
            template: self.template@,
            manifest_mode: self.manifest_mode,
            results: self.results.deep_view(),
            running: match self.running {
                Some(invocation) => Some(invocation@),
                None => None,
            },
        }
    }
}

impl Dispatcher {
    #[verifier::type_invariant]
    closed spec fn inv(&self) -> bool {
        self@.well_formed()
    }

    /// The run of `template` through `directories`, in their order. A
    /// directory that occurs again is visited once, where it first occurs.
    pub fn new(directories: Vec<String>, template: CommandTemplate, manifest_mode: bool) -> (run:
        Dispatcher)
        ensures
            run@ == initial(directories.deep_view(), template@, manifest_mode),
            run@.well_formed(),
    {
        proof {
            lemma_distinct_no_duplicates(directories.deep_view());
            use_type_invariant(&template);
            template.lemma_has_subcommand();
        }
        let kept = drop_repeated(&directories);
        let results: Vec<ExecutionResult> = Vec::new();
        assert(results.deep_view() =~= Seq::<ResultView>::empty());
        Dispatcher { directories: kept, template, manifest_mode, results, running: None }
    }

    /// What is left behind by the directories dealt with so far.
    pub fn results(&self) -> (results: &Vec<ExecutionResult>)
        ensures
            results.deep_view() == self@.results,
    {
        &self.results
    }

    /// Whether every directory has been dealt with.
    pub fn is_finished(&self) -> (yes: bool)
        ensures
            yes == self@.finished(),
    {
        self.results.len() >= self.directories.len()
    }

    /// What the caller is to do now.
    pub fn pending_action(&self) -> (action: Action)
        ensures
            action@ == self@.pending(),
    {
        proof {
            use_type_invariant(self);
        }
        let n = self.results.len();
        if n < self.directories.len() {
            let directory = self.directories[n].clone();
            match &self.running {
                Some(invocation) => Action::Run {
                    directory,
                    invocation: copy_invocation(invocation),
                },
                None => Action::Visit { directory, canonicalize: self.manifest_mode },
            }
        } else {
            Action::Exit { code: aggregate(&self.results) }
        }
    }

    /// Takes the caller's report, and gives the state that follows and what
    /// is to be done next.
    pub fn step(self, event: Event) -> (next: (Dispatcher, Action))
        ensures
            next.0@ == self@.stepped(event@),
            next.1@ == next.0@.pending(),
            next.0@.well_formed(),
    {
        proof {
            use_type_invariant(&self);
        }
        let ghost old_view = self@;
        let Dispatcher { directories, template, manifest_mode, mut results, mut running } = self;
        let n = results.len();
        if n < directories.len() {
            let directory = directories[n].clone();
            let ghost before = results.deep_view();
            match event {
                Event::Start => {},
                Event::Visited(canonical) => {
                    if running.is_none() {
                        let dir = match &canonical {
                            Some(text) => Some(text.as_str()),
                            None => None,
                        };
                        match build(&template, directory.as_str(), manifest_mode, dir) {
                            Ok(invocation) => {
                                running = Some(invocation);
                            },
                            Err(kind) => {
                                results.push(
                                    ExecutionResult {
                                        directory,
                                        outcome: Err(kind),
                                        stdout: Vec::new(),
                                        stderr: Vec::new(),
                                    },
                                );
                                assert(results.deep_view() =~= before.push(
                                    ResultView {
                                        directory: old_view.current(),
                                        outcome: Err(kind),
                                        stdout: Seq::empty(),
                                        stderr: Seq::empty(),
                                    },
                                ));
                            },
                        }
                    }
                },
                Event::Exited(status, stdout, stderr) => {
                    if running.is_some() {
                        running = None;
                        let ghost out = stdout@;
                        let ghost err = stderr@;
                        results.push(
                            ExecutionResult { directory, outcome: Ok(status), stdout, stderr },
                        );
                        assert(results.deep_view() =~= before.push(
                            ResultView {
                                directory: old_view.current(),
                                outcome: Ok(status),
                                stdout: out,
                                stderr: err,
                            },
                        ));
                    }
                },
                Event::SpawnFailed => {
                    if running.is_some() {
                        running = None;
                        results.push(
                            ExecutionResult {
                                directory,
                                outcome: Err(ErrorKind::SpawnFailure),
                                stdout: Vec::new(),
                                stderr: Vec::new(),
                            },
                        );
                        assert(results.deep_view() =~= before.push(
                            ResultView {
                                directory: old_view.current(),
                                outcome: Err(ErrorKind::SpawnFailure),
                                stdout: Seq::empty(),
                                stderr: Seq::empty(),
                            },
                        ));
                    }
                },
            }
        }
        let state = Dispatcher { directories, template, manifest_mode, results, running };
        let action = state.pending_action();
        (state, action)
    }
}

/// A run starts in a state that a run can be in.
pub proof fn lemma_initial_well_formed(
    directories: Seq<Seq<char>>,
    template: TemplateView,
    manifest_mode: bool,
)
    requires
        template.args.len() > 0,
    ensures
        initial(directories, template, manifest_mode).well_formed(),
{
    lemma_distinct_no_duplicates(directories);
}

/// Whatever is reported, the results stay those of the first directories,
/// in the order of the visit, and what was recorded is never taken back:
/// a report adds one result or none.
pub proof fn lemma_step_keeps_order(state: DispatcherView, event: EventView)
    requires
        state.well_formed(),
    ensures
        state.stepped(event).well_formed(),
        state.stepped(event).directories == state.directories,
        state.stepped(event).results == state.results || (!state.finished()
            && state.stepped(event).results.len() == state.results.len() + 1
            && state.stepped(event).results.drop_last() == state.results
            && state.stepped(event).results.last().directory == state.current()),
{
    let next = state.stepped(event);
    if next.results != state.results {
        assert(next.results.drop_last() =~= state.results);
    }
}

/// The run ends only when every directory has left its result, and then
/// with the exit code that the results give.
pub proof fn lemma_exit_after_every_directory(state: DispatcherView)
    requires
        state.well_formed(),
    ensures
        state.pending() is Exit <==> state.results.len() == state.directories.len(),
        state.pending() matches ActionView::Exit { code } ==> code == run_outcome(state.results),
{
}

/// A directory that fails does not end the run. When the child of the
/// current directory ends, however it ends, or does not start, the
/// directory's result is recorded and the next directory is visited; only
/// after the last one the run is over.
pub proof fn lemma_failure_does_not_stop(state: DispatcherView, event: EventView)
    requires
        state.well_formed(),
        state.running is Some,
        event is Exited || event is SpawnFailed,
    ensures
        state.stepped(event).results.len() == state.results.len() + 1,
        state.stepped(event).results.last().outcome == (match event {
            EventView::Exited(status, _, _) => Ok::<ExitStatus, ErrorKind>(status),
            _ => Err(ErrorKind::SpawnFailure),
        }),
        state.results.len() + 1 < state.directories.len() ==> state.stepped(event).pending()
            == (ActionView::Visit {
            directory: state.directories[state.results.len() as int + 1],
            canonicalize: state.manifest_mode,
        }),
        state.results.len() + 1 == state.directories.len() ==> state.stepped(event).pending()
            is Exit,
{
}

/// A directory that has no canonical form when its manifest is to be named
/// fails with `PathResolutionError`, and the run goes on behind it.
pub proof fn lemma_lost_directory_is_recorded(state: DispatcherView)
    requires
        state.well_formed(),
        !state.finished(),
        state.running is None,
        state.manifest_mode,
    ensures
        state.stepped(EventView::Visited(None)).results == state.results.push(
            ResultView {
                directory: state.current(),
                outcome: Err(ErrorKind::PathResolutionError),
                stdout: Seq::empty(),
                stderr: Seq::empty(),
            },
        ),
        !(state.stepped(EventView::Visited(None)).pending() is Run),
{
}

} // verus!
