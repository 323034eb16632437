//! Starting, stopping and restarting instances, one or many at a time. The
//! library says which command goes to the runtime for each name and what each
//! of the runtime's answers means; sending the commands is the caller's part.

use vstd::prelude::*;
use crate::error::{Error, ErrorView};
use crate::naming::{runtime_name_of, to_runtime_name};

verus! {

/// A lifecycle operation on one container.
#[derive(Debug, Clone, Copy, PartialEq, Eq, Structural)]
pub enum Operation {
    Start,
    Stop,
    Restart,
}

/// One command for the runtime: the operation and the container it is for.
#[derive(Debug, PartialEq, Eq)]
pub struct Command {
    pub operation: Operation,
    /// The runtime's name of the container.
    pub container: String,
}

/// The mathematical content of a [`Command`].
pub struct CommandView {
    pub operation: Operation,
    pub container: Seq<char>,
}

impl View for Command {
    type V = CommandView;

    open spec fn view(&self) -> CommandView {
        CommandView { operation: self.operation, container: self.container@ }
    }
}

impl DeepView for Command {
    type V = CommandView;

    open spec fn deep_view(&self) -> CommandView {
        self@
    }
}

/// Why the runtime did not carry a request out.
#[derive(Debug, PartialEq, Eq)]
pub enum Failure {
    /// The runtime could not be reached; holds what the transport said.
    Unavailable(String),
    /// The runtime knows no such container; holds what it said.
    NotFound(String),
    /// The runtime refused the request for another reason; holds what it said.
    Refused(String),
}

/// The mathematical content of a [`Failure`].
pub enum FailureView {
    Unavailable(Seq<char>),
    NotFound(Seq<char>),
    Refused(Seq<char>),
}

impl View for Failure {
    type V = FailureView;

    open spec fn view(&self) -> FailureView {
        match self {
            Failure::Unavailable(m) => FailureView::Unavailable(m@),
            Failure::NotFound(m) => FailureView::NotFound(m@),
            Failure::Refused(m) => FailureView::Refused(m@),
        }
    }
}

impl Clone for Failure {
    fn clone(&self) -> (copy: Failure)
        ensures
            copy == *self,
    {
        match self {
            Failure::Unavailable(m) => Failure::Unavailable(m.clone()),
            Failure::NotFound(m) => Failure::NotFound(m.clone()),
            Failure::Refused(m) => Failure::Refused(m.clone()),
        }
    }
}

/// The runtime's answer to a command, in three states: it changed the
/// container, it found the container in the wanted state already, or it failed.
#[derive(Debug, PartialEq, Eq)]
pub enum Reply {
    Changed,
    AlreadyInState,
    Failed(Failure),
}

/// The mathematical content of a [`Reply`].
pub enum ReplyView {
    Changed,
    AlreadyInState,
    Failed(FailureView),
}

impl View for Reply {
    type V = ReplyView;

    open spec fn view(&self) -> ReplyView {
        match self {
            Reply::Changed => ReplyView::Changed,
            Reply::AlreadyInState => ReplyView::AlreadyInState,
            Reply::Failed(f) => ReplyView::Failed(f@),
        }
    }
}

impl Clone for Reply {
    fn clone(&self) -> (copy: Reply)
        ensures
            copy == *self,
    {
        match self {
            Reply::Changed => Reply::Changed,
            Reply::AlreadyInState => Reply::AlreadyInState,
            Reply::Failed(f) => Reply::Failed(f.clone()),
        }
    }
}

/// The status by which the runtime says that the container was in the wanted
/// state already.
pub const STATUS_NOT_MODIFIED: u16 = 304;

/// The status by which the runtime says that it knows no such container.
pub const STATUS_NOT_FOUND: u16 = 404;

/// The failure that a status of the runtime reports: an unknown container for
/// "not found", a refusal for every other status. The runtime's message is kept.
pub open spec fn failure_of_status(code: u16, message: Seq<char>) -> FailureView {
    if code == STATUS_NOT_FOUND {
        FailureView::NotFound(message)
    } else {
        FailureView::Refused(message)
    }
}

/// What a status of the runtime means for a lifecycle command.
pub open spec fn reply_of_status(code: u16, message: Seq<char>) -> ReplyView {
    if 200 <= code < 300 {
        ReplyView::Changed
    } else if code == STATUS_NOT_MODIFIED {
        ReplyView::AlreadyInState
    } else {
        ReplyView::Failed(failure_of_status(code, message))
    }
}

impl Failure {
    /// Reads a status by which the runtime refused a request.
    pub fn from_status(code: u16, message: String) -> (failure: Failure)
        ensures
            failure@ == failure_of_status(code, message@),
    {
        if code == STATUS_NOT_FOUND {
            Failure::NotFound(message)
        } else {
            Failure::Refused(message)
        }
    }
}

impl Reply {
    /// Reads the runtime's status: a success status means that the container
    /// changed, "not modified" that it was in the wanted state already, and
    /// every other status is a failure that keeps the runtime's message.
    pub fn from_status(code: u16, message: String) -> (reply: Reply)
        ensures
            reply@ == reply_of_status(code, message@),
    {
        if 200 <= code && code < 300 {
            Reply::Changed
        } else if code == STATUS_NOT_MODIFIED {
            Reply::AlreadyInState
        } else {
            Reply::Failed(Failure::from_status(code, message))
        }
    }

    /// Whether the instance is in the wanted state after this reply.
    pub fn succeeded(&self) -> (ok: bool)
        ensures
            ok == !(self@ is Failed),
    {
        match self {
            Reply::Failed(_) => false,
            _ => true,
        }
    }
}

/// How a command ended for an instance that is now in the wanted state.
#[derive(Debug, Clone, Copy, PartialEq, Eq, Structural)]
pub enum Outcome {
    /// The runtime changed the instance's state.
    Changed,
    /// The instance was in the wanted state already: nothing was done.
    AlreadyInState,
}

/// The error that a failure of the runtime is for the instance called `name`.
pub open spec fn error_of(name: Seq<char>, failure: FailureView) -> ErrorView {
    match failure {
        FailureView::Unavailable(m) => ErrorView::RuntimeUnavailable(m),
        FailureView::NotFound(_) => ErrorView::InstanceNotFound(name),
        FailureView::Refused(m) => ErrorView::OperationFailed(name, m),
    }
}

/// What a reply means for the instance called `name`: a success, or the
/// failure with the name it belongs to.
pub open spec fn outcome_of(name: Seq<char>, reply: ReplyView) -> Result<Outcome, ErrorView> {
    match reply {
        ReplyView::Changed => Ok(Outcome::Changed),
        ReplyView::AlreadyInState => Ok(Outcome::AlreadyInState),
        ReplyView::Failed(failure) => Err(error_of(name, failure)),
    }
}

/// The view of an outcome or its error.
pub open spec fn outcome_view(outcome: Result<Outcome, Error>) -> Result<Outcome, ErrorView> {
    match outcome {
        Ok(o) => Ok(o),
        Err(e) => Err(e@),
    }
}

/// The error that a failure of the runtime is for the instance called `name`:
/// an unreachable runtime stays that, an unknown container means that the
/// instance was not found, and every other refusal is a failed operation.
pub fn failure_error(name: &str, failure: &Failure) -> (error: Error)
    ensures
        error@ == error_of(name@, failure@),
{
    match failure {
        Failure::Unavailable(m) => Error::RuntimeUnavailable(m.clone()),
        Failure::NotFound(_) => Error::InstanceNotFound(String::from_str(name)),
        Failure::Refused(m) => Error::OperationFailed(String::from_str(name), m.clone()),
    }
}

/// Says what the runtime's reply means for the instance called `name`.
/// A reply of "already in state" is a success.
pub fn settle(name: &str, reply: &Reply) -> (outcome: Result<Outcome, Error>)
    ensures
        outcome_view(outcome) == outcome_of(name@, reply@),
{
    match reply {
        Reply::Changed => Ok(Outcome::Changed),
        Reply::AlreadyInState => Ok(Outcome::AlreadyInState),
        Reply::Failed(failure) => Err(failure_error(name, failure)),
    }
}

/// The command that applies `operation` to the instance called `name`.
pub fn command_for(prefix: &str, operation: Operation, name: &str) -> (command: Command)
    ensures
        command@ == (CommandView { operation, container: runtime_name_of(prefix@, name@) }),
{
    Command { operation, container: to_runtime_name(prefix, name) }
}

/// The commands of a batch: one for each name, in the order of the names.
pub open spec fn commands_of(prefix: Seq<char>, operation: Operation, names: Seq<Seq<char>>) -> Seq<
    CommandView,
> {
    Seq::new(
        names.len(),
        |i: int| CommandView { operation, container: runtime_name_of(prefix, names[i]) },
    )
}

/// The commands that apply `operation` to each of `names`. No command depends
/// on another: the caller may send them all at once.
pub fn plan(prefix: &str, operation: Operation, names: &Vec<String>) -> (commands: Vec<Command>)
    ensures
        commands.deep_view() == commands_of(prefix@, operation, names.deep_view()),
{
    let mut commands: Vec<Command> = Vec::new();
    let mut i: usize = 0;
    while i < names.len()
        invariant
            i <= names.len(),
            commands.len() == i,
            forall|k: int|
                0 <= k < i ==> (#[trigger] commands[k])@ == (CommandView {
                    operation,
                    container: runtime_name_of(prefix@, names[k]@),
                }),
        decreases names.len() - i,
    {
        commands.push(command_for(prefix, operation, names[i].as_str()));
        i = i + 1;
    }
    commands
}

/// The runtime's reply to the command for one name.
#[derive(Debug, PartialEq, Eq)]
pub struct Answer {
    pub name: String,
    pub reply: Reply,
}

/// The mathematical content of an [`Answer`].
pub struct AnswerView {
    pub name: Seq<char>,
    pub reply: ReplyView,
}

impl View for Answer {
    type V = AnswerView;

    open spec fn view(&self) -> AnswerView {
        AnswerView { name: self.name@, reply: self.reply@ }
    }
}

impl DeepView for Answer {
    type V = AnswerView;

    open spec fn deep_view(&self) -> AnswerView {
        self@
    }
}

/// A name whose command succeeded, with the way in which it did.
#[derive(Debug, PartialEq, Eq)]
pub struct Success {
    pub name: String,
    pub outcome: Outcome,
}

/// The mathematical content of a [`Success`].
pub struct SuccessView {
    pub name: Seq<char>,
    pub outcome: Outcome,
}

impl View for Success {
    type V = SuccessView;

    open spec fn view(&self) -> SuccessView {
        SuccessView { name: self.name@, outcome: self.outcome }
    }
}

impl DeepView for Success {
    type V = SuccessView;

    open spec fn deep_view(&self) -> SuccessView {
        self@
    }
}

/// How the command for one name ended.
#[derive(Debug, PartialEq, Eq)]
pub struct NameOutcome {
    pub name: String,
    pub outcome: Result<Outcome, Error>,
}

/// The mathematical content of a [`NameOutcome`].
pub struct NameOutcomeView {
    pub name: Seq<char>,
    pub outcome: Result<Outcome, ErrorView>,
}

impl View for NameOutcome {
    type V = NameOutcomeView;

    open spec fn view(&self) -> NameOutcomeView {
        NameOutcomeView { name: self.name@, outcome: outcome_view(self.outcome) }
    }
}

impl DeepView for NameOutcome {
    type V = NameOutcomeView;

    open spec fn deep_view(&self) -> NameOutcomeView {
        self@
    }
}

/// A batch in which at least one name failed. It keeps the outcome of every
/// name, the successes too, in the order of the names.
#[derive(Debug, PartialEq, Eq)]
pub struct BatchFailure {
    pub outcomes: Vec<NameOutcome>,
}

/// True when every answer of the batch is a success.
pub open spec fn all_succeeded(answers: Seq<AnswerView>) -> bool {
    forall|i: int| 0 <= i < answers.len() ==> !((#[trigger] answers[i]).reply is Failed)
}

/// How a reply that is no failure succeeded.
pub open spec fn success_of(reply: ReplyView) -> Outcome {
    match reply {
        ReplyView::Changed => Outcome::Changed,
        _ => Outcome::AlreadyInState,
    }
}

/// The names of a batch that succeeded, each with the way in which it did,
/// in order.
pub open spec fn successes_of(answers: Seq<AnswerView>) -> Seq<SuccessView> {
    Seq::new(
        answers.len(),
        |i: int| SuccessView { name: answers[i].name, outcome: success_of(answers[i].reply) },
    )
}

/// The outcome of every name of the batch, in order.
pub open spec fn outcomes_of(answers: Seq<AnswerView>) -> Seq<NameOutcomeView> {
    Seq::new(
        answers.len(),
        |i: int|
            NameOutcomeView {
                name: answers[i].name,
                outcome: outcome_of(answers[i].name, answers[i].reply),
            },
    )
}

/// Whether every answer of the batch is a success.
pub fn batch_succeeded(answers: &Vec<Answer>) -> (ok: bool)
    ensures
        ok == all_succeeded(answers.deep_view()),
{
    let mut i: usize = 0;
    while i < answers.len()
        invariant
            i <= answers.len(),
            forall|k: int| 0 <= k < i ==> !((#[trigger] answers.deep_view()[k]).reply is Failed),
        decreases answers.len() - i,
    {
        if !answers[i].reply.succeeded() {
            assert(answers.deep_view()[i as int].reply is Failed);
            return false;
        }
        i = i + 1;
    }
    true
}

/// Joins the answers of a batch into one result. Where every name succeeded,
/// the result lists the names, each with the way in which it succeeded.
/// Where one failed, the batch fails as a whole, and the failure holds each
/// name with its own outcome: none is lost and none is merged with another.
pub fn conclude(answers: &Vec<Answer>) -> (result: Result<Vec<Success>, BatchFailure>)
    ensures
        match result {
            Ok(done) => {
                &&& all_succeeded(answers.deep_view())
                &&& done.deep_view() == successes_of(answers.deep_view())
            },
            Err(failure) => {
                &&& !all_succeeded(answers.deep_view())
                &&& failure.outcomes.deep_view() == outcomes_of(answers.deep_view())
            },
        },
{
    if batch_succeeded(answers) {
        let mut done: Vec<Success> = Vec::new();
        let mut i: usize = 0;
        while i < answers.len()
            invariant
                i <= answers.len(),
                done.len() == i,
                forall|k: int|
                    0 <= k < i ==> (#[trigger] done[k])@ == (SuccessView {
                        name: answers[k].name@,
                        outcome: success_of(answers[k].reply@),
                    }),
            decreases answers.len() - i,
        {
            let answer = &answers[i];
            let outcome = match answer.reply {
                Reply::Changed => Outcome::Changed,
                _ => Outcome::AlreadyInState,
            };
            done.push(Success { name: answer.name.clone(), outcome });
            i = i + 1;
        }
        Ok(done)
    } else {
        let mut outcomes: Vec<NameOutcome> = Vec::new();
        let mut i: usize = 0;
        while i < answers.len()
            invariant
                i <= answers.len(),
                outcomes.len() == i,
                forall|k: int|
                    0 <= k < i ==> (#[trigger] outcomes[k])@ == (NameOutcomeView {
                        name: answers[k].name@,
                        outcome: outcome_of(answers[k].name@, answers[k].reply@),
                    }),
            decreases answers.len() - i,
        {
            let answer = &answers[i];
            let outcome = settle(answer.name.as_str(), &answer.reply);
            outcomes.push(NameOutcome { name: answer.name.clone(), outcome });
            i = i + 1;
        }
        Err(BatchFailure { outcomes })
    }
}

/// In a batch that succeeded, each name's way of succeeding is what its own
/// reply means.
pub proof fn lemma_successes_are_per_name(answers: Seq<AnswerView>, i: int)
    requires
        0 <= i < answers.len(),
        all_succeeded(answers),
    ensures
        successes_of(answers).len() == answers.len(),
        successes_of(answers)[i].name == answers[i].name,
        Ok::<Outcome, ErrorView>(successes_of(answers)[i].outcome) == outcome_of(
            answers[i].name,
            answers[i].reply,
        ),
{
}

/// Starting an instance that runs, or stopping one that is stopped, is no
/// error: the runtime's "not modified" settles as a success for every name.
pub proof fn lemma_not_modified_is_success(name: Seq<char>, message: Seq<char>)
    ensures
        outcome_of(name, reply_of_status(STATUS_NOT_MODIFIED, message)) == Ok::<
            Outcome,
            ErrorView,
        >(Outcome::AlreadyInState),
{
}

/// A reply settles as an error exactly when it is a failure.
pub proof fn lemma_outcome_is_error_iff_failed(name: Seq<char>, reply: ReplyView)
    ensures
        outcome_of(name, reply) is Err <==> reply is Failed,
{
}

/// A failed batch keeps one outcome for each name, under that name, and each
/// outcome is what the name's own reply means: a success stays a success
/// beside a failure, and two failures stay apart.
pub proof fn lemma_outcomes_are_per_name(answers: Seq<AnswerView>, i: int)
    requires
        0 <= i < answers.len(),
    ensures
        outcomes_of(answers).len() == answers.len(),
        outcomes_of(answers)[i].name == answers[i].name,
        outcomes_of(answers)[i].outcome == outcome_of(answers[i].name, answers[i].reply),
        outcomes_of(answers)[i].outcome is Ok <==> !(answers[i].reply is Failed),
{
}

} // verus!
