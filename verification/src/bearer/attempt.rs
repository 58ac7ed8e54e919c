//! One attempt at a bearer: the commands it takes, one after the other. A bearer that
//! was created for the attempt does not outlive its failure.

use vstd::prelude::*;
use vstd::string::*;

use crate::bearer;
use crate::bearer::ensure::{
    attempt_error, connect_bearer_args, connect_error, create_bearer_args, created_bearer,
    delete_bearer, read_bearer_args,
};
use crate::bearer::{
    bearer_properties, connected, connection_in, first_bearer_word, BearerConnection, BearerRequest,
    ConnectionView, RequestView,
};
use crate::errors::{code, detailed, failure, opt_error, ErrorView, VolteError};
use crate::plan::IpType;
use crate::text::{texts, words};

verus! {

/// The command that was run last.
#[derive(Debug, Clone, Copy, PartialEq, Eq, Structural)]
pub enum AttemptStage {
    Creating,
    ReadingBefore,
    Connecting,
    ReadingAfter,
    ReadingFailure,
    Deleting,
}

/// What to do next.
#[derive(Debug, PartialEq, Eq)]
pub enum AttemptStep {
    /// Run `mmcli` with these arguments.
    Run(Vec<String>),
    /// The bearer is connected.
    Connected(BearerConnection),
    /// The attempt failed; `details` describe the bearer as the failure left it.
    Failed { error: VolteError, details: String },
}

pub enum AttemptView {
    Run(Seq<Seq<char>>),
    Connected(ConnectionView),
    Failed { error: ErrorView, details: Seq<char> },
}

impl View for AttemptStep {
    type V = AttemptView;

    open spec fn view(&self) -> AttemptView {
        match *self {
            AttemptStep::Run(args) => AttemptView::Run(texts(args@)),
            AttemptStep::Connected(bearer) => AttemptView::Connected(bearer@),
            AttemptStep::Failed { error, details } => AttemptView::Failed {
                error: error@,
                details: details@,
            },
        }
    }
}

/// An attempt at a bearer.
#[derive(Debug, PartialEq, Eq)]
pub struct BearerTry {
    modem: String,
    /// The bearer was created for the attempt.
    temporary: bool,
    path: String,
    stage: AttemptStage,
    /// Why the attempt failed, and what the bearer said of it.
    error: Option<VolteError>,
    details: String,
}

pub struct TryView {
    pub modem: Seq<char>,
    pub temporary: bool,
    pub path: Seq<char>,
    pub stage: AttemptStage,
    pub error: Option<ErrorView>,
    pub details: Seq<char>,
}

impl View for BearerTry {
    type V = TryView;

    closed spec fn view(&self) -> TryView {
        TryView {
            modem: self.modem@,
            temporary: self.temporary,
            path: self.path@,
            stage: self.stage,
            error: opt_error(self.error),
            details: self.details@,
        }
    }
}

/// What a command came to.
pub open spec fn command_outcome(outcome: Result<String, VolteError>) -> Result<
    Seq<char>,
    ErrorView,
> {
    match outcome {
        Ok(output) => Ok(output@),
        Err(error) => Err(error@),
    }
}

pub open spec fn read_args(path: Seq<char>) -> Seq<Seq<char>> {
    seq!["-b"@, path, "--output-keyvalue"@]
}

pub open spec fn connect_args(path: Seq<char>) -> Seq<Seq<char>> {
    seq!["-b"@, path, "--connect"@]
}

pub open spec fn delete_args(modem: Seq<char>, path: Seq<char>) -> Seq<Seq<char>> {
    seq!["-m"@, modem, "--delete-bearer="@ + path]
}

pub open spec fn create_args(modem: Seq<char>, request: RequestView, ip_type: IpType) -> Seq<
    Seq<char>,
> {
    seq!["-m"@, modem, "--create-bearer="@ + bearer_properties(request, ip_type.mm_name())]
}

impl TryView {
    /// The attempt failed. A bearer that was created for it is read once more, and
    /// then deleted.
    pub open spec fn fail(self, error: ErrorView) -> (TryView, AttemptView) {
        if self.temporary {
            (
                TryView { stage: AttemptStage::ReadingFailure, error: Some(error), ..self },
                AttemptView::Run(read_args(self.path)),
            )
        } else {
            (self, AttemptView::Failed { error, details: ""@ })
        }
    }

    /// A command was run.
    pub open spec fn ran(self, outcome: Result<Seq<char>, ErrorView>) -> (TryView, AttemptView) {
        match self.stage {
            AttemptStage::Creating => match outcome {
                Err(error) => (self, AttemptView::Failed { error, details: ""@ }),
                Ok(output) => match first_bearer_word(words(output)) {
                    Some(path) => (
                        TryView { path, stage: AttemptStage::ReadingBefore, ..self },
                        AttemptView::Run(read_args(path)),
                    ),
                    None => (
                        self,
                        AttemptView::Failed {
                            error: failure(code::RUNTIME_MM_BEARER_PATH_MISSING@),
                            details: ""@,
                        },
                    ),
                },
            },
            AttemptStage::ReadingBefore => match outcome {
                Err(error) => self.fail(error),
                Ok(output) => if connected(output) {
                    (
                        TryView { stage: AttemptStage::ReadingAfter, ..self },
                        AttemptView::Run(read_args(self.path)),
                    )
                } else {
                    (
                        TryView { stage: AttemptStage::Connecting, ..self },
                        AttemptView::Run(connect_args(self.path)),
                    )
                },
            },
            AttemptStage::Connecting => match outcome {
                Err(error) => self.fail(
                    detailed(code::RUNTIME_MM_BEARER_CONNECT_FAILED@, error.message()),
                ),
                Ok(_) => (
                    TryView { stage: AttemptStage::ReadingAfter, ..self },
                    AttemptView::Run(read_args(self.path)),
                ),
            },
            AttemptStage::ReadingAfter => match outcome {
                Err(error) => self.fail(error),
                Ok(output) => match connection_in(self.path, output) {
                    Ok(bearer) => (self, AttemptView::Connected(bearer)),
                    Err(error) => self.fail(error),
                },
            },
            AttemptStage::ReadingFailure => (
                TryView {
                    stage: AttemptStage::Deleting,
                    details: match outcome {
                        Ok(output) => output,
                        Err(_) => ""@,
                    },
                    ..self
                },
                AttemptView::Run(delete_args(self.modem, self.path)),
            ),
            AttemptStage::Deleting => (
                self,
                AttemptView::Failed {
                    error: match outcome {
                        Err(cleanup) => cleanup,
                        Ok(_) => self.error->0,
                    },
                    details: self.details,
                },
            ),
        }
    }

    /// The stages of a failure know the failure.
    pub open spec fn wf(self) -> bool {
        (self.stage is ReadingFailure || self.stage is Deleting) ==> self.error is Some
    }
}

impl BearerTry {
    /// Creates a bearer of one type and connects it.
    pub fn create(modem: &str, request: &BearerRequest, ip_type: IpType) -> (r: (Self, AttemptStep))
        ensures
            r.0@ == (TryView {
                modem: modem@,
                temporary: true,
                path: ""@,
                stage: AttemptStage::Creating,
                error: None,
                details: ""@,
            }),
            r.0@.wf(),
            r.1@ == AttemptView::Run(create_args(modem@, request@, ip_type)),
    {
        let state = BearerTry {
            modem: modem.to_string(),
            temporary: true,
            path: "".to_string(),
            stage: AttemptStage::Creating,
            error: None,
            details: "".to_string(),
        };
        (state, AttemptStep::Run(create_bearer_args(modem, request, ip_type)))
    }

    /// Connects a bearer that exists.
    pub fn connect(modem: &str, path: &str) -> (r: (Self, AttemptStep))
        ensures
            r.0@ == (TryView {
                modem: modem@,
                temporary: false,
                path: path@,
                stage: AttemptStage::ReadingBefore,
                error: None,
                details: ""@,
            }),
            r.0@.wf(),
            r.1@ == AttemptView::Run(read_args(path@)),
    {
        let state = BearerTry {
            modem: modem.to_string(),
            temporary: false,
            path: path.to_string(),
            stage: AttemptStage::ReadingBefore,
            error: None,
            details: "".to_string(),
        };
        (state, AttemptStep::Run(read_bearer_args(path)))
    }

    fn fail(&mut self, error: VolteError) -> (r: AttemptStep)
        requires
            old(self)@.wf(),
        ensures
            final(self)@.wf(),
            (final(self)@, r@) == old(self)@.fail(error@),
    {
        if !self.temporary {
            return AttemptStep::Failed { error, details: "".to_string() };
        }
        self.stage = AttemptStage::ReadingFailure;
        self.error = Some(error);
        AttemptStep::Run(read_bearer_args(self.path.as_str()))
    }

    /// The command was run.
    pub fn ran(&mut self, outcome: Result<String, VolteError>) -> (r: AttemptStep)
        requires
            old(self)@.wf(),
        ensures
            final(self)@.wf(),
            (final(self)@, r@) == old(self)@.ran(command_outcome(outcome)),
    {
        match self.stage {
            AttemptStage::Creating => match outcome {
                Err(error) => AttemptStep::Failed { error, details: "".to_string() },
                Ok(output) => match created_bearer(output.as_str()) {
                    Ok(path) => {
                        self.path = path;
                        self.stage = AttemptStage::ReadingBefore;
                        AttemptStep::Run(read_bearer_args(self.path.as_str()))
                    },
                    Err(error) => AttemptStep::Failed { error, details: "".to_string() },
                },
            },
            AttemptStage::ReadingBefore => match outcome {
                Err(error) => self.fail(error),
                Ok(output) => {
                    if bearer::is_connected(output.as_str()) {
                        self.stage = AttemptStage::ReadingAfter;
                        AttemptStep::Run(read_bearer_args(self.path.as_str()))
                    } else {
                        self.stage = AttemptStage::Connecting;
                        AttemptStep::Run(connect_bearer_args(self.path.as_str()))
                    }
                },
            },
            AttemptStage::Connecting => match outcome {
                Err(error) => self.fail(connect_error(&error)),
                Ok(_) => {
                    self.stage = AttemptStage::ReadingAfter;
                    AttemptStep::Run(read_bearer_args(self.path.as_str()))
                },
            },
            AttemptStage::ReadingAfter => match outcome {
                Err(error) => self.fail(error),
                Ok(output) => match bearer::parse_bearer_connection(
                    self.path.as_str(),
                    output.as_str(),
                ) {
                    Ok(connection) => AttemptStep::Connected(connection),
                    Err(error) => self.fail(error),
                },
            },
            AttemptStage::ReadingFailure => {
                self.stage = AttemptStage::Deleting;
                self.details = match outcome {
                    Ok(output) => output,
                    Err(_) => "".to_string(),
                };
                AttemptStep::Run(delete_bearer(self.modem.as_str(), self.path.as_str()))
            },
            AttemptStage::Deleting => {
                let cleanup = match outcome {
                    Ok(_) => None,
                    Err(cleanup) => Some(cleanup),
                };
                let error = match &self.error {
                    Some(error) => error.clone(),
                    None => VolteError::new(code::RUNTIME_MM_BEARER_CONNECT_FAILED),
                };
                AttemptStep::Failed {
                    error: attempt_error(error, cleanup),
                    details: self.details.clone(),
                }
            },
        }
    }
}

/// A bearer that was created for an attempt is deleted before the attempt is given up:
/// once it has a path, the last command before a failure is the one that deletes it.
pub proof fn failed_bearers_are_deleted(state: TryView, outcome: Result<Seq<char>, ErrorView>)
    requires
        state.temporary,
        !(state.stage is Creating),
    ensures
        state.ran(outcome).1 is Failed ==> state.stage is Deleting,
        state.stage is ReadingFailure ==> state.ran(outcome).1 == AttemptView::Run(
            delete_args(state.modem, state.path),
        ),
        state.ran(outcome).0.temporary,
        state.ran(outcome).0.path == state.path,
{
}

/// A bearer that existed before an attempt is never deleted by it.
pub proof fn existing_bearers_are_not_deleted(state: TryView, outcome: Result<Seq<char>, ErrorView>)
    requires
        !state.temporary,
        state.stage is ReadingBefore || state.stage is Connecting || state.stage is ReadingAfter,
    ensures
        ({
            let (next, step) = state.ran(outcome);
            &&& !(next.stage is ReadingFailure) && !(next.stage is Deleting)
            &&& !next.temporary
            &&& step is Run ==> step->Run_0 == read_args(state.path) || step->Run_0
                == connect_args(state.path)
        }),
{
}

/// The stages of an attempt, in their order.
pub open spec fn stage_rank(stage: AttemptStage) -> nat {
    match stage {
        AttemptStage::Creating => 0,
        AttemptStage::ReadingBefore => 1,
        AttemptStage::Connecting => 2,
        AttemptStage::ReadingAfter => 3,
        AttemptStage::ReadingFailure => 4,
        AttemptStage::Deleting => 5,
    }
}

/// An attempt comes to an end: every further command belongs to a later stage.
pub proof fn attempt_comes_to_an_end(state: TryView, outcome: Result<Seq<char>, ErrorView>)
    requires
        !state.temporary ==> !(state.stage is ReadingFailure),
    ensures
        state.ran(outcome).1 is Run ==> stage_rank(state.ran(outcome).0.stage) > stage_rank(
            state.stage,
        ),
        stage_rank(state.stage) <= 5,
{
}

} // verus!
