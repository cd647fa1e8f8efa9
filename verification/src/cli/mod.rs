//! `issue`: the command-line surface.
//!
//! A client of the local HTTP API, never a second writer: everything goes
//! through the running app, so the window's projection and the database can
//! never disagree about what happened. The cost is that these commands need
//! Issues to be running, which is reported as its own exit code rather than
//! folded in with genuine failures.

use vstd::prelude::*;

use crate::client::ClientError;

pub mod args;
pub mod commands;
pub mod lines;
pub mod pages;
pub mod render;
pub mod session;
pub mod words;

verus! {

/// Why a command did not finish, and what the shell should be told.
///
/// The three kinds are separated because a caller's next move differs: fix the
/// command, fix the request, or start the app.
#[derive(Debug, Clone, PartialEq, Eq)]
pub enum Failure {
    /// The command line was wrong. Exit 2.
    Usage(String),
    /// The request was made and refused, or something else broke. Exit 1.
    Failed(String),
    /// There is no API to talk to. Exit 3, so a wrapper can tell this apart
    /// from a genuine failure and offer to start the app.
    NotRunning(String),
}

/// Why a command did not finish, as the contracts speak of it.
#[verifier::ext_equal]
pub enum FailureModel {
    Usage(Seq<char>),
    Failed(Seq<char>),
    NotRunning(Seq<char>),
}

impl View for Failure {
    type V = FailureModel;

    open spec fn view(&self) -> FailureModel {
        match *self {
            Failure::Usage(message) => FailureModel::Usage(message@),
            Failure::Failed(message) => FailureModel::Failed(message@),
            Failure::NotRunning(message) => FailureModel::NotRunning(message@),
        }
    }
}

impl Failure {
    /// The sentence a failure carries.
    pub open spec fn sentence(self) -> Seq<char> {
        match self {
            Failure::Usage(message) => message@,
            Failure::Failed(message) => message@,
            Failure::NotRunning(message) => message@,
        }
    }

    /// The command line was wrong.
    pub fn usage(message: &str) -> (r: Failure)
        ensures
            r is Usage,
            r.sentence() == message@,
    {
        Failure::Usage(message.to_owned())
    }

    /// The request was made and refused, or something else broke.
    pub fn failed(message: &str) -> (r: Failure)
        ensures
            r is Failed,
            r.sentence() == message@,
    {
        Failure::Failed(message.to_owned())
    }

    /// There is no API to talk to.
    pub fn not_running(message: &str) -> (r: Failure)
        ensures
            r is NotRunning,
            r.sentence() == message@,
    {
        Failure::NotRunning(message.to_owned())
    }

    /// The code the process exits with.
    pub fn code(&self) -> (r: u8)
        ensures
            r == match *self {
                Failure::Failed(_) => 1u8,
                Failure::Usage(_) => 2u8,
                Failure::NotRunning(_) => 3u8,
            },
    {
        match self {
            Failure::Failed(_) => 1,
            Failure::Usage(_) => 2,
            Failure::NotRunning(_) => 3,
        }
    }

    /// The sentence a failure carries.
    pub fn message(&self) -> (r: &str)
        ensures
            r@ == self.sentence(),
    {
        match self {
            Failure::Usage(message) => message.as_str(),
            Failure::Failed(message) => message.as_str(),
            Failure::NotRunning(message) => message.as_str(),
        }
    }

    /// The client knows whether there was an app to talk to; only the command
    /// line knows that this is worth a distinct exit code.
    pub fn from_client(err: ClientError) -> (r: Failure)
        ensures
            r is NotRunning <==> err is NotRunning,
            r is Failed <==> err is Failed,
            r.sentence() == err.sentence(),
    {
        match err {
            ClientError::NotRunning(message) => Failure::NotRunning(message),
            ClientError::Failed(message) => Failure::Failed(message),
        }
    }
}

} // verus!
