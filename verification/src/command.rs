//! What each command does to the list, and what it tells the user.
//!
//! Nothing here reads or writes: a command is turned into a request, and a
//! request, with the list that the store holds, into an outcome that says
//! what to print, what to store and which identity to hand to git.

use vstd::prelude::*;
use crate::error::GitIdError;
use crate::identity::{GitId, Identity};
use crate::index::{index_of_text, parse_index};
use crate::list::{added, GitIds};
use crate::render::{list_ids, listing};

verus! {

/// A command as the user wrote it.
#[derive(Debug)]
pub enum Command {
    /// `list`: show the list.
    List,
    /// `add`: put an identity on the list.
    Add { email: String, name: String },
    /// `set`: make the entry at a position the identity of the repository.
    Apply { number: String },
    /// `remove`: take the entry at a position off the list.
    Remove { number: String },
}

/// A command whose arguments have been read.
#[derive(Debug)]
pub enum Request {
    List,
    Add(GitId),
    Apply(usize),
    Remove(usize),
}

/// The model of a request.
pub enum Intent {
    List,
    Add(Identity),
    Apply(usize),
    Remove(usize),
}

impl View for Request {
    type V = Intent;

    open spec fn view(&self) -> Intent {
        match self {
            Request::List => Intent::List,
            Request::Add(id) => Intent::Add(id@),
            Request::Apply(n) => Intent::Apply(*n),
            Request::Remove(n) => Intent::Remove(*n),
        }
    }
}

/// What a request leads to.
#[derive(Debug)]
pub struct Outcome {
    /// The text to print.
    pub output: String,
    /// The list to store, where the store is to be written.
    pub write: Option<GitIds>,
    /// The identity to make the active one of the repository, if any.
    pub apply: Option<GitId>,
    /// Why the request was not carried out, if it was not.
    pub failure: Option<GitIdError>,
}

/// The model of an outcome.
#[verifier::ext_equal]
pub struct Effect {
    pub output: Seq<char>,
    pub write: Option<Seq<Identity>>,
    pub apply: Option<Identity>,
    pub failure: Option<GitIdError>,
}

/// The model of a list that may be absent.
pub open spec fn list_model(list: Option<GitIds>) -> Option<Seq<Identity>> {
    match list {
        Some(l) => Some(l@),
        None => None,
    }
}

/// The model of an identity that may be absent.
pub open spec fn identity_model(id: Option<GitId>) -> Option<Identity> {
    match id {
        Some(i) => Some(i@),
        None => None,
    }
}

impl View for Outcome {
    type V = Effect;

    open spec fn view(&self) -> Effect {
        Effect {
            output: self.output@,
            write: list_model(self.write),
            apply: identity_model(self.apply),
            failure: self.failure,
        }
    }
}

/// The request that a command makes, if its arguments can be read.
pub open spec fn intent_of(command: Command) -> Option<Intent> {
    match command {
        Command::List => Some(Intent::List),
        Command::Add { email, name } => Some(Intent::Add(Identity { email: email@, name: name@ })),
        Command::Apply { number } => match index_of_text(number@) {
            Some(n) => Some(Intent::Apply(n)),
            None => None,
        },
        Command::Remove { number } => match index_of_text(number@) {
            Some(n) => Some(Intent::Remove(n)),
            None => None,
        },
    }
}

/// The line that tells the user of a failure.
pub open spec fn failure_text(failure: GitIdError) -> Seq<char> {
    match failure {
        GitIdError::MissingStore => "There were no ids stored in .gitid.\n"@,
        GitIdError::CorruptStore => "The .gitid file does not hold a list of ids.\n"@,
        GitIdError::IndexError => "Invalid index.\n"@,
        GitIdError::ParseError => "Passed invalid argument.\n"@,
        GitIdError::EncodeError => "The ids could not be written as JSON.\n"@,
    }
}

/// The outcome of a request that fails: the failure is told, nothing is
/// stored and no identity is applied.
pub open spec fn refused(failure: GitIdError) -> Effect {
    Effect { output: failure_text(failure), write: None, apply: None, failure: Some(failure) }
}

/// The outcome of a request, given the list that the store holds, if there
/// is a store.
pub open spec fn effect_of(intent: Intent, stored: Option<Seq<Identity>>) -> Effect {
    match intent {
        Intent::List => Effect {
            output: match stored {
                Some(s) => listing(s),
                None => "No .gitid file found. Add an ID to create the file.\n"@,
            },
            write: None,
            apply: None,
            failure: None,
        },
        Intent::Add(id) => {
            let s = added(
                match stored {
                    Some(s) => s,
                    None => Seq::empty(),
                },
                id,
            );
            Effect { output: listing(s), write: Some(s), apply: None, failure: None }
        },
        Intent::Apply(n) => match stored {
            None => refused(GitIdError::MissingStore),
            Some(s) => if n >= s.len() {
                refused(GitIdError::IndexError)
            } else {
                Effect { output: Seq::empty(), write: None, apply: Some(s[n as int]), failure: None }
            },
        },
        Intent::Remove(n) => match stored {
            None => refused(GitIdError::MissingStore),
            Some(s) => if n >= s.len() {
                refused(GitIdError::IndexError)
            } else {
                Effect {
                    output: listing(s.remove(n as int)),
                    write: Some(s.remove(n as int)),
                    apply: None,
                    failure: None,
                }
            },
        },
    }
}

/// A position that is not in the list changes nothing: the request fails
/// with `IndexError`, nothing is stored and no identity is applied.
pub proof fn lemma_bad_index_changes_nothing(intent: Intent, s: Seq<Identity>)
    requires
        (intent matches Intent::Apply(n) && n >= s.len()) || (intent matches Intent::Remove(n) && n
            >= s.len()),
    ensures
        effect_of(intent, Some(s)).failure == Some(GitIdError::IndexError),
        effect_of(intent, Some(s)).write is None,
        effect_of(intent, Some(s)).apply is None,
{
}

/// The line that tells the user of a failure: `failure_text`.
pub fn explain(failure: GitIdError) -> (text: String)
    ensures
        text@ == failure_text(failure),
{
    match failure {
        GitIdError::MissingStore => "There were no ids stored in .gitid.\n".to_owned(),
        GitIdError::CorruptStore => "The .gitid file does not hold a list of ids.\n".to_owned(),
        GitIdError::IndexError => "Invalid index.\n".to_owned(),
        GitIdError::ParseError => "Passed invalid argument.\n".to_owned(),
        GitIdError::EncodeError => "The ids could not be written as JSON.\n".to_owned(),
    }
}

/// Reads the arguments of a command. Fails with `ParseError` where a
/// position is not written as a number the machine can hold, and on no
/// other command.
pub fn interpret(command: Command) -> (out: Result<Request, GitIdError>)
    ensures
        match intent_of(command) {
            Some(intent) => out is Ok && out->Ok_0@ == intent,
            None => out is Err && out->Err_0 == GitIdError::ParseError,
        },
{
    match command {
        Command::List => Ok(Request::List),
        Command::Add { email, name } => Ok(Request::Add(GitId { email, name })),
        Command::Apply { number } => match parse_index(number.as_str()) {
            Ok(n) => Ok(Request::Apply(n)),
            Err(e) => Err(e),
        },
        Command::Remove { number } => match parse_index(number.as_str()) {
            Ok(n) => Ok(Request::Remove(n)),
            Err(e) => Err(e),
        },
    }
}

/// The outcome of a request that fails.
fn refuse(failure: GitIdError) -> (out: Outcome)
    ensures
        out@ == refused(failure),
{
    Outcome { output: explain(failure), write: None, apply: None, failure: Some(failure) }
}

/// Carries out a request on the list that the store holds: `effect_of`.
pub fn execute(request: Request, stored: Option<GitIds>) -> (out: Outcome)
    ensures
        out@ == effect_of(request@, list_model(stored)),
{
    match request {
        Request::List => {
            let output = match &stored {
                Some(list) => list_ids(list),
                None => "No .gitid file found. Add an ID to create the file.\n".to_owned(),
            };
            Outcome { output, write: None, apply: None, failure: None }
        },
        Request::Add(id) => {
            let mut list = match stored {
                Some(list) => list,
                None => GitIds::new(),
            };
            list.add(id);
            let output = list_ids(&list);
            Outcome { output, write: Some(list), apply: None, failure: None }
        },
        Request::Apply(n) => match stored {
            None => refuse(GitIdError::MissingStore),
            Some(list) => match list.get(n) {
                Ok(id) => Outcome {
                    output: String::new(),
                    write: None,
                    apply: Some(id.clone()),
                    failure: None,
                },
                Err(e) => refuse(e),
            },
        },
        Request::Remove(n) => match stored {
            None => refuse(GitIdError::MissingStore),
            Some(list) => {
                let mut list = list;
                match list.remove(n) {
                    Ok(()) => {
                        let output = list_ids(&list);
                        Outcome { output, write: Some(list), apply: None, failure: None }
                    },
                    Err(e) => refuse(e),
                }
            },
        },
    }
}

} // verus!
