//! The commands of the host that look into what is registered.

use crate::cap::controller::{
    find_controller, first_answering, identities, DynController, ResourceIdentity,
};
use vstd::prelude::*;

verus! {

/// A command of the host.
#[derive(Debug)]
pub enum Command {
    /// Shows the schema manifests of the registered resource kinds.
    Crd {
        /// Print all crds to stdout
        all: bool,
        /// Name or full path of CRD
        name: Option<String>,
        command: Option<CrdCommand>,
    },
}

/// A command on the registered resource kinds.
#[derive(Clone, Copy, Debug, PartialEq, Eq, Structural)]
pub enum CrdCommand {
    /// List all CRDs
    List,
}

/// What a command asks the host to print.
pub enum CommandOutput<A> {
    /// The schema manifest of this controller.
    Schema(DynController<A>),
    /// These lines, one for each registered controller.
    Listing(Vec<String>),
}

/// Why a command was not carried out.
#[derive(Debug)]
pub enum CommandError {
    /// No registered controller answers to the name.
    NotFound { name: String },
    /// The command is not implemented.
    Unimplemented,
}

/// What a command comes to.
pub enum Outcome {
    /// The schema of the controller at this place is shown.
    Schema(int),
    /// These lines are shown.
    Listing(Seq<Seq<char>>),
    /// No controller answers to this name.
    NotFound(Seq<char>),
    /// The command is not implemented.
    Unimplemented,
}

/// The lines that list controllers: the full name of each, in their order.
pub open spec fn listing(identities: Seq<ResourceIdentity>) -> Seq<Seq<char>> {
    Seq::new(identities.len(), |i: int| identities[i].path())
}

/// The texts of lines.
pub open spec fn lines_of(lines: Seq<String>) -> Seq<Seq<char>> {
    Seq::new(lines.len(), |i: int| lines[i]@)
}

impl Command {
    /// What the command comes to with the controllers `identities`
    /// registered.
    ///
    /// `--all` is not implemented. A name asks for the schema of the first
    /// controller that answers to it. Without a name, the subcommand is
    /// carried out. A command that asks for nothing is not implemented.
    pub open spec fn outcome(self, identities: Seq<ResourceIdentity>) -> Outcome {
        match self {
            Command::Crd { all, name, command } => if all {
                Outcome::Unimplemented
            } else {
                match name {
                    Some(name) => match first_answering(identities, name@) {
                        Some(i) => Outcome::Schema(i),
                        None => Outcome::NotFound(name@),
                    },
                    None => match command {
                        Some(CrdCommand::List) => Outcome::Listing(listing(identities)),
                        None => Outcome::Unimplemented,
                    },
                }
            },
        }
    }

    /// Carries out the command as far as the host decides it: finds the
    /// controller whose schema is asked for, or makes the lines of the
    /// list.
    pub fn run<A>(self, controllers: Vec<DynController<A>>) -> (r: Result<
        CommandOutput<A>,
        CommandError,
    >)
        ensures
            match self.outcome(identities(controllers@)) {
                Outcome::Schema(i) => r matches Ok(CommandOutput::Schema(found)) && 0 <= i
                    < controllers.len() && found == controllers[i],
                Outcome::Listing(lines) => r matches Ok(CommandOutput::Listing(found)) && lines_of(
                    found@,
                ) == lines,
                Outcome::NotFound(name) => r matches Err(CommandError::NotFound { name: missing })
                    && missing@ == name,
                Outcome::Unimplemented => r matches Err(CommandError::Unimplemented),
            },
    {
        match self {
            Command::Crd { all, name, command } => {
                if all {
                    return Err(CommandError::Unimplemented);
                }
                match name {
                    Some(crd) => {
                        let mut controllers = controllers;
                        match find_controller(&controllers, crd.as_str()) {
                            None => Err(CommandError::NotFound { name: crd }),
                            Some(i) => Ok(CommandOutput::Schema(controllers.swap_remove(i))),
                        }
                    },
                    None => match command {
                        Some(cmd) => Ok(CommandOutput::Listing(cmd.run(&controllers))),
                        None => Err(CommandError::Unimplemented),
                    },
                }
            },
        }
    }
}

impl CrdCommand {
    /// The lines of the list: the full name `group/kind` of each
    /// controller, in the order of registration.
    pub fn run<A>(self, controllers: &Vec<DynController<A>>) -> (r: Vec<String>)
        ensures
            lines_of(r@) == listing(identities(controllers@)),
    {
        match self {
            CrdCommand::List => {
                let mut lines: Vec<String> = Vec::new();
                let mut i: usize = 0;
                while i < controllers.len()
                    invariant
                        i <= controllers.len(),
                        lines@.len() == i,
                        forall|j: int|
                            0 <= j < i ==> (#[trigger] lines@[j])@ == controllers@[j].identity().path(),
                    decreases controllers.len() - i,
                {
                    lines.push(controllers[i].info().path());
                    i = i + 1;
                }
                assert(lines_of(lines@) =~= listing(identities(controllers@)));
                lines
            },
        }
    }
}

} // verus!
