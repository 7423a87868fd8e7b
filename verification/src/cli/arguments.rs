//! From parsed arguments to the target and the action of a run.

use crate::models::{MachineResource, WipeAction};
use vstd::prelude::*;

verus! {

/// The mode that the command line names.
#[derive(Debug, Clone, Copy, PartialEq, Eq, Structural)]
pub enum ExecutionMode {
    Evaluate,
    Shallow,
    Deep,
}

/// The arguments that both subcommands take.
#[derive(Debug, Clone, Copy, PartialEq, Eq, Structural)]
pub struct WrappedArguments {
    pub mode: ExecutionMode,
    pub verbose: bool,
}

/// The subcommands.
#[derive(Debug, Clone, Copy, PartialEq, Eq, Structural)]
pub enum Commands {
    Disk(WrappedArguments),
    Ram(WrappedArguments),
}

/// The action that a mode asks for.
pub open spec fn action_of(mode: ExecutionMode) -> WipeAction {
    match mode {
        ExecutionMode::Evaluate => WipeAction::Evaluate,
        ExecutionMode::Shallow => WipeAction::ShallowWipe,
        ExecutionMode::Deep => WipeAction::DeepWipe,
    }
}

impl From<&WrappedArguments> for WipeAction {
    fn from(value: &WrappedArguments) -> (action: WipeAction) {
        match value.mode {
            ExecutionMode::Evaluate => WipeAction::Evaluate,
            ExecutionMode::Shallow => WipeAction::ShallowWipe,
            ExecutionMode::Deep => WipeAction::DeepWipe,
        }
    }
}

impl vstd::std_specs::convert::FromSpecImpl<&WrappedArguments> for WipeAction {
    open spec fn obeys_from_spec() -> bool {
        true
    }

    open spec fn from_spec(value: &WrappedArguments) -> WipeAction {
        action_of(value.mode)
    }
}

/// What the parsed command line asks for: the target that the subcommand
/// names, the action that the mode names, and whether to be verbose.
pub fn parsed_arguments(command: &Commands) -> (parsed: (MachineResource, WipeAction, bool))
    ensures
        parsed == match *command {
            Commands::Disk(args) => (MachineResource::DiskSpace, action_of(args.mode), args.verbose),
            Commands::Ram(args) => (MachineResource::RamMemory, action_of(args.mode), args.verbose),
        },
{
    match command {
        Commands::Disk(args) => (MachineResource::DiskSpace, WipeAction::from(args), args.verbose),
        Commands::Ram(args) => (MachineResource::RamMemory, WipeAction::from(args), args.verbose),
    }
}

} // verus!
