//! Importing a remote resource pair into the configuration.

use vstd::prelude::*;
use crate::schedule::Schedule;
use crate::ssconfig::{Config, SsConfig};
use crate::state_machine::StateMachine;

verus! {

/// Adds a remote resource pair to the configuration.
pub struct ImportCommand;

/// Why a pair cannot be imported.
#[derive(Debug, Clone)]
pub enum ImportError {
    /// The configuration already declares a state machine of this name.
    AlreadyExists(String),
}

/// Whether some pair of `configs` declares the state machine `name`.
pub open spec fn declares(configs: Seq<SsConfig>, name: Seq<char>) -> bool {
    exists|i: int| 0 <= i < configs.len() && #[trigger] configs[i].state.name@ == name
}

/// Fails where `config` already declares the state machine `sfn_name`.
pub fn ensure_not_exist_in_config(config: &Config, sfn_name: &str) -> (r: Result<(), ImportError>)
    ensures
        r is Ok <==> !declares(config.ss_configs@, sfn_name@),
        match r {
            Err(ImportError::AlreadyExists(n)) => n@ == sfn_name@,
            Ok(_) => true,
        },
{
    let name = String::from_str(sfn_name);
    let mut i: usize = 0;
    while i < config.ss_configs.len()
        invariant
            0 <= i <= config.ss_configs.len(),
            name@ == sfn_name@,
            forall|j: int| 0 <= j < i ==> #[trigger] config.ss_configs@[j].state.name@ != sfn_name@,
        decreases config.ss_configs.len() - i,
    {
        if config.ss_configs[i].state.name == name {
            return Err(ImportError::AlreadyExists(name));
        }
        i = i + 1;
    }
    Ok(())
}

impl ImportCommand {
    /// Appends the fetched pair (`state` and its `schedule`, neither flagged
    /// for deletion) to `config`, unless the configuration already declares a
    /// state machine of that name, in which case it is left as it was.
    pub fn append_imported(config: &mut Config, state: StateMachine, schedule: Option<Schedule>) -> (r: Result<(), ImportError>)
        ensures
            r is Ok <==> !declares(old(config).ss_configs@, state.name@),
            r is Ok ==> final(config).ss_configs@ == old(config).ss_configs@.push(
                (SsConfig { state, schedule, delete_all: false, delete_schedule: false })),
            r is Err ==> final(config).ss_configs@ == old(config).ss_configs@,
    {
        match ensure_not_exist_in_config(config, state.name.as_str()) {
            Err(e) => Err(e),
            Ok(()) => {
                config.ss_configs.push(SsConfig { state, schedule, delete_all: false, delete_schedule: false });
                Ok(())
            },
        }
    }
}

} // verus!
