//! The declared configuration: resource pairs and the whole list of them.

use vstd::prelude::*;
use crate::state_machine::StateMachine;
use crate::schedule::Schedule;

verus! {

/// The value of a delete flag that is not given.
pub fn default_delete_flag() -> (r: bool)
    ensures
        r == false,
{
    false
}

/// One declared resource pair: a state machine, the schedule that triggers it
/// if any, and whether the pair (`delete_all`) or only its schedule
/// (`delete_schedule`) is to be removed instead of reconciled.
#[derive(Debug)]
pub struct SsConfig {
    pub state: StateMachine,
    pub schedule: Option<Schedule>,
    pub delete_all: bool,
    pub delete_schedule: bool,
}

/// The declared configuration: resource pairs in order.
#[derive(Debug)]
pub struct Config {
    pub ss_configs: Vec<SsConfig>,
}

/// The pairs that a list of references points to.
pub open spec fn derefs(s: Seq<&SsConfig>) -> Seq<SsConfig> {
    s.map_values(|c: &SsConfig| *c)
}

/// Whether `names` holds `name`.
pub open spec fn names_contain(names: Seq<String>, name: Seq<char>) -> bool {
    exists|i: int| 0 <= i < names.len() && #[trigger] names[i]@ == name
}

/// The pairs of `configs`, in order, whose state machine is named in `targets`.
pub open spec fn pairs_targeted(configs: Seq<SsConfig>, targets: Seq<String>) -> Seq<SsConfig>
    decreases configs.len(),
{
    if configs.len() == 0 {
        Seq::empty()
    } else {
        let prev = pairs_targeted(configs.drop_last(), targets);
        if names_contain(targets, configs.last().state.name@) {
            prev.push(configs.last())
        } else {
            prev
        }
    }
}

/// Whether `names` holds `name`.
pub fn contains_name(names: &Vec<String>, name: &String) -> (r: bool)
    ensures
        r == names_contain(names@, name@),
{
    let mut i: usize = 0;
    while i < names.len()
        invariant
            0 <= i <= names.len(),
            forall|j: int| 0 <= j < i ==> names@[j]@ != name@,
        decreases names.len() - i,
    {
        if names[i] == *name {
            return true;
        }
        i = i + 1;
    }
    false
}

impl Default for Config {
    /// The configuration with no resource pair.
    fn default() -> (r: Config)
        ensures
            r.ss_configs@.len() == 0,
    {
        Config { ss_configs: Vec::new() }
    }
}

impl Config {
    /// The pairs to work on: those whose state machine is named in `targets`,
    /// or all of them where no target is given. Configuration order is kept.
    pub fn target_ss_configs(&self, targets: &Option<Vec<String>>) -> (r: Vec<&SsConfig>)
        ensures
            match targets {
                Some(t) => derefs(r@) == pairs_targeted(self.ss_configs@, t@),
                None => derefs(r@) == self.ss_configs@,
            },
    {
        let mut r: Vec<&SsConfig> = Vec::new();
        let mut i: usize = 0;
        while i < self.ss_configs.len()
            invariant
                0 <= i <= self.ss_configs.len(),
                match targets {
                    Some(t) => derefs(r@) == pairs_targeted(self.ss_configs@.subrange(0, i as int), t@),
                    None => derefs(r@) == self.ss_configs@.subrange(0, i as int),
                },
            decreases self.ss_configs.len() - i,
        {
            let ghost old_r = r@;
            let c = &self.ss_configs[i];
            let keep = match targets {
                Some(t) => contains_name(t, &c.state.name),
                None => true,
            };
            proof {
                let s = self.ss_configs@.subrange(0, i as int + 1);
                assert(s.drop_last() == self.ss_configs@.subrange(0, i as int));
                assert(s.last() == self.ss_configs@[i as int]);
            }
            if keep {
                r.push(c);
            }
            assert(derefs(r@) =~= if keep { derefs(old_r).push(*c) } else { derefs(old_r) });
            i = i + 1;
        }
        assert(self.ss_configs@.subrange(0, self.ss_configs@.len() as int) =~= self.ss_configs@);
        r
    }
}

} // verus!
