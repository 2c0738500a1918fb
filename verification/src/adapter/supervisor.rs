//! Decisions of the supervisor of the core process.
use crate::adapter::config;
use crate::adapter::outbound::AdapterError;
use crate::text;
use vstd::prelude::*;
use vstd::string::*;

verus! {

/// The core process as its supervisor sees it: where the program and its
/// configuration lie, and whether it runs.
#[derive(Clone, Debug, PartialEq, Eq)]
pub struct Supervisor<T = String> {
    pub binary: T,
    pub config_path: T,
    pub running: bool,
}

/// The model of a supervisor.
pub type SupervisorView = Supervisor<Seq<char>>;

impl View for Supervisor {
    type V = Supervisor<Seq<char>>;

    open spec fn view(&self) -> Supervisor<Seq<char>> {
        Supervisor {
            binary: self.binary@,
            config_path: self.config_path@,
            running: self.running,
        }
    }
}

/// The work that a configuration swap waits for.
#[derive(Clone, Copy, Debug, PartialEq, Eq, Structural)]
pub enum SwapState {
    /// The new configuration is to be written to the file.
    Writing,
    /// The core is to check the file.
    Checking,
    /// The core is to check the file once more, right before it takes it.
    Rechecking,
    /// The running core is to be told to load the file.
    Signalling,
    /// The core is to be started.
    Spawning,
    /// The previous configuration is to be written back.
    Restoring,
    /// The core is to check the file that was written back.
    RollbackChecking,
    /// The running core is to be told to load the file that was written back.
    RollbackSignalling,
    /// The core runs the new configuration.
    Applied,
    /// The new configuration was not taken.
    Rejected,
}

/// A configuration swap: its state, whether there is a file to go back to, and
/// whether the core runs.
#[derive(Clone, Copy, Debug, PartialEq, Eq, Structural)]
pub struct ConfigSwap {
    pub state: SwapState,
    pub has_previous: bool,
    pub running: bool,
}

/// The state after the swap failed: the previous file is restored if there was
/// one.
pub open spec fn after_failure(has_previous: bool) -> SwapState {
    if has_previous {
        SwapState::Restoring
    } else {
        SwapState::Rejected
    }
}

/// The swap after the pending work was done, or failed.
pub open spec fn advanced(swap: ConfigSwap, ok: bool) -> ConfigSwap {
    let failure = after_failure(swap.has_previous);
    match swap.state {
        SwapState::Writing => ConfigSwap {
            state: if ok {
                SwapState::Checking
            } else {
                SwapState::Rejected
            },
            ..swap
        },
        SwapState::Checking => ConfigSwap {
            state: if ok {
                SwapState::Rechecking
            } else {
                failure
            },
            ..swap
        },
        SwapState::Rechecking => ConfigSwap {
            state: if !ok {
                failure
            } else if swap.running {
                SwapState::Signalling
            } else {
                SwapState::Spawning
            },
            ..swap
        },
        SwapState::Signalling => ConfigSwap {
            state: if ok {
                SwapState::Applied
            } else {
                failure
            },
            ..swap
        },
        SwapState::Spawning => if ok {
            ConfigSwap { state: SwapState::Applied, running: true, ..swap }
        } else {
            ConfigSwap { state: failure, ..swap }
        },
        SwapState::Restoring => ConfigSwap {
            state: if ok && swap.running {
                SwapState::RollbackChecking
            } else {
                SwapState::Rejected
            },
            ..swap
        },
        SwapState::RollbackChecking => ConfigSwap {
            state: if ok {
                SwapState::RollbackSignalling
            } else {
                SwapState::Rejected
            },
            ..swap
        },
        SwapState::RollbackSignalling => ConfigSwap { state: SwapState::Rejected, ..swap },
        _ => swap,
    }
}

/// The swap after the outcomes of its steps.
pub open spec fn advanced_by(swap: ConfigSwap, outcomes: Seq<bool>) -> ConfigSwap
    decreases outcomes.len(),
{
    if outcomes.len() == 0 {
        swap
    } else {
        advanced(advanced_by(swap, outcomes.drop_last()), outcomes.last())
    }
}

/// Whatever fails on the way, a swap never takes a running core down, and a core
/// that did not run runs only once the swap is applied.
pub proof fn law_swaps_keep_the_session(swap: ConfigSwap, outcomes: Seq<bool>)
    requires
        swap.state == SwapState::Writing,
    ensures
        swap.running ==> advanced_by(swap, outcomes).running,
        !swap.running && advanced_by(swap, outcomes).running ==> advanced_by(swap, outcomes).state
            == SwapState::Applied,
        advanced_by(swap, outcomes).has_previous == swap.has_previous,
    decreases outcomes.len(),
{
    if outcomes.len() > 0 {
        law_swaps_keep_the_session(swap, outcomes.drop_last());
    }
}

/// A swap that fails after the file was overwritten writes the previous
/// configuration back, and a running core is told to load it again.
pub proof fn law_rejected_swaps_are_rolled_back(swap: ConfigSwap)
    requires
        swap.has_previous,
        swap.state == SwapState::Checking || swap.state == SwapState::Rechecking || swap.state
            == SwapState::Signalling || swap.state == SwapState::Spawning,
    ensures
        advanced(swap, false).state == SwapState::Restoring,
        swap.running ==> advanced_by(swap, seq![false, true, true]).state
            == SwapState::RollbackSignalling,
{
    let one = seq![false];
    let two = seq![false, true];
    let three = seq![false, true, true];
    assert(three.drop_last() =~= two);
    assert(two.drop_last() =~= one);
    assert(one.drop_last() =~= Seq::<bool>::empty());
    assert(advanced_by(swap, one.drop_last()) == swap);
    assert(advanced_by(swap, one) == advanced(swap, false));
    assert(advanced_by(swap, two) == advanced(advanced_by(swap, one), true));
    assert(advanced_by(swap, three) == advanced(advanced_by(swap, two), true));
}

/// No configuration reaches the core that it did not accept twice.
pub proof fn law_only_checked_configs_are_applied(swap: ConfigSwap, outcomes: Seq<bool>)
    requires
        swap.state == SwapState::Writing,
        advanced_by(swap, outcomes).state == SwapState::Applied,
    ensures
        outcomes.len() >= 4,
        outcomes[0] && outcomes[1] && outcomes[2] && outcomes[3],
    decreases outcomes.len(),
{
    let before = outcomes.drop_last();
    let earlier = advanced_by(swap, before);
    if earlier.state == SwapState::Applied {
        law_only_checked_configs_are_applied(swap, before);
    } else {
        assert(earlier.state == SwapState::Signalling || earlier.state == SwapState::Spawning);
        lemma_path(swap, before);
    }
}

/// The way to each state before a swap is applied.
proof fn lemma_path(swap: ConfigSwap, outcomes: Seq<bool>)
    requires
        swap.state == SwapState::Writing,
    ensures
        ({
            let s = advanced_by(swap, outcomes).state;
            &&& s == SwapState::Writing ==> outcomes.len() == 0
            &&& s == SwapState::Checking ==> outcomes.len() == 1 && outcomes[0]
            &&& s == SwapState::Rechecking ==> outcomes.len() == 2 && outcomes[0] && outcomes[1]
            &&& s == SwapState::Signalling || s == SwapState::Spawning ==> outcomes.len() == 3
                && outcomes[0] && outcomes[1] && outcomes[2]
        }),
    decreases outcomes.len(),
{
    if outcomes.len() > 0 {
        lemma_path(swap, outcomes.drop_last());
    }
}

impl ConfigSwap {
    /// A swap that is about to write the new configuration.
    pub fn new(has_previous: bool, running: bool) -> (r: ConfigSwap)
        ensures
            r == (ConfigSwap { state: SwapState::Writing, has_previous, running }),
    {
        ConfigSwap { state: SwapState::Writing, has_previous, running }
    }

    /// Goes on after the pending work was done, or failed.
    pub fn advance(&mut self, ok: bool)
        ensures
            *final(self) == advanced(*old(self), ok),
    {
        let failure = if self.has_previous {
            SwapState::Restoring
        } else {
            SwapState::Rejected
        };
        match self.state {
            SwapState::Writing => {
                self.state = if ok {
                    SwapState::Checking
                } else {
                    SwapState::Rejected
                };
            },
            SwapState::Checking => {
                self.state = if ok {
                    SwapState::Rechecking
                } else {
                    failure
                };
            },
            SwapState::Rechecking => {
                self.state = if !ok {
                    failure
                } else if self.running {
                    SwapState::Signalling
                } else {
                    SwapState::Spawning
                };
            },
            SwapState::Signalling => {
                self.state = if ok {
                    SwapState::Applied
                } else {
                    failure
                };
            },
            SwapState::Spawning => {
                if ok {
                    self.state = SwapState::Applied;
                    self.running = true;
                } else {
                    self.state = failure;
                }
            },
            SwapState::Restoring => {
                self.state = if ok && self.running {
                    SwapState::RollbackChecking
                } else {
                    SwapState::Rejected
                };
            },
            SwapState::RollbackChecking => {
                self.state = if ok {
                    SwapState::RollbackSignalling
                } else {
                    SwapState::Rejected
                };
            },
            SwapState::RollbackSignalling => {
                self.state = SwapState::Rejected;
            },
            SwapState::Applied => {},
            SwapState::Rejected => {},
        }
    }
}

fn three_args(first: &str, path: &str) -> (r: Vec<String>)
    ensures
        text::texts_of(r@) == seq![first@, "-c"@, path@],
{
    let mut r: Vec<String> = Vec::new();
    r.push(first.to_owned());
    r.push("-c".to_owned());
    r.push(path.to_owned());
    assert(text::texts_of(r@) =~= seq![first@, "-c"@, path@]);
    r
}

impl Supervisor {
    /// A supervisor of a core that does not run.
    pub fn new(binary: String, config_path: String) -> (r: Supervisor)
        ensures
            r@ == (SupervisorView { binary: binary@, config_path: config_path@, running: false }),
    {
        Supervisor { binary, config_path, running: false }
    }

    pub fn config_path(&self) -> (r: &str)
        ensures
            r@ == self@.config_path,
    {
        self.config_path.as_str()
    }

    pub fn binary_path(&self) -> (r: &str)
        ensures
            r@ == self@.binary,
    {
        self.binary.as_str()
    }

    pub fn is_running(&self) -> (r: bool)
        ensures
            r == self@.running,
    {
        self.running
    }

    /// The arguments with which the core checks its configuration.
    pub fn check_args(&self) -> (r: Vec<String>)
        ensures
            text::texts_of(r@) == seq!["check"@, "-c"@, self@.config_path],
    {
        three_args("check", self.config_path.as_str())
    }

    /// The arguments with which the core runs.
    pub fn run_args(&self) -> (r: Vec<String>)
        ensures
            text::texts_of(r@) == seq!["run"@, "-c"@, self@.config_path],
    {
        three_args("run", self.config_path.as_str())
    }

    /// The verdict on a configuration: whether the check succeeded, and what it
    /// printed if it did not.
    pub fn validate_config(&self, succeeded: bool, errors: &[u8]) -> (r: Result<(), AdapterError>)
        ensures
            (match r {
                Ok(_) => succeeded,
                Err(e) => !succeeded && e@ == AdapterError::ConfigRejected(
                    text::trim(text::utf8_lossy(errors@)),
                ),
            }),
    {
        config::config_verdict(succeeded, errors)
    }

    /// A reload needs an accepted configuration and a core that runs.
    pub fn may_reload(&self, accepted: bool) -> (r: bool)
        ensures
            r == (accepted && self@.running),
    {
        accepted && self.running
    }

    /// A swap of this core's configuration.
    pub fn begin_swap(&self, has_previous: bool) -> (r: ConfigSwap)
        ensures
            r == (ConfigSwap {
                state: SwapState::Writing,
                has_previous,
                running: self@.running,
            }),
    {
        ConfigSwap::new(has_previous, self.running)
    }

    /// Takes over how a swap ended.
    pub fn finish_swap(&mut self, swap: &ConfigSwap)
        ensures
            final(self)@ == (SupervisorView { running: swap.running, ..old(self)@ }),
    {
        self.running = swap.running;
    }

    /// The core was stopped.
    pub fn stop(&mut self)
        ensures
            final(self)@ == (SupervisorView { running: false, ..old(self)@ }),
    {
        self.running = false;
    }
}

} // verus!
