//! Choosing the configuration to plan with among the stored candidates.
//!
//! The newest candidates that are not known to be broken are tried in turn,
//! newest first; decoding them is the caller's part. The first that decodes is
//! used. Each one before it is marked broken and counted as a failure.

use vstd::prelude::*;

verus! {

/// How many stored configurations are tried at most.
pub const CONFIG_LOOKBACK: usize = 10;

/// A stored configuration and whether its text decoded.
#[derive(Clone, Copy, Debug, PartialEq, Eq, Structural)]
pub struct ConfigCandidate {
    pub id: i32,
    pub tried: bool,
    pub decodes: bool,
}

/// A change to the store that trying the candidates calls for.
#[derive(Clone, Copy, Debug, PartialEq, Eq, Structural)]
pub enum ConfigAction {
    /// Mark the configuration as tried.
    MarkTried(i32),
    /// Mark the configuration as tried and known to be broken.
    MarkBroken(i32),
    /// Add one to the count of failed configurations.
    IncrementFailures,
    /// Set the count of failed configurations to zero.
    ResetFailures,
}

/// The index of the first of the first `n` candidates that decodes.
pub open spec fn first_decoding(c: Seq<ConfigCandidate>, n: nat) -> Option<int>
    decreases n,
{
    if n == 0 {
        None
    } else {
        match first_decoding(c, (n - 1) as nat) {
            Some(i) => Some(i),
            None => if c[n - 1].decodes {
                Some(n - 1)
            } else {
                None
            },
        }
    }
}

/// The actions for the first `n` candidates, where none of them decodes.
pub open spec fn failure_actions(c: Seq<ConfigCandidate>, n: nat) -> Seq<ConfigAction>
    decreases n,
{
    if n == 0 {
        seq![]
    } else {
        failure_actions(c, (n - 1) as nat) + seq![
            ConfigAction::MarkBroken(c[n - 1].id),
            ConfigAction::IncrementFailures,
        ]
    }
}

/// The actions once candidate `i` decodes: those of the ones before it, then
/// marking it tried where it was not, then resetting the failure count.
pub open spec fn success_actions(c: Seq<ConfigCandidate>, i: int) -> Seq<ConfigAction> {
    failure_actions(c, i as nat) + if c[i].tried {
        seq![ConfigAction::ResetFailures]
    } else {
        seq![ConfigAction::MarkTried(c[i].id), ConfigAction::ResetFailures]
    }
}

/// The configuration to use, if any, and the changes to the store on the way.
pub fn config_attempt_loop(cfgs: &Vec<ConfigCandidate>) -> (r: (Option<usize>, Vec<ConfigAction>))
    ensures
        r.0 matches Some(i) ==> first_decoding(cfgs@, cfgs.len() as nat) == Some(i as int),
        r.0 is None ==> first_decoding(cfgs@, cfgs.len() as nat) is None,
        r.0 matches Some(i) ==> r.1@ == success_actions(cfgs@, i as int),
        r.0 is None ==> r.1@ == failure_actions(cfgs@, cfgs.len() as nat),
{
    let mut actions: Vec<ConfigAction> = Vec::new();
    let mut i: usize = 0;
    while i < cfgs.len()
        invariant
            0 <= i <= cfgs.len(),
            first_decoding(cfgs@, i as nat) is None,
            actions@ == failure_actions(cfgs@, i as nat),
        decreases cfgs.len() - i,
    {
        let candidate = cfgs[i];
        if candidate.decodes {
            if !candidate.tried {
                actions.push(ConfigAction::MarkTried(candidate.id));
            }
            actions.push(ConfigAction::ResetFailures);
            proof {
                lemma_first_decoding_stays(cfgs@, (i + 1) as nat, cfgs.len() as nat);
                assert(actions@ =~= success_actions(cfgs@, i as int));
            }
            return (Some(i), actions);
        }
        actions.push(ConfigAction::MarkBroken(candidate.id));
        actions.push(ConfigAction::IncrementFailures);
        i += 1;
        assert(actions@ =~= failure_actions(cfgs@, i as nat));
    }
    (None, actions)
}

proof fn lemma_first_decoding_stays(c: Seq<ConfigCandidate>, n: nat, m: nat)
    requires
        n <= m <= c.len(),
        first_decoding(c, n) is Some,
    ensures
        first_decoding(c, m) == first_decoding(c, n),
    decreases m - n,
{
    if m > n {
        lemma_first_decoding_stays(c, n, (m - 1) as nat);
    }
}

} // verus!
