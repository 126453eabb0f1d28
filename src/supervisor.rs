//! The per-server supervisor: it starts a group (connection actor, control
//! loop, plugins), and when the group's connection ends it cancels the group's
//! tasks and starts a new group, unless the connection closed cleanly.
use vstd::prelude::*;

verus! {

/// What the supervisor asks its runner to do; groups are numbered from zero.
#[derive(Clone, Copy, Debug, PartialEq, Eq, Structural)]
pub enum SupervisorAction {
    /// Build the group with this number: connection actor, control loop, plugins.
    Spawn(u64),
    /// Cancel the control loop and every plugin task of the group with this number.
    Cancel(u64),
    /// Stop supervising this server.
    Stop,
}

#[derive(Clone, Copy, Debug, PartialEq, Eq, Structural)]
pub enum SupervisorPhase {
    Starting,
    Running,
    Stopped,
}

/// Restart policy of one server.
pub struct Supervisor {
    /// Number of the current group.
    pub generation: u64,
    pub phase: SupervisorPhase,
}

/// The actions once group `g` has ended: cancel it, then start the next one
/// if it failed, or stop if it closed cleanly.
pub open spec fn end_actions(g: u64, failed: bool) -> Seq<SupervisorAction> {
    if failed {
        seq![SupervisorAction::Cancel(g), SupervisorAction::Spawn((g + 1) as u64)]
    } else {
        seq![SupervisorAction::Cancel(g), SupervisorAction::Stop]
    }
}

impl Supervisor {
    pub fn new() -> (s: Supervisor)
        ensures
            s.generation == 0,
            s.phase == SupervisorPhase::Starting,
    {
        Supervisor { generation: 0, phase: SupervisorPhase::Starting }
    }

    /// Starts the first group; nothing once started.
    pub fn start(&mut self) -> (acts: Vec<SupervisorAction>)
        ensures
            old(self).phase == SupervisorPhase::Starting ==> acts@ == seq![
                SupervisorAction::Spawn(old(self).generation),
            ] && final(self).phase == SupervisorPhase::Running,
            old(self).phase != SupervisorPhase::Starting ==> acts@.len() == 0 && final(self).phase
                == old(self).phase,
            final(self).generation == old(self).generation,
    {
        let mut acts: Vec<SupervisorAction> = Vec::new();
        if self.phase == SupervisorPhase::Starting {
            acts.push(SupervisorAction::Spawn(self.generation));
            self.phase = SupervisorPhase::Running;
        }
        proof {
            if old(self).phase == SupervisorPhase::Starting {
                assert(acts@ =~= seq![SupervisorAction::Spawn(old(self).generation)]);
            }
        }
        acts
    }

    /// The running group's connection ended, in failure or cleanly; nothing
    /// when no group runs.
    pub fn on_group_end(&mut self, failed: bool) -> (acts: Vec<SupervisorAction>)
        requires
            old(self).generation < u64::MAX,
        ensures
            old(self).phase == SupervisorPhase::Running ==> {
                &&& acts@ == end_actions(old(self).generation, failed)
                &&& failed ==> final(self).phase == SupervisorPhase::Running
                    && final(self).generation == old(self).generation + 1
                &&& !failed ==> final(self).phase == SupervisorPhase::Stopped
                    && final(self).generation == old(self).generation
            },
            old(self).phase != SupervisorPhase::Running ==> acts@.len() == 0 && *final(self)
                == *old(self),
    {
        let mut acts: Vec<SupervisorAction> = Vec::new();
        if self.phase == SupervisorPhase::Running {
            acts.push(SupervisorAction::Cancel(self.generation));
            if failed {
                self.generation = self.generation + 1;
                acts.push(SupervisorAction::Spawn(self.generation));
            } else {
                self.phase = SupervisorPhase::Stopped;
                acts.push(SupervisorAction::Stop);
            }
            proof {
                assert(acts@ =~= end_actions(old(self).generation, failed));
            }
        }
        acts
    }
}

/// The actions of a supervisor whose group `g` runs and whose groups then end
/// with the given outcomes (`true`: failed); a clean end stops it, so later
/// outcomes are never seen.
pub open spec fn actions_from(g: u64, outcomes: Seq<bool>) -> Seq<SupervisorAction>
    decreases outcomes.len(),
{
    if outcomes.len() == 0 {
        seq![]
    } else if outcomes[0] && g < u64::MAX {
        end_actions(g, true) + actions_from((g + 1) as u64, outcomes.drop_first())
    } else {
        end_actions(g, outcomes[0])
    }
}

/// All actions of a supervisor from its start, its groups ending with the
/// given outcomes.
pub open spec fn run_actions(outcomes: Seq<bool>) -> Seq<SupervisorAction> {
    seq![SupervisorAction::Spawn(0)] + actions_from(0, outcomes)
}

/// `k` failures followed by a clean close.
pub open spec fn fail_then_close(k: nat) -> Seq<bool> {
    Seq::new(k, |i: int| true).push(false)
}

/// The `i`-th action, counted from zero, once group `g` runs and groups keep
/// failing: cancel group `g + i / 2`, then start the group after it.
pub open spec fn restart_action(g: int, i: int) -> SupervisorAction {
    if i % 2 == 0 {
        SupervisorAction::Cancel((g + i / 2) as u64)
    } else {
        SupervisorAction::Spawn((g + i / 2 + 1) as u64)
    }
}

proof fn lemma_actions_from(g: u64, k: nat)
    requires
        g + k < u64::MAX,
    ensures
        actions_from(g, fail_then_close(k)).len() == 2 * k + 2,
        forall|i: int|
            0 <= i < 2 * k ==> #[trigger] actions_from(g, fail_then_close(k))[i] == restart_action(
                g as int,
                i,
            ),
        actions_from(g, fail_then_close(k))[2 * (k as int)] == SupervisorAction::Cancel((g + k) as u64),
        actions_from(g, fail_then_close(k))[2 * (k as int) + 1] == SupervisorAction::Stop,
    decreases k,
{
    let o = fail_then_close(k);
    if k == 0 {
        assert(o[0] == false);
    } else {
        assert(o[0] == true);
        assert(o.drop_first() =~= fail_then_close((k - 1) as nat));
        lemma_actions_from((g + 1) as u64, (k - 1) as nat);
        let rest = actions_from((g + 1) as u64, fail_then_close((k - 1) as nat));
        let all = actions_from(g, o);
        assert(all == end_actions(g, true) + rest);
        assert forall|i: int| 0 <= i < 2 * k implies #[trigger] all[i] == restart_action(
            g as int,
            i,
        ) by {
            if i >= 2 {
                assert(all[i] == rest[i - 2]);
                assert(restart_action(g + 1, i - 2) == restart_action(g as int, i));
            }
        }
        assert(all[2 * (k as int)] == rest[2 * (k - 1)]);
        assert(all[2 * (k as int) + 1] == rest[2 * (k - 1) + 1]);
    }
}

/// When the connection fails `k` times and then closes cleanly, the
/// supervisor starts group 0; then, for each failed group `g` in turn, it
/// cancels that group and only then starts group `g + 1`; it finally cancels
/// the last group and stops. So every group is built exactly once, there is
/// one rebuild per failure, and the tasks of a failed group are cancelled
/// before the tasks of the next group are started.
pub proof fn lemma_restart_per_failure(k: nat)
    requires
        k < u64::MAX,
    ensures
        run_actions(fail_then_close(k)).len() == 2 * k + 3,
        run_actions(fail_then_close(k))[0] == SupervisorAction::Spawn(0),
        forall|i: int|
            1 <= i <= 2 * k ==> #[trigger] run_actions(fail_then_close(k))[i] == restart_action(
                0,
                i - 1,
            ),
        run_actions(fail_then_close(k))[2 * (k as int) + 1] == SupervisorAction::Cancel(k as u64),
        run_actions(fail_then_close(k))[2 * (k as int) + 2] == SupervisorAction::Stop,
{
    lemma_actions_from(0, k);
    let rest = actions_from(0, fail_then_close(k));
    let all = run_actions(fail_then_close(k));
    assert forall|i: int| 1 <= i <= 2 * k implies #[trigger] all[i] == restart_action(0, i - 1) by {
        assert(all[i] == rest[i - 1]);
    }
    assert(all[2 * (k as int) + 1] == rest[2 * (k as int)]);
    assert(all[2 * (k as int) + 2] == rest[2 * (k as int) + 1]);
}

} // verus!
