//! Player control of production groups: priority and pause/resume.
use vstd::prelude::*;

verus! {

/// How much a group matters to the player.
#[derive(Clone, Copy, Debug, PartialEq, Eq, Hash, Structural)]
pub enum GroupPriority {
    Low,
    Medium,
    High,
}

impl Default for GroupPriority {
    fn default() -> (p: Self)
        ensures
            p == GroupPriority::Medium,
    {
        GroupPriority::Medium
    }
}

/// Whether a group is running or paused.
#[derive(Clone, Copy, Debug, PartialEq, Eq, Hash, Structural)]
pub enum GroupStatus {
    Active,
    Paused,
}

impl Default for GroupStatus {
    fn default() -> (s: Self)
        ensures
            s == GroupStatus::Active,
    {
        GroupStatus::Active
    }
}

/// A group's player-set priority and pause status.
#[derive(Clone, Copy, Debug, PartialEq, Eq, Structural)]
pub struct GroupControl {
    pub priority: GroupPriority,
    pub status: GroupStatus,
}

impl Default for GroupControl {
    fn default() -> (c: Self)
        ensures
            c.priority == GroupPriority::Medium,
            c.status == GroupStatus::Active,
    {
        GroupControl { priority: GroupPriority::Medium, status: GroupStatus::Active }
    }
}

impl GroupControl {
    /// Applies, in order, the priority commands sent to this group during a
    /// tick: the last one wins; the pause status is untouched.
    pub fn apply_priority_commands(&mut self, priorities: &Vec<GroupPriority>)
        ensures
            final(self).status == old(self).status,
            final(self).priority == (if priorities@.len() == 0 {
                old(self).priority
            } else {
                priorities@.last()
            }),
    {
        let mut i: usize = 0;
        while i < priorities.len()
            invariant
                i <= priorities@.len(),
                self.status == old(self).status,
                self.priority == (if i == 0 {
                    old(self).priority
                } else {
                    priorities@[i - 1]
                }),
            decreases priorities@.len() - i,
        {
            self.priority = priorities[i];
            i = i + 1;
        }
    }

    /// Applies a tick's pause and resume commands for this group: pauses are
    /// handled before resumes, so a group both paused and resumed in the same
    /// tick ends up active.  The priority is untouched.
    pub fn apply_pause_resume(&mut self, paused: bool, resumed: bool)
        ensures
            final(self).priority == old(self).priority,
            final(self).status == (if resumed {
                GroupStatus::Active
            } else if paused {
                GroupStatus::Paused
            } else {
                old(self).status
            }),
    {
        if paused {
            self.status = GroupStatus::Paused;
        }
        if resumed {
            self.status = GroupStatus::Active;
        }
    }
}

} // verus!
