//! The categories and states of the tasks of an implementation sprint.

use vstd::prelude::*;

verus! {

/// The part of the project that a task belongs to, in the order of merge
/// priority.
#[derive(Debug, Clone, Copy, PartialEq, Eq, Structural)]
pub enum TaskCategory {
    BluetoothBackends,
    ProtocolMessages,
    FFIBridge,
    AndroidMerge,
    BuildPackaging,
    CICD,
    I18nA11y,
    Security,
    Documentation,
    ReleaseChores,
}

impl TaskCategory {
    /// The merge priority of the category, from 1 to 10.
    pub open spec fn priority_value(self) -> u8 {
        match self {
            TaskCategory::BluetoothBackends => 1,
            TaskCategory::ProtocolMessages => 2,
            TaskCategory::FFIBridge => 3,
            TaskCategory::AndroidMerge => 4,
            TaskCategory::BuildPackaging => 5,
            TaskCategory::CICD => 6,
            TaskCategory::I18nA11y => 7,
            TaskCategory::Security => 8,
            TaskCategory::Documentation => 9,
            TaskCategory::ReleaseChores => 10,
        }
    }

    /// The merge priority of the category, from 1 to 10.
    pub fn priority(&self) -> (priority: u8)
        ensures
            priority == self.priority_value(),
            crate::merge_planner::category_name(priority) == self.label_text(),
    {
        match self {
            TaskCategory::BluetoothBackends => 1,
            TaskCategory::ProtocolMessages => 2,
            TaskCategory::FFIBridge => 3,
            TaskCategory::AndroidMerge => 4,
            TaskCategory::BuildPackaging => 5,
            TaskCategory::CICD => 6,
            TaskCategory::I18nA11y => 7,
            TaskCategory::Security => 8,
            TaskCategory::Documentation => 9,
            TaskCategory::ReleaseChores => 10,
        }
    }

    /// The name under which merge plans list the category.
    pub open spec fn label_text(self) -> Seq<char> {
        match self {
            TaskCategory::BluetoothBackends => "Bluetooth backends"@,
            TaskCategory::ProtocolMessages => "Protocol messages"@,
            TaskCategory::FFIBridge => "FFI bridge"@,
            TaskCategory::AndroidMerge => "Android merge"@,
            TaskCategory::BuildPackaging => "Build/packaging"@,
            TaskCategory::CICD => "CI/CD"@,
            TaskCategory::I18nA11y => "i18n/a11y"@,
            TaskCategory::Security => "Security"@,
            TaskCategory::Documentation => "Documentation"@,
            TaskCategory::ReleaseChores => "Release chores"@,
        }
    }

    /// The name under which merge plans list the category.
    pub fn label(&self) -> (label: &'static str)
        ensures
            label@ == self.label_text(),
    {
        match self {
            TaskCategory::BluetoothBackends => "Bluetooth backends",
            TaskCategory::ProtocolMessages => "Protocol messages",
            TaskCategory::FFIBridge => "FFI bridge",
            TaskCategory::AndroidMerge => "Android merge",
            TaskCategory::BuildPackaging => "Build/packaging",
            TaskCategory::CICD => "CI/CD",
            TaskCategory::I18nA11y => "i18n/a11y",
            TaskCategory::Security => "Security",
            TaskCategory::Documentation => "Documentation",
            TaskCategory::ReleaseChores => "Release chores",
        }
    }
}

/// Where a task stands.
#[derive(Debug, Clone, Copy, PartialEq, Eq, Structural)]
pub enum TaskStatus {
    Pending,
    InProgress,
    Blocked,
    Completed,
    Failed,
}

impl TaskStatus {
    /// The name of the status.
    pub open spec fn name_text(self) -> Seq<char> {
        match self {
            TaskStatus::Pending => "Pending"@,
            TaskStatus::InProgress => "InProgress"@,
            TaskStatus::Blocked => "Blocked"@,
            TaskStatus::Completed => "Completed"@,
            TaskStatus::Failed => "Failed"@,
        }
    }

    /// The name of the status.
    pub fn name(&self) -> (name: &'static str)
        ensures
            name@ == self.name_text(),
    {
        match self {
            TaskStatus::Pending => "Pending",
            TaskStatus::InProgress => "InProgress",
            TaskStatus::Blocked => "Blocked",
            TaskStatus::Completed => "Completed",
            TaskStatus::Failed => "Failed",
        }
    }

    /// How the counters of completed and of blocked tasks move when a task
    /// goes from `self` to `next`: each by +1, 0 or -1.
    pub open spec fn counter_steps(self, next: TaskStatus) -> (int, int) {
        (
            if self == TaskStatus::Completed && next != TaskStatus::Completed {
                -1
            } else if self != TaskStatus::Completed && next == TaskStatus::Completed {
                1
            } else {
                0
            },
            if self == TaskStatus::Blocked && next != TaskStatus::Blocked {
                -1
            } else if self != TaskStatus::Blocked && next == TaskStatus::Blocked {
                1
            } else {
                0
            },
        )
    }

    /// The counters of completed and of blocked tasks after a task went
    /// from `self` to `next`. A counter at zero stays at zero where it
    /// would fall, and one at its highest value where it would rise.
    pub fn move_counters(&self, next: TaskStatus, completed: usize, blocked: usize) -> (counters: (
        usize,
        usize,
    ))
        ensures
            counters.0 == step(completed, self.counter_steps(next).0),
            counters.1 == step(blocked, self.counter_steps(next).1),
    {
        let was_completed = *self == TaskStatus::Completed;
        let is_completed = next == TaskStatus::Completed;
        let was_blocked = *self == TaskStatus::Blocked;
        let is_blocked = next == TaskStatus::Blocked;
        let completed = if was_completed && !is_completed {
            completed.saturating_sub(1)
        } else if !was_completed && is_completed {
            completed.saturating_add(1)
        } else {
            completed
        };
        let blocked = if was_blocked && !is_blocked {
            blocked.saturating_sub(1)
        } else if !was_blocked && is_blocked {
            blocked.saturating_add(1)
        } else {
            blocked
        };
        (completed, blocked)
    }
}

/// A counter after one step up or down, kept inside its range.
pub open spec fn step(counter: usize, by: int) -> usize {
    if counter + by < 0 {
        0
    } else if counter + by > usize::MAX {
        usize::MAX
    } else {
        (counter + by) as usize
    }
}

} // verus!
