//! The task registry: it tracks outstanding background operations keyed by
//! resource locator and guarantees at most one concurrent task per key.
//! `add_task` performs its check and its insert in one call, so a caller
//! that holds the registry behind a single mutual-exclusion domain gets an
//! atomic check-and-set.

use vstd::prelude::*;

use crate::bytes::bytes_eq;
use crate::kv::{kv_view, lemma_kv_view_absent, lemma_kv_view_found, lemma_kv_view_push};

verus! {

/// The state of one background operation. It is created `Running`,
/// transitions to `Completed` or `Failed` exactly once, and a `Failed`
/// handle may be superseded by a fresh attempt.
#[derive(Clone, Copy, PartialEq, Eq, Structural, Debug)]
pub enum TaskState {
    Running,
    Completed,
    Failed,
}

impl View for TaskState {
    type V = TaskState;

    open spec fn view(&self) -> TaskState {
        *self
    }
}

/// A new task may be started for a key exactly when no handle exists for it
/// or the existing handle has failed. A `Running` handle blocks a second
/// attempt; a `Completed` one is left in place.
pub open spec fn can_start(reg: Map<Seq<u8>, TaskState>, key: Seq<u8>) -> bool {
    !reg.contains_key(key) || reg[key] is Failed
}

/// The task registry. Its abstract value is a map from resource keys to
/// task states.
pub struct TaskRegistry {
    tasks: Vec<(Vec<u8>, TaskState)>,
}

impl View for TaskRegistry {
    type V = Map<Seq<u8>, TaskState>;

    closed spec fn view(&self) -> Map<Seq<u8>, TaskState> {
        kv_view(self.tasks@)
    }
}

impl TaskRegistry {
    /// An empty registry.
    pub fn new() -> (reg: Self)
        ensures
            reg@ == Map::<Seq<u8>, TaskState>::empty(),
    {
        TaskRegistry { tasks: Vec::new() }
    }

    /// A non-blocking snapshot of whether a task exists for `key` and, if
    /// so, in which state it is.
    pub fn task_state(&self, key: &[u8]) -> (r: Option<TaskState>)
        ensures
            match r {
                Some(state) => self@.contains_key(key@) && state == self@[key@],
                None => !self@.contains_key(key@),
            },
    {
        let n = self.tasks.len();
        let mut i: usize = n;
        while i > 0
            invariant
                n == self.tasks@.len(),
                i <= n,
                forall|j: int| i <= j < n ==> self.tasks@[j].0@ != key@,
            decreases i,
        {
            i -= 1;
            if bytes_eq(self.tasks[i].0.as_slice(), key) {
                proof {
                    lemma_kv_view_found(self.tasks@, i as int);
                }
                return Some(self.tasks[i].1);
            }
        }
        proof {
            lemma_kv_view_absent(self.tasks@, key@);
        }
        None
    }

    /// The atomic check-and-set: register a fresh `Running` handle for
    /// `key`, unless a handle already exists that is not `Failed`. Returns
    /// whether a new task was started, so exactly one caller of many wins.
    pub fn add_task(&mut self, key: Vec<u8>) -> (started: bool)
        ensures
            started == can_start(old(self)@, key@),
            started ==> final(self)@ == old(self)@.insert(key@, TaskState::Running),
            !started ==> final(self)@ == old(self)@,
    {
        let existing = self.task_state(key.as_slice());
        match existing {
            Some(TaskState::Running) | Some(TaskState::Completed) => false,
            _ => {
                proof {
                    lemma_kv_view_push(self.tasks@, key, TaskState::Running);
                }
                self.tasks.push((key, TaskState::Running));
                true
            },
        }
    }

    /// Record the one transition a handle makes: the `Running` task for
    /// `key` has finished, successfully or not.
    pub fn complete_task(&mut self, key: Vec<u8>, success: bool)
        requires
            old(self)@.contains_key(key@),
            old(self)@[key@] is Running,
        ensures
            final(self)@ == old(self)@.insert(
                key@,
                if success {
                    TaskState::Completed
                } else {
                    TaskState::Failed
                },
            ),
    {
        let state = if success {
            TaskState::Completed
        } else {
            TaskState::Failed
        };
        proof {
            lemma_kv_view_push(self.tasks@, key, state);
        }
        self.tasks.push((key, state));
    }
}

} // verus!
