//! The three recording bubbles: one window per task slot, and the
//! generation count that keeps a delayed hide from hiding a bubble shown
//! again in the meantime. Creating, placing and showing the windows is the
//! caller's part.
use vstd::prelude::*;

use crate::text::{decimal, decimal_string};

verus! {

/// How many bubble windows are created at start.
pub const MAX_BUBBLES: u32 = 3;

/// The generation slot of a task: task 1 uses slot 0, task 2 slot 1, and
/// every later task slot 2.
pub open spec fn spec_gen_index(task_id: u32) -> int {
    if task_id <= 1 {
        0
    } else if task_id - 1 >= 2 {
        2
    } else {
        task_id - 1
    }
}

pub fn gen_index(task_id: u32) -> (i: usize)
    ensures
        i == spec_gen_index(task_id),
        i < 3,
{
    let i = (task_id as usize).saturating_sub(1);
    if i < 2 {
        i
    } else {
        2
    }
}

/// The window label of the bubble of a task.
pub open spec fn bubble_label(task_id: u32) -> Seq<char> {
    "bubble-"@ + decimal(task_id as nat)
}

pub fn label_for(task_id: u32) -> (s: String)
    ensures
        s@ == bubble_label(task_id),
{
    let mut s = String::from_str("bubble-");
    let d = decimal_string(task_id as u64);
    s.append(d.as_str());
    s
}

/// The labels of the bubble windows created at start: tasks 1 to 3.
pub fn pool_labels() -> (v: Vec<String>)
    ensures
        v@.len() == MAX_BUBBLES,
        forall|k: int| 0 <= k < v@.len() ==> #[trigger] v@[k]@ == bubble_label((k + 1) as u32),
{
    let mut v: Vec<String> = Vec::new();
    let mut i: u32 = 1;
    while i <= MAX_BUBBLES
        invariant
            1 <= i <= MAX_BUBBLES + 1,
            v@.len() == i - 1,
            forall|k: int| 0 <= k < v@.len() ==> #[trigger] v@[k]@ == bubble_label((k + 1) as u32),
        decreases MAX_BUBBLES + 1 - i,
    {
        v.push(label_for(i));
        i = i + 1;
    }
    v
}

/// The generation of each bubble slot: it moves on each time the bubble is
/// shown.
pub struct BubbleGenerations {
    gens: Vec<u32>,
}

impl BubbleGenerations {
    /// The generation of slot `i`.
    pub closed spec fn generation(&self, i: int) -> u32 {
        self.gens@[i]
    }

    pub closed spec fn wf(&self) -> bool {
        self.gens@.len() == 3
    }

    /// Every slot at generation 0.
    pub fn new() -> (g: Self)
        ensures
            g.wf(),
            forall|i: int| 0 <= i < 3 ==> #[trigger] g.generation(i) == 0,
    {
        let mut gens = Vec::new();
        gens.push(0u32);
        gens.push(0u32);
        gens.push(0u32);
        BubbleGenerations { gens }
    }

    /// The bubble of `task_id` is shown: its slot moves to the next
    /// generation, which no pending hide of that slot has seen.
    pub fn shown(&mut self, task_id: u32)
        requires
            old(self).wf(),
        ensures
            final(self).wf(),
            final(self).generation(spec_gen_index(task_id)) == old(self).generation(
                spec_gen_index(task_id),
            ).wrapping_add(1),
            forall|i: int| 0 <= i < 3 && i != spec_gen_index(task_id) ==> #[trigger] final(self).generation(i)
                == old(self).generation(i),
    {
        let i = gen_index(task_id);
        let g = self.gens[i].wrapping_add(1);
        self.gens.set(i, g);
    }

    /// The generation a hide of the bubble of `task_id` is scheduled at.
    pub fn hide_scheduled(&self, task_id: u32) -> (g: u32)
        requires
            self.wf(),
        ensures
            g == self.generation(spec_gen_index(task_id)),
    {
        self.gens[gen_index(task_id)]
    }

    /// Whether a hide scheduled at generation `scheduled_at` still applies:
    /// only when the bubble was not shown again since.
    pub fn hide_still_due(&self, task_id: u32, scheduled_at: u32) -> (b: bool)
        requires
            self.wf(),
        ensures
            b == (self.generation(spec_gen_index(task_id)) == scheduled_at),
    {
        self.gens[gen_index(task_id)] == scheduled_at
    }
}

/// A bubble shown again after a hide was scheduled is not hidden by it:
/// `shown` moves the slot off the generation that `hide_scheduled` gave,
/// so `hide_still_due` answers `false`.
pub proof fn lemma_show_cancels_pending_hide(
    at_schedule: BubbleGenerations,
    after_show: BubbleGenerations,
    task_id: u32,
)
    requires
        at_schedule.wf(),
        after_show.generation(spec_gen_index(task_id)) == at_schedule.generation(
            spec_gen_index(task_id),
        ).wrapping_add(1),
    ensures
        after_show.generation(spec_gen_index(task_id)) != at_schedule.generation(spec_gen_index(task_id)),
{
}

} // verus!
