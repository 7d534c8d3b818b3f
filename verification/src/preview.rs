//! The preview windows of recognized text: labels that are never reused,
//! one active window that a new text may reuse, windows pinned by the user
//! that stay open, and what is remembered of each window until it is
//! destroyed. Creating, showing and placing windows is the caller's part.
use vstd::prelude::*;

use crate::text::{chars_of, decimal, decimal_string, lines, lines_of, str_eq, utf8_len};

verus! {

/// How long after its creation a window ignores losing the focus.
pub const BLUR_GRACE_MS: u64 = 800;

/// What is remembered of one window.
#[derive(Debug, Clone, Copy, PartialEq, Eq)]
pub struct WindowFacts {
    /// The user pinned it: losing the focus does not close it.
    pub pinned: bool,
    /// Whether its page announced it is ready, once it was created.
    pub ready: Option<bool>,
    /// When it was shown last, in milliseconds since the epoch.
    pub created_at: Option<u64>,
    /// Its focus and destruction events are being handled.
    pub registered: bool,
}

/// What is remembered of a window never seen or already destroyed.
pub open spec fn no_facts() -> WindowFacts {
    WindowFacts { pinned: false, ready: None, created_at: None, registered: false }
}

struct Slot {
    label: String,
    facts: WindowFacts,
}

spec fn labels_unique(slots: Seq<Slot>) -> bool {
    forall|i: int, j: int|
        0 <= i < slots.len() && 0 <= j < slots.len() && #[trigger] slots[i].label@ == #[trigger] slots[j].label@ ==> i == j
}

spec fn has_slot(slots: Seq<Slot>, label: Seq<char>) -> bool {
    exists|i: int| 0 <= i < slots.len() && #[trigger] slots[i].label@ == label
}

spec fn slot_index(slots: Seq<Slot>, label: Seq<char>) -> int {
    choose|i: int| 0 <= i < slots.len() && #[trigger] slots[i].label@ == label
}

spec fn facts_in(slots: Seq<Slot>, label: Seq<char>) -> WindowFacts {
    if has_slot(slots, label) {
        slots[slot_index(slots, label)].facts
    } else {
        no_facts()
    }
}

proof fn lemma_facts_at(slots: Seq<Slot>, k: int)
    requires
        labels_unique(slots),
        0 <= k < slots.len(),
    ensures
        facts_in(slots, slots[k].label@) == slots[k].facts,
{
    assert(has_slot(slots, slots[k].label@));
    let i = slot_index(slots, slots[k].label@);
    assert(slots[i].label@ == slots[k].label@);
}

proof fn lemma_facts_update(slots: Seq<Slot>, k: int, f: WindowFacts)
    requires
        labels_unique(slots),
        0 <= k < slots.len(),
    ensures
        ({
            let new = slots.update(k, Slot { label: slots[k].label, facts: f });
            &&& labels_unique(new)
            &&& forall|l: Seq<char>| #[trigger] facts_in(new, l) == if l == slots[k].label@ {
                f
            } else {
                facts_in(slots, l)
            }
        }),
{
    let new = slots.update(k, Slot { label: slots[k].label, facts: f });
    assert forall|i: int| 0 <= i < slots.len() implies #[trigger] new[i].label@ == slots[i].label@ by {}
    assert(labels_unique(new));
    assert forall|l: Seq<char>| #[trigger] facts_in(new, l) == if l == slots[k].label@ {
        f
    } else {
        facts_in(slots, l)
    } by {
        if l == slots[k].label@ {
            lemma_facts_at(new, k);
        } else if has_slot(slots, l) {
            let i = slot_index(slots, l);
            assert(new[i].label@ == l);
            lemma_facts_at(new, i);
            lemma_facts_at(slots, i);
        } else {
            if has_slot(new, l) {
                let i = slot_index(new, l);
                assert(slots[i].label@ == l);
            }
        }
    }
}

proof fn lemma_facts_push(slots: Seq<Slot>, s: Slot)
    requires
        labels_unique(slots),
        !has_slot(slots, s.label@),
    ensures
        labels_unique(slots.push(s)),
        forall|l: Seq<char>| #[trigger] facts_in(slots.push(s), l) == if l == s.label@ {
            s.facts
        } else {
            facts_in(slots, l)
        },
{
    let new = slots.push(s);
    assert forall|i: int, j: int|
        0 <= i < new.len() && 0 <= j < new.len() && #[trigger] new[i].label@ == #[trigger] new[j].label@ implies i == j by {
        if i < slots.len() && j == slots.len() {
            assert(slots[i].label@ == s.label@);
        } else if j < slots.len() && i == slots.len() {
            assert(slots[j].label@ == s.label@);
        }
    }
    assert forall|l: Seq<char>| #[trigger] facts_in(new, l) == if l == s.label@ {
        s.facts
    } else {
        facts_in(slots, l)
    } by {
        if l == s.label@ {
            lemma_facts_at(new, slots.len() as int);
        } else if has_slot(slots, l) {
            let i = slot_index(slots, l);
            assert(new[i].label@ == l);
            lemma_facts_at(new, i);
            lemma_facts_at(slots, i);
        } else {
            if has_slot(new, l) {
                let i = slot_index(new, l);
                assert(i < slots.len());
                assert(slots[i].label@ == l);
            }
        }
    }
}

proof fn lemma_facts_remove(slots: Seq<Slot>, k: int)
    requires
        labels_unique(slots),
        0 <= k < slots.len(),
    ensures
        labels_unique(slots.remove(k)),
        forall|l: Seq<char>| #[trigger] facts_in(slots.remove(k), l) == if l == slots[k].label@ {
            no_facts()
        } else {
            facts_in(slots, l)
        },
{
    let new = slots.remove(k);
    assert forall|i: int, j: int|
        0 <= i < new.len() && 0 <= j < new.len() && #[trigger] new[i].label@ == #[trigger] new[j].label@ implies i == j by {
        let oi = if i < k { i } else { i + 1 };
        let oj = if j < k { j } else { j + 1 };
        assert(new[i] == slots[oi]);
        assert(new[j] == slots[oj]);
    }
    assert forall|l: Seq<char>| #[trigger] facts_in(new, l) == if l == slots[k].label@ {
        no_facts()
    } else {
        facts_in(slots, l)
    } by {
        if has_slot(new, l) {
            let i = slot_index(new, l);
            let oi = if i < k { i } else { i + 1 };
            assert(new[i] == slots[oi]);
            lemma_facts_at(new, i);
            lemma_facts_at(slots, oi);
        } else if has_slot(slots, l) {
            let i = slot_index(slots, l);
            if i != k {
                let ni = if i < k { i } else { i - 1 };
                assert(new[ni] == slots[i]);
            }
        }
    }
}

/// The label of the `n`-th window created.
pub open spec fn window_label(n: u64) -> Seq<char> {
    "preview-"@ + decimal(n as nat)
}

/// The preview windows known to the application.
pub struct PreviewWindows {
    seq: u64,
    active: Option<String>,
    slots: Vec<Slot>,
}

impl PreviewWindows {
    /// The number of the next window.
    pub closed spec fn spec_seq(&self) -> u64 {
        self.seq
    }

    /// The window that a new text is shown in, if there is one.
    pub closed spec fn spec_active(&self) -> Option<Seq<char>> {
        match self.active {
            Some(l) => Some(l@),
            None => None,
        }
    }

    /// What is remembered of the window `label`.
    pub closed spec fn facts(&self, label: Seq<char>) -> WindowFacts {
        facts_in(self.slots@, label)
    }

    pub closed spec fn wf(&self) -> bool {
        labels_unique(self.slots@)
    }

    /// No window yet.
    pub fn new() -> (w: Self)
        ensures
            w.wf(),
            w.spec_seq() == 0,
            w.spec_active() is None,
            forall|l: Seq<char>| #[trigger] w.facts(l) == no_facts(),
    {
        PreviewWindows { seq: 0, active: None, slots: Vec::new() }
    }

    /// A label that no earlier window had: `preview-<n>` for the next `n`.
    pub fn next_label(&mut self) -> (label: String)
        ensures
            label@ == window_label(old(self).spec_seq()),
            final(self).spec_seq() == old(self).spec_seq().wrapping_add(1),
            final(self).spec_active() == old(self).spec_active(),
            forall|l: Seq<char>| #[trigger] final(self).facts(l) == old(self).facts(l),
            final(self).wf() == old(self).wf(),
    {
        let n = self.seq;
        self.seq = self.seq.wrapping_add(1);
        let mut label = String::from_str("preview-");
        let d = decimal_string(n);
        label.append(d.as_str());
        label
    }

    /// The active window.
    pub fn active(&self) -> (a: Option<String>)
        ensures
            match a {
                Some(l) => self.spec_active() == Some(l@),
                None => self.spec_active() is None,
            },
    {
        match &self.active {
            Some(l) => Some(l.clone()),
            None => None,
        }
    }

    /// Makes `label` the active window.
    pub fn set_active(&mut self, label: String)
        ensures
            final(self).spec_active() == Some(label@),
            final(self).spec_seq() == old(self).spec_seq(),
            forall|l: Seq<char>| #[trigger] final(self).facts(l) == old(self).facts(l),
            final(self).wf() == old(self).wf(),
    {
        self.active = Some(label);
    }

    fn index_of(&self, label: &str) -> (k: usize)
        requires
            self.wf(),
        ensures
            k <= self.slots@.len(),
            k < self.slots@.len() ==> self.slots@[k as int].label@ == label@,
            k == self.slots@.len() ==> !has_slot(self.slots@, label@),
    {
        let mut k: usize = 0;
        while k < self.slots.len()
            invariant
                k <= self.slots.len(),
                forall|j: int| 0 <= j < k ==> #[trigger] self.slots@[j].label@ != label@,
            decreases self.slots.len() - k,
        {
            if str_eq(self.slots[k].label.as_str(), label) {
                return k;
            }
            k = k + 1;
        }
        k
    }

    /// What is remembered of the window `label`.
    pub fn facts_of(&self, label: &str) -> (f: WindowFacts)
        requires
            self.wf(),
        ensures
            f == self.facts(label@),
    {
        let k = self.index_of(label);
        if k < self.slots.len() {
            proof {
                lemma_facts_at(self.slots@, k as int);
            }
            self.slots[k].facts
        } else {
            no_facts_value()
        }
    }

    fn set_facts(&mut self, label: &str, f: WindowFacts)
        requires
            old(self).wf(),
        ensures
            final(self).wf(),
            forall|l: Seq<char>| #[trigger] final(self).facts(l) == if l == label@ {
                f
            } else {
                old(self).facts(l)
            },
            final(self).spec_seq() == old(self).spec_seq(),
            final(self).spec_active() == old(self).spec_active(),
    {
        let k = self.index_of(label);
        if k < self.slots.len() {
            proof {
                lemma_facts_update(self.slots@, k as int, f);
            }
            let label_copy = self.slots[k].label.clone();
            self.slots.set(k, Slot { label: label_copy, facts: f });
        } else {
            let s = Slot { label: String::from_str(label), facts: f };
            proof {
                lemma_facts_push(self.slots@, s);
            }
            self.slots.push(s);
        }
    }

    /// Pins or unpins the window `label`. Pinning the active window takes
    /// it out of the active slot, so the next text gets a new window.
    pub fn set_pinned(&mut self, label: &str, pinned: bool)
        requires
            old(self).wf(),
        ensures
            final(self).wf(),
            final(self).facts(label@) == (WindowFacts { pinned, ..old(self).facts(label@) }),
            forall|l: Seq<char>| l != label@ ==> #[trigger] final(self).facts(l) == old(self).facts(l),
            final(self).spec_active() == if pinned && old(self).spec_active() == Some(label@) {
                None
            } else {
                old(self).spec_active()
            },
            final(self).spec_seq() == old(self).spec_seq(),
    {
        let f = self.facts_of(label);
        self.set_facts(label, WindowFacts { pinned, ..f });
        if pinned {
            let is_active = match &self.active {
                Some(a) => str_eq(a.as_str(), label),
                None => false,
            };
            if is_active {
                let ghost mid = *self;
                self.active = None;
                assert forall|l: Seq<char>| #[trigger] self.facts(l) == mid.facts(l) by {}
            }
        }
    }

    /// Whether the window `label` is pinned.
    pub fn is_pinned(&self, label: &str) -> (b: bool)
        requires
            self.wf(),
        ensures
            b == self.facts(label@).pinned,
    {
        self.facts_of(label).pinned
    }

    /// Whether the page of the window `label` announced it is ready.
    pub fn is_ready(&self, label: &str) -> (b: bool)
        requires
            self.wf(),
        ensures
            b == (self.facts(label@).ready == Some(true)),
    {
        match self.facts_of(label).ready {
            Some(r) => r,
            None => false,
        }
    }

    /// Records whether the page of the window `label` is ready.
    pub fn set_ready(&mut self, label: &str, ready: bool)
        requires
            old(self).wf(),
        ensures
            final(self).wf(),
            final(self).facts(label@) == (WindowFacts { ready: Some(ready), ..old(self).facts(label@) }),
            forall|l: Seq<char>| l != label@ ==> #[trigger] final(self).facts(l) == old(self).facts(l),
            final(self).spec_active() == old(self).spec_active(),
            final(self).spec_seq() == old(self).spec_seq(),
    {
        let f = self.facts_of(label);
        self.set_facts(label, WindowFacts { ready: Some(ready), ..f });
    }

    /// Records when the window `label` was shown.
    pub fn set_created_at(&mut self, label: &str, now_ms: u64)
        requires
            old(self).wf(),
        ensures
            final(self).wf(),
            final(self).facts(label@) == (WindowFacts { created_at: Some(now_ms), ..old(self).facts(label@) }),
            forall|l: Seq<char>| l != label@ ==> #[trigger] final(self).facts(l) == old(self).facts(l),
            final(self).spec_active() == old(self).spec_active(),
            final(self).spec_seq() == old(self).spec_seq(),
    {
        let f = self.facts_of(label);
        self.set_facts(label, WindowFacts { created_at: Some(now_ms), ..f });
    }

    /// Notes that the events of the window `label` are handled; `false` when
    /// they already were, so that handlers are never added twice.
    pub fn register(&mut self, label: &str) -> (first: bool)
        requires
            old(self).wf(),
        ensures
            first == !old(self).facts(label@).registered,
            final(self).wf(),
            final(self).facts(label@) == (WindowFacts { registered: true, ..old(self).facts(label@) }),
            forall|l: Seq<char>| l != label@ ==> #[trigger] final(self).facts(l) == old(self).facts(l),
            final(self).spec_active() == old(self).spec_active(),
            final(self).spec_seq() == old(self).spec_seq(),
    {
        let f = self.facts_of(label);
        if f.registered {
            proof {
                assert(self.facts(label@) == (WindowFacts { registered: true, ..self.facts(label@) }));
            }
            return false;
        }
        self.set_facts(label, WindowFacts { registered: true, ..f });
        true
    }

    /// Whether the window `label` closes on losing the focus at `now_ms`:
    /// not when pinned, nor within `BLUR_GRACE_MS` of being shown (a window
    /// with no recorded time counts as shown at 0).
    pub fn closes_on_blur(&self, label: &str, now_ms: u64) -> (b: bool)
        requires
            self.wf(),
        ensures
            b == (!self.facts(label@).pinned && ({
                let created = match self.facts(label@).created_at {
                    Some(t) => t as int,
                    None => 0int,
                };
                (if now_ms >= created { now_ms - created } else { 0 }) >= BLUR_GRACE_MS
            })),
    {
        let f = self.facts_of(label);
        if f.pinned {
            return false;
        }
        let created = match f.created_at {
            Some(t) => t,
            None => 0,
        };
        now_ms.saturating_sub(created) >= BLUR_GRACE_MS
    }

    /// The window `label` is gone: everything remembered of it is dropped,
    /// and it leaves the active slot.
    pub fn destroyed(&mut self, label: &str)
        requires
            old(self).wf(),
        ensures
            final(self).wf(),
            final(self).facts(label@) == no_facts(),
            forall|l: Seq<char>| l != label@ ==> #[trigger] final(self).facts(l) == old(self).facts(l),
            final(self).spec_active() == if old(self).spec_active() == Some(label@) {
                None
            } else {
                old(self).spec_active()
            },
            final(self).spec_seq() == old(self).spec_seq(),
    {
        let k = self.index_of(label);
        if k < self.slots.len() {
            proof {
                lemma_facts_remove(self.slots@, k as int);
            }
            self.slots.remove(k);
        }
        let is_active = match &self.active {
            Some(a) => str_eq(a.as_str(), label),
            None => false,
        };
        if is_active {
            self.active = None;
        }
    }
}

/// Where a text is shown: in the active window, which may still be loading
/// its page, or in a new window with this label.
#[derive(Debug, Clone, PartialEq, Eq)]
pub enum ShowTarget {
    /// Reuse the active window; when `wait_for_ready`, its page has not
    /// announced itself yet and the text is sent again once it does.
    Reuse { label: String, wait_for_ready: bool },
    /// Create a window with this label; once it exists, make it active.
    Create { label: String },
}

impl PreviewWindows {
    /// Decides where the next text goes: the active window when there is
    /// one and it still exists, else a new window under a fresh label whose
    /// page is not ready yet.
    pub fn begin_show(&mut self, active_exists: bool) -> (t: ShowTarget)
        requires
            old(self).wf(),
        ensures
            final(self).wf(),
            final(self).spec_active() == old(self).spec_active(),
            match t {
                ShowTarget::Reuse { label, wait_for_ready } => {
                    &&& active_exists
                    &&& old(self).spec_active() == Some(label@)
                    &&& wait_for_ready == !(old(self).facts(label@).ready == Some(true))
                    &&& final(self).spec_seq() == old(self).spec_seq()
                    &&& forall|l: Seq<char>| #[trigger] final(self).facts(l) == old(self).facts(l)
                },
                ShowTarget::Create { label } => {
                    &&& !(active_exists && old(self).spec_active() is Some)
                    &&& label@ == window_label(old(self).spec_seq())
                    &&& final(self).spec_seq() == old(self).spec_seq().wrapping_add(1)
                    &&& final(self).facts(label@) == (WindowFacts { ready: Some(false), ..old(self).facts(label@) })
                    &&& forall|l: Seq<char>| l != label@ ==> #[trigger] final(self).facts(l) == old(self).facts(l)
                },
            },
    {
        if active_exists {
            match self.active() {
                Some(label) => {
                    let ready = self.is_ready(label.as_str());
                    return ShowTarget::Reuse { label, wait_for_ready: !ready };
                },
                None => {},
            }
        }
        let label = self.next_label();
        self.set_ready(label.as_str(), false);
        ShowTarget::Create { label }
    }

    /// The label of a hidden window to create ahead of the next text, or
    /// `None` when the active slot is already taken. Its page is not ready
    /// yet.
    pub fn prewarm_label(&mut self) -> (r: Option<String>)
        requires
            old(self).wf(),
        ensures
            final(self).wf(),
            final(self).spec_active() == old(self).spec_active(),
            old(self).spec_active() is Some ==> r is None && final(self).spec_seq() == old(self).spec_seq()
                && forall|l: Seq<char>| #[trigger] final(self).facts(l) == old(self).facts(l),
            old(self).spec_active() is None ==> r is Some && r->Some_0@ == window_label(old(self).spec_seq())
                && final(self).spec_seq() == old(self).spec_seq().wrapping_add(1)
                && final(self).facts(r->Some_0@) == (WindowFacts { ready: Some(false), ..old(self).facts(r->Some_0@) })
                && forall|l: Seq<char>| l != r->Some_0@ ==> #[trigger] final(self).facts(l) == old(self).facts(l),
    {
        match self.active {
            Some(_) => None,
            None => {
                let label = self.next_label();
                self.set_ready(label.as_str(), false);
                Some(label)
            },
        }
    }
}

fn no_facts_value() -> (f: WindowFacts)
    ensures
        f == no_facts(),
{
    WindowFacts { pinned: false, ready: None, created_at: None, registered: false }
}

/// Labels are never reused: windows numbered differently are labelled
/// differently.
pub proof fn lemma_labels_differ(m: u64, n: u64)
    requires
        m != n,
    ensures
        window_label(m) != window_label(n),
{
    crate::text::lemma_decimal_injective(m as nat, n as nat);
    let p = "preview-"@;
    if window_label(m) == window_label(n) {
        assert(window_label(m).skip(p.len() as int) =~= decimal(m as nat));
        assert(window_label(n).skip(p.len() as int) =~= decimal(n as nat));
    }
}

/// The longest line of `ls`, in bytes; 0 when there is none.
pub open spec fn longest_line(ls: Seq<Seq<char>>) -> nat
    decreases ls.len(),
{
    if ls.len() == 0 {
        0
    } else {
        let m = longest_line(ls.drop_last());
        if utf8_len(ls.last()) > m {
            utf8_len(ls.last())
        } else {
            m
        }
    }
}

/// `v` brought into `[lo, hi]`.
pub open spec fn clamp(v: int, lo: int, hi: int) -> int {
    if v < lo {
        lo
    } else if v > hi {
        hi
    } else {
        v
    }
}

/// The width of the window for `text`: 8 per byte of its longest line (40
/// bytes for a text with no line) plus 80, kept between 320 and 600.
pub open spec fn preview_width(text: Seq<char>) -> int {
    let ls = lines(text);
    let longest: nat = if ls.len() == 0 { 40 } else { longest_line(ls) };
    clamp(longest as int * 8 + 80, 320, 600)
}

/// The height of the window for `text`: 22 per line, counting at least 3
/// and at most 20 lines, plus 140, kept between 180 and 460.
pub open spec fn preview_height(text: Seq<char>) -> int {
    clamp(clamp(lines(text).len() as int, 3, 20) * 22 + 140, 180, 460)
}

/// The byte length of `v`, or any number above 1000 when it is longer.
fn utf8_len_capped(v: &Vec<char>) -> (n: u64)
    ensures
        n <= 1004,
        utf8_len(v@) <= 1000 ==> n == utf8_len(v@),
        utf8_len(v@) > 1000 ==> n > 1000,
{
    let mut n: u64 = 0;
    let mut i: usize = 0;
    while i < v.len()
        invariant
            i <= v.len(),
            n == utf8_len(v@.take(i as int)),
            n <= 1000,
        decreases v.len() - i,
    {
        let u = v[i] as u32;
        let w: u64 = if u < 0x80 {
            1
        } else if u < 0x800 {
            2
        } else if u < 0x10000 {
            3
        } else {
            4
        };
        proof {
            assert(v@.take(i + 1).drop_last() =~= v@.take(i as int));
        }
        n = n + w;
        i = i + 1;
        if n > 1000 {
            proof {
                lemma_utf8_len_prefix(v@, i as int);
            }
            return n;
        }
    }
    assert(v@.take(v.len() as int) =~= v@);
    n
}

proof fn lemma_utf8_len_prefix(s: Seq<char>, i: int)
    requires
        0 <= i <= s.len(),
    ensures
        utf8_len(s.take(i)) <= utf8_len(s),
    decreases s.len() - i,
{
    if i < s.len() {
        lemma_utf8_len_prefix(s, i + 1);
        assert(s.take(i + 1).drop_last() =~= s.take(i));
    } else {
        assert(s.take(i) =~= s);
    }
}

/// The size of the preview window for `text`, in logical pixels.
pub fn preview_size(text: &str) -> (r: (u32, u32))
    ensures
        r.0 == preview_width(text@),
        r.1 == preview_height(text@),
{
    let ls = lines_of(&chars_of(text));
    let ghost ll = lines(text@);
    assert(ls@.len() == ll.len());
    let mut longest: u64 = 0;
    let mut i: usize = 0;
    while i < ls.len()
        invariant
            i <= ls.len() == ll.len(),
            forall|k: int| 0 <= k < ls@.len() ==> #[trigger] ls@[k]@ == ll[k],
            longest_line(ll.take(i as int)) <= 1000 ==> longest == longest_line(ll.take(i as int)),
            longest_line(ll.take(i as int)) > 1000 ==> longest > 1000,
            longest <= 1004,
        decreases ls.len() - i,
    {
        let n = utf8_len_capped(&ls[i]);
        proof {
            assert(ll.take(i + 1).drop_last() =~= ll.take(i as int));
            assert(ll.take(i + 1).last() == ls@[i as int]@);
        }
        if n > longest {
            longest = n;
        }
        i = i + 1;
    }
    assert(ll.take(ls.len() as int) =~= ll);
    let count: u64 = if ls.len() < 3 {
        3
    } else if ls.len() > 20 {
        20
    } else {
        ls.len() as u64
    };
    let basis: u64 = if ls.len() == 0 { 40 } else { longest };
    let w: u64 = basis * 8 + 80;
    let width: u32 = if w < 320 {
        320
    } else if w > 600 {
        600
    } else {
        w as u32
    };
    let h: u64 = count * 22 + 140;
    let height: u32 = if h < 180 {
        180
    } else if h > 460 {
        460
    } else {
        h as u32
    };
    (width, height)
}

} // verus!
