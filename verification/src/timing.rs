//! How long each successful voice task took, kept as one JSON line per task
//! in `timing.jsonl`. Writing the lines is the caller's part.
use vstd::prelude::*;

use crate::text::{lines, lines_of, path_join, trim, trim_chars, string_of, chars_of};

verus! {

/// The file, beside the data directory's other files, that holds the lines.
pub const TIMING_FILE: &'static str = "timing.jsonl";

/// The time one task took, in milliseconds, phase by phase.
#[derive(Debug, Clone)]
pub struct TimingRecord {
    /// When the task ended, in milliseconds since the epoch.
    pub ts: u64,
    /// Transcription, retries included.
    pub transcribe_ms: u64,
    /// Text optimization, retries included; 0 when there was none.
    pub optimize_ms: u64,
    /// Everything else (connecting, pasting).
    pub other_ms: u64,
    /// From the end of the recording to the pasted text.
    pub total_ms: u64,
    pub transcribe_model: String,
    pub transcribe_provider: String,
    pub optimize_model: Option<String>,
    pub optimize_provider: Option<String>,
}

impl TimingRecord {
    /// A field-by-field copy.
    pub fn copy(&self) -> (r: Self)
        ensures
            r == *self,
    {
        TimingRecord {
            ts: self.ts,
            transcribe_ms: self.transcribe_ms,
            optimize_ms: self.optimize_ms,
            other_ms: self.other_ms,
            total_ms: self.total_ms,
            transcribe_model: self.transcribe_model.clone(),
            transcribe_provider: self.transcribe_provider.clone(),
            optimize_model: match &self.optimize_model {
                Some(s) => Some(s.clone()),
                None => None,
            },
            optimize_provider: match &self.optimize_provider {
                Some(s) => Some(s.clone()),
                None => None,
            },
        }
    }
}

/// The trimmed lines of a `timing.jsonl` text that are not empty: one JSON
/// record each.
pub open spec fn record_lines(content: Seq<char>) -> Seq<Seq<char>> {
    lines(content).map_values(|l: Seq<char>| trim(l)).filter(|l: Seq<char>| l.len() > 0)
}

/// The texts of the records held in `content`, in order.
pub fn record_lines_of(content: &str) -> (r: Vec<String>)
    ensures
        r@.map_values(|s: String| s@) == record_lines(content@),
{
    let ls = lines_of(&chars_of(content));
    let ghost trimmed = lines(content@).map_values(|l: Seq<char>| trim(l));
    let ghost pred = |l: Seq<char>| l.len() > 0;
    let mut r: Vec<String> = Vec::new();
    let mut i: usize = 0;
    while i < ls.len()
        invariant
            i <= ls.len(),
            ls@.map_values(|v: Vec<char>| v@) == lines(content@),
            trimmed == lines(content@).map_values(|l: Seq<char>| trim(l)),
            pred == (|l: Seq<char>| l.len() > 0),
            r@.map_values(|s: String| s@) == trimmed.take(i as int).filter(pred),
        decreases ls.len() - i,
    {
        let t = trim_chars(&ls[i]);
        proof {
            assert(ls@[i as int]@ == lines(content@)[i as int]);
            assert(trimmed.take(i + 1).drop_last() =~= trimmed.take(i as int));
            assert(trimmed.take(i + 1).last() == t@);
            reveal(Seq::filter);
        }
        let ghost rv = r@;
        if t.len() > 0 {
            r.push(string_of(&t));
            assert(r@.map_values(|s: String| s@) =~= rv.map_values(|s: String| s@).push(t@));
        }
        i = i + 1;
    }
    proof {
        assert(trimmed.take(ls.len() as int) =~= trimmed);
    }
    r
}

/// The log of task timings and the file it is kept in; an empty path means
/// the log was never opened and nothing is written.
pub struct TimingLog {
    path: String,
    records: Vec<TimingRecord>,
}

impl TimingLog {
    pub closed spec fn spec_path(&self) -> Seq<char> {
        self.path@
    }

    pub closed spec fn spec_records(&self) -> Seq<TimingRecord> {
        self.records@
    }

    /// A log with no file and no record.
    pub fn empty() -> (l: Self)
        ensures
            l.spec_path().len() == 0,
            l.spec_records().len() == 0,
    {
        TimingLog { path: String::new(), records: Vec::new() }
    }

    /// Opens the log kept in `data_dir`, with the records read from it.
    pub fn open(data_dir: &str, records: Vec<TimingRecord>) -> (l: Self)
        ensures
            l.spec_records() == records@,
    {
        TimingLog { path: path_join(data_dir, TIMING_FILE), records }
    }

    /// The file the log is kept in.
    pub fn path(&self) -> (p: &String)
        ensures
            p@ == self.spec_path(),
    {
        &self.path
    }

    /// Whether the log has a file to write to.
    pub fn has_file(&self) -> (b: bool)
        ensures
            b == (self.spec_path().len() > 0),
    {
        self.path.as_str().unicode_len() > 0
    }

    /// Adds the timing of a task.
    pub fn record(&mut self, entry: TimingRecord)
        ensures
            final(self).spec_records() == old(self).spec_records().push(entry),
            final(self).spec_path() == old(self).spec_path(),
    {
        self.records.push(entry);
    }

    /// A copy of the records, oldest first.
    pub fn get_records(&self) -> (r: Vec<TimingRecord>)
        ensures
            r@ == self.spec_records(),
    {
        let mut r: Vec<TimingRecord> = Vec::new();
        let mut i: usize = 0;
        while i < self.records.len()
            invariant
                i <= self.records.len(),
                r@ == self.records@.take(i as int),
            decreases self.records.len() - i,
        {
            r.push(self.records[i].copy());
            assert(r@ =~= self.records@.take(i + 1));
            i = i + 1;
        }
        assert(self.records@.take(self.records.len() as int) =~= self.records@);
        r
    }

    /// Forgets every record, once the file has been emptied.
    pub fn clear(&mut self)
        ensures
            final(self).spec_records().len() == 0,
            final(self).spec_path() == old(self).spec_path(),
    {
        self.records = Vec::new();
    }
}

/// Milliseconds since the Unix epoch by the system clock, 0 for a clock set
/// before it. It depends on the clock; nothing is claimed of it.
#[verifier::external_body]
pub fn now_millis() -> (ms: u64) {
    match std::time::SystemTime::now().duration_since(std::time::UNIX_EPOCH) {
        Ok(d) => d.as_millis() as u64,
        Err(_) => 0,
    }
}

} // verus!
