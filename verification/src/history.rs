//! The short history of recent tasks: at most three records, each with an
//! id that no earlier record has, and the attachments they refer to.
//! Reading and writing `history.json` and the attachment files is the
//! caller's part.
use vstd::prelude::*;

use base64::Engine;

use crate::text::{
    decimal, decimal_string, joined_path, lemma_joined_no_question_mark, lemma_plain_component,
    no_question_mark, path_join, plain_component, starts_with, str_eq,
};

verus! {

/// How many records the history keeps.
pub const MAX_RECORDS: usize = 3;

/// One voice or image task.
#[derive(Debug, Clone)]
pub struct HistoryRecord {
    pub id: u64,
    pub created_at: String,
    pub audio_path: Option<String>,
    pub transcribe_text: Option<String>,
    pub optimize_text: Option<String>,
    pub status: String,
    pub error_message: Option<String>,
    pub record_type: String,
    pub screenshot_path: Option<String>,
    pub extract_text: Option<String>,
}

/// The type of a record read from a file that does not name one.
pub fn default_record_type() -> (s: String)
    ensures
        s@ == "voice"@,
{
    String::from_str("voice")
}

/// The records that remain of `records` once the oldest are dropped to
/// keep at most `MAX_RECORDS`.
pub open spec fn kept(records: Seq<HistoryRecord>) -> Seq<HistoryRecord> {
    if records.len() > MAX_RECORDS {
        records.skip(records.len() - MAX_RECORDS)
    } else {
        records
    }
}

/// The oldest records of `records` that are dropped to keep at most
/// `MAX_RECORDS`.
pub open spec fn dropped(records: Seq<HistoryRecord>) -> Seq<HistoryRecord> {
    if records.len() > MAX_RECORDS {
        records.take(records.len() - MAX_RECORDS)
    } else {
        Seq::empty()
    }
}

/// Position of the first record with id `id`, or `records.len()`.
pub open spec fn position_of(records: Seq<HistoryRecord>, id: u64) -> int
    decreases records.len(),
{
    if records.len() == 0 {
        0
    } else if records[0].id == id {
        0
    } else {
        1 + position_of(records.drop_first(), id)
    }
}

proof fn lemma_position_of(records: Seq<HistoryRecord>, id: u64)
    ensures
        0 <= position_of(records, id) <= records.len(),
        position_of(records, id) < records.len() ==> records[position_of(records, id)].id == id,
        forall|k: int| 0 <= k < position_of(records, id) ==> #[trigger] records[k].id != id,
    decreases records.len(),
{
    if records.len() > 0 && records[0].id != id {
        lemma_position_of(records.drop_first(), id);
        assert forall|k: int| 0 <= k < position_of(records, id) implies #[trigger] records[k].id != id by {
            if k > 0 {
                assert(records[k] == records.drop_first()[k - 1]);
            }
        }
    }
}

/// `record` after an update: new texts replace the old ones only where
/// given; status and error are always replaced.
pub open spec fn updated(
    record: HistoryRecord,
    transcribe_text: Option<String>,
    optimize_text: Option<String>,
    status: Seq<char>,
    error_message: Option<String>,
) -> HistoryRecord {
    HistoryRecord {
        transcribe_text: if transcribe_text is Some { transcribe_text } else { record.transcribe_text },
        optimize_text: if optimize_text is Some { optimize_text } else { record.optimize_text },
        error_message: error_message,
        ..record
    }
}

/// The message for an update of a record that the history does not hold.
pub open spec fn not_found_error(id: u64) -> Seq<char> {
    "record "@ + decimal(id as nat) + " not found"@
}

/// The largest id of `records`, which are not empty.
pub open spec fn max_id(records: Seq<HistoryRecord>) -> u64
    decreases records.len(),
{
    if records.len() <= 1 {
        records[0].id
    } else {
        let m = max_id(records.drop_last());
        if m >= records.last().id {
            m
        } else {
            records.last().id
        }
    }
}

/// The id after `last` at `now_ms`: the time when it is past `last`, else
/// one more than `last`.
pub open spec fn spec_next_id(last: u64, now_ms: u64) -> u64 {
    if now_ms > last {
        now_ms
    } else {
        (last + 1) as u64
    }
}

/// Ids only grow: each id handed out is larger than every earlier one,
/// whatever the clock says, the clock going backwards included.
pub proof fn lemma_ids_increase(last: u64, now1: u64, now2: u64)
    requires
        last < u64::MAX - 1,
    ensures
        spec_next_id(last, now1) > last,
        spec_next_id(last, now1) < u64::MAX ==> spec_next_id(spec_next_id(last, now1), now2) > spec_next_id(
            last,
            now1,
        ),
{
}

/// Adding a record keeps at most `MAX_RECORDS`, the new one last, and
/// drops only the oldest: what is kept and what is dropped make up the
/// records before plus the new one, in order.
pub proof fn lemma_add_keeps_newest(records: Seq<HistoryRecord>, r: HistoryRecord)
    ensures
        kept(records.push(r)).len() <= MAX_RECORDS,
        kept(records.push(r)).last() == r,
        dropped(records.push(r)) + kept(records.push(r)) == records.push(r),
        records.len() < MAX_RECORDS ==> kept(records.push(r)) == records.push(r),
{
    let all = records.push(r);
    if all.len() > MAX_RECORDS {
        assert(all.take(all.len() - MAX_RECORDS) + all.skip(all.len() - MAX_RECORDS) =~= all);
    } else {
        assert(Seq::<HistoryRecord>::empty() + all =~= all);
    }
}

/// Every record's id is at most `last`.
pub open spec fn ids_at_most(records: Seq<HistoryRecord>, last: u64) -> bool {
    forall|i: int| 0 <= i < records.len() ==> #[trigger] records[i].id <= last
}

/// The largest id is at least every id.
proof fn lemma_max_id_bounds(records: Seq<HistoryRecord>)
    requires
        records.len() > 0,
    ensures
        ids_at_most(records, max_id(records)),
    decreases records.len(),
{
    if records.len() > 1 {
        lemma_max_id_bounds(records.drop_last());
        assert forall|i: int| 0 <= i < records.len() implies #[trigger] records[i].id <= max_id(records) by {
            if i < records.len() - 1 {
                assert(records[i] == records.drop_last()[i]);
            }
        }
    }
}

/// Every record's id is below `id`.
pub open spec fn ids_below(records: Seq<HistoryRecord>, id: u64) -> bool {
    forall|i: int| 0 <= i < records.len() ==> #[trigger] records[i].id < id
}

/// Adding a record whose id passes every earlier one keeps it as the newest:
/// no kept record's id passes it, and every other kept record's is below.
pub proof fn lemma_newer_record_kept_newest(records: Seq<HistoryRecord>, r: HistoryRecord)
    requires
        ids_below(records, r.id),
    ensures
        ids_at_most(kept(records.push(r)), r.id),
        kept(records.push(r)).last() == r,
        ids_below(kept(records.push(r)).drop_last(), r.id),
{
    lemma_add_keeps_newest(records, r);
    let all = records.push(r);
    let k = kept(all);
    let o = if all.len() > MAX_RECORDS { all.len() - MAX_RECORDS } else { 0 };
    assert forall|i: int| 0 <= i < k.len() implies #[trigger] k[i].id <= r.id by {
        assert(k[i] == all[i + o]);
        if i + o < records.len() {
            assert(all[i + o] == records[i + o]);
        }
    }
    assert forall|i: int| 0 <= i < k.drop_last().len() implies #[trigger] k.drop_last()[i].id < r.id by {
        assert(k.drop_last()[i] == k[i]);
        assert(k[i] == all[i + o]);
        assert(all[i + o] == records[i + o]);
    }
}

/// Ids only grow and only the newest records are kept, across `next_id`
/// and adding a record: when no record's id passes the last id handed out,
/// the next id passes all of them, and a record added under it is the
/// newest kept, with every other kept record's id below it.
pub proof fn lemma_next_record_is_newest(records: Seq<HistoryRecord>, last: u64, now_ms: u64, r: HistoryRecord)
    requires
        ids_at_most(records, last),
        last < u64::MAX,
        r.id == spec_next_id(last, now_ms),
    ensures
        ids_below(records, r.id),
        ids_at_most(kept(records.push(r)), r.id),
        kept(records.push(r)).last() == r,
        ids_below(kept(records.push(r)).drop_last(), r.id),
{
    lemma_newer_record_kept_newest(records, r);
}

/// What an update does to a record: a text given replaces the old one, a
/// text not given is left as it was, the error is the one given, the
/// status is the new one, and everything else (id, time, attachments,
/// kind) stays; no other record changes. `after` is the history that
/// `update_record` leaves when it finds `id`.
pub proof fn lemma_update_changes_only_given_texts(
    records: Seq<HistoryRecord>,
    id: u64,
    transcribe_text: Option<String>,
    optimize_text: Option<String>,
    status: Seq<char>,
    error_message: Option<String>,
    new_status: String,
    after: Seq<HistoryRecord>,
)
    requires
        position_of(records, id) < records.len(),
        new_status@ == status,
        after == records.update(
            position_of(records, id),
            HistoryRecord {
                status: new_status,
                ..updated(records[position_of(records, id)], transcribe_text, optimize_text, status, error_message)
            },
        ),
    ensures
        ({
            let k = position_of(records, id);
            let old = records[k];
            let new = after[k];
            &&& after.len() == records.len()
            &&& new.id == id
            &&& transcribe_text is None ==> new.transcribe_text == old.transcribe_text
            &&& transcribe_text is Some ==> new.transcribe_text == transcribe_text
            &&& optimize_text is None ==> new.optimize_text == old.optimize_text
            &&& optimize_text is Some ==> new.optimize_text == optimize_text
            &&& new.status@ == status
            &&& new.error_message == error_message
            &&& new.created_at == old.created_at
            &&& new.audio_path == old.audio_path
            &&& new.record_type == old.record_type
            &&& new.screenshot_path == old.screenshot_path
            &&& new.extract_text == old.extract_text
            &&& forall|j: int| 0 <= j < records.len() && j != k ==> #[trigger] after[j] == records[j]
        }),
{
    lemma_position_of(records, id);
}

/// An attachment decoded and placed, ready to be written to disk.
pub struct Attachment {
    pub path: String,
    pub bytes: Vec<u8>,
}

/// What `STANDARD.decode` of the `base64` crate gives for `text`: the
/// bytes, or `None` where it reports an error.
pub uninterp spec fn base64_standard_decoded(text: Seq<char>) -> Option<Seq<u8>>;

/// `base64::DecodeError`, carried through opaquely.
#[verifier::external_type_specification]
#[verifier::external_body]
pub struct ExDecodeError(base64::DecodeError);

/// `Engine::decode` of the `STANDARD` engine. Claimed: it succeeds exactly
/// where `base64_standard_decoded` is `Some`, with those bytes.
#[verifier::external_body]
fn decode_base64(text: &str) -> (r: Result<Vec<u8>, base64::DecodeError>)
    ensures
        r is Ok <==> base64_standard_decoded(text@) is Some,
        r is Ok ==> r->Ok_0@ == base64_standard_decoded(text@)->Some_0,
{
    base64::engine::general_purpose::STANDARD.decode(text)
}

/// The `Display` text of a decode error. Nothing is claimed of it.
#[verifier::external_body]
fn decode_error_text(e: &base64::DecodeError) -> (s: String) {
    format!("{}", e)
}

/// Records, newest last, and the attachment directory.
pub struct HistoryManager {
    audio_dir: String,
    json_path: String,
    records: Vec<HistoryRecord>,
    last_id: u64,
}

impl HistoryManager {
    pub closed spec fn spec_records(&self) -> Seq<HistoryRecord> {
        self.records@
    }

    pub closed spec fn spec_last_id(&self) -> u64 {
        self.last_id
    }

    pub closed spec fn spec_audio_dir(&self) -> Seq<char> {
        self.audio_dir@
    }

    pub closed spec fn spec_json_path(&self) -> Seq<char> {
        self.json_path@
    }

    /// An empty history kept under `data_dir/history`: attachments in
    /// `audio/`, records in `history.json`.
    pub fn new(data_dir: &str) -> (m: Self)
        ensures
            m.spec_records().len() == 0,
            m.spec_last_id() == 0,
            no_question_mark(data_dir@) ==> exists|h: Seq<char>|
                #![trigger joined_path(data_dir@, "history"@, h)]
                joined_path(data_dir@, "history"@, h) && joined_path(h, "audio"@, m.spec_audio_dir())
                    && joined_path(h, "history.json"@, m.spec_json_path()),
    {
        let history_dir = path_join(data_dir, "history");
        let audio_dir = path_join(history_dir.as_str(), "audio");
        let json_path = path_join(history_dir.as_str(), "history.json");
        proof {
            reveal_strlit("history");
            reveal_strlit("audio");
            reveal_strlit("history.json");
            assert("history"@.len() == 7);
            assert(forall|k: int| 0 <= k < 7 ==> #[trigger] "history"@[k] != '/' && "history"@[k] != '\\' && "history"@[k] != ':' && "history"@[k] != '?');
            lemma_plain_component("history"@);
            assert("audio"@.len() == 5);
            assert(forall|k: int| 0 <= k < 5 ==> #[trigger] "audio"@[k] != '/' && "audio"@[k] != '\\' && "audio"@[k] != ':' && "audio"@[k] != '?');
            lemma_plain_component("audio"@);
            assert("history.json"@.len() == 12);
            assert(forall|k: int| 0 <= k < 12 ==> #[trigger] "history.json"@[k] != '/' && "history.json"@[k] != '\\' && "history.json"@[k] != ':' && "history.json"@[k] != '?');
            lemma_plain_component("history.json"@);
            if no_question_mark(data_dir@) {
                lemma_joined_no_question_mark(data_dir@, "history"@, history_dir@);
                assert(joined_path(data_dir@, "history"@, history_dir@));
            }
        }
        HistoryManager { audio_dir, json_path, records: Vec::new(), last_id: 0 }
    }

    /// The directory attachments are kept in.
    pub fn audio_dir(&self) -> (p: &String)
        ensures
            p@ == self.spec_audio_dir(),
    {
        &self.audio_dir
    }

    /// The file the records are kept in.
    pub fn json_path(&self) -> (p: &String)
        ensures
            p@ == self.spec_json_path(),
    {
        &self.json_path
    }

    /// The last id handed out.
    pub fn last_id(&self) -> (n: u64)
        ensures
            n == self.spec_last_id(),
    {
        self.last_id
    }

    /// Takes the records read from `history.json`; ids go on after the
    /// largest of them.
    pub fn load(&mut self, records: Vec<HistoryRecord>)
        ensures
            final(self).spec_audio_dir() == old(self).spec_audio_dir(),
            final(self).spec_json_path() == old(self).spec_json_path(),
            final(self).spec_records() == records@,
            final(self).spec_last_id() == if records@.len() == 0 {
                old(self).spec_last_id()
            } else {
                max_id(records@)
            },
            records@.len() > 0 ==> ids_at_most(final(self).spec_records(), final(self).spec_last_id()),
    {
        let mut m = self.last_id;
        let mut i: usize = 0;
        while i < records.len()
            invariant
                i <= records.len(),
                i == 0 ==> m == self.last_id,
                i > 0 ==> m == max_id(records@.take(i as int)),
            decreases records.len() - i,
        {
            let id = records[i].id;
            proof {
                assert(records@.take(i + 1).drop_last() =~= records@.take(i as int));
            }
            if i == 0 || id > m {
                m = id;
            }
            i = i + 1;
        }
        assert(records@.take(records.len() as int) =~= records@);
        proof {
            if records@.len() > 0 {
                lemma_max_id_bounds(records@);
            }
        }
        self.records = records;
        self.last_id = m;
    }

    /// A new id: the current time in milliseconds when it is past the last
    /// id, else one more than the last id.
    pub fn next_id(&mut self, now_ms: u64) -> (id: u64)
        requires
            old(self).spec_last_id() < u64::MAX,
        ensures
            final(self).spec_audio_dir() == old(self).spec_audio_dir(),
            final(self).spec_json_path() == old(self).spec_json_path(),
            id == spec_next_id(old(self).spec_last_id(), now_ms),
            final(self).spec_last_id() == id,
            id > old(self).spec_last_id(),
            ids_at_most(old(self).spec_records(), old(self).spec_last_id()) ==> ids_at_most(
                final(self).spec_records(),
                final(self).spec_last_id(),
            ),
            ids_at_most(old(self).spec_records(), old(self).spec_last_id()) ==> ids_below(final(self).spec_records(), id),
            final(self).spec_records() == old(self).spec_records(),
    {
        self.last_id = if now_ms > self.last_id {
            now_ms
        } else {
            self.last_id + 1
        };
        self.last_id
    }

    /// Decodes the Base64 attachment of record `id` and names its file
    /// `<id>.<extension>` in the attachment directory. A text that is not
    /// Base64 gives "Failed to decode <what>: <reason>".
    pub fn stage_attachment(&self, id: u64, data_base64: &str, extension: &str, what: &str) -> (r: Result<
        Attachment,
        String,
    >)
        ensures
            r is Ok <==> base64_standard_decoded(data_base64@) is Some,
            r is Ok ==> r->Ok_0.bytes@ == base64_standard_decoded(data_base64@)->Some_0,
            r is Err ==> starts_with(r->Err_0@, "Failed to decode "@ + what@ + ": "@),
            r is Ok && no_question_mark(self.spec_audio_dir()) && plain_component(
                decimal(id as nat) + "."@ + extension@,
            ) ==> joined_path(self.spec_audio_dir(), decimal(id as nat) + "."@ + extension@, r->Ok_0.path@),
    {
        match decode_base64(data_base64) {
            Ok(bytes) => {
                let mut name = decimal_string(id);
                name.append(".");
                name.append(extension);
                proof {
                    reveal_strlit(".");
                }
                assert(name@ == decimal(id as nat) + "."@ + extension@);
                let path = path_join(self.audio_dir.as_str(), name.as_str());
                Ok(Attachment { path, bytes })
            },
            Err(e) => {
                let mut msg = String::from_str("Failed to decode ");
                msg.append(what);
                msg.append(": ");
                let ghost head = msg@;
                let reason = decode_error_text(&e);
                msg.append(reason.as_str());
                proof {
                    reveal_strlit("Failed to decode ");
                    reveal_strlit(": ");
                    assert(msg@.subrange(0, head.len() as int) =~= head);
                }
                Err(msg)
            },
        }
    }

    /// Appends `record` and drops the oldest records beyond `MAX_RECORDS`,
    /// which are returned so that their files can be removed.
    pub fn push_record(&mut self, record: HistoryRecord) -> (evicted: Vec<HistoryRecord>)
        ensures
            ids_below(old(self).spec_records(), record.id) ==> ids_at_most(final(self).spec_records(), record.id)
                && final(self).spec_records().last() == record && ids_below(
                final(self).spec_records().drop_last(),
                record.id,
            ),
            final(self).spec_audio_dir() == old(self).spec_audio_dir(),
            final(self).spec_json_path() == old(self).spec_json_path(),
            final(self).spec_records() == kept(old(self).spec_records().push(record)),
            evicted@ == dropped(old(self).spec_records().push(record)),
            final(self).spec_records().len() <= MAX_RECORDS,
            final(self).spec_last_id() == old(self).spec_last_id(),
    {
        let ghost all = self.records@.push(record);
        let ghost last_id = self.last_id;
        let ghost dir = self.audio_dir@;
        self.records.push(record);
        let mut evicted: Vec<HistoryRecord> = Vec::new();
        while self.records.len() > MAX_RECORDS
            invariant
                evicted@ + self.records@ == all,
                all.len() <= MAX_RECORDS ==> evicted@.len() == 0,
                all.len() > MAX_RECORDS ==> self.records@.len() >= MAX_RECORDS,
                self.last_id == last_id,
                self.audio_dir@ == dir,
                self.json_path == old(self).json_path,
            decreases self.records.len(),
        {
            let ghost before = self.records@;
            let oldest = self.records.remove(0);
            proof {
                assert(before =~= seq![oldest] + self.records@);
            }
            let ghost ev = evicted@;
            evicted.push(oldest);
            assert(evicted@ + self.records@ =~= ev + (seq![oldest] + self.records@));
        }
        proof {
            if all.len() > MAX_RECORDS {
                assert(evicted@ =~= all.take(all.len() - MAX_RECORDS));
                assert(self.records@ =~= all.skip(all.len() - MAX_RECORDS));
            } else {
                assert(evicted@.len() == 0);
                assert(evicted@ =~= Seq::<HistoryRecord>::empty());
                assert(self.records@ =~= all);
            }
        }
        evicted
    }

    /// Adds a voice record; returns the records dropped to make room.
    pub fn add_record(
        &mut self,
        id: u64,
        created_at: String,
        audio_path: Option<String>,
        transcribe_text: Option<String>,
        optimize_text: Option<String>,
        status: &str,
        error_message: Option<String>,
    ) -> (evicted: Vec<HistoryRecord>)
        ensures
            ids_below(old(self).spec_records(), id) ==> ids_at_most(final(self).spec_records(), id) && ids_below(
                final(self).spec_records().drop_last(),
                id,
            ),
            final(self).spec_audio_dir() == old(self).spec_audio_dir(),
            final(self).spec_json_path() == old(self).spec_json_path(),
            ({
                let r = HistoryRecord {
                    id,
                    created_at,
                    audio_path,
                    transcribe_text,
                    optimize_text,
                    status: final(self).spec_records().last().status,
                    error_message,
                    record_type: final(self).spec_records().last().record_type,
                    screenshot_path: None,
                    extract_text: None,
                };
                &&& final(self).spec_records() == kept(old(self).spec_records().push(r))
                &&& evicted@ == dropped(old(self).spec_records().push(r))
            }),
            final(self).spec_records().last().status@ == status@,
            final(self).spec_records().last().record_type@ == "voice"@,
            final(self).spec_records().len() <= MAX_RECORDS,
            final(self).spec_last_id() == old(self).spec_last_id(),
    {
        let record = HistoryRecord {
            id,
            created_at,
            audio_path,
            transcribe_text,
            optimize_text,
            status: String::from_str(status),
            error_message,
            record_type: String::from_str("voice"),
            screenshot_path: None,
            extract_text: None,
        };
        let ghost r = record;
        let evicted = self.push_record(record);
        proof {
            let all = old(self).spec_records().push(r);
            if all.len() > MAX_RECORDS {
                assert(self.records@.last() == all.last());
            } else {
                assert(self.records@.last() == all.last());
            }
        }
        evicted
    }

    /// Adds an image-recognition record; returns the records dropped to make
    /// room.
    pub fn add_extract_record(
        &mut self,
        id: u64,
        created_at: String,
        screenshot_path: Option<String>,
        extract_text: Option<String>,
        status: &str,
        error_message: Option<String>,
    ) -> (evicted: Vec<HistoryRecord>)
        ensures
            ids_below(old(self).spec_records(), id) ==> ids_at_most(final(self).spec_records(), id) && ids_below(
                final(self).spec_records().drop_last(),
                id,
            ),
            final(self).spec_audio_dir() == old(self).spec_audio_dir(),
            final(self).spec_json_path() == old(self).spec_json_path(),
            ({
                let r = HistoryRecord {
                    id,
                    created_at,
                    audio_path: None,
                    transcribe_text: None,
                    optimize_text: None,
                    status: final(self).spec_records().last().status,
                    error_message,
                    record_type: final(self).spec_records().last().record_type,
                    screenshot_path,
                    extract_text,
                };
                &&& final(self).spec_records() == kept(old(self).spec_records().push(r))
                &&& evicted@ == dropped(old(self).spec_records().push(r))
            }),
            final(self).spec_records().last().status@ == status@,
            final(self).spec_records().last().record_type@ == "extract"@,
            final(self).spec_records().len() <= MAX_RECORDS,
            final(self).spec_last_id() == old(self).spec_last_id(),
    {
        let record = HistoryRecord {
            id,
            created_at,
            audio_path: None,
            transcribe_text: None,
            optimize_text: None,
            status: String::from_str(status),
            error_message,
            record_type: String::from_str("extract"),
            screenshot_path,
            extract_text,
        };
        let ghost r = record;
        let evicted = self.push_record(record);
        proof {
            let all = old(self).spec_records().push(r);
            assert(self.records@.last() == all.last());
        }
        evicted
    }

    fn position(&self, id: u64) -> (k: usize)
        ensures
            k == position_of(self.records@, id),
    {
        proof {
            lemma_position_of(self.records@, id);
        }
        let mut k: usize = 0;
        while k < self.records.len()
            invariant
                k <= self.records.len(),
                forall|j: int| 0 <= j < k ==> #[trigger] self.records@[j].id != id,
                position_of(self.records@, id) >= k,
            decreases self.records.len() - k,
        {
            proof {
                lemma_position_of(self.records@, id);
            }
            if self.records[k].id == id {
                return k;
            }
            k = k + 1;
        }
        k
    }

    /// Updates the first record with id `id`: new texts where given, and
    /// always the status and the error. An unknown id gives
    /// "record <id> not found" and changes nothing.
    pub fn update_record(
        &mut self,
        id: u64,
        transcribe_text: Option<String>,
        optimize_text: Option<String>,
        status: &str,
        error_message: Option<String>,
    ) -> (r: Result<(), String>)
        ensures
            final(self).spec_audio_dir() == old(self).spec_audio_dir(),
            final(self).spec_json_path() == old(self).spec_json_path(),
            r is Err <==> position_of(old(self).spec_records(), id) == old(self).spec_records().len(),
            r is Err ==> r->Err_0@ == not_found_error(id) && final(self).spec_records() == old(
                self,
            ).spec_records(),
            r is Ok ==> ({
                let k = position_of(old(self).spec_records(), id);
                let u = final(self).spec_records()[k];
                &&& u.status@ == status@
                &&& final(self).spec_records() == old(self).spec_records().update(
                    k,
                    HistoryRecord { status: u.status, ..updated(old(self).spec_records()[k], transcribe_text, optimize_text, status@, error_message) },
                )
            }),
            final(self).spec_last_id() == old(self).spec_last_id(),
    {
        let k = self.position(id);
        proof {
            lemma_position_of(self.records@, id);
        }
        if k == self.records.len() {
            let mut msg = String::from_str("record ");
            let n = decimal_string(id);
            msg.append(n.as_str());
            msg.append(" not found");
            return Err(msg);
        }
        let old_record = self.records.remove(k);
        let ghost o = old_record;
        let new_record = HistoryRecord {
            transcribe_text: match transcribe_text {
                Some(t) => Some(t),
                None => old_record.transcribe_text,
            },
            optimize_text: match optimize_text {
                Some(o) => Some(o),
                None => old_record.optimize_text,
            },
            status: String::from_str(status),
            error_message,
            ..old_record
        };
        self.records.insert(k, new_record);
        proof {
            assert(self.records@ =~= old(self).records@.update(k as int, new_record));
        }
        Ok(())
    }

    /// The records, oldest first.
    pub fn get_records(&self) -> (r: &Vec<HistoryRecord>)
        ensures
            r@ == self.spec_records(),
    {
        &self.records
    }

    /// The audio file of the first record with id `id`, if it has one.
    pub fn audio_path_of(&self, id: u64) -> (p: Option<String>)
        ensures
            ({
                let k = position_of(self.spec_records(), id);
                if k < self.spec_records().len() {
                    p == self.spec_records()[k].audio_path
                } else {
                    p is None
                }
            }),
    {
        let k = self.position(id);
        proof {
            lemma_position_of(self.records@, id);
        }
        if k == self.records.len() {
            return None;
        }
        match &self.records[k].audio_path {
            Some(p) => Some(p.clone()),
            None => None,
        }
    }

    /// Forgets the attachment paths that are not among the files that
    /// exist.
    pub fn forget_missing(&mut self, existing: &Vec<String>)
        ensures
            final(self).spec_audio_dir() == old(self).spec_audio_dir(),
            final(self).spec_json_path() == old(self).spec_json_path(),
            final(self).spec_records().len() == old(self).spec_records().len(),
            forall|k: int| 0 <= k < old(self).spec_records().len() ==> #[trigger] final(self).spec_records()[k]
                == (HistoryRecord {
                    audio_path: listed_or_none(old(self).spec_records()[k].audio_path, existing@),
                    screenshot_path: listed_or_none(old(self).spec_records()[k].screenshot_path, existing@),
                    ..old(self).spec_records()[k]
                }),
            final(self).spec_last_id() == old(self).spec_last_id(),
    {
        let ghost before = self.records@;
        let mut out: Vec<HistoryRecord> = Vec::new();
        let mut records = Vec::new();
        std::mem::swap(&mut records, &mut self.records);
        let mut i: usize = 0;
        while i < records.len()
            invariant
                i <= records.len(),
                records@ == before,
                out@.len() == i,
                forall|k: int| 0 <= k < i ==> #[trigger] out@[k] == (HistoryRecord {
                    audio_path: listed_or_none(before[k].audio_path, existing@),
                    screenshot_path: listed_or_none(before[k].screenshot_path, existing@),
                    ..before[k]
                }),
            decreases records.len() - i,
        {
            let r = &records[i];
            let audio_path = keep_if_listed(&r.audio_path, existing);
            let screenshot_path = keep_if_listed(&r.screenshot_path, existing);
            out.push(HistoryRecord {
                id: r.id,
                created_at: r.created_at.clone(),
                audio_path,
                transcribe_text: copy_opt(&r.transcribe_text),
                optimize_text: copy_opt(&r.optimize_text),
                status: r.status.clone(),
                error_message: copy_opt(&r.error_message),
                record_type: r.record_type.clone(),
                screenshot_path,
                extract_text: copy_opt(&r.extract_text),
            });
            i = i + 1;
        }
        self.records = out;
    }

    /// The files of the attachment directory that no record refers to.
    pub fn orphans(&self, files: &Vec<String>) -> (r: Vec<String>)
        ensures
            r@.map_values(|f: String| f@) == files@.map_values(|f: String| f@).filter(
                |f: Seq<char>| !referenced(self.spec_records(), f),
            ),
    {
        let ghost fs = files@.map_values(|f: String| f@);
        let ghost pred = |f: Seq<char>| !referenced(self.spec_records(), f);
        let mut r: Vec<String> = Vec::new();
        let mut i: usize = 0;
        while i < files.len()
            invariant
                i <= files.len(),
                fs == files@.map_values(|f: String| f@),
                pred == (|f: Seq<char>| !referenced(self.spec_records(), f)),
                r@.map_values(|f: String| f@) == fs.take(i as int).filter(pred),
            decreases files.len() - i,
        {
            proof {
                assert(fs.take(i + 1).drop_last() =~= fs.take(i as int));
                reveal(Seq::filter);
                assert(fs.take(i + 1).last() == fs[i as int]);
            }
            let ghost rv = r@;
            if !self.refers_to(files[i].as_str()) {
                r.push(files[i].clone());
                assert(r@.map_values(|f: String| f@) =~= rv.map_values(|f: String| f@).push(fs[i as int]));
            } else {
                assert(r@.map_values(|f: String| f@) =~= rv.map_values(|f: String| f@));
            }
            i = i + 1;
        }
        assert(fs.take(files.len() as int) =~= fs);
        r
    }

    fn refers_to(&self, file: &str) -> (b: bool)
        ensures
            b == referenced(self.spec_records(), file@),
    {
        let mut i: usize = 0;
        while i < self.records.len()
            invariant
                i <= self.records.len(),
                forall|k: int| 0 <= k < i ==> !(#[trigger] refers(self.records@[k], file@)),
            decreases self.records.len() - i,
        {
            let r = &self.records[i];
            let a = match &r.audio_path {
                Some(p) => str_eq(p.as_str(), file),
                None => false,
            };
            let b = match &r.screenshot_path {
                Some(p) => str_eq(p.as_str(), file),
                None => false,
            };
            if a || b {
                assert(refers(self.records@[i as int], file@));
                return true;
            }
            i = i + 1;
        }
        false
    }
}

/// `record` names `file` as its audio or its screenshot.
pub open spec fn refers(record: HistoryRecord, file: Seq<char>) -> bool {
    (record.audio_path matches Some(p) && p@ == file) || (record.screenshot_path matches Some(p) && p@ == file)
}

/// Some record names `file`.
pub open spec fn referenced(records: Seq<HistoryRecord>, file: Seq<char>) -> bool {
    exists|k: int| 0 <= k < records.len() && refers(#[trigger] records[k], file)
}

/// `path` where it is one of `existing`, else `None`.
pub open spec fn listed_or_none(path: Option<String>, existing: Seq<String>) -> Option<String> {
    match path {
        Some(p) => if exists|k: int| 0 <= k < existing.len() && #[trigger] existing[k]@ == p@ {
            path
        } else {
            None
        },
        None => None,
    }
}

fn keep_if_listed(path: &Option<String>, existing: &Vec<String>) -> (r: Option<String>)
    ensures
        r == listed_or_none(*path, existing@),
{
    match path {
        Some(p) => {
            let mut i: usize = 0;
            while i < existing.len()
                invariant
                    i <= existing.len(),
                    *path == Some(*p),
                    forall|k: int| 0 <= k < i ==> #[trigger] existing@[k]@ != p@,
                decreases existing.len() - i,
            {
                if str_eq(existing[i].as_str(), p.as_str()) {
                    assert(existing@[i as int]@ == p@);
                    return Some(p.clone());
                }
                i = i + 1;
            }
            None
        },
        None => None,
    }
}

fn copy_opt(s: &Option<String>) -> (r: Option<String>)
    ensures
        r == *s,
{
    match s {
        Some(v) => Some(v.clone()),
        None => None,
    }
}

/// The current UTC time as an RFC 3339 timestamp with milliseconds and a
/// `Z` suffix, as `chrono` writes it. It depends on the clock; nothing is
/// claimed of it.
#[verifier::external_body]
pub fn now_iso() -> (s: String) {
    chrono::Utc::now().to_rfc3339_opts(chrono::SecondsFormat::Millis, true)
}

} // verus!
