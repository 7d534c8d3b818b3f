//! Backups of the configuration and the prompt files: what goes into an
//! archive, what a restore writes back, where an S3 store is reached, how
//! backups are named and in which order they are listed. Reading and
//! writing files and talking to the store is the caller's part.
use vstd::prelude::*;

use std::io::Read;
use std::io::Write;

use crate::config::S3Config;
use crate::text::{
    contains, ends_with, lemma_utf8_len_add, occurs_at, starts_with, str_ends_with, str_eq, str_starts_with,
    utf8_len,
};

verus! {

/// The prefix of backup keys when the settings give none.
pub const DEFAULT_PREFIX: &'static str = "byetype/backups";

/// One backup in the store.
#[derive(Debug, Clone)]
pub struct BackupEntry {
    pub key: String,
    pub size: u64,
    pub last_modified: String,
}

/// Where an S3 store is reached: its endpoint URL, and whether buckets are
/// addressed by path (for a custom endpoint such as MinIO or R2).
#[derive(Debug, Clone)]
pub struct S3Target {
    pub endpoint: String,
    pub path_style: bool,
}

/// The endpoint of an S3 store: AWS's own for the region when none is set
/// (with the `.com.cn` domain for `cn-` regions), else the one set, with
/// `https://` put in front when it names no scheme.
pub open spec fn spec_endpoint(endpoint: Seq<char>, region: Seq<char>) -> Seq<char> {
    if endpoint.len() == 0 {
        if region == "us-east-1"@ {
            "https://s3.amazonaws.com"@
        } else if starts_with(region, "cn-"@) {
            "https://s3."@ + region + ".amazonaws.com.cn"@
        } else {
            "https://s3."@ + region + ".amazonaws.com"@
        }
    } else if starts_with(endpoint, "http://"@) || starts_with(endpoint, "https://"@) {
        endpoint
    } else {
        "https://"@ + endpoint
    }
}

/// Checks the S3 settings and works out where the store is: a missing
/// bucket, key pair or region is refused, in that order.
pub fn s3_target(config: &S3Config) -> (r: Result<S3Target, String>)
    ensures
        config.bucket@.len() == 0 ==> r is Err && r->Err_0@ == "未配置 bucket"@,
        config.bucket@.len() > 0 && (config.access_key@.len() == 0 || config.secret_key@.len() == 0)
            ==> r is Err && r->Err_0@ == "未配置 Access Key 或 Secret Key"@,
        config.bucket@.len() > 0 && config.access_key@.len() > 0 && config.secret_key@.len() > 0
            && config.region@.len() == 0 ==> r is Err && r->Err_0@ == "未配置 region"@,
        config.bucket@.len() > 0 && config.access_key@.len() > 0 && config.secret_key@.len() > 0
            && config.region@.len() > 0 ==> r is Ok && r->Ok_0.endpoint@ == spec_endpoint(
            config.endpoint@,
            config.region@,
        ) && r->Ok_0.path_style == (config.endpoint@.len() > 0),
{
    if config.bucket.as_str().unicode_len() == 0 {
        return Err(String::from_str("未配置 bucket"));
    }
    if config.access_key.as_str().unicode_len() == 0 || config.secret_key.as_str().unicode_len() == 0 {
        return Err(String::from_str("未配置 Access Key 或 Secret Key"));
    }
    if config.region.as_str().unicode_len() == 0 {
        return Err(String::from_str("未配置 region"));
    }
    let region = config.region.as_str();
    let endpoint = if config.endpoint.as_str().unicode_len() == 0 {
        if str_eq(region, "us-east-1") {
            String::from_str("https://s3.amazonaws.com")
        } else if str_starts_with(region, "cn-") {
            let mut e = String::from_str("https://s3.");
            e.append(region);
            e.append(".amazonaws.com.cn");
            e
        } else {
            let mut e = String::from_str("https://s3.");
            e.append(region);
            e.append(".amazonaws.com");
            e
        }
    } else if str_starts_with(config.endpoint.as_str(), "http://") || str_starts_with(
        config.endpoint.as_str(),
        "https://",
    ) {
        config.endpoint.clone()
    } else {
        let mut e = String::from_str("https://");
        e.append(config.endpoint.as_str());
        e
    };
    Ok(S3Target { endpoint, path_style: config.endpoint.as_str().unicode_len() > 0 })
}

/// Backing up to S3 needs a bucket.
pub fn require_s3_bucket(config: &S3Config) -> (r: Result<(), String>)
    ensures
        r is Ok <==> config.bucket@.len() > 0,
        r is Err ==> r->Err_0@ == "请先在设置中配置 S3"@,
{
    if config.bucket.as_str().unicode_len() == 0 {
        return Err(String::from_str("请先在设置中配置 S3"));
    }
    Ok(())
}

/// The key prefix backups are stored under.
pub open spec fn spec_prefix(prefix: Seq<char>) -> Seq<char> {
    if prefix.len() == 0 {
        DEFAULT_PREFIX@
    } else {
        prefix
    }
}

pub fn backup_prefix(prefix: &str) -> (r: String)
    ensures
        r@ == spec_prefix(prefix@),
{
    if prefix.unicode_len() == 0 {
        String::from_str(DEFAULT_PREFIX)
    } else {
        String::from_str(prefix)
    }
}

/// The file name of a backup made at `timestamp`.
pub open spec fn spec_backup_file_name(timestamp: Seq<char>) -> Seq<char> {
    "byetype-backup-"@ + timestamp + ".zip"@
}

pub fn backup_file_name(timestamp: &str) -> (r: String)
    ensures
        r@ == spec_backup_file_name(timestamp@),
{
    let mut r = String::from_str("byetype-backup-");
    r.append(timestamp);
    r.append(".zip");
    r
}

/// The store key of a backup made at `timestamp`.
pub open spec fn spec_backup_key(prefix: Seq<char>, timestamp: Seq<char>) -> Seq<char> {
    spec_prefix(prefix) + "/"@ + spec_backup_file_name(timestamp)
}

pub fn backup_key(prefix: &str, timestamp: &str) -> (r: String)
    ensures
        r@ == spec_backup_key(prefix@, timestamp@),
{
    let mut r = backup_prefix(prefix);
    r.append("/");
    let name = backup_file_name(timestamp);
    r.append(name.as_str());
    r
}

pub open spec fn is_ascii_digit(c: char) -> bool {
    '0' <= c <= '9'
}

/// A text as `chrono` writes `%Y%m%d-%H%M%S`: the year, as four digits or,
/// outside 0 to 9999, a sign and at least four digits; then month and day,
/// a hyphen, and hour, minute and second, two digits each.
pub open spec fn timestamp_shaped(s: Seq<char>) -> bool {
    let n = s.len() as int;
    let y = s.subrange(0, n - 11);
    &&& n >= 15
    &&& s[n - 7] == '-'
    &&& forall|k: int| n - 11 <= k < n && k != n - 7 ==> is_ascii_digit(#[trigger] s[k])
    &&& forall|k: int| 1 <= k < y.len() ==> is_ascii_digit(#[trigger] y[k])
    &&& (is_ascii_digit(y[0]) || ((y[0] == '+' || y[0] == '-') && y.len() >= 5))
}

/// The local time formatted by `chrono` as `%Y%m%d-%H%M%S`. Claimed: the
/// text has that shape (chrono writes each field zero-padded to two digits
/// and the year to four, with a sign outside 0 to 9999). Which time it is
/// depends on the clock and the time zone and is not stated.
#[verifier::external_body]
pub fn local_timestamp() -> (s: String)
    ensures
        timestamp_shaped(s@),
{
    chrono::Local::now().format("%Y%m%d-%H%M%S").to_string()
}

/// The store key for a backup made now.
pub fn generate_backup_key(prefix: &str) -> (r: String)
    ensures
        exists|ts: Seq<char>| timestamp_shaped(ts) && r@ == spec_backup_key(prefix@, ts),
{
    let ts = local_timestamp();
    let r = backup_key(prefix, ts.as_str());
    assert(timestamp_shaped(ts@) && r@ == spec_backup_key(prefix@, ts@));
    r
}

/// `a` comes strictly before `b` in the order of `str`'s `Ord`: character
/// by character, a proper prefix first. (UTF-8 keeps the order of code
/// points, so this is also the order of the bytes.)
pub open spec fn lex_lt(a: Seq<char>, b: Seq<char>) -> bool
    decreases a.len(),
{
    if a.len() == 0 {
        b.len() > 0
    } else if b.len() == 0 {
        false
    } else if a[0] != b[0] {
        a[0] < b[0]
    } else {
        lex_lt(a.drop_first(), b.drop_first())
    }
}

proof fn lemma_lex_irreflexive(a: Seq<char>)
    ensures
        !lex_lt(a, a),
    decreases a.len(),
{
    if a.len() > 0 {
        lemma_lex_irreflexive(a.drop_first());
    }
}

proof fn lemma_lex_asymmetric(a: Seq<char>, b: Seq<char>)
    ensures
        !(lex_lt(a, b) && lex_lt(b, a)),
    decreases a.len(),
{
    if a.len() > 0 && b.len() > 0 && a[0] == b[0] {
        lemma_lex_asymmetric(a.drop_first(), b.drop_first());
    }
}

proof fn lemma_lex_transitive(a: Seq<char>, b: Seq<char>, c: Seq<char>)
    requires
        lex_lt(a, b),
        lex_lt(b, c),
    ensures
        lex_lt(a, c),
    decreases a.len(),
{
    if a.len() > 0 && b.len() > 0 && c.len() > 0 && a[0] == b[0] && b[0] == c[0] {
        lemma_lex_transitive(a.drop_first(), b.drop_first(), c.drop_first());
    }
}

proof fn lemma_lex_total(a: Seq<char>, b: Seq<char>)
    ensures
        lex_lt(a, b) || lex_lt(b, a) || a == b,
    decreases a.len(),
{
    if a.len() > 0 && b.len() > 0 && a[0] == b[0] {
        lemma_lex_total(a.drop_first(), b.drop_first());
        if a.drop_first() == b.drop_first() {
            assert(a =~= seq![a[0]] + a.drop_first());
            assert(b =~= seq![b[0]] + b.drop_first());
        }
    } else if a.len() == 0 && b.len() == 0 {
        assert(a =~= b);
    }
}

/// `a < b` in the order of `str`.
pub fn str_lt(a: &str, b: &str) -> (r: bool)
    ensures
        r == lex_lt(a@, b@),
{
    let x = crate::text::chars_of(a);
    let y = crate::text::chars_of(b);
    let mut i: usize = 0;
    assert(x@.skip(0) =~= x@);
    assert(y@.skip(0) =~= y@);
    while i < x.len() && i < y.len()
        invariant
            x@ == a@,
            y@ == b@,
            i <= x.len(),
            i <= y.len(),
            x@.take(i as int) == y@.take(i as int),
            lex_lt(x@, y@) == lex_lt(x@.skip(i as int), y@.skip(i as int)),
        decreases x.len() - i,
    {
        if x[i] != y[i] {
            let r = x[i] < y[i];
            proof {
                assert(x@.skip(i as int)[0] == x@[i as int]);
                assert(y@.skip(i as int)[0] == y@[i as int]);
                assert(x@.skip(i as int).len() > 0 && y@.skip(i as int).len() > 0);
                assert(lex_lt(x@.skip(i as int), y@.skip(i as int)) == (x@[i as int] < y@[i as int]));
            }
            return r;
        }
        proof {
            assert(x@.skip(i as int).drop_first() =~= x@.skip(i + 1));
            assert(y@.skip(i as int).drop_first() =~= y@.skip(i + 1));
            assert(x@.take(i + 1) =~= x@.take(i as int).push(x@[i as int]));
            assert(y@.take(i + 1) =~= y@.take(i as int).push(y@[i as int]));
        }
        i = i + 1;
    }
    proof {
        assert(x@.skip(i as int).len() == x@.len() - i);
        assert(y@.skip(i as int).len() == y@.len() - i);
    }
    i == x.len() && i < y.len()
}

/// An object listed by the store.
#[derive(Debug, Clone)]
pub struct StoredObject {
    pub key: String,
    pub size: u64,
    pub last_modified: Option<String>,
}

/// The objects that are backups: those whose key ends in `.zip`.
pub open spec fn zip_objects(objects: Seq<StoredObject>) -> Seq<StoredObject> {
    objects.filter(|o: StoredObject| ends_with(o.key@, ".zip"@))
}

/// `p` lists each index below `n` once.
pub open spec fn is_permutation(p: Seq<int>, n: int) -> bool {
    &&& p.len() == n
    &&& forall|k: int| 0 <= k < p.len() ==> 0 <= #[trigger] p[k] < n
    &&& forall|a: int, b: int| 0 <= a < b < p.len() ==> #[trigger] p[a] != #[trigger] p[b]
}

/// `out` holds an entry for every object of `objects` that is a backup,
/// newest first by their modification text, those with the same text in
/// the order listed; `p` says where each comes from.
pub open spec fn sorted_backups_by(objects: Seq<StoredObject>, out: Seq<BackupEntry>, p: Seq<int>) -> bool {
    let z = zip_objects(objects);
    &&& out.len() == z.len()
    &&& is_permutation(p, z.len() as int)
    &&& forall|k: int| 0 <= k < out.len() ==> #[trigger] out[k].key@ == z[p[k]].key@
        && out[k].size == z[p[k]].size
        && out[k].last_modified@ == modified_text(z[p[k]])
    &&& forall|a: int, b: int| 0 <= a < b < out.len() ==> !lex_lt(
        #[trigger] out[a].last_modified@,
        #[trigger] out[b].last_modified@,
    )
    &&& forall|a: int, b: int|
        0 <= a < b < out.len() && #[trigger] out[a].last_modified@ == #[trigger] out[b].last_modified@ ==> p[a] < p[b]
}

/// The modification text of an object, empty when the store gave none.
pub open spec fn modified_text(o: StoredObject) -> Seq<char> {
    match o.last_modified {
        Some(t) => t@,
        None => Seq::empty(),
    }
}

#[verifier::spinoff_prover]
proof fn lemma_insert_keeps_order(
    out: Seq<BackupEntry>,
    p: Seq<int>,
    z: Seq<StoredObject>,
    entry: BackupEntry,
    o: StoredObject,
    j: int,
)
    requires
        0 <= j <= out.len(),
        out.len() == z.len(),
        is_permutation(p, z.len() as int),
        forall|k: int| 0 <= k < out.len() ==> #[trigger] out[k].key@ == z[p[k]].key@
            && out[k].size == z[p[k]].size
            && out[k].last_modified@ == modified_text(z[p[k]]),
        forall|a: int, b: int| 0 <= a < b < out.len() ==> !lex_lt(
            #[trigger] out[a].last_modified@,
            #[trigger] out[b].last_modified@,
        ),
        forall|a: int, b: int|
            0 <= a < b < out.len() && #[trigger] out[a].last_modified@ == #[trigger] out[b].last_modified@
                ==> p[a] < p[b],
        forall|k: int| 0 <= k < j ==> !lex_lt(#[trigger] out[k].last_modified@, entry.last_modified@),
        j < out.len() ==> lex_lt(out[j].last_modified@, entry.last_modified@),
        entry.key@ == o.key@,
        entry.size == o.size,
        entry.last_modified@ == modified_text(o),
    ensures
        ({
            let out2 = out.insert(j, entry);
            let p2 = p.insert(j, z.len() as int);
            let z2 = z.push(o);
            &&& out2.len() == z2.len()
            &&& is_permutation(p2, z2.len() as int)
            &&& forall|k: int| 0 <= k < out2.len() ==> #[trigger] out2[k].key@ == z2[p2[k]].key@
                && out2[k].size == z2[p2[k]].size
                && out2[k].last_modified@ == modified_text(z2[p2[k]])
            &&& forall|a: int, b: int| 0 <= a < b < out2.len() ==> !lex_lt(
                #[trigger] out2[a].last_modified@,
                #[trigger] out2[b].last_modified@,
            )
            &&& forall|a: int, b: int|
                0 <= a < b < out2.len() && #[trigger] out2[a].last_modified@ == #[trigger] out2[b].last_modified@
                    ==> p2[a] < p2[b]
        }),
{
    let out2 = out.insert(j, entry);
    let p2 = p.insert(j, z.len() as int);
    let z2 = z.push(o);
    let zi = z.len() as int;
    assert forall|k: int| j <= k < out.len() implies lex_lt(
        #[trigger] out[k].last_modified@,
        entry.last_modified@,
    ) by {
        if k > j {
            lemma_lex_total(out[j].last_modified@, out[k].last_modified@);
            if out[j].last_modified@ != out[k].last_modified@ {
                lemma_lex_transitive(out[k].last_modified@, out[j].last_modified@, entry.last_modified@);
            }
        }
    }
    assert forall|a: int, b: int| 0 <= a < b < out2.len() implies !lex_lt(
        #[trigger] out2[a].last_modified@,
        #[trigger] out2[b].last_modified@,
    ) by {
        if a == j {
            assert(out2[b] == out[b - 1]);
            lemma_lex_asymmetric(out[b - 1].last_modified@, entry.last_modified@);
        } else if b == j {
            assert(out2[a] == out[a]);
        } else {
            let oa = if a < j { a } else { a - 1 };
            let ob = if b < j { b } else { b - 1 };
            assert(out2[a] == out[oa]);
            assert(out2[b] == out[ob]);
        }
    }
    assert forall|a: int, b: int|
        0 <= a < b < out2.len() && #[trigger] out2[a].last_modified@ == #[trigger] out2[b].last_modified@
            implies p2[a] < p2[b] by {
        if a == j {
            assert(out2[b] == out[b - 1]);
            lemma_lex_irreflexive(entry.last_modified@);
        } else if b == j {
            assert(p2[a] == p[a]);
        } else {
            let oa = if a < j { a } else { a - 1 };
            let ob = if b < j { b } else { b - 1 };
            assert(out2[a] == out[oa]);
            assert(out2[b] == out[ob]);
            assert(p2[a] == p[oa]);
            assert(p2[b] == p[ob]);
        }
    }
    assert forall|a: int, b: int| 0 <= a < b < p2.len() implies #[trigger] p2[a] != #[trigger] p2[b] by {
        if a != j && b != j {
            let oa = if a < j { a } else { a - 1 };
            let ob = if b < j { b } else { b - 1 };
            assert(p2[a] == p[oa]);
            assert(p2[b] == p[ob]);
        } else if a == j {
            assert(p2[b] == p[b - 1]);
        } else {
            assert(p2[a] == p[a]);
        }
    }
    assert forall|k: int| 0 <= k < p2.len() implies 0 <= #[trigger] p2[k] < z2.len() by {
        if k < j {
            assert(p2[k] == p[k]);
        } else if k > j {
            assert(p2[k] == p[k - 1]);
        }
    }
    assert forall|k: int| 0 <= k < out2.len() implies #[trigger] out2[k].key@ == z2[p2[k]].key@
        && out2[k].size == z2[p2[k]].size
        && out2[k].last_modified@ == modified_text(z2[p2[k]]) by {
        if k != j {
            let ok = if k < j { k } else { k - 1 };
            assert(out2[k] == out[ok]);
            assert(p2[k] == p[ok]);
            assert(0 <= p[ok] < z.len());
            assert(z2[p[ok]] == z[p[ok]]);
            assert(out[ok].key@ == z[p[ok]].key@ && out[ok].size == z[p[ok]].size
                && out[ok].last_modified@ == modified_text(z[p[ok]]));
        } else {
            assert(out2[k] == entry);
            assert(p2[k] == zi);
            assert(z2[zi] == o);
        }
    }
}

/// The backups among the objects listed by the store, newest first.
#[verifier::spinoff_prover]
pub fn select_backups(objects: Vec<StoredObject>) -> (r: Vec<BackupEntry>)
    ensures
        exists|p: Seq<int>| sorted_backups_by(objects@, r@, p),
{
    let ghost pred = |o: StoredObject| ends_with(o.key@, ".zip"@);
    let mut out: Vec<BackupEntry> = Vec::new();
    let ghost mut p: Seq<int> = Seq::empty();
    let ghost mut z: Seq<StoredObject> = Seq::empty();
    let mut i: usize = 0;
    while i < objects.len()
        invariant
            i <= objects.len(),
            pred == (|o: StoredObject| ends_with(o.key@, ".zip"@)),
            z == objects@.take(i as int).filter(pred),
            out@.len() == z.len(),
            is_permutation(p, z.len() as int),
            forall|k: int| 0 <= k < out@.len() ==> #[trigger] out@[k].key@ == z[p[k]].key@
                && out@[k].size == z[p[k]].size
                && out@[k].last_modified@ == modified_text(z[p[k]]),
            forall|a: int, b: int| 0 <= a < b < out@.len() ==> !lex_lt(
                #[trigger] out@[a].last_modified@,
                #[trigger] out@[b].last_modified@,
            ),
            forall|a: int, b: int|
                0 <= a < b < out@.len() && #[trigger] out@[a].last_modified@ == #[trigger] out@[b].last_modified@
                    ==> p[a] < p[b],
        decreases objects.len() - i,
    {
        proof {
            reveal(Seq::filter);
            assert(objects@.take(i + 1).drop_last() =~= objects@.take(i as int));
        }
        let o = &objects[i];
        if str_ends_with(o.key.as_str(), ".zip") {
            let modified = match &o.last_modified {
                Some(t) => t.clone(),
                None => String::new(),
            };
            // the first place whose entry is older than this one
            let mut j: usize = 0;
            while j < out.len() && !str_lt(out[j].last_modified.as_str(), modified.as_str())
                invariant
                    j <= out@.len(),
                    forall|k: int| 0 <= k < j ==> !lex_lt(#[trigger] out@[k].last_modified@, modified@),
                decreases out.len() - j,
            {
                j = j + 1;
            }
            let entry = BackupEntry { key: o.key.clone(), size: o.size, last_modified: modified };
            let ghost old_out = out@;
            let ghost old_p = p;
            let ghost old_z = z;
            let ghost zi = z.len() as int;
            assert(entry.last_modified@ == modified_text(*o));
            out.insert(j, entry);
            proof {
                lemma_insert_keeps_order(old_out, old_p, old_z, entry, *o, j as int);
                assert(out@ == old_out.insert(j as int, entry));
                p = old_p.insert(j as int, zi);
                z = old_z.push(*o);
                assert(objects@.take(i + 1).last() == *o);
            }
        }
        i = i + 1;
    }
    proof {
        assert(objects@.take(objects.len() as int) =~= objects@);
        assert(sorted_backups_by(objects@, out@, p));
    }
    out
}

/// A file inside a backup archive: its name there and its bytes.
#[derive(Debug, Clone)]
pub struct ArchiveFile {
    pub name: String,
    pub data: Vec<u8>,
}

/// The names and bytes of archive files.
pub open spec fn archive_view(files: Seq<ArchiveFile>) -> Seq<(Seq<char>, Seq<u8>)> {
    files.map_values(|f: ArchiveFile| (f.name@, f.data@))
}

/// The archive files for a configuration file (if any) and chosen prompt
/// files: `config.json` first, then each prompt file under `prompts/`, in
/// the order given.
pub open spec fn archive_files(config_json: Option<Seq<u8>>, prompts: Seq<(Seq<char>, Seq<u8>)>) -> Seq<
    (Seq<char>, Seq<u8>),
> {
    let head: Seq<(Seq<char>, Seq<u8>)> = match config_json {
        Some(c) => seq![("config.json"@, c)],
        None => Seq::empty(),
    };
    head + prompts.map_values(|f: (Seq<char>, Seq<u8>)| ("prompts/"@ + f.0, f.1))
}

/// The prompt files that a backup holds: the Markdown ones, whose name
/// ends in `.md`, in the order given.
pub open spec fn md_files(prompts: Seq<(Seq<char>, Seq<u8>)>) -> Seq<(Seq<char>, Seq<u8>)>
    decreases prompts.len(),
{
    if prompts.len() == 0 {
        Seq::empty()
    } else {
        let rest = md_files(prompts.drop_last());
        if ends_with(prompts.last().0, ".md"@) {
            rest.push(prompts.last())
        } else {
            rest
        }
    }
}

/// The files of a backup: `config.json` when there is one, then each
/// Markdown prompt file under `prompts/`, in the order given.
pub open spec fn spec_backup_files(config_json: Option<Seq<u8>>, prompts: Seq<(Seq<char>, Seq<u8>)>) -> Seq<
    (Seq<char>, Seq<u8>),
> {
    archive_files(config_json, md_files(prompts))
}

/// The files to archive from the configuration file's bytes (if it exists)
/// and the prompt files, named relative to the prompts directory; only the
/// Markdown prompt files go in.
pub fn backup_archive_files(config_json: Option<Vec<u8>>, prompt_files: Vec<ArchiveFile>) -> (r: Vec<
    ArchiveFile,
>)
    ensures
        archive_view(r@) == spec_backup_files(
            match config_json {
                Some(c) => Some(c@),
                None => None,
            },
            archive_view(prompt_files@),
        ),
{
    let ghost cj = match &config_json {
        Some(c) => Some(c@),
        None => None::<Seq<u8>>,
    };
    let ghost pv = archive_view(prompt_files@);
    let mut r: Vec<ArchiveFile> = Vec::new();
    match config_json {
        Some(c) => r.push(ArchiveFile { name: String::from_str("config.json"), data: c }),
        None => {},
    }
    let ghost head = archive_view(r@);
    let ghost f = |f: (Seq<char>, Seq<u8>)| ("prompts/"@ + f.0, f.1);
    assert(head == archive_files(cj, Seq::empty()));
    let mut i: usize = 0;
    let mut rest = prompt_files;
    let n = rest.len();
    let ghost all = rest@;
    assert(rest@ =~= all.skip(0));
    assert(pv.take(0) =~= Seq::<(Seq<char>, Seq<u8>)>::empty());
    while i < n
        invariant
            n == all.len(),
            i <= all.len(),
            rest@ == all.skip(i as int),
            all == prompt_files@,
            pv == archive_view(all),
            archive_view(r@) == head + md_files(pv.take(i as int)).map_values(f),
            f == (|f: (Seq<char>, Seq<u8>)| ("prompts/"@ + f.0, f.1)),
        decreases n - i,
    {
        proof {
            assert(rest@.len() > 0);
            assert(pv.take(i + 1).drop_last() =~= pv.take(i as int));
            assert(pv.take(i + 1).last() == pv[i as int]);
        }
        let file = rest.remove(0);
        proof {
            assert(file == all[i as int]);
            assert(rest@ =~= all.skip(i + 1));
            assert(pv[i as int] == (file.name@, file.data@));
        }
        if str_ends_with(file.name.as_str(), ".md") {
            let mut name = String::from_str("prompts/");
            name.append(file.name.as_str());
            let ghost rv = archive_view(r@);
            r.push(ArchiveFile { name, data: file.data });
            proof {
                let m = md_files(pv.take(i as int));
                assert(md_files(pv.take(i + 1)) == m.push(pv[i as int]));
                assert(m.push(pv[i as int]).map_values(f) =~= m.map_values(f).push(f(pv[i as int])));
                assert(archive_view(r@) =~= rv.push(f(pv[i as int])));
            }
        } else {
            proof {
                assert(md_files(pv.take(i + 1)) == md_files(pv.take(i as int)));
            }
        }
        i = i + 1;
    }
    proof {
        assert(pv.take(all.len() as int) =~= pv);
    }
    r
}

/// A file name that the `zip` crate stores as given and reads back as a
/// relative path inside the target directory: not empty, without NUL,
/// backslash or colon, not starting or ending with `/`, without `..`.
pub open spec fn zip_safe_name(n: Seq<char>) -> bool {
    &&& n.len() > 0
    &&& forall|k: int| 0 <= k < n.len() ==> #[trigger] n[k] != '\0' && n[k] != '\\' && n[k] != ':'
    &&& n[0] != '/'
    &&& n.last() != '/'
    &&& !contains(n, ".."@)
}

/// No two of `files` have the same name.
pub open spec fn distinct_names(files: Seq<(Seq<char>, Seq<u8>)>) -> bool {
    forall|i: int, j: int| 0 <= i < j < files.len() ==> #[trigger] files[i].0 != #[trigger] files[j].0
}

/// Files with safe names, no two of them with the same name.
pub open spec fn zip_safe_files(files: Seq<(Seq<char>, Seq<u8>)>) -> bool {
    &&& forall|i: int| 0 <= i < files.len() ==> zip_safe_name(#[trigger] files[i].0)
    &&& distinct_names(files)
}

/// Every name fits the 16-bit name length of a zip header, in UTF-8 bytes.
pub open spec fn zip_names_fit(files: Seq<(Seq<char>, Seq<u8>)>) -> bool {
    forall|i: int| 0 <= i < files.len() ==> utf8_len(#[trigger] files[i].0) <= 0xFFFF
}

/// A bound on the bytes an archive of `files` takes: each file's bytes,
/// its name twice (local and central header) and 256 bytes of headers.
pub open spec fn zip_cost(files: Seq<(Seq<char>, Seq<u8>)>) -> int
    decreases files.len(),
{
    if files.len() == 0 {
        0
    } else {
        zip_cost(files.drop_last()) + files.last().1.len() + 2 * utf8_len(files.last().0) + 256
    }
}

/// Archives up to 2 GiB by `zip_cost`, which need no Zip64 record.
pub open spec fn zip_fits(files: Seq<(Seq<char>, Seq<u8>)>) -> bool {
    zip_cost(files) <= 0x8000_0000
}

/// The entries that reading an archive of `files` gives: each file under
/// its name, with that name as its path, not a directory, with its bytes.
pub open spec fn read_back(files: Seq<(Seq<char>, Seq<u8>)>) -> Seq<(Seq<char>, Option<Seq<char>>, bool, Seq<u8>)> {
    files.map_values(|f: (Seq<char>, Seq<u8>)| (f.0, Some(f.0), false, f.1))
}

/// The archive that the `zip` crate writes for `files`: each file deflated
/// under its name, in order, with its fixed default timestamp.
pub uninterp spec fn zip_archive(files: Seq<(Seq<char>, Seq<u8>)>) -> Seq<u8>;

/// Writes `files` into a zip archive in memory with `ZipWriter`, each
/// deflated. Claimed: a success holds `zip_archive` of the files, and
/// `ZipArchive` reads such an archive of safely named files back entry by
/// entry: the name as written (ASCII names are stored as they are, others
/// with the UTF-8 flag), `enclosed_name` equal to it, not a directory (the
/// name ends with no separator), and the bytes as written. The archive is
/// written in memory, so writing succeeds whenever no name repeats (a
/// repeated name is refused) and the archive stays well under 4 GiB, where
/// no entry needs the large-file option and no Zip64 record is needed. A
/// name longer than 65535 bytes makes the writer panic, so names are
/// bounded. Not stated: the text of an error.
#[verifier::external_body]
fn write_zip(files: &Vec<ArchiveFile>) -> (r: Result<Vec<u8>, String>)
    requires
        zip_names_fit(archive_view(files@)),
    ensures
        r is Ok ==> r->Ok_0@ == zip_archive(archive_view(files@)),
        distinct_names(archive_view(files@)) && zip_fits(archive_view(files@)) ==> r is Ok,
        r is Ok && zip_safe_files(archive_view(files@)) ==> zip_entries(r->Ok_0@) == Some(
            read_back(archive_view(files@)),
        ),
{
    let mut buffer = Vec::new();
    {
        let mut zip = zip::ZipWriter::new(std::io::Cursor::new(&mut buffer));
        let options = zip::write::SimpleFileOptions::default().compression_method(zip::CompressionMethod::Deflated);
        for file in files.iter() {
            zip.start_file(file.name.as_str(), options).map_err(|e| format!("写入 zip 失败: {}", e))?;
            zip.write_all(&file.data).map_err(|e| format!("写入 zip 失败: {}", e))?;
        }
        zip.finish().map_err(|e| format!("完成 zip 失败: {}", e))?;
    }
    Ok(buffer)
}

/// The archive of a backup: the configuration file and the Markdown prompt
/// files, deflated. It is written whenever the prompt files have distinct
/// names and the archive stays within 2 GiB by `zip_cost`.
pub fn create_backup_zip(config_json: Option<Vec<u8>>, prompt_files: Vec<ArchiveFile>) -> (r: Result<
    Vec<u8>,
    String,
>)
    requires
        forall|i: int| 0 <= i < prompt_files@.len() ==> utf8_len(#[trigger] prompt_files@[i].name@) <= 0xFFFF - 8,
    ensures
        r is Ok ==> r->Ok_0@ == zip_archive(
            spec_backup_files(
                match config_json {
                    Some(c) => Some(c@),
                    None => None,
                },
                archive_view(prompt_files@),
            ),
        ),
        distinct_names(archive_view(prompt_files@)) && zip_fits(
            spec_backup_files(
                match config_json {
                    Some(c) => Some(c@),
                    None => None,
                },
                archive_view(prompt_files@),
            ),
        ) ==> r is Ok,
        r is Ok && zip_safe_files(archive_view(prompt_files@)) ==> zip_entries(r->Ok_0@) == Some(
            read_back(
                spec_backup_files(
                    match config_json {
                        Some(c) => Some(c@),
                        None => None,
                    },
                    archive_view(prompt_files@),
                ),
            ),
        ),
{
    let ghost cj = match &config_json {
        Some(c) => Some(c@),
        None => None::<Seq<u8>>,
    };
    let ghost pv = archive_view(prompt_files@);
    let files = backup_archive_files(config_json, prompt_files);
    proof {
        lemma_backup_names_fit(cj, pv);
        if distinct_names(pv) {
            lemma_md_files_distinct(pv);
            lemma_archive_distinct(cj, md_files(pv));
        }
        if zip_safe_files(pv) {
            lemma_md_files_safe(pv);
            lemma_backup_files_safe(cj, md_files(pv));
        }
    }
    write_zip(&files)
}

/// An entry read from an archive: its name, the relative path it may be
/// written to (none for a name that would leave the target directory),
/// whether it is a directory, and its bytes.
#[derive(Debug, Clone)]
pub struct ArchiveItem {
    pub name: String,
    pub path: Option<String>,
    pub is_dir: bool,
    pub data: Vec<u8>,
}

pub open spec fn item_view(items: Seq<ArchiveItem>) -> Seq<(Seq<char>, Option<Seq<char>>, bool, Seq<u8>)> {
    items.map_values(
        |it: ArchiveItem|
            (
                it.name@,
                match it.path {
                    Some(p) => Some(p@),
                    None => None,
                },
                it.is_dir,
                it.data@,
            ),
    )
}

/// The entries that `ZipArchive` reads from `bytes`, in order; `None` when
/// the bytes are no archive it can read through.
pub uninterp spec fn zip_entries(bytes: Seq<u8>) -> Option<Seq<(Seq<char>, Option<Seq<char>>, bool, Seq<u8>)>>;

/// Reads every entry of a zip archive with `ZipArchive`: name,
/// `enclosed_name`, whether it is a directory, and the decompressed bytes.
/// The reading works on the bytes in memory only, so whether it succeeds
/// and what it gives are `zip_entries` of the bytes. Not stated: the text
/// of the error.
#[verifier::external_body]
fn read_zip(bytes: &[u8]) -> (r: Result<Vec<ArchiveItem>, String>)
    ensures
        r is Ok <==> zip_entries(bytes@) is Some,
        r is Ok ==> item_view(r->Ok_0@) == zip_entries(bytes@)->Some_0,
{
    let mut archive = zip::ZipArchive::new(std::io::Cursor::new(bytes)).map_err(|e| format!("打开 zip 失败: {}", e))?;
    let mut items = Vec::new();
    for i in 0..archive.len() {
        let mut file = archive.by_index(i).map_err(|e| format!("读取 zip 条目失败: {}", e))?;
        let mut data = Vec::new();
        file.read_to_end(&mut data).map_err(|e| format!("读取 zip 条目失败: {}", e))?;
        let path = file.enclosed_name().map(|p| p.to_string_lossy().into_owned());
        items.push(ArchiveItem { name: file.name().to_string(), path, is_dir: file.is_dir(), data });
    }
    Ok(items)
}

/// What restoring an archive entry does, relative to the target directory.
#[derive(Debug, Clone)]
pub enum RestoreStep {
    CreateDir(String),
    WriteFile(String, Vec<u8>),
}

pub open spec fn step_view(s: RestoreStep) -> (bool, Seq<char>, Seq<u8>) {
    match s {
        RestoreStep::CreateDir(p) => (true, p@, Seq::empty()),
        RestoreStep::WriteFile(p, d) => (false, p@, d@),
    }
}

/// The steps for the entries of an archive: a directory entry is created,
/// a file entry written, and an entry with no safe path skipped.
pub open spec fn spec_restore_steps(items: Seq<(Seq<char>, Option<Seq<char>>, bool, Seq<u8>)>) -> Seq<
    (bool, Seq<char>, Seq<u8>),
>
    decreases items.len(),
{
    if items.len() == 0 {
        Seq::empty()
    } else {
        let rest = spec_restore_steps(items.drop_last());
        let it = items.last();
        match it.1 {
            Some(p) => rest.push(if it.2 { (true, p, Seq::empty()) } else { (false, p, it.3) }),
            None => rest,
        }
    }
}

/// Some entry is named `config.json`.
pub open spec fn has_config(items: Seq<(Seq<char>, Option<Seq<char>>, bool, Seq<u8>)>) -> bool {
    exists|k: int| 0 <= k < items.len() && #[trigger] items[k].0 == "config.json"@
}

/// What restoring the entries of an archive does; an archive without
/// `config.json` is no backup.
pub fn restore_plan(items: Vec<ArchiveItem>) -> (r: Result<Vec<RestoreStep>, String>)
    ensures
        r is Err <==> !has_config(item_view(items@)),
        r is Err ==> r->Err_0@ == "备份文件无效：缺少 config.json"@,
        r is Ok ==> r->Ok_0@.map_values(|s: RestoreStep| step_view(s)) == spec_restore_steps(item_view(items@)),
{
    let ghost iv = item_view(items@);
    let mut found = false;
    let mut i: usize = 0;
    while i < items.len()
        invariant
            i <= items.len(),
            iv == item_view(items@),
            found <==> exists|k: int| 0 <= k < i && #[trigger] iv[k].0 == "config.json"@,
        decreases items.len() - i,
    {
        if str_eq(items[i].name.as_str(), "config.json") {
            assert(iv[i as int].0 == "config.json"@);
            found = true;
        }
        i = i + 1;
    }
    if !found {
        return Err(String::from_str("备份文件无效：缺少 config.json"));
    }
    let mut steps: Vec<RestoreStep> = Vec::new();
    let mut i: usize = 0;
    while i < items.len()
        invariant
            i <= items.len(),
            iv == item_view(items@),
            steps@.map_values(|s: RestoreStep| step_view(s)) == spec_restore_steps(iv.take(i as int)),
        decreases items.len() - i,
    {
        proof {
            assert(iv.take(i + 1).drop_last() =~= iv.take(i as int));
            assert(iv.take(i + 1).last() == iv[i as int]);
        }
        let ghost sv = steps@.map_values(|s: RestoreStep| step_view(s));
        let it = &items[i];
        match &it.path {
            Some(p) => {
                let step = if it.is_dir {
                    RestoreStep::CreateDir(p.clone())
                } else {
                    RestoreStep::WriteFile(p.clone(), it.data.clone())
                };
                steps.push(step);
                assert(steps@.map_values(|s: RestoreStep| step_view(s)) =~= sv.push(step_view(step)));
            },
            None => {},
        }
        i = i + 1;
    }
    assert(iv.take(items.len() as int) =~= iv);
    Ok(steps)
}

/// What restoring the archive `zip_data` does: refused when it cannot be
/// read or holds no `config.json`.
pub fn extract_backup_zip(zip_data: &[u8]) -> (r: Result<Vec<RestoreStep>, String>)
    ensures
        r is Ok <==> zip_entries(zip_data@) is Some && has_config(zip_entries(zip_data@)->Some_0),
        zip_entries(zip_data@) is Some && r is Err ==> r->Err_0@ == "备份文件无效：缺少 config.json"@,
        r is Ok ==> r->Ok_0@.map_values(|s: RestoreStep| step_view(s)) == spec_restore_steps(
            zip_entries(zip_data@)->Some_0,
        ),
{
    let items = read_zip(zip_data)?;
    restore_plan(items)
}


proof fn lemma_prefixed_name_safe(n: Seq<char>)
    requires
        zip_safe_name(n),
    ensures
        zip_safe_name("prompts/"@ + n),
{
    reveal_strlit("prompts/");
    let s = "prompts/"@ + n;
    assert forall|k: int| 0 <= k < s.len() implies #[trigger] s[k] != '\0' && s[k] != '\\' && s[k] != ':' by {
        if k >= 8 {
            assert(s[k] == n[k - 8]);
        }
    }
    assert(s.last() == n.last());
    if contains(s, ".."@) {
        reveal_strlit("..");
        let i = choose|i: int| occurs_at(s, ".."@, i);
        assert(s.subrange(i, i + 2)[0] == '.');
        assert(s[i] == '.');
        assert(i >= 8);
        assert(n.subrange(i - 8, i - 6) =~= s.subrange(i, i + 2));
        assert(occurs_at(n, ".."@, i - 8));
    }
}

/// Every file of `md_files(p)` is a file of `p` whose name ends in `.md`.
proof fn lemma_md_files_from(p: Seq<(Seq<char>, Seq<u8>)>)
    ensures
        md_files(p).len() <= p.len(),
        forall|i: int| 0 <= i < md_files(p).len() ==> p.contains(#[trigger] md_files(p)[i]) && ends_with(
            md_files(p)[i].0,
            ".md"@,
        ),
    decreases p.len(),
{
    if p.len() > 0 {
        let q = p.drop_last();
        lemma_md_files_from(q);
        assert forall|i: int| 0 <= i < md_files(p).len() implies p.contains(#[trigger] md_files(p)[i]) && ends_with(
            md_files(p)[i].0,
            ".md"@,
        ) by {
            if i < md_files(q).len() {
                assert(md_files(p)[i] == md_files(q)[i]);
                assert(q.contains(md_files(q)[i]));
                let k = choose|k: int| 0 <= k < q.len() && q[k] == md_files(q)[i];
                assert(p[k] == q[k]);
            } else {
                assert(md_files(p)[i] == p.last());
                assert(p[p.len() - 1] == p.last());
            }
        }
    }
}

proof fn lemma_md_files_distinct(p: Seq<(Seq<char>, Seq<u8>)>)
    requires
        distinct_names(p),
    ensures
        distinct_names(md_files(p)),
    decreases p.len(),
{
    if p.len() > 0 {
        let q = p.drop_last();
        assert(distinct_names(q)) by {
            assert forall|i: int, j: int| 0 <= i < j < q.len() implies #[trigger] q[i].0 != #[trigger] q[j].0 by {
                assert(q[i] == p[i] && q[j] == p[j]);
            }
        }
        lemma_md_files_distinct(q);
        lemma_md_files_from(q);
        let m = md_files(p);
        assert forall|i: int, j: int| 0 <= i < j < m.len() implies #[trigger] m[i].0 != #[trigger] m[j].0 by {
            if j >= md_files(q).len() {
                assert(m[j] == p.last());
                assert(m[i] == md_files(q)[i]);
                assert(q.contains(md_files(q)[i]));
                let k = choose|k: int| 0 <= k < q.len() && q[k] == md_files(q)[i];
                assert(p[k] == q[k]);
                assert(p[p.len() - 1] == p.last());
            } else {
                assert(m[i] == md_files(q)[i] && m[j] == md_files(q)[j]);
            }
        }
    }
}

proof fn lemma_md_files_safe(p: Seq<(Seq<char>, Seq<u8>)>)
    requires
        zip_safe_files(p),
    ensures
        zip_safe_files(md_files(p)),
{
    lemma_md_files_distinct(p);
    lemma_md_files_from(p);
    let m = md_files(p);
    assert forall|i: int| 0 <= i < m.len() implies zip_safe_name(#[trigger] m[i].0) by {
        assert(p.contains(m[i]));
        let k = choose|k: int| 0 <= k < p.len() && p[k] == m[i];
        assert(zip_safe_name(p[k].0));
    }
}

proof fn lemma_archive_distinct(config_json: Option<Seq<u8>>, prompts: Seq<(Seq<char>, Seq<u8>)>)
    requires
        distinct_names(prompts),
    ensures
        distinct_names(archive_files(config_json, prompts)),
{
    reveal_strlit("config.json");
    reveal_strlit("prompts/");
    let files = archive_files(config_json, prompts);
    let h: int = if config_json is Some { 1 } else { 0 };
    assert forall|i: int, j: int| 0 <= i < j < files.len() implies #[trigger] files[i].0 != #[trigger] files[j].0 by {
        if i >= h {
            let a = prompts[i - h].0;
            let b = prompts[j - h].0;
            assert(files[i].0 == "prompts/"@ + a);
            assert(files[j].0 == "prompts/"@ + b);
            if files[i].0 == files[j].0 {
                assert(a =~= files[i].0.subrange(8, files[i].0.len() as int));
                assert(b =~= files[j].0.subrange(8, files[j].0.len() as int));
            }
        } else {
            assert(files[i].0 == "config.json"@);
            assert(files[j].0 == "prompts/"@ + prompts[j - h].0);
            assert(files[j].0[0] == 'p');
        }
    }
}

proof fn lemma_backup_names_fit(config_json: Option<Seq<u8>>, prompts: Seq<(Seq<char>, Seq<u8>)>)
    requires
        forall|i: int| 0 <= i < prompts.len() ==> utf8_len(#[trigger] prompts[i].0) <= 0xFFFF - 8,
    ensures
        zip_names_fit(spec_backup_files(config_json, prompts)),
{
    reveal_strlit("config.json");
    reveal_strlit("prompts/");
    reveal_with_fuel(utf8_len, 12);
    assert(utf8_len("config.json"@) == 11);
    assert(utf8_len("prompts/"@) == 8);
    lemma_md_files_from(prompts);
    let m = md_files(prompts);
    let files = spec_backup_files(config_json, prompts);
    let h: int = if config_json is Some { 1 } else { 0 };
    assert forall|i: int| 0 <= i < files.len() implies utf8_len(#[trigger] files[i].0) <= 0xFFFF by {
        if i >= h {
            assert(files[i].0 == "prompts/"@ + m[i - h].0);
            assert(prompts.contains(m[i - h]));
            let k = choose|k: int| 0 <= k < prompts.len() && prompts[k] == m[i - h];
            assert(utf8_len(prompts[k].0) <= 0xFFFF - 8);
            lemma_utf8_len_add("prompts/"@, m[i - h].0);
        } else {
            assert(files[i].0 == "config.json"@);
        }
    }
}

proof fn lemma_backup_files_safe(config_json: Option<Seq<u8>>, prompts: Seq<(Seq<char>, Seq<u8>)>)
    requires
        zip_safe_files(prompts),
    ensures
        zip_safe_files(archive_files(config_json, prompts)),
{
    reveal_strlit("config.json");
    reveal_strlit("prompts/");
    let files = archive_files(config_json, prompts);
    lemma_archive_distinct(config_json, prompts);
    let h: int = if config_json is Some { 1 } else { 0 };
    assert forall|i: int| 0 <= i < files.len() implies zip_safe_name(#[trigger] files[i].0) by {
        if i >= h {
            assert(files[i].0 == "prompts/"@ + prompts[i - h].0);
            lemma_prefixed_name_safe(prompts[i - h].0);
        } else {
            assert(files[i].0 == "config.json"@);
            if contains("config.json"@, ".."@) {
                reveal_strlit("..");
                let k = choose|k: int| occurs_at("config.json"@, ".."@, k);
                assert("config.json"@.subrange(k, k + 2)[0] == '.');
                assert("config.json"@.subrange(k, k + 2)[1] == '.');
            }
        }
    }
}

proof fn lemma_archive_round_trip(config_json: Option<Seq<u8>>, prompts: Seq<(Seq<char>, Seq<u8>)>)
    requires
        zip_safe_files(prompts),
    ensures
        zip_safe_files(archive_files(config_json, prompts)),
        has_config(read_back(archive_files(config_json, prompts))) <==> config_json is Some,
        config_json is Some ==> spec_restore_steps(read_back(archive_files(config_json, prompts)))
            == seq![(false, "config.json"@, config_json->Some_0)] + prompts.map_values(
            |f: (Seq<char>, Seq<u8>)| (false, "prompts/"@ + f.0, f.1),
        ),
{
    lemma_backup_files_safe(config_json, prompts);
    reveal_strlit("config.json");
    reveal_strlit("prompts/");
    let files = archive_files(config_json, prompts);
    let items = read_back(files);
    let h: int = if config_json is Some { 1 } else { 0 };
    if config_json is Some {
        assert(items[0].0 == "config.json"@);
    } else {
        assert forall|k: int| 0 <= k < items.len() implies #[trigger] items[k].0 != "config.json"@ by {
            assert(items[k].0 == "prompts/"@ + prompts[k].0);
            assert(items[k].0[0] == 'p');
        }
    }
    let g = |f: (Seq<char>, Seq<u8>)| (false, "prompts/"@ + f.0, f.1);
    lemma_restore_steps_read_back(files);
    if config_json is Some {
        let c = config_json->Some_0;
        assert(files.map_values(|f: (Seq<char>, Seq<u8>)| (false, f.0, f.1)) =~= seq![(false, "config.json"@, c)]
            + prompts.map_values(g));
    }
}

/// Restoring a backup gives back what it was made of: `config.json` first,
/// then every Markdown prompt file under `prompts/`, in order, each with its
/// bytes; a backup made without a configuration file is refused, as it
/// holds no `config.json`. (Prompt files with safe, distinct names.)
pub proof fn lemma_backup_round_trip(config_json: Option<Seq<u8>>, prompts: Seq<(Seq<char>, Seq<u8>)>)
    requires
        zip_safe_files(prompts),
    ensures
        zip_safe_files(spec_backup_files(config_json, prompts)),
        forall|i: int| 0 <= i < md_files(prompts).len() ==> ends_with(#[trigger] md_files(prompts)[i].0, ".md"@),
        has_config(read_back(spec_backup_files(config_json, prompts))) <==> config_json is Some,
        config_json is Some ==> spec_restore_steps(read_back(spec_backup_files(config_json, prompts)))
            == seq![(false, "config.json"@, config_json->Some_0)] + md_files(prompts).map_values(
            |f: (Seq<char>, Seq<u8>)| (false, "prompts/"@ + f.0, f.1),
        ),
{
    lemma_md_files_safe(prompts);
    lemma_md_files_from(prompts);
    lemma_archive_round_trip(config_json, md_files(prompts));
}

proof fn lemma_restore_steps_read_back(files: Seq<(Seq<char>, Seq<u8>)>)
    ensures
        spec_restore_steps(read_back(files)) == files.map_values(|f: (Seq<char>, Seq<u8>)| (false, f.0, f.1)),
    decreases files.len(),
{
    if files.len() > 0 {
        lemma_restore_steps_read_back(files.drop_last());
        assert(read_back(files).drop_last() =~= read_back(files.drop_last()));
        assert(files.map_values(|f: (Seq<char>, Seq<u8>)| (false, f.0, f.1)) =~= files.drop_last().map_values(
            |f: (Seq<char>, Seq<u8>)| (false, f.0, f.1),
        ).push((false, files.last().0, files.last().1)));
    } else {
        assert(files.map_values(|f: (Seq<char>, Seq<u8>)| (false, f.0, f.1)) =~= Seq::<(bool, Seq<char>, Seq<u8>)>::empty());
    }
}

} // verus!
