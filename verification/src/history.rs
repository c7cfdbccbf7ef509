//! The migration history: the directories on disk, the rows of the bookkeeping table, and the
//! drift between them.
use crate::error::ConnectorError;
use crate::differ::{diff, spec_diff};
use crate::features::MigrationFeatures;
use crate::schema::{seq_view, Name, SqlSchema};
use vstd::prelude::*;

verus! {

/// The 64-bit FNV-1a hash of the first `n` bytes of `bytes`.
pub open spec fn spec_checksum_upto(bytes: Seq<u8>, n: nat) -> u64
    decreases n,
{
    if n == 0 {
        0xcbf29ce484222325u64
    } else {
        (spec_checksum_upto(bytes, (n - 1) as nat) ^ (bytes[n - 1] as u64)).wrapping_mul(
            0x100000001b3u64,
        )
    }
}

/// The checksum of a script: the 64-bit FNV-1a hash of its text in UTF-8.
pub open spec fn spec_checksum(script: Seq<char>) -> u64 {
    spec_checksum_upto(
        vstd::utf8::encode_utf8(script),
        vstd::utf8::encode_utf8(script).len(),
    )
}

/// The checksum of a script.
pub fn checksum(script: &str) -> (sum: u64)
    ensures
        sum == spec_checksum(script@),
{
    let bytes = script.as_bytes();
    let mut sum: u64 = 0xcbf29ce484222325u64;
    let mut i: usize = 0;
    while i < bytes.len()
        invariant
            0 <= i <= bytes.len(),
            sum == spec_checksum_upto(bytes@, i as nat),
        decreases bytes.len() - i,
    {
        sum = (sum ^ (bytes[i] as u64)).wrapping_mul(0x100000001b3u64);
        i += 1;
    }
    sum
}

/// One migration as it lies on disk: its name, which begins with a timestamp so that names
/// order the history, its SQL text, and the checksum of the text.
#[derive(Debug, PartialEq, Eq)]
pub struct MigrationDirectory {
    pub name: String,
    pub script: String,
    pub checksum: u64,
}

/// A migration directory as contracts speak of it.
pub struct MigrationDirectoryView {
    pub name: Name,
    pub script: Seq<char>,
    pub checksum: u64,
}

impl MigrationDirectoryView {
    /// The checksum is that of the script.
    pub open spec fn wf(self) -> bool {
        self.checksum == spec_checksum(self.script)
    }
}

impl View for MigrationDirectory {
    type V = MigrationDirectoryView;

    open spec fn view(&self) -> MigrationDirectoryView {
        MigrationDirectoryView {
            name: self.name@,
            script: self.script@,
            checksum: self.checksum,
        }
    }
}

impl MigrationDirectory {
    /// The directory called `name` that holds `script`.
    pub fn new(name: String, script: String) -> (directory: MigrationDirectory)
        ensures
            directory@.name == name@,
            directory@.script == script@,
            directory@.wf(),
    {
        let sum = checksum(script.as_str());
        MigrationDirectory { name, script, checksum: sum }
    }

    /// Whether the checksum is still that of the script.
    pub fn is_intact(&self) -> (intact: bool)
        ensures
            intact == self@.wf(),
    {
        checksum(self.script.as_str()) == self.checksum
    }
}

/// A row of the bookkeeping table: one application of one migration. Times are seconds since
/// the epoch.
#[derive(Debug, PartialEq, Eq)]
pub struct MigrationRecord {
    pub id: String,
    pub checksum: u64,
    pub started_at: u64,
    pub finished_at: Option<u64>,
    pub migration_name: String,
    pub applied_steps_count: u32,
    pub rolled_back_at: Option<u64>,
}

/// A row of the bookkeeping table as contracts speak of it.
pub struct MigrationRecordView {
    pub id: Name,
    pub checksum: u64,
    pub started_at: u64,
    pub finished_at: Option<u64>,
    pub migration_name: Name,
    pub applied_steps_count: u32,
    pub rolled_back_at: Option<u64>,
}

impl MigrationRecordView {
    /// Whether the row says that its migration was applied in full and stands.
    pub open spec fn is_applied(self) -> bool {
        self.finished_at is Some && self.rolled_back_at is None
    }
}

impl View for MigrationRecord {
    type V = MigrationRecordView;

    open spec fn view(&self) -> MigrationRecordView {
        MigrationRecordView {
            id: self.id@,
            checksum: self.checksum,
            started_at: self.started_at,
            finished_at: self.finished_at,
            migration_name: self.migration_name@,
            applied_steps_count: self.applied_steps_count,
            rolled_back_at: self.rolled_back_at,
        }
    }
}

impl MigrationRecord {
    /// The row that is written when the application of `directory` begins.
    pub fn start(id: String, directory: &MigrationDirectory, now: u64) -> (record: MigrationRecord)
        ensures
            record@ == (MigrationRecordView {
                id: id@,
                checksum: directory@.checksum,
                started_at: now,
                finished_at: None,
                migration_name: directory@.name,
                applied_steps_count: 0,
                rolled_back_at: None,
            }),
    {
        MigrationRecord {
            id,
            checksum: directory.checksum,
            started_at: now,
            finished_at: None,
            migration_name: directory.name.clone(),
            applied_steps_count: 0,
            rolled_back_at: None,
        }
    }

    /// Whether the row says that its migration was applied in full and stands.
    pub fn is_applied(&self) -> (applied: bool)
        ensures
            applied == self@.is_applied(),
    {
        self.finished_at.is_some() && self.rolled_back_at.is_none()
    }

    /// Closes the row: the migration went through at `now` with `steps` steps. A row that is
    /// closed already, or rolled back, stays as it is, and the call says so by `false`.
    pub fn finish(&mut self, now: u64, steps: u32) -> (closed: bool)
        ensures
            closed == (old(self)@.finished_at is None && old(self)@.rolled_back_at is None),
            closed ==> final(self)@ == (MigrationRecordView {
                finished_at: Some(now),
                applied_steps_count: steps,
                ..old(self)@
            }),
            !closed ==> final(self)@ == old(self)@,
    {
        if self.finished_at.is_some() || self.rolled_back_at.is_some() {
            return false;
        }
        self.finished_at = Some(now);
        self.applied_steps_count = steps;
        true
    }

    /// Marks the row as rolled back at `now`. A row that is closed already, or rolled back,
    /// stays as it is, and the call says so by `false`.
    pub fn roll_back(&mut self, now: u64) -> (marked: bool)
        ensures
            marked == (old(self)@.finished_at is None && old(self)@.rolled_back_at is None),
            marked ==> final(self)@ == (MigrationRecordView {
                rolled_back_at: Some(now),
                ..old(self)@
            }),
            !marked ==> final(self)@ == old(self)@,
    {
        if self.finished_at.is_some() || self.rolled_back_at.is_some() {
            return false;
        }
        self.rolled_back_at = Some(now);
        true
    }
}

/// Whether `records` hold a row that says `directory` was applied with another checksum than
/// the one its script has now.
pub open spec fn has_drifted(directory: MigrationDirectoryView, records: Seq<MigrationRecordView>) -> bool {
    exists|k: int|
        0 <= k < records.len() && (#[trigger] records[k]).is_applied()
            && records[k].migration_name == directory.name && records[k].checksum
            != spec_checksum(directory.script)
}

/// The position of the first of the first `n` directories that has drifted.
pub open spec fn first_drift(
    directories: Seq<MigrationDirectoryView>,
    records: Seq<MigrationRecordView>,
    n: nat,
) -> Option<int>
    decreases n,
{
    if n == 0 {
        None
    } else {
        match first_drift(directories, records, (n - 1) as nat) {
            Some(i) => Some(i),
            None => if has_drifted(directories[n - 1], records) {
                Some(n - 1)
            } else {
                None
            },
        }
    }
}

/// Whether `directory` was edited after it was applied.
pub fn directory_has_drifted(directory: &MigrationDirectory, records: &Vec<MigrationRecord>) -> (drifted:
    bool)
    ensures
        drifted == has_drifted(directory@, seq_view(records@)),
{
    let current = checksum(directory.script.as_str());
    let mut k: usize = 0;
    while k < records.len()
        invariant
            0 <= k <= records.len(),
            current == spec_checksum(directory@.script),
            forall|x: int|
                0 <= x < k ==> !((#[trigger] seq_view(records@)[x]).is_applied() && seq_view(
                    records@,
                )[x].migration_name == directory@.name && seq_view(records@)[x].checksum
                    != current),
        decreases records.len() - k,
    {
        if records[k].is_applied() && records[k].migration_name == directory.name
            && records[k].checksum != current {
            assert(seq_view(records@)[k as int].is_applied());
            return true;
        }
        k += 1;
    }
    false
}

/// Holds the directories on disk against the rows of the bookkeeping table. The history has
/// drifted where a directory that a row reports as applied has another checksum now than the
/// row recorded; the error names the first such directory.
pub fn check_history(directories: &Vec<MigrationDirectory>, records: &Vec<MigrationRecord>) -> (result:
    Result<(), ConnectorError>)
    ensures
        match first_drift(seq_view(directories@), seq_view(records@), directories@.len()) {
            Some(i) => result == Err::<(), ConnectorError>(
                ConnectorError::HistoryDrift { directory: i as usize },
            ),
            None => result is Ok,
        },
{
    let mut i: usize = 0;
    while i < directories.len()
        invariant
            0 <= i <= directories.len(),
            first_drift(seq_view(directories@), seq_view(records@), i as nat) is None,
        decreases directories.len() - i,
    {
        if directory_has_drifted(&directories[i], records) {
            proof {
                lemma_first_drift_stays(
                    seq_view(directories@),
                    seq_view(records@),
                    (i + 1) as nat,
                    directories@.len(),
                );
            }
            return Err(ConnectorError::HistoryDrift { directory: i });
        }
        i += 1;
    }
    Ok(())
}

/// Once a drift is found among the first `n` directories, it is the first among more.
pub proof fn lemma_first_drift_stays(
    directories: Seq<MigrationDirectoryView>,
    records: Seq<MigrationRecordView>,
    n: nat,
    m: nat,
)
    requires
        n <= m,
        first_drift(directories, records, n) is Some,
    ensures
        first_drift(directories, records, m) == first_drift(directories, records, n),
    decreases m,
{
    if n < m {
        lemma_first_drift_stays(directories, records, n, (m - 1) as nat);
    }
}

/// A directory whose script changed after it was applied is found to have drifted: where a
/// row reports the directory at `i` as applied with a checksum that its script does not have
/// now, the history has drifted at `i` or before.
pub proof fn lemma_edited_directory_is_drift(
    directories: Seq<MigrationDirectoryView>,
    records: Seq<MigrationRecordView>,
    i: int,
    k: int,
)
    requires
        0 <= i < directories.len(),
        0 <= k < records.len(),
        records[k].is_applied(),
        records[k].migration_name == directories[i].name,
        records[k].checksum != spec_checksum(directories[i].script),
    ensures
        match first_drift(directories, records, directories.len()) {
            Some(first) => first <= i,
            None => false,
        },
{
    assert(has_drifted(directories[i], records));
    lemma_first_drift_bound(directories, records, (i + 1) as nat);
    lemma_first_drift_stays(directories, records, (i + 1) as nat, directories.len());
}

/// The first drift among the first `n` directories lies among them.
pub proof fn lemma_first_drift_bound(
    directories: Seq<MigrationDirectoryView>,
    records: Seq<MigrationRecordView>,
    n: nat,
)
    ensures
        match first_drift(directories, records, n) {
            Some(first) => 0 <= first < n && has_drifted(directories[first], records),
            None => forall|x: int| 0 <= x < n ==> !has_drifted(#[trigger] directories[x], records),
        },
    decreases n,
{
    if n > 0 {
        lemma_first_drift_bound(directories, records, (n - 1) as nat);
    }
}

/// Whether the text with bytes `a` comes before the text with bytes `b`, byte by byte: at the
/// first position where they differ `a` has the smaller byte, or `a` ends there and `b` goes
/// on.
pub open spec fn spec_precedes(a: Seq<u8>, b: Seq<u8>) -> bool
    decreases a.len(),
{
    if b.len() == 0 {
        false
    } else if a.len() == 0 {
        true
    } else if a[0] != b[0] {
        a[0] < b[0]
    } else {
        spec_precedes(a.drop_first(), b.drop_first())
    }
}

/// Whether the name `a` comes before the name `b`, byte by byte.
pub fn precedes(a: &str, b: &str) -> (before: bool)
    ensures
        before == spec_precedes(vstd::utf8::encode_utf8(a@), vstd::utf8::encode_utf8(b@)),
{
    let x = a.as_bytes();
    let y = b.as_bytes();
    let mut i: usize = 0;
    assert(x@.skip(0) =~= x@ && y@.skip(0) =~= y@);
    while i < x.len() && i < y.len()
        invariant
            0 <= i <= x.len(),
            i <= y.len(),
            x@ == vstd::utf8::encode_utf8(a@),
            y@ == vstd::utf8::encode_utf8(b@),
            spec_precedes(x@, y@) == spec_precedes(x@.skip(i as int), y@.skip(i as int)),
        decreases x.len() - i,
    {
        let ghost rest_x = x@.skip(i as int);
        let ghost rest_y = y@.skip(i as int);
        assert(rest_x[0] == x@[i as int] && rest_y[0] == y@[i as int]);
        if x[i] != y[i] {
            return x[i] < y[i];
        }
        assert(rest_x.drop_first() =~= x@.skip(i + 1));
        assert(rest_y.drop_first() =~= y@.skip(i + 1));
        i += 1;
    }
    i < y.len()
}

/// Whether the names of the directories ascend: whether each comes before the next.
pub open spec fn spec_in_order(directories: Seq<MigrationDirectoryView>) -> bool {
    forall|i: int|
        0 < i < directories.len() ==> spec_precedes(
            vstd::utf8::encode_utf8(directories[i - 1].name),
            vstd::utf8::encode_utf8((#[trigger] directories[i]).name),
        )
}

/// Whether the history is in order: whether the names of its directories ascend.
pub fn in_order(directories: &Vec<MigrationDirectory>) -> (ordered: bool)
    ensures
        ordered == spec_in_order(seq_view(directories@)),
{
    let mut i: usize = 1;
    while i < directories.len()
        invariant
            1 <= i,
            forall|k: int|
                0 < k < i && k < directories.len() ==> spec_precedes(
                    vstd::utf8::encode_utf8(seq_view(directories@)[k - 1].name),
                    vstd::utf8::encode_utf8((#[trigger] seq_view(directories@)[k]).name),
                ),
        decreases directories.len() - i,
    {
        if !precedes(directories[i - 1].name.as_str(), directories[i].name.as_str()) {
            assert(!spec_precedes(
                vstd::utf8::encode_utf8(seq_view(directories@)[i - 1].name),
                vstd::utf8::encode_utf8(seq_view(directories@)[i as int].name),
            ));
            return false;
        }
        i += 1;
    }
    true
}

/// Whether the live schema has drifted from the schema that the history gives: whether the
/// differ finds anything to do between the two.
pub fn has_schema_drift(expected: &SqlSchema, live: &SqlSchema, features: MigrationFeatures) -> (drifted:
    bool)
    ensures
        drifted == (spec_diff(expected@, live@, features).len() > 0),
{
    diff(expected, live, features).len() > 0
}

} // verus!
