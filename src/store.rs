//! The history store: recordings and correction patterns kept in an SQLite
//! database, with the correction operation applied as one transaction.
use crate::context::prompt_context;
use crate::context::context_text;
use crate::records::{
    correction_from_row, decode_correction, decode_recording, recording_from_row, Correction,
    Recording, SqlParam, SqlValue,
};
use crate::text::{str_le, text_le, trim, trim_str};
use rusqlite::types::Value as DbValue;
use vstd::prelude::*;

verus! {

#[verifier::external_type_specification]
#[verifier::external_body]
pub struct ExConnection(rusqlite::Connection);

#[verifier::external_type_specification]
#[verifier::external_body]
pub struct ExSqlError(rusqlite::Error);

#[verifier::external_type_specification]
#[verifier::external_body]
pub struct ExDbValue(rusqlite::types::Value);

pub const CREATE_RECORDINGS: &'static str = "CREATE TABLE IF NOT EXISTS recordings (
    id INTEGER PRIMARY KEY AUTOINCREMENT,
    timestamp TEXT NOT NULL,
    whisper_output TEXT,
    llm_output TEXT,
    user_correction TEXT,
    audio_duration_ms INTEGER,
    whisper_duration_ms INTEGER,
    llm_duration_ms INTEGER,
    total_duration_ms INTEGER,
    success INTEGER DEFAULT 1,
    error_message TEXT
)";

pub const CREATE_CORRECTIONS: &'static str = "CREATE TABLE IF NOT EXISTS corrections (
    id INTEGER PRIMARY KEY AUTOINCREMENT,
    whisper_pattern TEXT NOT NULL,
    intended_text TEXT NOT NULL,
    created_at TEXT NOT NULL
)";

pub const SELECT_RECENT: &'static str =
    "SELECT * FROM recordings ORDER BY timestamp DESC, id DESC LIMIT ?";

pub const SELECT_ONE: &'static str = "SELECT * FROM recordings WHERE id = ?";

pub const UPDATE_CORRECTION: &'static str = "UPDATE recordings SET user_correction = ? WHERE id = ?";

pub const INSERT_PATTERN: &'static str =
    "INSERT INTO corrections (whisper_pattern, intended_text, created_at) VALUES (?, ?, ?)";

pub const DELETE_ONE: &'static str = "DELETE FROM recordings WHERE id = ?";

pub const SELECT_PATTERNS: &'static str =
    "SELECT * FROM corrections ORDER BY created_at DESC, id DESC";

pub const BEGIN: &'static str = "BEGIN IMMEDIATE";

pub const COMMIT: &'static str = "COMMIT";

pub const ROLLBACK: &'static str = "ROLLBACK";

/// One statement handed to SQLite: its text and the values bound to it.
pub struct SqlStatement {
    pub sql: &'static str,
    pub params: Vec<SqlParam>,
}

pub open spec fn text_param(p: SqlParam, s: Seq<char>) -> bool {
    match p {
        SqlParam::Text(t) => t@ == s,
        _ => false,
    }
}

pub open spec fn int_param(p: SqlParam, i: i64) -> bool {
    match p {
        SqlParam::Integer(x) => x == i,
        _ => false,
    }
}

/// `st` is the statement `sql` without parameters.
pub open spec fn is_plain(st: SqlStatement, sql: Seq<char>) -> bool {
    st.sql@ == sql && st.params@.len() == 0
}

/// `st` is the statement `sql` with the one integer `i` bound.
pub open spec fn is_with_int(st: SqlStatement, sql: Seq<char>, i: i64) -> bool {
    st.sql@ == sql && st.params@.len() == 1 && int_param(st.params@[0], i)
}

/// `st` sets the correction of recording `id` to `text`.
pub open spec fn is_update(st: SqlStatement, id: i64, text: Seq<char>) -> bool {
    st.sql@ == UPDATE_CORRECTION@ && st.params@.len() == 2 && text_param(st.params@[0], text)
        && int_param(st.params@[1], id)
}

/// `st` records the pattern `(w, text)` created at `now`.
pub open spec fn is_insert(st: SqlStatement, w: Seq<char>, text: Seq<char>, now: Seq<char>) -> bool {
    st.sql@ == INSERT_PATTERN@ && st.params@.len() == 3 && text_param(st.params@[0], w)
        && text_param(st.params@[1], text) && text_param(st.params@[2], now)
}

pub open spec fn has_transcription(rec: Recording) -> bool {
    rec.whisper_output is Some && rec.whisper_output.unwrap()@.len() > 0
}

/// `ws` are the writes of correcting `rec` (whose id is `id`) to `text`: the
/// update, then, where it has a non-empty transcription, that pattern.
pub open spec fn correction_writes(rec: Recording, id: i64, text: Seq<char>, ws: Seq<SqlStatement>) -> bool {
    if has_transcription(rec) {
        ws.len() == 2 && is_update(ws[0], id, text) && exists|now: Seq<char>|
            is_insert(ws[1], rec.whisper_output.unwrap()@, text, now)
    } else {
        ws.len() == 1 && is_update(ws[0], id, text)
    }
}

/// `new` is `old` with one more statement.
pub open spec fn one_more(old: Seq<SqlStatement>, new: Seq<SqlStatement>) -> bool {
    new.len() == old.len() + 1 && new.drop_last() == old
}

pub open spec fn rows_view(rows: Seq<Vec<SqlValue>>) -> Seq<Seq<SqlValue>> {
    rows.map_values(|r: Vec<SqlValue>| r@)
}

pub open spec fn min_len(n: int, limit: int) -> int {
    if n < limit {
        n
    } else {
        limit
    }
}

/// The first `k` rows all hold recordings.
pub open spec fn recordings_decode(rows: Seq<Seq<SqlValue>>, k: int) -> bool {
    forall|i: int| 0 <= i < k ==> (#[trigger] decode_recording(rows[i])) is Some
}

pub open spec fn decoded_recordings(rows: Seq<Seq<SqlValue>>, k: int) -> Seq<Recording> {
    Seq::new(k as nat, |i: int| decode_recording(rows[i]).unwrap())
}

pub open spec fn corrections_decode(rows: Seq<Seq<SqlValue>>) -> bool {
    forall|i: int| 0 <= i < rows.len() ==> (#[trigger] decode_correction(rows[i])) is Some
}

pub open spec fn decoded_corrections(rows: Seq<Seq<SqlValue>>) -> Seq<Correction> {
    Seq::new(rows.len(), |i: int| decode_correction(rows[i]).unwrap())
}

/// Each recording is no later than the one before it.
pub open spec fn timestamps_descending(rs: Seq<Recording>) -> bool {
    forall|i: int| 0 < i < rs.len() ==> text_le(#[trigger] rs[i].timestamp@, rs[i - 1].timestamp@)
}

/// Each pattern is no later than the one before it.
pub open spec fn created_descending(cs: Seq<Correction>) -> bool {
    forall|i: int| 0 < i < cs.len() ==> text_le(#[trigger] cs[i].created_at@, cs[i - 1].created_at@)
}

/// The recording with id `id` among `rows`, read in order up to the first
/// match or the first row that holds no recording.
pub open spec fn find_recording(rows: Seq<Seq<SqlValue>>, id: i64) -> Result<Option<Recording>, StoreError>
    decreases rows.len(),
{
    if rows.len() == 0 {
        Ok(None)
    } else {
        match decode_recording(rows[0]) {
            None => Err(StoreError::MalformedRow),
            Some(rec) => if rec.id == id {
                Ok(Some(rec))
            } else {
                find_recording(rows.skip(1), id)
            },
        }
    }
}

/// Why a store operation failed.
#[derive(Debug)]
pub enum StoreError {
    /// The database reported an error.
    Storage(rusqlite::Error),
    /// No recording has the given id.
    NotFound,
    /// A stored row has a column of an unexpected type.
    MalformedRow,
    /// Rows came back out of the order their query asks for.
    OutOfOrder,
    /// The system clock reads before 1970.
    Clock,
}

/// What a correction does, given the recording it is for.
#[derive(Clone, Debug)]
pub enum CorrectionPlan {
    /// There is no such recording: nothing is written.
    NotFound,
    /// Only the recording's correction is set.
    UpdateOnly,
    /// The correction is set and a pattern from this transcription recorded.
    UpdateAndRecord { whisper_pattern: String },
}

/// Decides what a correction writes: a pattern is recorded exactly when the
/// recording exists and has a non-empty transcription.
pub fn plan_correction(found: &Option<Recording>) -> (r: CorrectionPlan)
    ensures
        found is None ==> r is NotFound,
        found is Some ==> match found.unwrap().whisper_output {
            Some(w) => if w@.len() > 0 {
                r == (CorrectionPlan::UpdateAndRecord { whisper_pattern: w })
            } else {
                r is UpdateOnly
            },
            None => r is UpdateOnly,
        },
{
    match found {
        None => CorrectionPlan::NotFound,
        Some(rec) => match &rec.whisper_output {
            Some(w) => {
                if w.as_str().unicode_len() > 0 {
                    CorrectionPlan::UpdateAndRecord { whisper_pattern: w.clone() }
                } else {
                    CorrectionPlan::UpdateOnly
                }
            },
            None => CorrectionPlan::UpdateOnly,
        },
    }
}

/// The correction the user typed, trimmed; `None` where nothing is left, in
/// which case no correction is made.
pub fn correction_text(input: &str) -> (r: Option<&str>)
    ensures
        r is None <==> trim(input@).len() == 0,
        r is Some ==> r.unwrap()@ == trim(input@),
{
    let t = trim_str(input);
    if t.unicode_len() == 0 {
        None
    } else {
        Some(t)
    }
}

/// The writes that carry out `plan` for recording `id`, correction `text`,
/// at instant `now`; `NotFound` where there is no recording.
pub fn correction_statements(plan: &CorrectionPlan, id: i64, text: &str, now: &str) -> (r: Result<
    Vec<SqlStatement>,
    StoreError,
>)
    ensures
        match *plan {
            CorrectionPlan::NotFound => r is Err && r->Err_0 is NotFound,
            CorrectionPlan::UpdateOnly => r is Ok && r->Ok_0@.len() == 1 && is_update(
                r->Ok_0@[0],
                id,
                text@,
            ),
            CorrectionPlan::UpdateAndRecord { whisper_pattern } => r is Ok && r->Ok_0@.len() == 2
                && is_update(r->Ok_0@[0], id, text@) && is_insert(
                r->Ok_0@[1],
                whisper_pattern@,
                text@,
                now@,
            ),
        },
{
    let update = SqlStatement {
        sql: UPDATE_CORRECTION,
        params: vec![SqlParam::Text(String::from_str(text)), SqlParam::Integer(id)],
    };
    match plan {
        CorrectionPlan::NotFound => Err(StoreError::NotFound),
        CorrectionPlan::UpdateOnly => Ok(vec![update]),
        CorrectionPlan::UpdateAndRecord { whisper_pattern } => {
            let insert = SqlStatement {
                sql: INSERT_PATTERN,
                params: vec![
                    SqlParam::Text(whisper_pattern.clone()),
                    SqlParam::Text(String::from_str(text)),
                    SqlParam::Text(String::from_str(now)),
                ],
            };
            Ok(vec![update, insert])
        },
    }
}

/// The recordings in the first `limit` of `rows`, which a query ordered by
/// timestamp, latest first: `MalformedRow` where one of them holds no
/// recording, else `OutOfOrder` where they are not in that order.
pub fn recordings_from_rows(rows: &Vec<Vec<SqlValue>>, limit: usize) -> (r: Result<
    Vec<Recording>,
    StoreError,
>)
    ensures
        ({
            let rv = rows_view(rows@);
            let k = min_len(rows@.len() as int, limit as int);
            &&& r is Ok <==> recordings_decode(rv, k) && timestamps_descending(
                decoded_recordings(rv, k),
            )
            &&& r is Ok ==> r->Ok_0@ == decoded_recordings(rv, k)
            &&& r is Err ==> if recordings_decode(rv, k) {
                r->Err_0 is OutOfOrder
            } else {
                r->Err_0 is MalformedRow
            }
        }),
{
    let ghost rv = rows_view(rows@);
    let k: usize = if rows.len() < limit {
        rows.len()
    } else {
        limit
    };
    let mut out: Vec<Recording> = Vec::new();
    let mut i: usize = 0;
    while i < k
        invariant
            rv == rows_view(rows@),
            k == min_len(rows@.len() as int, limit as int),
            i <= k,
            recordings_decode(rv, i as int),
            out@ == decoded_recordings(rv, i as int),
        decreases k - i,
    {
        assert(rv[i as int] == rows@[i as int]@);
        match recording_from_row(&rows[i]) {
            Some(rec) => out.push(rec),
            None => {
                assert(!recordings_decode(rv, k as int));
                return Err(StoreError::MalformedRow);
            },
        }
        i = i + 1;
        assert(out@ =~= decoded_recordings(rv, i as int));
    }
    let mut j: usize = 1;
    while j < out.len()
        invariant
            rv == rows_view(rows@),
            k == min_len(rows@.len() as int, limit as int),
            out@ == decoded_recordings(rv, k as int),
            recordings_decode(rv, k as int),
            1 <= j,
            forall|x: int| 0 < x < j && x < out@.len() ==> text_le(
                #[trigger] out@[x].timestamp@,
                out@[x - 1].timestamp@,
            ),
        decreases out.len() - j,
    {
        if !str_le(out[j].timestamp.as_str(), out[j - 1].timestamp.as_str()) {
            assert(!timestamps_descending(out@));
            return Err(StoreError::OutOfOrder);
        }
        j = j + 1;
    }
    Ok(out)
}

/// The correction patterns in `rows`, which a query ordered by creation
/// time, newest first: `MalformedRow` where one holds no pattern, else
/// `OutOfOrder` where they are not in that order.
pub fn corrections_from_rows(rows: &Vec<Vec<SqlValue>>) -> (r: Result<Vec<Correction>, StoreError>)
    ensures
        ({
            let rv = rows_view(rows@);
            &&& r is Ok <==> corrections_decode(rv) && created_descending(decoded_corrections(rv))
            &&& r is Ok ==> r->Ok_0@ == decoded_corrections(rv)
            &&& r is Err ==> if corrections_decode(rv) {
                r->Err_0 is OutOfOrder
            } else {
                r->Err_0 is MalformedRow
            }
        }),
{
    let ghost rv = rows_view(rows@);
    let mut out: Vec<Correction> = Vec::new();
    let mut i: usize = 0;
    while i < rows.len()
        invariant
            rv == rows_view(rows@),
            i <= rows@.len(),
            forall|x: int| 0 <= x < i ==> (#[trigger] decode_correction(rv[x])) is Some,
            out@ =~= Seq::new(i as nat, |x: int| decode_correction(rv[x]).unwrap()),
        decreases rows.len() - i,
    {
        assert(rv[i as int] == rows@[i as int]@);
        match correction_from_row(&rows[i]) {
            Some(c) => out.push(c),
            None => {
                return Err(StoreError::MalformedRow);
            },
        }
        i = i + 1;
        assert(out@ =~= Seq::new(i as nat, |x: int| decode_correction(rv[x]).unwrap()));
    }
    assert(out@ =~= decoded_corrections(rv));
    let mut j: usize = 1;
    while j < out.len()
        invariant
            rv == rows_view(rows@),
            out@ == decoded_corrections(rv),
            corrections_decode(rv),
            1 <= j,
            forall|x: int| 0 < x < j && x < out@.len() ==> text_le(
                #[trigger] out@[x].created_at@,
                out@[x - 1].created_at@,
            ),
        decreases out.len() - j,
    {
        if !str_le(out[j].created_at.as_str(), out[j - 1].created_at.as_str()) {
            assert(!created_descending(out@));
            return Err(StoreError::OutOfOrder);
        }
        j = j + 1;
    }
    Ok(out)
}

/// The recording with id `id` among `rows`.
pub fn recording_in_rows(rows: &Vec<Vec<SqlValue>>, id: i64) -> (r: Result<Option<Recording>, StoreError>)
    ensures
        r == find_recording(rows_view(rows@), id),
{
    let ghost rv = rows_view(rows@);
    let mut i: usize = 0;
    assert(rv.skip(0) =~= rv);
    while i < rows.len()
        invariant
            rv == rows_view(rows@),
            i <= rows@.len(),
            find_recording(rv, id) == find_recording(rv.skip(i as int), id),
        decreases rows.len() - i,
    {
        assert(rv[i as int] == rows@[i as int]@);
            assert(rv.skip(i as int).skip(1) =~= rv.skip(i + 1));
        match recording_from_row(&rows[i]) {
            Some(rec) => {
                if rec.id == id {
                    return Ok(Some(rec));
                }
            },
            None => return Err(StoreError::MalformedRow),
        }
        i = i + 1;
    }
    Ok(None)
}

/// Relies on rusqlite's `Connection::open`: opens, or creates, the database
/// file at `path`.
#[verifier::external_body]
fn open_connection(path: &str) -> (r: Result<rusqlite::Connection, rusqlite::Error>) {
    rusqlite::Connection::open(path)
}

/// Relies on rusqlite's `Connection::execute`: runs one statement with
/// `params` bound in order, and returns the number of rows it changed.
#[verifier::external_body]
fn execute(conn: &rusqlite::Connection, sql: &str, params: &Vec<SqlParam>) -> (r: Result<
    usize,
    rusqlite::Error,
>) {
    conn.execute(
        sql,
        rusqlite::params_from_iter(
            params.iter().map(
                |p| match p {
                    SqlParam::Integer(i) => DbValue::Integer(*i),
                    SqlParam::Text(t) => DbValue::Text(t.clone()),
                },
            ),
        ),
    )
}

/// Relies on rusqlite's `Connection::prepare`, `Statement::query` and
/// `Row::get`: the rows of a query with `params` bound in order, each as the
/// values of its columns.
#[verifier::external_body]
fn query_rows(conn: &rusqlite::Connection, sql: &str, params: &Vec<SqlParam>) -> (r: Result<
    Vec<Vec<DbValue>>,
    rusqlite::Error,
>) {
    let mut stmt = conn.prepare(sql)?;
    let n = stmt.column_count();
    let mut rows = stmt.query(rusqlite::params_from_iter(params.iter().map(|p| match p {
        SqlParam::Integer(i) => DbValue::Integer(*i),
        SqlParam::Text(t) => DbValue::Text(t.clone()),
    })))?;
    let mut out = Vec::new();
    while let Some(row) = rows.next()? {
        out.push((0..n).map(|i| row.get(i)).collect::<Result<Vec<DbValue>, _>>()?);
    }
    Ok(out)
}

/// Relies on rusqlite's `types::Value`: reads which kind of value a column
/// holds, and its integer, text or bytes.
#[verifier::external_body]
fn cell(v: &DbValue) -> (r: SqlValue) {
    match v.clone() {
        DbValue::Null => SqlValue::Null,
        DbValue::Integer(x) => SqlValue::Integer(x),
        DbValue::Real(_) => SqlValue::Real,
        DbValue::Text(t) => SqlValue::Text(t),
        DbValue::Blob(b) => SqlValue::Blob(b),
    }
}

/// Relies on chrono's `DateTime::from_timestamp` and `DateTime::to_rfc3339`,
/// fed by `SystemTime::now`: the current instant in RFC 3339 form, or `None`
/// where the clock reads before 1970.
#[verifier::external_body]
fn now_rfc3339() -> (r: Option<String>) {
    let since = std::time::SystemTime::now().duration_since(std::time::UNIX_EPOCH).ok()?;
    let secs = i64::try_from(since.as_secs()).ok()?;
    chrono::DateTime::from_timestamp(secs, since.subsec_nanos()).map(|t| t.to_rfc3339())
}

/// The history store, over one connection.
pub struct Database {
    conn: rusqlite::Connection,
    /// Every statement this handle has handed to SQLite, in order.
    sent: Ghost<Seq<SqlStatement>>,
}

impl Database {
    /// The statements this handle has handed to SQLite, in order.
    pub closed spec fn sent(&self) -> Seq<SqlStatement> {
        self.sent@
    }

    /// Opens or creates the store at `db_path` and creates its tables where
    /// they do not exist.
    pub fn new(db_path: &str) -> (r: Result<Database, StoreError>)
        ensures
            r is Err ==> r->Err_0 is Storage,
            r is Ok ==> r->Ok_0.sent().len() == 2 && is_plain(r->Ok_0.sent()[0], CREATE_RECORDINGS@)
                && is_plain(r->Ok_0.sent()[1], CREATE_CORRECTIONS@),
    {
        let conn = match open_connection(db_path) {
            Ok(c) => c,
            Err(e) => return Err(StoreError::Storage(e)),
        };
        let mut db = Database { conn, sent: Ghost(Seq::empty()) };
        db.send(&SqlStatement { sql: CREATE_RECORDINGS, params: Vec::new() })?;
        db.send(&SqlStatement { sql: CREATE_CORRECTIONS, params: Vec::new() })?;
        Ok(db)
    }

    /// The connection, for a producer that writes recordings.
    pub fn connection(&self) -> &rusqlite::Connection {
        &self.conn
    }

    fn send(&mut self, st: &SqlStatement) -> (r: Result<usize, StoreError>)
        ensures
            final(self).sent() == old(self).sent().push(*st),
            final(self).sent().drop_last() == old(self).sent(),
            final(self).sent().last() == *st,
            r is Err ==> r->Err_0 is Storage,
    {
        let result = execute(&self.conn, st.sql, &st.params);
        let ghost before = self.sent@;
        self.sent = Ghost(self.sent@.push(*st));
        assert(self.sent@.drop_last() =~= before);
        match result {
            Ok(n) => Ok(n),
            Err(e) => Err(StoreError::Storage(e)),
        }
    }

    fn fetch(&mut self, st: &SqlStatement) -> (r: Result<Vec<Vec<SqlValue>>, StoreError>)
        ensures
            final(self).sent() == old(self).sent().push(*st),
            final(self).sent().drop_last() == old(self).sent(),
            final(self).sent().last() == *st,
            r is Err ==> r->Err_0 is Storage,
    {
        let result = query_rows(&self.conn, st.sql, &st.params);
        let ghost before = self.sent@;
        self.sent = Ghost(self.sent@.push(*st));
        assert(self.sent@.drop_last() =~= before);
        let raw = match result {
            Ok(rows) => rows,
            Err(e) => return Err(StoreError::Storage(e)),
        };
        let mut out: Vec<Vec<SqlValue>> = Vec::new();
        let mut i: usize = 0;
        while i < raw.len()
            invariant
                i <= raw@.len(),
            decreases raw@.len() - i,
        {
            let mut cells: Vec<SqlValue> = Vec::new();
            let mut k: usize = 0;
            while k < raw[i].len()
                invariant
                    i < raw@.len(),
                    k <= raw@[i as int]@.len(),
                decreases raw@[i as int]@.len() - k,
            {
                cells.push(cell(&raw[i][k]));
                k = k + 1;
            }
            out.push(cells);
            i = i + 1;
        }
        Ok(out)
    }

    /// Up to `limit` recordings, the latest first: hands SQLite the query
    /// for them, and returns what `recordings_from_rows` makes of its rows.
    pub fn get_all_recordings(&mut self, limit: usize) -> (r: Result<Vec<Recording>, StoreError>)
        ensures
            one_more(old(self).sent(), final(self).sent()),
            is_with_int(
                final(self).sent().last(),
                SELECT_RECENT@,
                if limit > i64::MAX as usize {
                    i64::MAX
                } else {
                    limit as i64
                },
            ),
            r is Ok ==> r->Ok_0@.len() <= limit && timestamps_descending(r->Ok_0@),
    {
        let bound: i64 = if limit > i64::MAX as usize {
            i64::MAX
        } else {
            limit as i64
        };
        let rows = self.fetch(&SqlStatement { sql: SELECT_RECENT, params: vec![SqlParam::Integer(bound)] })?;
        recordings_from_rows(&rows, limit)
    }

    /// The recording with id `id`, or `None` where there is none: hands
    /// SQLite the query for it, and returns what `recording_in_rows` makes
    /// of its rows.
    pub fn get_recording(&mut self, id: i64) -> (r: Result<Option<Recording>, StoreError>)
        ensures
            one_more(old(self).sent(), final(self).sent()),
            is_with_int(final(self).sent().last(), SELECT_ONE@, id),
            r is Ok && r->Ok_0 is Some ==> r->Ok_0->Some_0.id == id,
            r is Err ==> r->Err_0 is Storage || r->Err_0 is MalformedRow,
    {
        let rows = self.fetch(&SqlStatement { sql: SELECT_ONE, params: vec![SqlParam::Integer(id)] })?;
        let r = recording_in_rows(&rows, id);
        proof {
            lemma_find_recording(rows_view(rows@), id);
        }
        r
    }

    /// Sets the correction of recording `recording_id` to `user_correction`
    /// and, where the recording has a non-empty transcription, records the
    /// pair as a correction pattern: both or neither, in one transaction.
    /// An unknown id writes nothing and fails with `NotFound`.
    pub fn update_correction(&mut self, recording_id: i64, user_correction: &str) -> (r: Result<
        (),
        StoreError,
    >)
        ensures
            ({
                let o = old(self).sent();
                let f = final(self).sent();
                &&& r is Err && r->Err_0 is NotFound ==> f.len() == o.len() + 3 && f.take(
                    o.len() as int,
                ) == o && is_plain(f[o.len() as int], BEGIN@) && is_with_int(
                    f[o.len() + 1 as int],
                    SELECT_ONE@,
                    recording_id,
                ) && is_plain(f[o.len() + 2 as int], ROLLBACK@)
                &&& r is Ok ==> f.len() >= o.len() + 3 && f.take(o.len() as int) == o && is_plain(
                    f[o.len() as int],
                    BEGIN@,
                ) && is_with_int(f[o.len() + 1 as int], SELECT_ONE@, recording_id) && is_plain(
                    f.last(),
                    COMMIT@,
                ) && exists|rec: Recording|
                    rec.id == recording_id && #[trigger] correction_writes(
                        rec,
                        recording_id,
                        user_correction@,
                        f.subrange(o.len() + 2 as int, f.len() - 1),
                    )
            }),
    {
        let ghost o = self.sent();
        self.send(&SqlStatement { sql: BEGIN, params: Vec::new() })?;
        let found = match self.get_recording(recording_id) {
            Ok(found) => found,
            Err(e) => {
                let _ = self.send(&SqlStatement { sql: ROLLBACK, params: Vec::new() });
                return Err(e);
            },
        };
        let ghost mid = self.sent();
        assert(mid.take(o.len() as int) =~= o);
        let plan = plan_correction(&found);
        let writes = match plan {
            CorrectionPlan::NotFound => {
                let _ = self.send(&SqlStatement { sql: ROLLBACK, params: Vec::new() });
                assert(self.sent().take(o.len() as int) =~= o);
                return Err(StoreError::NotFound);
            },
            _ => {
                let now = match now_rfc3339() {
                    Some(now) => now,
                    None => {
                        let _ = self.send(&SqlStatement { sql: ROLLBACK, params: Vec::new() });
                        return Err(StoreError::Clock);
                    },
                };
                match correction_statements(&plan, recording_id, user_correction, now.as_str()) {
                    Ok(ws) => ws,
                    Err(e) => {
                        let _ = self.send(&SqlStatement { sql: ROLLBACK, params: Vec::new() });
                        return Err(e);
                    },
                }
            },
        };
        proof {
            let rec = found.unwrap();
            if has_transcription(rec) {
                let now = writes@[1].params@[2]->Text_0@;
                assert(is_insert(writes@[1], rec.whisper_output.unwrap()@, user_correction@, now));
            }
            assert(correction_writes(rec, recording_id, user_correction@, writes@));
        }
        let mut i: usize = 0;
        while i < writes.len()
            invariant
                i <= writes@.len(),
                self.sent() == mid + writes@.take(i as int),
            decreases writes@.len() - i,
        {
            match self.send(&writes[i]) {
                Ok(_) => {},
                Err(e) => {
                    let _ = self.send(&SqlStatement { sql: ROLLBACK, params: Vec::new() });
                    return Err(e);
                },
            }
            assert(writes@.take(i + 1) =~= writes@.take(i as int).push(writes@[i as int]));
            i = i + 1;
        }
        self.send(&SqlStatement { sql: COMMIT, params: Vec::new() })?;
        proof {
            let f = self.sent();
            assert(writes@.take(writes@.len() as int) =~= writes@);
            assert(f.subrange(o.len() + 2 as int, f.len() - 1) =~= writes@);
            assert(f.take(o.len() as int) =~= o);
        }
        Ok(())
    }

    /// Removes the recording; its correction patterns stay.
    pub fn delete_recording(&mut self, recording_id: i64) -> (r: Result<(), StoreError>)
        ensures
            one_more(old(self).sent(), final(self).sent()),
            is_with_int(final(self).sent().last(), DELETE_ONE@, recording_id),
            r is Err ==> r->Err_0 is Storage,
    {
        self.send(&SqlStatement { sql: DELETE_ONE, params: vec![SqlParam::Integer(recording_id)] })?;
        Ok(())
    }

    /// All correction patterns, the newest first: hands SQLite the query for
    /// them, and returns what `corrections_from_rows` makes of its rows.
    pub fn get_corrections(&mut self) -> (r: Result<Vec<Correction>, StoreError>)
        ensures
            one_more(old(self).sent(), final(self).sent()),
            is_plain(final(self).sent().last(), SELECT_PATTERNS@),
            r is Ok ==> created_descending(r->Ok_0@),
    {
        let rows = self.fetch(&SqlStatement { sql: SELECT_PATTERNS, params: Vec::new() })?;
        corrections_from_rows(&rows)
    }

    /// The prompt context of the stored correction patterns.
    pub fn export_corrections_for_prompt(&mut self) -> (r: Result<String, StoreError>)
        ensures
            one_more(old(self).sent(), final(self).sent()),
            is_plain(final(self).sent().last(), SELECT_PATTERNS@),
            r is Ok ==> exists|cs: Seq<Correction>|
                created_descending(cs) && r->Ok_0@ == #[trigger] context_text(cs),
    {
        let corrections = self.get_corrections()?;
        let text = prompt_context(&corrections);
        assert(text@ == context_text(corrections@));
        Ok(text)
    }
}

/// What `find_recording` returns is a recording with the id asked for, or
/// none, or `MalformedRow`.
proof fn lemma_find_recording(rows: Seq<Seq<SqlValue>>, id: i64)
    ensures
        find_recording(rows, id) is Ok && find_recording(rows, id)->Ok_0 is Some ==> find_recording(
            rows,
            id,
        )->Ok_0->Some_0.id == id,
        find_recording(rows, id) is Err ==> find_recording(rows, id)->Err_0 is MalformedRow,
    decreases rows.len(),
{
    if rows.len() > 0 {
        lemma_find_recording(rows.skip(1), id);
    }
}

} // verus!
