//! Recordings, correction patterns, the decoding of stored rows into them, and
//! the prompt context derived from the patterns.
use vstd::prelude::*;

verus! {

/// One dictation run, as written by the dictation pipeline.
#[derive(Clone, Debug)]
pub struct Recording {
    pub id: i64,
    pub timestamp: String,
    pub whisper_output: Option<String>,
    pub llm_output: Option<String>,
    pub user_correction: Option<String>,
    pub audio_duration_ms: i64,
    pub whisper_duration_ms: i64,
    pub llm_duration_ms: i64,
    pub total_duration_ms: i64,
    pub success: bool,
    pub error_message: Option<String>,
}

/// One pair of a raw transcription and the text the user meant.
#[derive(Clone, Debug)]
pub struct Correction {
    pub id: i64,
    pub whisper_pattern: String,
    pub intended_text: String,
    pub created_at: String,
}

/// A value of one column of a stored row.
#[derive(Clone, Debug)]
pub enum SqlValue {
    Null,
    Integer(i64),
    /// A floating-point value, whose number is not kept.
    Real,
    Text(String),
    Blob(Vec<u8>),
}

/// A value bound to a parameter of a statement.
#[derive(Clone, Debug)]
pub enum SqlParam {
    Integer(i64),
    Text(String),
}

pub open spec fn int_cell(v: SqlValue) -> Option<i64> {
    match v {
        SqlValue::Integer(i) => Some(i),
        _ => None,
    }
}

pub open spec fn text_cell(v: SqlValue) -> Option<String> {
    match v {
        SqlValue::Text(s) => Some(s),
        _ => None,
    }
}

/// A nullable text column: `Some(None)` for NULL, `None` for a value of
/// another type.
pub open spec fn opt_text_cell(v: SqlValue) -> Option<Option<String>> {
    match v {
        SqlValue::Null => Some(None),
        SqlValue::Text(s) => Some(Some(s)),
        _ => None,
    }
}

/// An integer column, or `d` where it holds no integer.
pub open spec fn int_or(v: SqlValue, d: i64) -> i64 {
    match v {
        SqlValue::Integer(i) => i,
        _ => d,
    }
}

/// The recording stored in `row` (the columns of the recordings table in
/// order), or `None` where a required column has the wrong type. Durations
/// that are not integers read as 0; a success flag that is not an integer
/// reads as true.
pub open spec fn decode_recording(row: Seq<SqlValue>) -> Option<Recording> {
    if row.len() < 11 || int_cell(row[0]) is None || text_cell(row[1]) is None || opt_text_cell(
        row[2],
    ) is None || opt_text_cell(row[3]) is None || opt_text_cell(row[4]) is None || opt_text_cell(
        row[10],
    ) is None {
        None
    } else {
        Some(
            Recording {
                id: int_cell(row[0]).unwrap(),
                timestamp: text_cell(row[1]).unwrap(),
                whisper_output: opt_text_cell(row[2]).unwrap(),
                llm_output: opt_text_cell(row[3]).unwrap(),
                user_correction: opt_text_cell(row[4]).unwrap(),
                audio_duration_ms: int_or(row[5], 0),
                whisper_duration_ms: int_or(row[6], 0),
                llm_duration_ms: int_or(row[7], 0),
                total_duration_ms: int_or(row[8], 0),
                success: int_or(row[9], 1) != 0,
                error_message: opt_text_cell(row[10]).unwrap(),
            },
        )
    }
}

/// The correction pattern stored in `row`, or `None` where a column has the
/// wrong type.
pub open spec fn decode_correction(row: Seq<SqlValue>) -> Option<Correction> {
    if row.len() < 4 || int_cell(row[0]) is None || text_cell(row[1]) is None || text_cell(row[2])
        is None || text_cell(row[3]) is None {
        None
    } else {
        Some(
            Correction {
                id: int_cell(row[0]).unwrap(),
                whisper_pattern: text_cell(row[1]).unwrap(),
                intended_text: text_cell(row[2]).unwrap(),
                created_at: text_cell(row[3]).unwrap(),
            },
        )
    }
}

fn int_value(v: &SqlValue) -> (r: Option<i64>)
    ensures
        r == int_cell(*v),
{
    match v {
        SqlValue::Integer(i) => Some(*i),
        _ => None,
    }
}

fn text_value(v: &SqlValue) -> (r: Option<String>)
    ensures
        r == text_cell(*v),
{
    match v {
        SqlValue::Text(s) => Some(s.clone()),
        _ => None,
    }
}

fn opt_text_value(v: &SqlValue) -> (r: Option<Option<String>>)
    ensures
        r == opt_text_cell(*v),
{
    match v {
        SqlValue::Null => Some(None),
        SqlValue::Text(s) => Some(Some(s.clone())),
        _ => None,
    }
}

fn int_value_or(v: &SqlValue, d: i64) -> (r: i64)
    ensures
        r == int_or(*v, d),
{
    match v {
        SqlValue::Integer(i) => *i,
        _ => d,
    }
}

/// Reads a row of the recordings table.
pub fn recording_from_row(row: &Vec<SqlValue>) -> (r: Option<Recording>)
    ensures
        r == decode_recording(row@),
{
    if row.len() < 11 {
        return None;
    }
    let id = match int_value(&row[0]) {
        Some(v) => v,
        None => return None,
    };
    let timestamp = match text_value(&row[1]) {
        Some(v) => v,
        None => return None,
    };
    let whisper_output = match opt_text_value(&row[2]) {
        Some(v) => v,
        None => return None,
    };
    let llm_output = match opt_text_value(&row[3]) {
        Some(v) => v,
        None => return None,
    };
    let user_correction = match opt_text_value(&row[4]) {
        Some(v) => v,
        None => return None,
    };
    let error_message = match opt_text_value(&row[10]) {
        Some(v) => v,
        None => return None,
    };
    Some(
        Recording {
            id,
            timestamp,
            whisper_output,
            llm_output,
            user_correction,
            audio_duration_ms: int_value_or(&row[5], 0),
            whisper_duration_ms: int_value_or(&row[6], 0),
            llm_duration_ms: int_value_or(&row[7], 0),
            total_duration_ms: int_value_or(&row[8], 0),
            success: int_value_or(&row[9], 1) != 0,
            error_message,
        },
    )
}

/// Reads a row of the corrections table.
pub fn correction_from_row(row: &Vec<SqlValue>) -> (r: Option<Correction>)
    ensures
        r == decode_correction(row@),
{
    if row.len() < 4 {
        return None;
    }
    let id = match int_value(&row[0]) {
        Some(v) => v,
        None => return None,
    };
    let whisper_pattern = match text_value(&row[1]) {
        Some(v) => v,
        None => return None,
    };
    let intended_text = match text_value(&row[2]) {
        Some(v) => v,
        None => return None,
    };
    let created_at = match text_value(&row[3]) {
        Some(v) => v,
        None => return None,
    };
    Some(Correction { id, whisper_pattern, intended_text, created_at })
}

} // verus!
