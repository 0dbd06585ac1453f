use dictation_history::context::prompt_context;
use dictation_history::records::{
    correction_from_row, recording_from_row, Correction, Recording, SqlParam, SqlValue,
};
use dictation_history::store::{
    correction_statements, correction_text, corrections_from_rows, plan_correction,
    recording_in_rows, recordings_from_rows, CorrectionPlan, StoreError, INSERT_PATTERN,
    UPDATE_CORRECTION,
};

fn c(w: &str, t: &str) -> Correction {
    Correction { id: 1, whisper_pattern: w.to_string(), intended_text: t.to_string(), created_at: "now".to_string() }
}

fn rec(whisper: Option<&str>) -> Recording {
    Recording {
        id: 7,
        timestamp: "2024-05-01T10:00:00Z".to_string(),
        whisper_output: whisper.map(|s| s.to_string()),
        llm_output: None,
        user_correction: None,
        audio_duration_ms: 0,
        whisper_duration_ms: 0,
        llm_duration_ms: 0,
        total_duration_ms: 0,
        success: true,
        error_message: None,
    }
}

#[test]
fn prompt_context_of_one_pattern() {
    let text = prompt_context(&vec![c("hallo welt", "Hallo, Welt!")]);
    assert_eq!(
        text,
        "\n\nUser correction patterns (use these to better understand what the user means):\n\
- When transcribed as \"hallo welt\", the user meant: \"Hallo, Welt!\""
    );
}

#[test]
fn prompt_context_keeps_quotes_and_order() {
    let text = prompt_context(&vec![c("a \"b\"", "c"), c("d", "e")]);
    assert!(text.ends_with(
        "\n- When transcribed as \"a \"b\"\", the user meant: \"c\"\n- When transcribed as \"d\", the user meant: \"e\""
    ));
}

#[test]
fn prompt_context_empty_and_capped() {
    assert_eq!(prompt_context(&vec![]), "");
    let many: Vec<Correction> = (0..25).map(|i| c(&format!("w{}", i), &format!("t{}", i))).collect();
    let text = prompt_context(&many);
    assert_eq!(text.matches("- When transcribed").count(), 20);
    assert!(text.contains("\"w19\""));
    assert!(!text.contains("\"w20\""));
    let twenty: Vec<Correction> = many[..20].to_vec();
    assert_eq!(prompt_context(&twenty), text);
}

#[test]
fn rows_decode_with_defaults() {
    let row = vec![
        SqlValue::Integer(3),
        SqlValue::Text("ts".to_string()),
        SqlValue::Text("w".to_string()),
        SqlValue::Null,
        SqlValue::Null,
        SqlValue::Integer(10),
        SqlValue::Null,
        SqlValue::Text("x".to_string()),
        SqlValue::Real,
        SqlValue::Integer(0),
        SqlValue::Null,
    ];
    let r = recording_from_row(&row).unwrap();
    assert_eq!(r.id, 3);
    assert_eq!(r.timestamp, "ts");
    assert_eq!(r.whisper_output.as_deref(), Some("w"));
    assert_eq!(r.audio_duration_ms, 10);
    assert_eq!(r.whisper_duration_ms, 0);
    assert_eq!(r.llm_duration_ms, 0);
    assert_eq!(r.total_duration_ms, 0);
    assert!(!r.success);
    let mut bad = row.clone();
    bad[2] = SqlValue::Integer(1);
    assert!(recording_from_row(&bad).is_none());
    assert!(recording_from_row(&row[..10].to_vec()).is_none());
}

#[test]
fn correction_rows_decode() {
    let row = vec![
        SqlValue::Integer(1),
        SqlValue::Text("w".to_string()),
        SqlValue::Text("t".to_string()),
        SqlValue::Text("c".to_string()),
    ];
    let k = correction_from_row(&row).unwrap();
    assert_eq!((k.id, k.whisper_pattern.as_str(), k.intended_text.as_str()), (1, "w", "t"));
    let bad = vec![SqlValue::Integer(1), SqlValue::Null, SqlValue::Text("t".to_string()), SqlValue::Blob(vec![1])];
    assert!(correction_from_row(&bad).is_none());
}

#[test]
fn correction_plans() {
    assert!(matches!(plan_correction(&None), CorrectionPlan::NotFound));
    assert!(matches!(plan_correction(&Some(rec(None))), CorrectionPlan::UpdateOnly));
    assert!(matches!(plan_correction(&Some(rec(Some("")))), CorrectionPlan::UpdateOnly));
    match plan_correction(&Some(rec(Some("hallo")))) {
        CorrectionPlan::UpdateAndRecord { whisper_pattern } => assert_eq!(whisper_pattern, "hallo"),
        _ => panic!("expected a pattern"),
    }
}

#[test]
fn typed_corrections_are_trimmed() {
    assert_eq!(correction_text("  Hallo, Welt!\n"), Some("Hallo, Welt!"));
    assert_eq!(correction_text(" \t\n"), None);
    assert_eq!(correction_text(""), None);
}

fn row(id: i64, ts: &str) -> Vec<SqlValue> {
    let mut r = vec![SqlValue::Integer(id), SqlValue::Text(ts.to_string())];
    r.extend(vec![SqlValue::Null; 9]);
    r
}

fn pattern_row(id: i64, created: &str) -> Vec<SqlValue> {
    vec![
        SqlValue::Integer(id),
        SqlValue::Text("w".to_string()),
        SqlValue::Text("t".to_string()),
        SqlValue::Text(created.to_string()),
    ]
}

fn text(p: &SqlParam) -> &str {
    match p {
        SqlParam::Text(t) => t.as_str(),
        SqlParam::Integer(_) => panic!("expected text"),
    }
}

#[test]
fn statements_for_each_plan() {
    assert!(matches!(correction_statements(&CorrectionPlan::NotFound, 4, "x", "now"), Err(StoreError::NotFound)));
    let only = correction_statements(&CorrectionPlan::UpdateOnly, 4, "x", "now").unwrap();
    assert_eq!(only.len(), 1);
    assert_eq!(only[0].sql, UPDATE_CORRECTION);
    assert_eq!(text(&only[0].params[0]), "x");
    assert!(matches!(only[0].params[1], SqlParam::Integer(4)));
    let plan = CorrectionPlan::UpdateAndRecord { whisper_pattern: "hallo welt".to_string() };
    let both = correction_statements(&plan, 4, "Hallo, Welt!", "2024-05-01T10:00:00+00:00").unwrap();
    assert_eq!(both.len(), 2);
    assert_eq!(both[1].sql, INSERT_PATTERN);
    let ps: Vec<&str> = both[1].params.iter().map(text).collect();
    assert_eq!(ps, vec!["hallo welt", "Hallo, Welt!", "2024-05-01T10:00:00+00:00"]);
}

#[test]
fn recording_rows_are_bounded_and_checked() {
    let rows = vec![row(3, "2024-05-03"), row(2, "2024-05-02"), row(1, "2024-05-01")];
    let two = recordings_from_rows(&rows, 2).unwrap();
    assert_eq!(two.iter().map(|r| r.id).collect::<Vec<_>>(), vec![3, 2]);
    assert_eq!(recordings_from_rows(&rows, 10).unwrap().len(), 3);
    assert_eq!(recordings_from_rows(&rows, 0).unwrap().len(), 0);
    let unordered = vec![row(1, "2024-05-01"), row(2, "2024-05-02")];
    assert!(matches!(recordings_from_rows(&unordered, 10), Err(StoreError::OutOfOrder)));
    assert_eq!(recordings_from_rows(&unordered, 1).unwrap().len(), 1);
    let mut broken = rows.clone();
    broken[2][0] = SqlValue::Null;
    assert!(matches!(recordings_from_rows(&broken, 10), Err(StoreError::MalformedRow)));
    assert_eq!(recordings_from_rows(&broken, 2).unwrap().len(), 2);
}

#[test]
fn pattern_rows_are_checked() {
    let rows = vec![pattern_row(2, "2024-05-02"), pattern_row(1, "2024-05-01")];
    assert_eq!(corrections_from_rows(&rows).unwrap().len(), 2);
    let unordered = vec![pattern_row(1, "2024-05-01"), pattern_row(2, "2024-05-02")];
    assert!(matches!(corrections_from_rows(&unordered), Err(StoreError::OutOfOrder)));
    let broken = vec![vec![SqlValue::Integer(1)]];
    assert!(matches!(corrections_from_rows(&broken), Err(StoreError::MalformedRow)));
}

#[test]
fn recording_lookup_in_rows() {
    let rows = vec![row(5, "a"), row(6, "b")];
    assert_eq!(recording_in_rows(&rows, 6).unwrap().unwrap().timestamp, "b");
    assert!(recording_in_rows(&rows, 7).unwrap().is_none());
    assert!(recording_in_rows(&vec![], 7).unwrap().is_none());
    assert!(matches!(recording_in_rows(&vec![vec![SqlValue::Real]], 7), Err(StoreError::MalformedRow)));
}
