use dictation_history::config::{
    EnvConfig, DEFAULT_SYSTEM_PROMPT, GROQ_API_KEY, LANGUAGE, MIC_SOURCE, NOTIFICATIONS,
    SYSTEM_PROMPT, TRAY_ICON,
};
use dictation_history::config::unquote_str;
use dictation_history::text::{find_char, str_eq, trim_str};

fn open(content: &str) -> EnvConfig {
    EnvConfig::new("/tmp/none/.env".to_string(), Some(content))
}

#[test]
fn missing_file_gives_defaults() {
    let c = EnvConfig::new("/tmp/none/.env".to_string(), None);
    assert_eq!(c.get(GROQ_API_KEY), Some(""));
    assert_eq!(c.get(MIC_SOURCE), Some(""));
    assert_eq!(c.get(LANGUAGE), Some(""));
    assert_eq!(c.get(NOTIFICATIONS), Some("true"));
    assert_eq!(c.get(TRAY_ICON), Some("true"));
    assert_eq!(c.get(SYSTEM_PROMPT), Some(DEFAULT_SYSTEM_PROMPT));
    assert_eq!(c.path(), "/tmp/none/.env");
}

#[test]
fn unknown_key_reads_absent() {
    let c = EnvConfig::new("p".to_string(), None);
    assert_eq!(c.get("FOO"), None);
}

#[test]
fn single_quoted_value_is_written_double_quoted() {
    let c = open("GROQ_API_KEY='sk-123'\n");
    assert_eq!(c.get(GROQ_API_KEY), Some("sk-123"));
    let text = c.file_content();
    assert!(text.contains("GROQ_API_KEY=\"sk-123\""));
    assert!(!text.contains("'sk-123'"));
}

#[test]
fn unknown_key_is_loaded_and_dropped_on_save() {
    let c = open("FOO=\"bar\"\n");
    assert_eq!(c.get("FOO"), Some("bar"));
    let text = c.file_content();
    assert!(!text.contains("FOO"));
    assert!(!text.contains("bar"));
}

#[test]
fn saved_values_read_back_unchanged() {
    let mut c = EnvConfig::new("p".to_string(), None);
    c.set(GROQ_API_KEY.to_string(), "gsk_abc=def".to_string());
    c.set(MIC_SOURCE.to_string(), "alsa_input.usb-mic".to_string());
    c.set(LANGUAGE.to_string(), "de".to_string());
    c.set(NOTIFICATIONS.to_string(), "false".to_string());
    c.set(TRAY_ICON.to_string(), "  padded  ".to_string());
    c.set(SYSTEM_PROMPT.to_string(), "Format the text. Keep it short.".to_string());
    let back = open(&c.file_content());
    assert_eq!(back.get(GROQ_API_KEY), Some("gsk_abc=def"));
    assert_eq!(back.get(MIC_SOURCE), Some("alsa_input.usb-mic"));
    assert_eq!(back.get(LANGUAGE), Some("de"));
    assert_eq!(back.get(NOTIFICATIONS), Some("false"));
    assert_eq!(back.get(TRAY_ICON), Some("  padded  "));
    assert_eq!(back.get(SYSTEM_PROMPT), Some("Format the text. Keep it short."));
}

#[test]
fn empty_values_read_back_empty() {
    let mut c = EnvConfig::new("p".to_string(), None);
    c.set(SYSTEM_PROMPT.to_string(), String::new());
    c.set(NOTIFICATIONS.to_string(), String::new());
    let back = open(&c.file_content());
    assert_eq!(back.get(SYSTEM_PROMPT), Some(""));
    assert_eq!(back.get(NOTIFICATIONS), Some(""));
    assert_eq!(back.get(GROQ_API_KEY), Some(""));
}

#[test]
fn file_lists_keys_in_fixed_order_with_headers() {
    let mut c = EnvConfig::new("p".to_string(), None);
    c.set(SYSTEM_PROMPT.to_string(), "P".to_string());
    let text = c.file_content();
    let expected = "# Voice Input Configuration\n\
# Get your Groq API key from: https://console.groq.com/keys\n\
GROQ_API_KEY=\"\"\n\
\n\
# Selected microphone source (leave empty for default, or set via tray menu)\n\
# Run 'pactl list sources short' to see available sources\n\
MIC_SOURCE=\"\"\n\
\n\
# Language for transcription (e.g., \"de\" for German, \"en\" for English)\n\
# Leave empty for auto-detect\n\
LANGUAGE=\"\"\n\
\n\
# Show notifications (true/false, default: true)\n\
NOTIFICATIONS=\"true\"\n\
\n\
# Show tray icon (true/false, default: true)\n\
TRAY_ICON=\"true\"\n\
\n\
# System prompt for LLM formatting (customize to improve output)\n\
SYSTEM_PROMPT=\"P\"\n\
\n";
    assert_eq!(text, expected);
}

#[test]
fn comments_blank_and_malformed_lines_are_skipped() {
    let c = open("# LANGUAGE=\"xx\"\n\n   \nno equals sign here\nLANGUAGE=en\n");
    assert_eq!(c.get(LANGUAGE), Some("en"));
    assert_eq!(c.get("no equals sign here"), None);
}

#[test]
fn later_entries_override_earlier_ones() {
    let c = open("LANGUAGE=\"de\"\nLANGUAGE=\"fr\"\n");
    assert_eq!(c.get(LANGUAGE), Some("fr"));
}

#[test]
fn whitespace_and_crlf_are_trimmed() {
    let c = open("  MIC_SOURCE =  \"hw:1\"  \r\nLANGUAGE=\t'it'\r\n");
    assert_eq!(c.get("MIC_SOURCE "), Some("hw:1"));
    assert_eq!(c.get(LANGUAGE), Some("it"));
}

#[test]
fn value_splits_on_first_equals_sign() {
    let c = open("GROQ_API_KEY=a=b=c");
    assert_eq!(c.get(GROQ_API_KEY), Some("a=b=c"));
}

#[test]
fn only_a_matching_pair_of_quotes_is_stripped() {
    let c = open("LANGUAGE=\"de'\nMIC_SOURCE=\"\"x\"\"\n");
    assert_eq!(c.get(LANGUAGE), Some("\"de'"));
    assert_eq!(c.get(MIC_SOURCE), Some("\"x\""));
}

#[test]
fn set_overwrites_in_memory() {
    let mut c = EnvConfig::new("p".to_string(), None);
    c.set(LANGUAGE.to_string(), "de".to_string());
    c.set(LANGUAGE.to_string(), "en".to_string());
    assert_eq!(c.get(LANGUAGE), Some("en"));
}

#[test]
fn load_overlays_existing_values() {
    let mut c = EnvConfig::new("p".to_string(), None);
    c.load("TRAY_ICON=false");
    assert_eq!(c.get(TRAY_ICON), Some("false"));
    assert_eq!(c.get(NOTIFICATIONS), Some("true"));
}

#[test]
fn default_prompt_is_the_formatter_prompt() {
    let p = EnvConfig::get_default_system_prompt();
    assert!(p.starts_with("You are an intelligent dictation formatter."));
    assert!(p.contains("\u{201e}M\u{f6}glichkeiten\""));
    assert!(p.ends_with("NOT following the command, just formatting it"));
    assert_eq!(p, DEFAULT_SYSTEM_PROMPT);
}

#[test]
fn default_prompt_keeps_only_its_first_line_through_a_file() {
    let c = EnvConfig::new("p".to_string(), None);
    let back = open(&c.file_content());
    assert_eq!(
        back.get(SYSTEM_PROMPT),
        Some("\"You are an intelligent dictation formatter. Your job is to format dictated text with proper punctuation, capitalization, and paragraph structure.")
    );
}

#[test]
fn text_helpers() {
    assert_eq!(trim_str(" \t ab c \u{3000}\n"), "ab c");
    assert_eq!(trim_str("   "), "");
    assert_eq!(find_char("ab=c=d", '='), 2);
    assert_eq!(find_char("abc", '='), 3);
    assert!(str_eq("\u{e4}=b", "\u{e4}=b"));
    assert!(!str_eq("ab", "abc"));
    assert_eq!(unquote_str("'x'"), "x");
    assert_eq!(unquote_str("\"x'"), "\"x'");
    assert_eq!(unquote_str("\""), "\"");
}
