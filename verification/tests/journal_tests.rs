use chrono::Datelike;

use local_shelf::config::Config;
use local_shelf::journal_management::{
    Date, JournalEntry, JournalError, JournalManager, journal_file_name,
};
use local_shelf::lines::render_payload;

fn test_config(kb_path: &str) -> Config {
    Config {
        knowledge_base_path: kb_path.to_string(),
    }
}

fn today_file_name() -> String {
    let today = chrono::Local::now().date_naive();
    format!("{:04}_{:02}_{:02}.md", today.year(), today.month(), today.day())
}

fn is_entry_line(line: &str, stem: &str) -> bool {
    let chars: Vec<char> = line.chars().collect();
    line.starts_with("- **")
        && chars.len() > 12
        && chars[4].is_ascii_digit()
        && chars[5].is_ascii_digit()
        && chars[6] == ':'
        && chars[7].is_ascii_digit()
        && chars[8].is_ascii_digit()
        && line[9..].starts_with("** [[")
        && line.ends_with(&format!("[[{}]]", stem))
}

#[test]
fn test_journal_entry_creation() {
    let entry = JournalEntry::new("test_article.md").unwrap();

    assert_eq!(entry.filename, "test_article");
    assert!(entry.timestamp.len() == 5); // HH:MM format
    assert!(entry.timestamp.contains(':'));
}

#[test]
fn test_journal_entry_formatting() {
    let entry = JournalEntry {
        timestamp: "14:30".to_string(),
        filename: "my_article".to_string(),
    };

    let formatted = entry.format();
    assert_eq!(formatted, "- **14:30** [[my_article]]");
}

#[test]
fn test_journal_entry_with_complex_filename() {
    let entry = JournalEntry::new("Complex File Name-With_Special.Characters.md").unwrap();

    assert_eq!(entry.filename, "Complex File Name-With_Special.Characters");
}

#[test]
fn test_journal_entry_for_path_without_file_name() {
    let result = JournalEntry::new("pages/");
    assert!(matches!(
        result.unwrap_err(),
        JournalError::EntryFormattingError(_)
    ));
}

#[test]
fn test_get_journals_directory() {
    let config = test_config("/test/kb");
    let journals_dir = JournalManager::get_journals_directory(&config).unwrap();
    assert_eq!(journals_dir, "/test/kb/journals");
}

#[test]
fn test_get_today_journal_path() {
    let config = test_config("/test/kb");
    let journal_path = JournalManager::get_today_journal_path(&config).unwrap();

    let expected_filename = today_file_name();

    assert_eq!(journal_path.rsplit('/').next().unwrap(), expected_filename);
    assert!(journal_path.contains("/test/kb/journals/"));
}

#[test]
fn test_journal_file_name_rendering() {
    assert_eq!(
        journal_file_name(&Date { year: 2024, month: 3, day: 15 }),
        "2024_03_15.md"
    );
    assert_eq!(
        journal_file_name(&Date { year: 987, month: 12, day: 1 }),
        "0987_12_01.md"
    );
}

#[test]
fn test_parse_journal_date() {
    let valid_filename = "2024_03_15.md";
    let date = JournalManager::parse_journal_date(valid_filename).unwrap();
    assert_eq!(date, Date { year: 2024, month: 3, day: 15 });
}

#[test]
fn test_parse_journal_date_invalid_format() {
    let invalid_filename = "2024-03-15.md";
    let result = JournalManager::parse_journal_date(invalid_filename);
    assert!(result.is_err());
}

#[test]
fn test_parse_journal_date_no_extension() {
    let invalid_filename = "2024_03_15";
    let result = JournalManager::parse_journal_date(invalid_filename);
    assert!(result.is_err());
}

#[test]
fn test_parse_journal_date_calendar_validity() {
    assert!(JournalManager::parse_journal_date("2024_02_29.md").is_ok());
    assert!(JournalManager::parse_journal_date("2023_02_29.md").is_err());
    assert!(JournalManager::parse_journal_date("2000_02_29.md").is_ok());
    assert!(JournalManager::parse_journal_date("1900_02_29.md").is_err());
    assert!(JournalManager::parse_journal_date("2024_13_01.md").is_err());
    assert!(JournalManager::parse_journal_date("2024_00_10.md").is_err());
    assert!(JournalManager::parse_journal_date("2024_04_31.md").is_err());
}

#[test]
fn test_parse_rejects_unpadded_values() {
    assert!(JournalManager::parse_journal_date("2024_3_15.md").is_err());
    assert!(JournalManager::parse_journal_date("24_03_15.md").is_err());
}

#[test]
fn test_journal_names_round_trip() {
    for &(y, m, d) in &[(2024, 3, 15), (1999, 12, 31), (2000, 2, 29), (1, 1, 1)] {
        let date = Date { year: y, month: m, day: d };
        let name = journal_file_name(&date);
        assert_eq!(JournalManager::parse_journal_date(&name).unwrap(), date);
    }
}

#[test]
fn test_add_entries_plans_todays_journal() {
    let config = test_config("/kb");
    let moved = vec!["pages/a.md".to_string(), "pages/b.md".to_string()];
    let batch = JournalManager::add_entries(&moved, &config).unwrap();

    assert_eq!(batch.journals_dir, "/kb/journals");
    assert_eq!(batch.journal_path, format!("/kb/journals/{}", today_file_name()));
    assert_eq!(batch.lines.len(), 2);
    assert!(is_entry_line(&batch.lines[0], "a"));
    assert!(is_entry_line(&batch.lines[1], "b"));
}

#[test]
fn test_add_entries_empty_files_list() {
    let config = test_config("/kb");
    let moved_files: Vec<String> = vec![];
    let result = JournalManager::add_entries(&moved_files, &config);

    assert!(result.is_err());
    assert!(matches!(
        result.unwrap_err(),
        JournalError::EntryFormattingError(_)
    ));
}

#[test]
fn test_add_entries_to_new_journal() {
    let config = test_config("/kb");
    let moved = vec!["article1.md".to_string(), "article2.md".to_string()];
    let batch = JournalManager::add_entries(&moved, &config).unwrap();
    let content = render_payload(false, false, &batch.lines);

    assert!(content.contains("[[article1]]"));
    assert!(content.contains("[[article2]]"));
    assert!(content.matches("- **").count() == 2); // Two entries
}

#[test]
fn test_journal_entries_batch_processing() {
    let config = test_config("/kb");
    let moved = vec![
        "first_article.md".to_string(),
        "second_article.md".to_string(),
        "third_article.md".to_string(),
    ];
    let batch = JournalManager::add_entries(&moved, &config).unwrap();
    let content = render_payload(false, false, &batch.lines);

    assert!(content.contains("[[first_article]]"));
    assert!(content.contains("[[second_article]]"));
    assert!(content.contains("[[third_article]]"));

    let lines: Vec<&str> = content.lines().collect();
    assert_eq!(lines.len(), 3);
    for line in lines {
        assert!(line.starts_with("- **"));
        assert!(line.contains("]]"));
    }
}

#[test]
fn test_atomic_append_creates_file() {
    // A new, empty journal gets the batch's lines and nothing else.
    let lines = vec!["- **14:30** [[test_file]]".to_string()];
    let payload = render_payload(false, false, &lines);
    assert_eq!(payload, "- **14:30** [[test_file]]\n");
}

#[test]
fn test_atomic_append_to_existing_file() {
    let existing = "Initial content\n";
    let lines = vec!["- **15:45** [[new_entry]]".to_string()];
    let payload = render_payload(true, existing.ends_with('\n'), &lines);
    let final_content = format!("{}{}", existing, payload);
    assert_eq!(final_content, "Initial content\n- **15:45** [[new_entry]]\n");
}

#[test]
fn test_append_to_file_without_ending_newline() {
    // Content written without a trailing newline; the next batch first
    // closes that line with exactly one newline.
    let existing = "- **15:00** [[existing_entry]]";
    let lines = vec!["- **16:10** [[new_file]]".to_string()];
    let payload = render_payload(!existing.is_empty(), existing.ends_with('\n'), &lines);
    assert!(payload.starts_with('\n'));

    let content = format!("{}{}", existing, payload);
    let all: Vec<&str> = content.lines().collect();
    assert_eq!(all.len(), 2);
    assert!(all[0].contains("existing_entry"));
    assert!(all[1].contains("new_file"));
}

#[test]
fn test_consecutive_app_runs_spacing() {
    let config = test_config("/kb");

    // First run.
    let first = JournalManager::add_entries(&vec!["first_file.md".to_string()], &config).unwrap();
    let mut content = String::new();
    let payload = render_payload(!content.is_empty(), content.ends_with('\n'), &first.lines);
    content.push_str(&payload);

    // Second run against the content the first one left.
    let second = JournalManager::add_entries(&vec!["second_file.md".to_string()], &config).unwrap();
    let payload = render_payload(!content.is_empty(), content.ends_with('\n'), &second.lines);
    content.push_str(&payload);

    let lines: Vec<&str> = content.lines().collect();
    assert_eq!(
        lines.len(),
        2,
        "Expected 2 entries without blank line, got {} lines",
        lines.len()
    );
    assert!(!lines.iter().any(|l| l.is_empty()));
}

#[test]
fn test_batch_grows_line_count_by_batch_size() {
    let config = test_config("/kb");
    let mut content = "# heading\nsome text\n".to_string();
    let before = content.lines().count();

    let batch = JournalManager::add_entries(
        &vec!["x.md".to_string(), "y.md".to_string(), "z.md".to_string()],
        &config,
    )
    .unwrap();
    let payload = render_payload(!content.is_empty(), content.ends_with('\n'), &batch.lines);
    content.push_str(&payload);

    assert_eq!(content.lines().count(), before + 3);
}
