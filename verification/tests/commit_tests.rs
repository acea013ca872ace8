use forge_core::commit_message::{CommitMessageGenerator, CommitMessageError};
use forge_core::commit_validator::{CommitValidator, WarningSeverity};

#[test]
fn test_sanitize_title_removes_conversational_prefixes() {
    assert_eq!(
        CommitMessageGenerator::sanitize_title("Perfect! Let me create a summary for you:"),
        "create a summary for you:"
    );

    assert_eq!(
        CommitMessageGenerator::sanitize_title(
            "Good, I can see the pattern. Now let me create the complete…"
        ),
        "the pattern. Now let me create the complete"
    );

    assert_eq!(
        CommitMessageGenerator::sanitize_title("Let me implement the feature"),
        "implement the feature"
    );
}

#[test]
fn test_sanitize_title_takes_first_line() {
    assert_eq!(
        CommitMessageGenerator::sanitize_title("First line\nSecond line\nThird line"),
        "First line"
    );
}

#[test]
fn test_sanitize_title_truncates_long_lines() {
    let long_title = "a".repeat(100);
    let result = CommitMessageGenerator::sanitize_title(&long_title);
    // 72 chars, not 72 bytes
    assert_eq!(result.chars().count(), 72);
}

#[test]
fn test_sanitize_title_handles_emoji_truncation() {
    // Emoji are 4 bytes each, this tests UTF-8 safe truncation
    let title_with_emoji = format!("{}🚀🎉✨", "a".repeat(70));
    let result = CommitMessageGenerator::sanitize_title(&title_with_emoji);
    // Should truncate to 72 chars without panicking
    assert_eq!(result.chars().count(), 72);
    assert!(result.ends_with("🚀🎉")); // 70 a's + 2 emoji = 72 chars
}

#[test]
fn test_sanitize_title_handles_cjk_characters() {
    // CJK characters are 3 bytes each
    let cjk_title = "这是一个很长的中文标题需要被截断到七十二个字符以内测试多字节字符处理";
    let result = CommitMessageGenerator::sanitize_title(cjk_title);
    // Should not panic and should truncate by char count
    assert!(result.chars().count() <= 72);
}

#[test]
fn test_is_valid_commit_message() {
    assert!(CommitMessageGenerator::is_valid_commit_message("feat: add new feature"));

    assert!(!CommitMessageGenerator::is_valid_commit_message("Perfect! Let me help you"));

    assert!(!CommitMessageGenerator::is_valid_commit_message(""));

    assert!(!CommitMessageGenerator::is_valid_commit_message("abc")); // Too short
}

#[test]
fn test_sanitize_and_format_with_issue() {
    let result =
        CommitMessageGenerator::sanitize_and_format("implement OAuth login", None, Some(123));

    assert_eq!(result, "implement OAuth login (#123)");
}

#[test]
fn test_sanitize_and_format_with_description() {
    let result = CommitMessageGenerator::sanitize_and_format(
        "add user authentication",
        Some("This feature adds OAuth support\nWith Google integration"),
        None,
    );

    assert!(result.contains("add user authentication"));
    assert!(result.contains("This feature adds OAuth support"));
    assert!(result.contains("With Google integration"));
}

#[test]
fn test_sanitize_description_filters_markdown_tables() {
    let desc =
        "| Column 1 | Column 2 |\n|----------|----------|\n| Value 1  | Value 2  |\nRegular text here";

    let result = CommitMessageGenerator::sanitize_description(desc);

    assert!(!result.contains('|'));
    assert!(result.contains("Regular text here"));
}

#[test]
fn test_validate_good_message() {
    let msg = "feat: add user authentication (#123)";
    let warnings = CommitValidator::validate(msg);

    // Should have no errors or warnings, just optional info
    assert!(warnings.iter().all(|w| w.severity != WarningSeverity::Error));
}

#[test]
fn test_validate_conversational_message() {
    let msg = "Perfect! Let me create a summary for you:";
    let warnings = CommitValidator::validate(msg);

    assert!(warnings.iter().any(|w| w.severity == WarningSeverity::Error));
}

#[test]
fn test_validate_long_subject() {
    let msg = "a".repeat(100);
    let warnings = CommitValidator::validate(&msg);

    assert!(warnings
        .iter()
        .any(|w| w.severity == WarningSeverity::Warning && w.message.contains("characters")));
}

#[test]
fn validate_reports_exact_subject_length() {
    let msg = "a".repeat(100);
    let warnings = CommitValidator::validate(&msg);
    assert!(warnings
        .iter()
        .any(|w| w.message == "Subject line is 100 characters (recommended: 50, max: 72)"));
}

#[test]
fn valid_message_length_boundaries() {
    // The first line must be longer than 5 and shorter than 200 bytes.
    assert!(!CommitMessageGenerator::is_valid_commit_message("abcde"));
    assert!(CommitMessageGenerator::is_valid_commit_message("abcdef"));
    assert!(CommitMessageGenerator::is_valid_commit_message(&"x".repeat(199)));
    assert!(!CommitMessageGenerator::is_valid_commit_message(&"x".repeat(200)));
}

#[test]
fn test_follows_conventional_commits() {
    assert!(CommitValidator::follows_conventional_commits("feat: add feature"));
    assert!(CommitValidator::follows_conventional_commits("fix(auth): correct login bug"));
    assert!(!CommitValidator::follows_conventional_commits("Perfect! Let me help"));
    assert!(!CommitValidator::follows_conventional_commits("random commit message"));
}

#[test]
fn test_has_issue_reference() {
    assert!(CommitValidator::has_issue_reference("fix: bug (#123)"));
    assert!(CommitValidator::has_issue_reference("feat: feature\n\nCloses #456"));
    assert!(!CommitValidator::has_issue_reference("fix: bug"));
}

#[test]
fn generate_prefers_valid_executor_message() {
    let generator = CommitMessageGenerator::new();
    let result = generator.generate(
        "Let me fix the login bug",
        None,
        Some(7),
        Some("fix: correct login redirect"),
    );
    assert_eq!(result.unwrap(), "fix: correct login redirect");
}

#[test]
fn generate_falls_back_on_conversational_executor_message() {
    let generator = CommitMessageGenerator::new();
    let result = generator.generate(
        "Let me fix the login bug",
        None,
        Some(7),
        Some("Perfect! Let me fix that for you"),
    );
    assert_eq!(result.unwrap(), "fix the login bug (#7)");
}

#[test]
fn generate_without_executor_message_formats_title() {
    let generator = CommitMessageGenerator::new();
    let result = generator.generate("  add telemetry  ", None, None, None);
    assert_eq!(result.unwrap(), "add telemetry");
}

#[test]
fn generate_never_fails() {
    let generator = CommitMessageGenerator::new();
    let result: Result<String, CommitMessageError> = generator.generate("", None, None, None);
    assert!(result.is_ok());
}

#[test]
fn sanitize_title_strips_trailing_ellipses() {
    assert_eq!(CommitMessageGenerator::sanitize_title("add caching..."), "add caching");
    assert_eq!(CommitMessageGenerator::sanitize_title("add caching…"), "add caching");
}

#[test]
fn sanitize_description_skips_leading_blank_lines_and_caps_at_ten() {
    let desc = "\n\n## Heading\nline one\nline two";
    let result = CommitMessageGenerator::sanitize_description(desc);
    assert_eq!(result, "line one\nline two");

    let many: Vec<String> = (0..15).map(|i| format!("line {}", i)).collect();
    let long = many.join("\n");
    let capped = CommitMessageGenerator::sanitize_description(&long);
    assert_eq!(capped.lines().count(), 10);
}

#[test]
fn sanitize_and_format_drops_long_description() {
    let long_desc = "x".repeat(600);
    let result =
        CommitMessageGenerator::sanitize_and_format("tidy up", Some(long_desc.as_str()), None);
    assert_eq!(result, "tidy up");
}

#[test]
fn validate_flags_internal_identifier() {
    let warnings = CommitValidator::validate("fix: automagik-forge paths (#1)");
    assert!(warnings
        .iter()
        .any(|w| w.severity == WarningSeverity::Warning && w.message.contains("internal")));
}

#[test]
fn validate_flags_markdown_tables() {
    let msg = "fix: tables (#2)\n\n| a | b |\n| - | - |\n| 1 | 2 |";
    let warnings = CommitValidator::validate(msg);
    assert!(warnings.iter().any(|w| w.severity == WarningSeverity::Info
        && w.message.contains("markdown")));
}

#[test]
fn validate_suggests_issue_reference() {
    let warnings = CommitValidator::validate("fix: no reference here");
    assert!(warnings
        .iter()
        .any(|w| w.severity == WarningSeverity::Info && w.message.contains("issue reference")));
}
