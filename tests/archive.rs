use ac_garden::archive::{
    archived_keys, commit_message, extract_source, is_metadata_file, plan_archive,
    source_to_archive, submission_page_url, submissions_url,
};
use ac_garden::config::{Config, Service};
use ac_garden::select::select_submissions;
use ac_garden::submission::Submission;
use ac_garden::text::decimal_text;
use ac_garden::utils::{is_dir_exist, is_file_exist};

fn abc100_a() -> Submission {
    Submission {
        id: 5007733,
        epoch_second: 1528594330,
        problem_id: "abc100_a".to_string(),
        contest_id: "abc100".to_string(),
        user_id: "alice".to_string(),
        language: "C++17".to_string(),
        point_hundredths: 10000,
        length: 321,
        result: "AC".to_string(),
        execution_time: Some(1),
    }
}

#[test]
fn end_to_end_single_accepted_submission() {
    let subs = vec![abc100_a()];
    let selected = select_submissions(&subs, &vec![]);
    assert_eq!(selected, vec![0]);
    let s = &subs[selected[0]];
    let page = "<html><body><pre id=\"submission-code\">int main() { return 0; }</pre></body></html>";
    let code = extract_source(page);
    assert_eq!(code, Some("int main() { return 0; }".to_string()));
    let plan = plan_archive(s, code, "alice@example.com").unwrap();
    assert_eq!(plan.entry_dir, vec!["atcoder.jp", "abc100", "abc100_a"]);
    assert_eq!(plan.source_file, "Main.cpp");
    assert_eq!(plan.metadata_file, "submission.json");
    assert_eq!(plan.source, "int main() { return 0; }");
    assert_eq!(plan.commit.author, "alice");
    assert_eq!(plan.commit.email, "alice@example.com");
    assert_eq!(plan.commit.time, 1528594330);
    assert_eq!(plan.commit.message, "[AC] abc100 abc100_a");
}

#[test]
fn empty_extraction_is_skipped() {
    let page = "<html><body><pre id=\"submission-code\"></pre></body></html>";
    let code = extract_source(page);
    assert_eq!(code, None);
    assert_eq!(plan_archive(&abc100_a(), code, "alice@example.com"), None);
    assert_eq!(plan_archive(&abc100_a(), Some(String::new()), "a@b"), None);
    assert_eq!(plan_archive(&abc100_a(), None, "a@b"), None);
}

#[test]
fn missing_code_element_gives_none() {
    assert_eq!(extract_source("<html><body><p>nothing</p></body></html>"), None);
}

#[test]
fn code_text_nodes_are_joined() {
    let page = "<pre id=\"submission-code\">a &lt; b<span>x</span>\ny</pre><pre id=\"submission-code\">z</pre>";
    assert_eq!(extract_source(page), Some("a < bx\ny".to_string()));
}

#[test]
fn source_kept_only_when_non_empty() {
    assert_eq!(source_to_archive(Some("x".to_string())), Some("x".to_string()));
    assert_eq!(source_to_archive(Some(String::new())), None);
    assert_eq!(source_to_archive(None), None);
}

#[test]
fn page_and_list_urls() {
    assert_eq!(
        submission_page_url(&abc100_a()),
        "https://atcoder.jp/contests/abc100/submissions/5007733"
    );
    assert_eq!(
        submissions_url("alice"),
        "https://kenkoooo.com/atcoder/atcoder-api/results?user=alice"
    );
}

#[test]
fn decimal_formatting() {
    assert_eq!(decimal_text(0), "0");
    assert_eq!(decimal_text(7), "7");
    assert_eq!(decimal_text(1234567890), "1234567890");
    assert_eq!(decimal_text(-45), "-45");
    assert_eq!(decimal_text(i64::MAX), "9223372036854775807");
    assert_eq!(decimal_text(i64::MIN), "-9223372036854775808");
}

#[test]
fn metadata_file_names() {
    assert!(is_metadata_file("submission.json"));
    assert!(is_metadata_file("old_submission.json"));
    assert!(!is_metadata_file("Main.cpp"));
    assert!(!is_metadata_file("json"));
    assert!(!is_metadata_file(""));
}

#[test]
fn keys_of_archived_records() {
    let keys = archived_keys(&vec![abc100_a()]);
    assert_eq!(keys.len(), 1);
    assert_eq!(keys[0].contest_id, "abc100");
    assert_eq!(keys[0].problem_id, "abc100_a");
    let k = abc100_a().archive_key();
    assert_eq!(k, keys[0]);
}

#[test]
fn commit_message_names_contest_and_problem() {
    assert_eq!(commit_message(&abc100_a()), "[AC] abc100 abc100_a");
}

#[test]
fn empty_config_record() {
    let c = Config::empty();
    assert_eq!(c.atcoder, Service::empty());
    assert_eq!(c.atcoder.repository_path, "");
    assert_eq!(c.atcoder.user_id, "");
    assert_eq!(c.atcoder.user_email, "");
}

#[test]
fn path_queries() {
    assert!(is_dir_exist("."));
    assert!(!is_file_exist("."));
    assert!(!is_dir_exist("definitely/not/here"));
}
