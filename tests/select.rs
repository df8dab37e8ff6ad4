use ac_garden::archive::archived_keys;
use ac_garden::select::select_submissions;
use ac_garden::submission::{ArchiveKey, Submission};

fn sub(id: i64, epoch: i64, contest: &str, problem: &str, result: &str) -> Submission {
    Submission {
        id,
        epoch_second: epoch,
        problem_id: problem.to_string(),
        contest_id: contest.to_string(),
        user_id: "alice".to_string(),
        language: "C++17".to_string(),
        point_hundredths: 10000,
        length: 100,
        result: result.to_string(),
        execution_time: Some(5),
    }
}

fn key(contest: &str, problem: &str) -> ArchiveKey {
    ArchiveKey { contest_id: contest.to_string(), problem_id: problem.to_string() }
}

#[test]
fn only_accepted_are_selected() {
    let subs = vec![
        sub(1, 100, "abc100", "abc100_a", "WA"),
        sub(2, 200, "abc100", "abc100_b", "AC"),
        sub(3, 300, "abc100", "abc100_c", "TLE"),
    ];
    assert_eq!(select_submissions(&subs, &vec![]), vec![1]);
}

#[test]
fn most_recent_accepted_wins() {
    let subs = vec![
        sub(1, 100, "abc100", "abc100_a", "AC"),
        sub(2, 300, "abc100", "abc100_a", "AC"),
        sub(3, 200, "abc100", "abc100_a", "AC"),
    ];
    assert_eq!(select_submissions(&subs, &vec![]), vec![1]);
}

#[test]
fn equal_times_keep_first_listed() {
    let subs = vec![
        sub(1, 100, "abc100", "abc100_a", "AC"),
        sub(2, 100, "abc100", "abc100_a", "AC"),
    ];
    assert_eq!(select_submissions(&subs, &vec![]), vec![0]);
}

#[test]
fn archived_keys_are_skipped() {
    let subs = vec![
        sub(1, 100, "abc100", "abc100_a", "AC"),
        sub(2, 200, "abc100", "abc100_b", "AC"),
    ];
    let archived = vec![key("abc100", "abc100_a")];
    assert_eq!(select_submissions(&subs, &archived), vec![1]);
}

#[test]
fn output_is_most_recent_first_and_unique_per_key() {
    let subs = vec![
        sub(1, 100, "abc100", "abc100_a", "AC"),
        sub(2, 400, "abc101", "abc101_b", "AC"),
        sub(3, 250, "abc100", "abc100_a", "AC"),
        sub(4, 300, "abc102", "abc102_c", "AC"),
        sub(5, 50, "abc101", "abc101_b", "AC"),
    ];
    let r = select_submissions(&subs, &vec![]);
    assert_eq!(r, vec![1, 3, 2]);
}

#[test]
fn key_is_the_pair_not_a_joined_text() {
    let subs = vec![sub(1, 100, "a_b", "c", "AC"), sub(2, 200, "a", "b_c", "AC")];
    let archived = vec![key("a", "b_c")];
    assert_eq!(select_submissions(&subs, &archived), vec![0]);
}

#[test]
fn empty_input_selects_nothing() {
    assert_eq!(select_submissions(&vec![], &vec![]), Vec::<usize>::new());
}

#[test]
fn second_run_selects_nothing() {
    let subs = vec![
        sub(1, 100, "abc100", "abc100_a", "AC"),
        sub(2, 200, "abc100", "abc100_a", "AC"),
        sub(3, 300, "abc101", "abc101_a", "AC"),
        sub(4, 400, "abc101", "abc101_b", "WA"),
    ];
    let first = select_submissions(&subs, &vec![]);
    assert_eq!(first, vec![2, 1]);
    let written: Vec<Submission> = first.iter().map(|&i| subs[i].clone()).collect();
    let archived = archived_keys(&written);
    assert_eq!(select_submissions(&subs, &archived), Vec::<usize>::new());
}
