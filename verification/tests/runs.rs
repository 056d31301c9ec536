use rust_daq::runs::{find_latest_run, read_run_number, run_file_name};

fn entries(names: &[&str]) -> Vec<Option<String>> {
    names.iter().map(|n| Some(n.to_string())).collect()
}

#[test]
fn run_numbers_are_read_from_names() {
    assert_eq!(read_run_number("run0_0.h5"), Some(0));
    assert_eq!(read_run_number("run12_3.h5"), Some(12));
    assert_eq!(read_run_number("run12"), Some(12));
    assert_eq!(read_run_number("run+4_x"), Some(4));
    assert_eq!(read_run_number("run12.h5"), None);
    assert_eq!(read_run_number("run_0.h5"), None);
    assert_eq!(read_run_number("run"), None);
    assert_eq!(read_run_number("ru"), None);
    assert_eq!(read_run_number("Run1_0.h5"), None);
    assert_eq!(read_run_number("notes.txt"), None);
    assert_eq!(read_run_number("run99999999999999999999_0.h5"), None);
}

#[test]
fn latest_run_is_the_greatest() {
    assert_eq!(find_latest_run(&entries(&[])), None);
    assert_eq!(find_latest_run(&entries(&["notes.txt"])), None);
    assert_eq!(
        find_latest_run(&entries(&["run2_0.h5", "run10_0.h5", "run9_1.h5", "x"])),
        Some(10)
    );
    assert_eq!(find_latest_run(&vec![None, Some("run3_0.h5".to_string()), None]), Some(3));
}

#[test]
fn file_of_a_run_reads_back() {
    assert_eq!(run_file_name(0), "run0_0.h5");
    assert_eq!(run_file_name(41), "run41_0.h5");
    for n in [0usize, 1, 10, 999, usize::MAX] {
        assert_eq!(read_run_number(&run_file_name(n)), Some(n));
    }
}

#[test]
fn runs_follow_one_another() {
    let mut dir = entries(&["run7_0.h5", "log"]);
    for expected in 8..12 {
        let next = find_latest_run(&dir).unwrap() + 1;
        assert_eq!(next, expected);
        let name = run_file_name(next);
        assert!(!dir.contains(&Some(name.clone())));
        dir.push(Some(name));
    }
}
