use tasksolver::mmv::count_stars;
use tasksolver::mmv::escape_special_regular_expression_characters;
use tasksolver::mmv::FileMover;
use tasksolver::mmv::MarkerError;
use tasksolver::mmv::MatchedFiles;

#[test]
fn no_special_characters() {
    let mut test_string = "abracadabra";
    assert_eq!(escape_special_regular_expression_characters(test_string), test_string);

    test_string = "bimbimbambam bambambimbim";
    assert_eq!(escape_special_regular_expression_characters(test_string), test_string);
}

#[test]
fn not_ascii_characters() {
    let mut test_string = "русский язык";
    assert_eq!(escape_special_regular_expression_characters(test_string), test_string);

    test_string = "𡨸漢漢字漢字";
    assert_eq!(escape_special_regular_expression_characters(test_string), test_string);
}

#[test]
fn simple_changes() {
    let mut test_string = "[abcd]";
    assert_eq!(escape_special_regular_expression_characters(test_string), "\\[abcd\\]");

    test_string = "$print^pretty+string";
    assert_eq!(
        escape_special_regular_expression_characters(test_string),
        "\\$print\\^pretty\\+string"
    );
}

#[test]
fn all_symbols() {
    let test_string = r"[]{}()|^$\?+.";
    assert_eq!(
        escape_special_regular_expression_characters(test_string),
        "\\[\\]\\{\\}\\(\\)\\|\\^\\$\\\\?\\+\\."
    );
}

#[test]
fn regular_expression() {
    let test_string = r"2020-03-12T13:34:56\.123Z INFO\[org\.example\.Class\]";
    assert_eq!(
        escape_special_regular_expression_characters(test_string),
        "2020-03-12T13:34:56\\\\.123Z INFO\\\\[org\\\\.example\\\\.Class\\\\]"
    )
}

#[test]
fn star_is_not_escaped() {
    assert_eq!(escape_special_regular_expression_characters("some_*_filename.*"), "some_*_filename\\.*");
}

#[test]
fn correct_pattern_groups_stars() {
    assert_eq!(MatchedFiles::make_correct_pattern("some_*_filename.*"), "some_(.*)_filename\\.(.*)");
    assert_eq!(MatchedFiles::make_correct_pattern("plain"), "plain");
    assert_eq!(MatchedFiles::make_correct_pattern(""), "");
}

#[test]
fn stars_are_counted() {
    assert_eq!(count_stars("some_*_filename.*"), 2);
    assert_eq!(count_stars("simple-pattern.c"), 0);
    assert_eq!(count_stars("***"), 3);
}

#[test]
fn test_marker_replace1() {
    let pattern = "changed_#1_filename.#2";
    let matchings = vec!["A".to_string(), "cpp".to_string()];

    let replace_result = FileMover::replace_markers_with_matchings(pattern, &matchings);
    assert_eq!(replace_result.unwrap(), "changed_A_filename.cpp");
}

#[test]
fn test_marker_replace2() {
    let pattern = "#1#2file_with_#3a#4_lot_markers#5.#6";
    let matchings = vec![
        "REALLY".to_string(),
        "_".to_string(),
        "A".to_string(),
        "LOT".to_string(),
        "OF_MARKERS".to_string(),
        "rs".to_string(),
    ];

    let replace_result = FileMover::replace_markers_with_matchings(pattern, &matchings);
    assert_eq!(
        replace_result.unwrap(),
        "REALLY_file_with_AaLOT_lot_markersOF_MARKERS.rs"
    );
}

#[test]
fn test_marker_replace3() {
    let pattern = "#3absolutely#1_useful#2_pattern.jpg";
    let matchings = vec![
        "NO".to_string(),
        "joke".to_string(),
        "bimbimbambam".to_string(),
    ];

    let replace_result = FileMover::replace_markers_with_matchings(pattern, &matchings);
    assert_eq!(
        replace_result.unwrap(),
        "bimbimbambamabsolutelyNO_usefuljoke_pattern.jpg"
    );
}

#[test]
fn marker_beyond_the_matchings_is_refused() {
    let matchings = vec!["A".to_string()];
    let result = FileMover::replace_markers_with_matchings("x_#1_#2", &matchings);
    assert_eq!(result, Err(MarkerError::IndexTooLarge));
}

#[test]
fn matching_without_marker_is_refused() {
    let matchings = vec!["A".to_string(), "B".to_string()];
    let result = FileMover::replace_markers_with_matchings("x_#1", &matchings);
    assert_eq!(result, Err(MarkerError::NotCovered));
    let none = FileMover::replace_markers_with_matchings("plain", &matchings);
    assert_eq!(none, Err(MarkerError::NotCovered));
}

#[test]
fn pattern_without_markers_and_matchings_stays() {
    let matchings: Vec<String> = Vec::new();
    let result = FileMover::replace_markers_with_matchings("plain.txt", &matchings);
    assert_eq!(result.unwrap(), "plain.txt");
}

#[test]
fn marker_ten_is_read_as_marker_one() {
    let mut matchings: Vec<String> = Vec::new();
    for i in 1..=10 {
        matchings.push(format!("m{}", i));
    }
    let result = FileMover::replace_markers_with_matchings("#1#2#3#4#5#6#7#8#9#10", &matchings);
    assert_eq!(result, Err(MarkerError::NotCovered));
}

#[test]
fn file_mover_keeps_its_arguments() {
    let mover = FileMover::new("path/to", "changed_#1", true);
    assert_eq!(mover.to_path, "path/to");
    assert_eq!(mover.to_pattern, "changed_#1");
    assert!(mover.force_flag);
}
