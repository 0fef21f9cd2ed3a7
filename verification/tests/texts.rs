use tasksolver::iterators::add2;
use tasksolver::iterators::div3;
use tasksolver::iterators::flat_map;
use tasksolver::iterators::take_n;
use tasksolver::iterators::FlatMap;
use tasksolver::lru_cache::LRUCache;
use tasksolver::mmv::join_path;
use tasksolver::mmv::select_matching;
use tasksolver::mmv::split_template;
use tasksolver::mmv::Arguments;
use tasksolver::mmv::FileMover;
use tasksolver::mmv::MatchError;
use tasksolver::mmv::MatchedFile;
use tasksolver::mmv::MatchedFiles;
use tasksolver::problem::path_components;
use tasksolver::problem::Problem;
use tasksolver::shrek::count_lines_containing;
use tasksolver::shrek::count_lines_with_word;
use tasksolver::shrek::count_windows;
use tasksolver::shrek::lowercase_lines;
use tasksolver::shrek::top_k_longest;
use tasksolver::shrek::words_counter_iter;
use tasksolver::split::split;
use tasksolver::split::SplitString;

fn strings(items: &[&str]) -> Vec<String> {
    items.iter().map(|s| s.to_string()).collect()
}

fn unit_test_names() -> Vec<String> {
    strings(&[
        "some_B_filename.rs",
        "exist.bin",
        "some_C_filename.bin",
        "MAKE_YOUR_DREAMS_COME_TRUE_with_rust_ofc.rs",
        "some_A_filename.cpp",
        "simple-pattern.c",
    ])
}

fn paths_of(matched: &MatchedFiles) -> Vec<String> {
    matched.files.iter().map(|f| f.path.clone()).collect()
}

#[test]
fn test_pattern_without_special_symbols() {
    let matched = MatchedFiles::get_matched_files_info("dir", "simple-pattern.c", &unit_test_names()).unwrap();
    assert_eq!(matched.files.len(), 1);
    assert_eq!(matched.files[0].matchings.len(), 0);
    assert_eq!(matched.files[0].path, "dir/simple-pattern.c");
}

#[test]
fn test_all_files_pattern() {
    let matched = MatchedFiles::get_matched_files_info("", "*", &unit_test_names()).unwrap();
    assert_eq!(matched.files.len(), 6);
    assert_eq!(
        paths_of(&matched),
        vec![
            "MAKE_YOUR_DREAMS_COME_TRUE_with_rust_ofc.rs",
            "exist.bin",
            "simple-pattern.c",
            "some_A_filename.cpp",
            "some_B_filename.rs",
            "some_C_filename.bin"
        ]
    );
}

#[test]
fn test_pattern1() {
    let matched = MatchedFiles::get_matched_files_info("", "some_*_filename.*", &unit_test_names()).unwrap();
    assert_eq!(matched.files.len(), 3);
    assert_eq!(paths_of(&matched), vec!["some_A_filename.cpp", "some_B_filename.rs", "some_C_filename.bin"]);
}

#[test]
fn test_pattern2() {
    let matched = MatchedFiles::get_matched_files_info("", "s*", &unit_test_names()).unwrap();
    assert_eq!(matched.files.len(), 4);
    assert_eq!(
        paths_of(&matched),
        vec!["simple-pattern.c", "some_A_filename.cpp", "some_B_filename.rs", "some_C_filename.bin"]
    );
}

#[test]
fn test_pattern_matchings() {
    let matched = MatchedFiles::get_matched_files_info("d/", "some_*_filename.*", &unit_test_names()).unwrap();
    assert_eq!(matched.files.len(), 3);
    let mut first_matchings = Vec::new();
    let mut second_matchings = Vec::new();
    for file in matched.files.iter() {
        first_matchings.push(file.matchings[0].clone());
        second_matchings.push(file.matchings[1].clone());
    }
    first_matchings.sort();
    second_matchings.sort();
    assert_eq!(first_matchings, vec!["A", "B", "C"]);
    assert_eq!(second_matchings, vec!["bin", "cpp", "rs"]);
    assert_eq!(matched.files[0].path, "d/some_A_filename.cpp");
    assert_eq!(matched.files[0].matchings, vec!["A", "cpp"]);
}

#[test]
fn a_pattern_must_cover_the_whole_name() {
    let names = strings(&["xsome_A_filename.cpp", "some_A_filename.cpp.bak", "a.c"]);
    let matched = MatchedFiles::get_matched_files_info("", "a.c", &names).unwrap();
    assert_eq!(paths_of(&matched), vec!["a.c"]);
    let none = MatchedFiles::get_matched_files_info("", "b.c", &names);
    assert_eq!(none.err(), Some(MatchError::NothingMatched));
    let dotted = MatchedFiles::get_matched_files_info("", "a.c", &strings(&["abc"]));
    assert_eq!(dotted.err(), Some(MatchError::NothingMatched));
}

#[test]
fn groups_are_selected_for_whole_matches_only() {
    let groups = Some(vec![Some("ab".to_string()), Some("a".to_string()), Some("b".to_string())]);
    assert_eq!(select_matching(groups.clone(), "ab", 2), Some(strings(&["a", "b"])));
    assert_eq!(select_matching(groups.clone(), "ab", 1), Some(strings(&["a"])));
    assert_eq!(select_matching(groups.clone(), "abc", 2), None);
    assert_eq!(select_matching(groups, "ab", 3), None);
    assert_eq!(select_matching(None, "ab", 0), None);
    let partial = Some(vec![Some("ab".to_string()), None]);
    assert_eq!(select_matching(partial.clone(), "ab", 1), None);
    assert_eq!(select_matching(partial, "ab", 0), Some(Vec::new()));
}

#[test]
fn planned_moves_follow_the_pattern() {
    let mover = FileMover::new("to", "changed_#1_filename.#2", false);
    let file = MatchedFile { path: "from/some_A_filename.cpp".to_string(), matchings: strings(&["A", "cpp"]) };
    let planned = mover.plan_move(&file).unwrap();
    assert_eq!(planned.from, "from/some_A_filename.cpp");
    assert_eq!(planned.to, "to/changed_A_filename.cpp");
    let plain = FileMover::new("to/", "fixed.txt", true);
    let bare = MatchedFile { path: "x".to_string(), matchings: Vec::new() };
    assert_eq!(plain.plan_move(&bare).unwrap().to, "to/fixed.txt");
    assert!(mover.plan_move(&MatchedFile { path: "x".to_string(), matchings: strings(&["A"]) }).is_err());
}

#[test]
fn templates_are_split_at_the_last_slash() {
    assert_eq!(split_template("path/to/some_*_filename.*"), ("path/to".to_string(), "some_*_filename.*".to_string()));
    assert_eq!(split_template("name.rs"), (String::new(), "name.rs".to_string()));
    assert_eq!(split_template("/name.rs"), ("/".to_string(), "name.rs".to_string()));
    assert_eq!(split_template("a/"), ("a".to_string(), String::new()));
    assert_eq!(split_template(""), (String::new(), String::new()));
    let arguments = Arguments::from_templates("path/to/simple_pattern.rs", "path2/to/not_simple_pattern.rs", true);
    assert_eq!(arguments.from_path, "path/to");
    assert_eq!(arguments.from_pattern, "simple_pattern.rs");
    assert_eq!(arguments.to_path, "path2/to");
    assert_eq!(arguments.to_pattern, "not_simple_pattern.rs");
    assert!(arguments.force_flag);
}

#[test]
fn paths_are_joined_with_one_slash() {
    assert_eq!(join_path("a/b", "c"), "a/b/c");
    assert_eq!(join_path("a/b/", "c"), "a/b/c");
    assert_eq!(join_path("", "c"), "c");
    assert_eq!(join_path("/", "c"), "/c");
}

#[test]
fn markers_are_searched_and_replaced_from_the_left() {
    let once = FileMover::replace_markers_with_matchings("a#1b#1", &strings(&["xy"]));
    assert_eq!(once.unwrap(), "axybxy");
    let nested = FileMover::replace_markers_with_matchings("##11", &strings(&["2", "z"]));
    assert_eq!(nested.unwrap(), "z1");
    let chained = FileMover::replace_markers_with_matchings("#1", &strings(&["#2", "z"]));
    assert_eq!(chained.unwrap(), "z");
    let mut eleven: Vec<String> = Vec::new();
    for i in 1..=11 {
        eleven.push(format!("<{}>", i));
    }
    let high = FileMover::replace_markers_with_matchings("#9|#8|#7|#6|#5|#4|#3|#2|#1|#10|#11", &eleven);
    assert_eq!(high, Err(tasksolver::mmv::MarkerError::NotCovered));
}

#[test]
fn a_text_is_split_at_its_delimiter() {
    let mut pieces = split("a,b,,c", ",");
    assert_eq!(pieces.next(), Some("a"));
    assert_eq!(pieces.next(), Some("b"));
    assert_eq!(pieces.next(), Some(""));
    assert_eq!(pieces.next(), Some("c"));
    assert_eq!(pieces.next(), None);
    assert_eq!(pieces.next(), None);
    assert_eq!(split("a,", ",").collect(), vec!["a", ""]);
    assert_eq!(split("", ",").collect(), vec![""]);
    assert_eq!(split("abc", ",").collect(), vec!["abc"]);
    assert_eq!(split("a<>b<>c", "<>").collect(), vec!["a", "b", "c"]);
    assert_eq!(split("aaa", "aa").collect(), vec!["", "a"]);
    assert_eq!(SplitString::new("один два", " ").collect(), vec!["один", "два"]);
}

#[test]
fn an_empty_delimiter_splits_into_characters() {
    assert_eq!(split("abc", "").collect(), vec!["a", "b", "c"]);
    assert_eq!(split("яж", "").collect(), vec!["я", "ж"]);
    let mut none = split("", "");
    assert_eq!(none.next(), None);
}

#[test]
fn lines_with_a_word_are_counted() {
    let lines = strings(&["Shrek is love", "shrek is life", "Donkey", "SHREKSHREK"]);
    assert_eq!(count_lines_with_word(&lines, "shrek"), 3);
    assert_eq!(count_lines_with_word(&lines, "SHREK"), 3);
    assert_eq!(count_lines_with_word(&lines, "fiona"), 0);
    assert_eq!(count_lines_with_word(&Vec::new(), "shrek"), 0);
    assert_eq!(count_lines_containing(&lines, "shrek"), 1);
    assert_eq!(lowercase_lines(&lines), strings(&["shrek is love", "shrek is life", "donkey", "shrekshrek"]));
}

#[test]
fn words_are_counted_in_each_line() {
    let lines = strings(&["Shrek is love", "Donkey", "SHREKshrek", "aaa"]);
    assert_eq!(words_counter_iter(&lines, "shrek"), vec![(1, 0), (2, 2)]);
    assert_eq!(words_counter_iter(&lines, "aa"), vec![(2, 3)]);
    assert_eq!(words_counter_iter(&lines, ""), Vec::new());
    assert_eq!(words_counter_iter(&lines, "ogre"), Vec::new());
    assert_eq!(count_windows(b"aaaa", b"aa", 2), 3);
    assert_eq!(count_windows(b"aaaa", b"aa", 3), 0);
    assert_eq!(count_windows(b"ab", b"abc", 3), 0);
    assert_eq!(count_windows(b"ab", b"", 0), 0);
}

#[test]
fn the_longest_lines_come_first() {
    let lines = strings(&["bb", "a", "dddd", "cc", "eeee", ""]);
    assert_eq!(
        top_k_longest(&lines, 3),
        vec![(2, "dddd".to_string()), (4, "eeee".to_string()), (0, "bb".to_string())]
    );
    assert_eq!(top_k_longest(&lines, 0), Vec::new());
    assert_eq!(top_k_longest(&lines, 6).last(), Some(&(5, String::new())));
    let wide = strings(&["яя", "aaa"]);
    assert_eq!(top_k_longest(&wide, 1), vec![(0, "яя".to_string())]);
}

#[test]
fn numbers_are_mapped_and_taken() {
    assert_eq!(add2(vec![1, 2, -2]), vec![3, 4, 0]);
    assert_eq!(add2(vec![i32::MAX - 2]), vec![i32::MAX]);
    assert_eq!(div3(4), vec![3, 6, 9, 12]);
    assert_eq!(div3(0), Vec::<i32>::new());
    assert_eq!(take_n(vec![5, 6, 7], 2), vec![5, 6]);
    assert_eq!(take_n(vec![5, 6, 7], 5), vec![5, 6, 7]);
    assert_eq!(take_n(add2(div3(10)), 3), vec![5, 8, 11]);
}

#[test]
fn lists_are_mapped_and_flattened() {
    let mut flat = flat_map(vec![1, 2, 3], |x: i32| vec![x, x * 10]);
    let mut seen = Vec::new();
    while let Some(item) = flat.next() {
        seen.push(item);
    }
    assert_eq!(seen, vec![1, 10, 2, 20, 3, 30]);
    let mut empty = flat_map(Vec::<i32>::new(), |x: i32| vec![x]);
    assert_eq!(empty.next(), None);
    let mut some_empty = flat_map(vec![0, 2, 0, 1], |x: usize| vec!['a'; x]);
    assert_eq!(some_empty.next(), Some('a'));
    assert_eq!(some_empty.next(), Some('a'));
    assert_eq!(some_empty.next(), Some('a'));
    assert_eq!(some_empty.next(), None);
    let mut plain = FlatMap::new(vec![7, 8]);
    assert_eq!(plain.next(), Some(7));
    assert_eq!(plain.next(), Some(8));
    assert_eq!(plain.next(), None);
}

#[test]
fn the_cache_drops_the_least_recently_used() {
    let mut cache: LRUCache<String> = LRUCache::new(2);
    assert!(cache.is_empty());
    assert_eq!(cache.insert(1, "one".to_string()), None);
    assert_eq!(cache.insert(2, "two".to_string()), None);
    assert_eq!(cache.len(), 2);
    assert_eq!(cache.get(1), Some(&"one".to_string()));
    assert_eq!(cache.insert(3, "three".to_string()), None);
    assert_eq!(cache.len(), 2);
    assert_eq!(cache.get(2), None);
    assert_eq!(cache.get(1), Some(&"one".to_string()));
    assert_eq!(cache.get(3), Some(&"three".to_string()));
    assert_eq!(cache.insert(1, "uno".to_string()), Some("one".to_string()));
    assert_eq!(cache.insert(4, "four".to_string()), None);
    assert_eq!(cache.get(3), None);
    assert_eq!(cache.get(1), Some(&"uno".to_string()));
    cache.clear();
    assert!(cache.is_empty());
    assert_eq!(cache.get(1), None);
    assert_eq!(cache.insert(9, "nine".to_string()), None);
    assert_eq!(cache.len(), 1);
}

#[test]
fn a_cache_of_one_and_of_many() {
    let mut one: LRUCache<i32> = LRUCache::new(1);
    assert_eq!(one.insert(1, 10), None);
    assert_eq!(one.insert(1, 11), Some(10));
    assert_eq!(one.insert(2, 20), None);
    assert_eq!(one.get(1), None);
    assert_eq!(one.get(2), Some(&20));
    let mut many: LRUCache<u64> = LRUCache::new(3);
    for k in 0..10u64 {
        many.insert(k, k * k);
        if k >= 1 {
            assert_eq!(many.get(k - 1), Some(&((k - 1) * (k - 1))));
        }
    }
    assert_eq!(many.len(), 3);
    assert_eq!(many.get(9), Some(&81));
    assert_eq!(many.get(8), Some(&64));
    assert_eq!(many.get(0), None);
}

#[test]
fn a_value_is_changed_in_place() {
    let mut cache: LRUCache<i32> = LRUCache::new(2);
    cache.insert(1, 10);
    cache.insert(2, 20);
    if let Some(value) = cache.get_mut(1) {
        *value += 5;
    }
    assert!(cache.get_mut(7).is_none());
    cache.insert(3, 30);
    assert_eq!(cache.get(1), Some(&15));
    assert_eq!(cache.get(2), None);
}

#[test]
fn a_problem_is_known_by_its_path() {
    let problem = Problem::from_path("/home/user/course/problems/structs/lru_cache");
    assert_eq!(problem.depth(), 6);
    assert_eq!(problem.title(), "lru_cache");
    assert_eq!(problem.group(), "structs");
    assert_eq!(problem.branch_name(), "structs/lru_cache");
    assert_eq!(problem.relative_path(), "problems/structs/lru_cache");
    let trailing = Problem::from_path("basics//add/");
    assert_eq!(trailing.title(), "add");
    assert_eq!(trailing.group(), "basics");
    assert_eq!(path_components("/a//b/"), strings(&["a", "b"]));
    assert_eq!(path_components(""), Vec::<String>::new());
    assert_eq!(Problem::from_path("single").depth(), 1);
}
