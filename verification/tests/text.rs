use brickstats::input::{distinct_categories, lookup_category, lookup_name, lookup_rgb, order_columns, tally_inventory, Column, Tally};
use brickstats::rebrickable::{color, inventory_part, part_category, part_details};
use brickstats::run::{file_title, has_dash, output_file_prefix, output_is_supported, set_title, unify_set_num, wordcloud_file};
use brickstats::sorting::{sort_stably, Ranked};
use brickstats::text::{bytes_equal, bytes_precede, join, signed_text, text_equal, text_precedes, unsigned_text};

#[test]
fn text_is_ordered_by_its_bytes() {
    let mut words = vec!["b", "", "a", "ab", "B", "aa", "é", "z", "a", "Zebra", "unknown", "~"];
    let mut by_library = words.clone();
    words.sort();
    // insertion by the library's order gives what the standard order gives
    for i in 1..by_library.len() {
        let mut j = i;
        while j > 0 && !text_precedes(by_library[j - 1], by_library[j]) {
            by_library.swap(j - 1, j);
            j -= 1;
        }
    }
    assert_eq!(by_library, words);
    for a in &words {
        for b in &words {
            assert_eq!(text_precedes(a, b), a <= b, "{:?} {:?}", a, b);
            assert_eq!(text_equal(a, b), a == b);
            assert_eq!(bytes_precede(a.as_bytes(), b.as_bytes()), a.as_bytes() <= b.as_bytes());
            assert_eq!(bytes_equal(a.as_bytes(), b.as_bytes()), a == b);
        }
    }
}

#[test]
fn numbers_are_written_in_decimal() {
    assert_eq!(unsigned_text(0), "0");
    assert_eq!(unsigned_text(7), "7");
    assert_eq!(unsigned_text(10), "10");
    assert_eq!(unsigned_text(1234567890), "1234567890");
    assert_eq!(unsigned_text(u64::MAX), "18446744073709551615");
    assert_eq!(signed_text(0), "0");
    assert_eq!(signed_text(-1), "-1");
    assert_eq!(signed_text(-305), "-305");
    assert_eq!(signed_text(i64::MIN), "-9223372036854775808");
    assert_eq!(signed_text(i64::MAX), "9223372036854775807");
    assert_eq!(join("ab", "cd"), "abcd");
}

#[test]
fn tallies_sort_stably() {
    let tally = |category_id, quantity, color_id| Tally { category_id, quantity, color_id };
    let sorted = sort_stably(vec![
        tally(1, 5, 3),
        tally(2, 5, 3),
        tally(3, 9, 3),
        tally(4, 1, 1),
        tally(5, 5, 3),
        tally(6, 1, 1),
    ]);
    let order: Vec<i32> = sorted.iter().map(|t| t.category_id).collect();
    assert_eq!(order, vec![4, 6, 3, 1, 2, 5]);
    assert!(tally(0, 1, 1).comes_before(&tally(0, 0, 2)));
    assert!(tally(0, 2, 1).comes_before(&tally(0, 1, 1)));
    assert!(!tally(0, 1, 1).comes_before(&tally(0, 2, 1)));
    assert!(sort_stably(Vec::<Tally>::new()).is_empty());
}

#[test]
fn columns_sort_by_name() {
    let column = |id, name: &str| Column { id, name: name.to_string() };
    let sorted = sort_stably(vec![column(1, "b"), column(2, "a"), column(3, "b"), column(4, "B")]);
    assert_eq!(sorted, vec![column(4, "B"), column(2, "a"), column(1, "b"), column(3, "b")]);
}

#[test]
fn the_steps_of_the_aggregation() {
    let lines = vec![
        inventory_part::new_simplified("a".to_string(), 2, 1, false),
        inventory_part::new_simplified("b".to_string(), 1, 4, false),
        inventory_part::new_simplified("a".to_string(), 1, 4, false),
    ];
    let details = vec![part_details {
        part_num: "a".to_string(),
        name: "A".to_string(),
        part_cat_id: 9,
        year_from: 0,
        year_to: 0,
        part_url: String::new(),
        part_img_url: None,
        prints: Vec::new(),
        molds: Vec::new(),
        alternates: Vec::new(),
        print_of: None,
    }];
    let categories = vec![part_category { id: 9, name: "Nine".to_string(), part_count: 0 }];
    let colors = vec![color { id: 1, name: "One".to_string(), rgb: "111111".to_string(), is_trans: false }];
    assert_eq!(lookup_category("a", &details), Some(9));
    assert_eq!(lookup_category("b", &details), None);
    assert_eq!(lookup_name(9, &categories), Some("Nine".to_string()));
    assert_eq!(lookup_name(0, &categories), None);
    assert_eq!(lookup_rgb(1, &colors), Some("111111".to_string()));
    assert_eq!(lookup_rgb(2, &colors), None);
    let tallies = tally_inventory(&lines, &details);
    assert_eq!(
        tallies,
        vec![
            Tally { category_id: 9, quantity: 1, color_id: 2 },
            Tally { category_id: 0, quantity: 4, color_id: 1 },
            Tally { category_id: 9, quantity: 4, color_id: 1 },
        ]
    );
    let rows = sort_stably(tallies);
    let ids = distinct_categories(&rows);
    assert_eq!(ids, vec![0, 9]);
    let columns = order_columns(&ids, &categories);
    assert_eq!(
        columns,
        vec![Column { id: 9, name: "Nine".to_string() }, Column { id: 0, name: "unknown".to_string() }]
    );
}

#[test]
fn a_run_names_its_set_and_files() {
    assert!(has_dash("75192-1"));
    assert!(!has_dash("75192"));
    assert!(!has_dash(""));
    assert_eq!(unify_set_num("75192"), "75192-1");
    assert_eq!(unify_set_num("75192-2"), "75192-2");
    assert_eq!(unify_set_num("-"), "-");
    assert_eq!(output_file_prefix(Some("png"), "75192-1"), Some("images/75192-1".to_string()));
    assert_eq!(output_file_prefix(Some("svg"), "75192-1"), None);
    assert_eq!(output_file_prefix(None, "75192-1"), None);
    assert!(output_is_supported("png"));
    assert!(!output_is_supported("PNG"));
    assert_eq!(set_title("75192-1"), "Parts of Set 75192-1");
    assert_eq!(file_title("parts"), "Parts of parts");
    assert_eq!(wordcloud_file("images/parts"), "images/parts_wordcloud.png");
}
