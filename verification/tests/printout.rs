use brickstats::printout::list_texts;
use brickstats::rebrickable::{inventory_part, part_details};
use brickstats::text::{wide_signed_text, wide_unsigned_text};

fn line(part_num: &str, color_id: i32, quantity: i32, is_spare: bool) -> inventory_part {
    inventory_part::new_simplified(part_num.to_string(), color_id, quantity, is_spare)
}

#[test]
fn an_inventory_is_printed_part_by_colour() {
    let lines = inventory_part::print(&vec![
        line("3002", 10, 1, false),
        line("3001", 9, 2, false),
        line("3001", 9, 3, true),
        line("3001", -1, 1, false),
    ]);
    assert_eq!(
        lines,
        vec![
            "Part Color Quantity Spare",
            "3001 -1 1 no",
            "3001 10 0 no",
            "3001 9 5 yes",
            "3002 -1 0 no",
            "3002 10 1 no",
            "3002 9 0 no",
        ]
    );
    assert_eq!(inventory_part::print(&Vec::new()), vec!["Part Color Quantity Spare"]);
}

#[test]
fn quantities_add_up_beyond_32_bits() {
    let lines = inventory_part::print(&vec![
        line("a", 1, i32::MAX, true),
        line("a", 1, i32::MAX, false),
        line("b", 1, i32::MIN, false),
        line("b", 1, i32::MIN, false),
    ]);
    assert_eq!(
        lines,
        vec!["Part Color Quantity Spare", "a 1 4294967294 no", "b 1 -4294967296 no"]
    );
}

#[test]
fn texts_are_listed_once_and_in_order() {
    let texts: Vec<String> = ["b", "a", "b", "10", "9", "a", "-1"].iter().map(|s| s.to_string()).collect();
    assert_eq!(list_texts(&texts), vec!["-1", "10", "9", "a", "b"]);
    assert!(list_texts(&Vec::new()).is_empty());
}

#[test]
fn wide_numbers_are_written_in_decimal() {
    assert_eq!(wide_unsigned_text(u128::MAX), u128::MAX.to_string());
    assert_eq!(wide_signed_text(i128::MIN), i128::MIN.to_string());
    assert_eq!(wide_signed_text(-10), "-10");
    assert_eq!(wide_signed_text(100), "100");
}

#[test]
fn the_details_of_a_part_are_printed() {
    let details = part_details {
        part_num: "3001".to_string(),
        name: "Brick \"2 x 4\"".to_string(),
        part_cat_id: 11,
        year_from: 1958,
        year_to: -1,
        part_url: "https://example.org/3001".to_string(),
        part_img_url: Some("a \"b\"".to_string()),
        prints: vec!["3001pr1".to_string(), "3001pr2".to_string(), "x".to_string()],
        molds: Vec::new(),
        alternates: vec!["3001old".to_string()],
        print_of: None,
    };
    assert_eq!(
        details.print(),
        vec![
            "Part: 3001",
            "Name: Brick \"2 x 4\"",
            "Part Category: 11",
            "Year: 1958 - -1",
            "Part URL: https://example.org/3001",
            "Part Image URL: Some(\"a \\\"b\\\"\")",
            "Prints: 3001pr1, 3001pr2, x",
            "Molds: ",
            "Alternates: 3001old",
            "Print of: None",
        ]
    );
}
