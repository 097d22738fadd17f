use brickstats::input::formatted_rebrickable_inventory;
use brickstats::rebrickable::{color, inventory_part, part_details};
use brickstats::wordcloud::{
    fill_matches, format_color, format_part_name, number_of_word, parse_number, rewrite, text_file,
    wordcloud_arguments, Fill, InventoryEntry, LONE_DIGIT, NUMBER_WORD,
};

#[test]
fn colours_become_single_words() {
    assert_eq!(format_color("Reddish Brown"), "brown");
    assert_eq!(format_color("Light Bluish Gray"), "light_gray");
    assert_eq!(format_color("Dark Bluish Gray"), "dark_gray");
    assert_eq!(format_color("Trans-Clear"), "trans-clear");
    assert_eq!(format_color("Bluish Gray"), "bluish_gray");
    assert_eq!(format_color("Pearl Dark Gray"), "pearl_dark_gray");
    assert_eq!(format_color(""), "");
    assert_eq!(format_color("Reddish Reddish  Gold "), "_gold_");
    // the fillers are stripped as they are written, before the word is lowered
    assert_eq!(format_color("reddish Brown"), "reddish_brown");
    assert_eq!(format_color("BLACK"), "black");
}

#[test]
fn part_names_are_bound_into_words() {
    assert_eq!(format_part_name("Plate 2 x 4").unwrap(), "Plate 2x4");
    assert_eq!(format_part_name("Brick 1 x 2 with Grille").unwrap(), "Brick 1x2 with_Grille");
    assert_eq!(format_part_name("Technic Axle 4 with Stop").unwrap(), "Technic Axle 4_with Stop");
    assert_eq!(format_part_name("Wheel with two Pins").unwrap(), "Wheel with2Pins");
    assert_eq!(format_part_name("Plate Ten Studs").unwrap(), "Plate0Studs");
    assert_eq!(format_part_name("a one two b").unwrap(), "a1two b");
    assert_eq!(format_part_name("Hinge for Door in Wall from Set").unwrap(), "Hinge for_Door in_Wall from_Set");
    assert_eq!(format_part_name("Slope of 45 to 2 x 2 on Top").unwrap(), "Slope of_45 to_2x2 on_Top");
    assert_eq!(format_part_name("Bar 3 5 7 end").unwrap(), "Bar 3_5 7_end");
    assert_eq!(format_part_name("").unwrap(), "");
    assert_eq!(format_part_name("NINE").unwrap(), "NINE");
    assert_eq!(format_part_name("x NINE\ty").unwrap(), "x9y");
}

#[test]
fn number_words_are_read() {
    let words = ["zero", "one", "two", "three", "four", "five", "six", "seven", "eight", "nine"];
    for (n, word) in words.iter().enumerate() {
        assert_eq!(number_of_word(word), n as i32);
        assert_eq!(parse_number(&word.to_uppercase()), n as i32);
    }
    assert_eq!(number_of_word("ten"), 0);
    assert_eq!(number_of_word("One"), 0);
    assert_eq!(parse_number("One"), 1);
    assert_eq!(parse_number("tEn"), 0);
    assert_eq!(parse_number(""), 0);
}

#[test]
fn matches_are_replaced_by_their_fills() {
    assert_eq!(rewrite(Fill::Digit, LONE_DIGIT, "a 1 b 22 c 3 d").unwrap(), "a 1_b 22 c 3_d");
    assert_eq!(rewrite(Fill::Number, NUMBER_WORD, "a Two b").unwrap(), "a2b");
    assert_eq!(rewrite(Fill::Digit, "(", "text"), None);
    assert_eq!(rewrite(Fill::Digit, "x(\\d)?", "x1 x"), None);
    assert_eq!(rewrite(Fill::Digit, LONE_DIGIT, "nothing here").unwrap(), "nothing here");
    assert_eq!(Fill::Digit.text_for("7"), " 7_");
    assert_eq!(Fill::Number.text_for("SEVEN"), "7");
}

#[test]
fn fills_are_woven_into_gaps() {
    let gaps = vec!["a".to_string(), "b".to_string(), "".to_string()];
    let groups = vec![Some("1".to_string()), Some("2".to_string())];
    assert_eq!(fill_matches(Fill::Digit, &gaps, &groups).unwrap(), "a 1_b 2_");
    assert_eq!(fill_matches(Fill::Number, &gaps, &vec![Some("six".to_string()), Some("?".to_string())]).unwrap(), "a6b0");
    assert_eq!(fill_matches(Fill::Digit, &gaps, &vec![Some("1".to_string())]), None);
    assert_eq!(fill_matches(Fill::Digit, &gaps, &vec![Some("1".to_string()), None]), None);
    assert_eq!(fill_matches(Fill::Digit, &Vec::new(), &Vec::new()), None);
    assert_eq!(fill_matches(Fill::Digit, &vec!["only".to_string()], &Vec::new()).unwrap(), "only");
}

#[test]
fn the_corpus_has_a_line_for_each_piece() {
    let entries = vec![
        InventoryEntry::new("Reddish Brown".to_string(), "Plate 2 x 4".to_string(), 2),
        InventoryEntry::new("Black".to_string(), "Tile".to_string(), 0),
        InventoryEntry::new("White".to_string(), "Tile".to_string(), -3),
        InventoryEntry::new("Light Bluish Gray".to_string(), "Brick 1 x 1 with Stud".to_string(), 1),
    ];
    assert_eq!(
        text_file(&entries).unwrap(),
        "brown Plate 2x4\nbrown Plate 2x4\nlight_gray Brick 1x1 with_Stud\n"
    );
    assert_eq!(text_file(&Vec::new()).unwrap(), "");
    let bricks = vec![InventoryEntry::new("Reddish Brown".to_string(), "Brick".to_string(), 2)];
    assert_eq!(text_file(&bricks).unwrap(), "brown Brick\nbrown Brick\n");
}

#[test]
fn the_generator_gets_its_arguments() {
    assert_eq!(
        wordcloud_arguments("temp/wordcloud.txt", "images/x_wordcloud.png", "temp/stopwords.txt"),
        vec![
            "--text",
            "temp/wordcloud.txt",
            "--imagefile",
            "images/x_wordcloud.png",
            "--background",
            "#FFFFFF",
            "--color",
            "#134567",
            "--width",
            "1920",
            "--height",
            "1080",
            "--stopwords",
            "temp/stopwords.txt",
        ]
    );
}

fn details(part_num: &str, name: &str) -> part_details {
    part_details {
        part_num: part_num.to_string(),
        name: name.to_string(),
        part_cat_id: 1,
        year_from: 0,
        year_to: 0,
        part_url: String::new(),
        part_img_url: None,
        prints: Vec::new(),
        molds: Vec::new(),
        alternates: Vec::new(),
        print_of: None,
    }
}

#[test]
fn an_inventory_is_listed_by_names() {
    let lines = vec![
        inventory_part::new_simplified("3001".to_string(), 4, 2, false),
        inventory_part::new_simplified("3002".to_string(), 0, 9, false),
    ];
    let all_details = vec![details("3002", "Brick 2 x 3"), details("3001", "Brick 2 x 4"), details("3001", "late")];
    let colors = vec![
        color { id: 0, name: "Black".to_string(), rgb: "05131D".to_string(), is_trans: false },
        color { id: 4, name: "Red".to_string(), rgb: "C91A09".to_string(), is_trans: false },
    ];
    assert_eq!(
        formatted_rebrickable_inventory(&lines, &all_details, &colors),
        Some(vec![
            InventoryEntry::new("Red".to_string(), "Brick 2 x 4".to_string(), 2),
            InventoryEntry::new("Black".to_string(), "Brick 2 x 3".to_string(), 9),
        ])
    );
    assert_eq!(formatted_rebrickable_inventory(&lines, &all_details[..1].to_vec(), &colors), None);
    assert_eq!(formatted_rebrickable_inventory(&lines, &all_details, &colors[..1].to_vec()), None);
    assert_eq!(formatted_rebrickable_inventory(&Vec::new(), &Vec::new(), &Vec::new()), Some(Vec::new()));
}
