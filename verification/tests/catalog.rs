use brickstats::catalog::{CatalogError, Download};
use brickstats::input::Rebrickable;
use brickstats::json::{parse_json, Json, Member};
use brickstats::reading::{keep_low_32_bits, read_listing, read_records, Field, Record};
use brickstats::rebrickable::{color, inventory, inventory_part, part, part_category, part_details};

fn member(key: &str, value: Json) -> Member {
    Member { key: key.to_string(), value }
}

fn text(value: &str) -> Json {
    Json::Text(value.to_string())
}

#[test]
fn json_text_becomes_a_tree() {
    let document = parse_json("{\"b\": [1, 2.5, \"x\", null, true], \"a\": {\"n\": -7}}").unwrap();
    let expected = Json::Object(vec![
        member("a", Json::Object(vec![member("n", Json::Number(Some(-7)))])),
        member(
            "b",
            Json::Array(vec![
                Json::Number(Some(1)),
                Json::Number(None),
                text("x"),
                Json::Null,
                Json::Bool(true),
            ]),
        ),
    ]);
    assert_eq!(document, expected);
}

#[test]
fn broken_json_is_a_syntax_error() {
    assert!(parse_json("{\"results\": [").is_err());
    assert!(parse_json("").is_err());
    assert!(parse_json("[1] 2").is_err());
    assert_eq!(color::get_all("not json"), Err(CatalogError::Syntax));
}

#[test]
fn numbers_beyond_i64_hold_no_integer() {
    let document = parse_json("[9223372036854775807, 9223372036854775808, 1e3]").unwrap();
    assert_eq!(
        document,
        Json::Array(vec![Json::Number(Some(i64::MAX)), Json::Number(None), Json::Number(None)])
    );
}

#[test]
fn get_finds_members_and_gives_null_otherwise() {
    let object = Json::Object(vec![member("id", Json::Number(Some(3))), member("name", text("n"))]);
    assert_eq!(object.get("id").as_i64(), Some(3));
    assert_eq!(object.get("name").as_str(), Some("n"));
    assert!(object.get("missing").is_null());
    assert!(text("plain").get("id").is_null());
    assert_eq!(object.get("id").as_str(), None);
    assert_eq!(object.get("name").as_bool(), None);
    assert!(object.get("name").as_array().is_none());
}

#[test]
fn colors_are_read_from_a_listing() {
    let body = "{\"count\": 2, \"results\": [\
        {\"id\": -1, \"name\": \"[Unknown]\", \"rgb\": \"0033B2\", \"is_trans\": false},\
        {\"id\": 36, \"name\": \"Trans-Red\", \"rgb\": \"C91A09\", \"is_trans\": true}]}";
    let colors = color::get_all(body).unwrap();
    assert_eq!(
        colors,
        vec![
            color { id: -1, name: "[Unknown]".to_string(), rgb: "0033B2".to_string(), is_trans: false },
            color { id: 36, name: "Trans-Red".to_string(), rgb: "C91A09".to_string(), is_trans: true },
        ]
    );
    assert_eq!(colors[1].get_id(), 36);
    assert_eq!(colors[1].get_rgb(), "C91A09");
}

#[test]
fn a_listing_names_its_first_faulty_field() {
    assert_eq!(color::get_all("{}"), Err(CatalogError::Field(Field::Results)));
    assert_eq!(color::get_all("{\"results\": 3}"), Err(CatalogError::Field(Field::Results)));
    assert_eq!(
        color::get_all("{\"results\": [{\"id\": 1, \"name\": \"a\", \"rgb\": \"000000\"}]}"),
        Err(CatalogError::Field(Field::IsTrans))
    );
    assert_eq!(
        color::get_all(
            "{\"results\": [{\"id\": 1, \"name\": \"a\", \"is_trans\": false, \"rgb\": \"0\"}, \
             {\"id\": \"2\", \"name\": 5}]}"
        ),
        Err(CatalogError::Field(Field::Id))
    );
    assert_eq!(
        part_category::get_all("{\"results\": [{\"id\": 1, \"name\": \"a\"}]}"),
        Err(CatalogError::Field(Field::PartCount))
    );
    assert_eq!(Field::PartCount.name(), "part_count");
    assert_eq!(Field::ColorId.name(), "id");
}

#[test]
fn categories_are_read_from_a_listing() {
    let body = "{\"results\": [{\"id\": 11, \"name\": \"Bricks\", \"part_count\": 42}]}";
    let categories = part_category::get_all(body).unwrap();
    assert_eq!(categories, vec![part_category { id: 11, name: "Bricks".to_string(), part_count: 42 }]);
    assert_eq!(categories[0].get_id(), 11);
    assert_eq!(categories[0].get_name(), "Bricks");
}

#[test]
fn an_integer_keeps_its_low_32_bits() {
    let body = "{\"results\": [{\"id\": 4294967301, \"name\": \"Big\", \"part_count\": -1}]}";
    let categories = part_category::get_all(body).unwrap();
    assert_eq!(categories[0].id, 5);
    assert_eq!(categories[0].part_count, -1);
    assert_eq!(keep_low_32_bits(0), 0);
    assert_eq!(keep_low_32_bits(2147483647), 2147483647);
    assert_eq!(keep_low_32_bits(2147483648), -2147483648);
    assert_eq!(keep_low_32_bits(-2147483648), -2147483648);
    assert_eq!(keep_low_32_bits(-2147483649), 2147483647);
    assert_eq!(keep_low_32_bits(4294967296), 0);
    assert_eq!(keep_low_32_bits(i64::MAX), -1);
    assert_eq!(keep_low_32_bits(i64::MIN), 0);
}

fn details_json(img: &str, print_of: &str) -> String {
    format!(
        "{{\"part_num\": \"3001pr1\", \"name\": \"Brick 2 x 4 with Print\", \"part_cat_id\": 11, \
         \"year_from\": 1999, \"year_to\": 2005, \"part_url\": \"https://example.org/p\", \
         \"part_img_url\": {}, \"prints\": [], \"molds\": [\"3001a\", \"3001b\"], \
         \"alternates\": [\"x\"], \"print_of\": {}}}",
        img, print_of
    )
}

#[test]
fn part_details_are_read_field_by_field() {
    let details = part_details::new(&details_json("null", "\"3001\"")).unwrap();
    assert_eq!(
        details,
        part_details {
            part_num: "3001pr1".to_string(),
            name: "Brick 2 x 4 with Print".to_string(),
            part_cat_id: 11,
            year_from: 1999,
            year_to: 2005,
            part_url: "https://example.org/p".to_string(),
            part_img_url: None,
            prints: vec![],
            molds: vec!["3001a".to_string(), "3001b".to_string()],
            alternates: vec!["x".to_string()],
            print_of: Some("3001".to_string()),
        }
    );
    assert_eq!(details.get_part_num(), "3001pr1");
    assert_eq!(details.get_part_cat_id(), 11);
    assert_eq!(details.get_year_from(), 1999);
    let with_image = part_details::new(&details_json("\"https://example.org/i.png\"", "null")).unwrap();
    assert_eq!(with_image.part_img_url, Some("https://example.org/i.png".to_string()));
    assert_eq!(with_image.print_of, None);
}

#[test]
fn part_details_name_their_faults() {
    assert_eq!(
        part_details::new(&details_json("7", "null")),
        Err(CatalogError::Field(Field::PartImgUrl))
    );
    assert_eq!(
        part_details::new(&details_json("null", "[]")),
        Err(CatalogError::Field(Field::PrintOf))
    );
    assert_eq!(part_details::new("{}"), Err(CatalogError::Field(Field::PartNum)));
    let bad_molds = details_json("null", "null").replace("\"3001b\"", "3001");
    assert_eq!(part_details::new(&bad_molds), Err(CatalogError::Field(Field::Molds)));
    let listing = format!("{{\"results\": [{}]}}", details_json("null", "null"));
    assert_eq!(part_details::get_100(&listing).unwrap().len(), 1);
}

#[test]
fn a_part_joins_its_external_ids() {
    let body = "{\"part_num\": \"3001\", \"name\": \"Brick 2 x 4\", \"part_url\": \"u\", \
                \"part_img_url\": \"i\", \"part_cat_id\": 11, \
                \"external_ids\": [{\"external_id\": \"ab\"}, {\"external_id\": \"cd\"}]}";
    assert_eq!(
        part::get_part(body),
        Ok(part {
            id: 0,
            part_num: "3001".to_string(),
            name: "Brick 2 x 4".to_string(),
            part_cat_id: 11,
            part_url: "u".to_string(),
            part_img_url: "i".to_string(),
            external_ids: "abcd".to_string(),
        })
    );
    assert_eq!(
        part::get_part(&body.replace("{\"external_id\": \"cd\"}", "{}")),
        Err(CatalogError::Field(Field::ExternalId))
    );
    assert_eq!(
        part::get_part(&body.replace("[{\"external_id\": \"ab\"}, {\"external_id\": \"cd\"}]", "{}")),
        Err(CatalogError::Field(Field::ExternalIds))
    );
    assert_eq!(
        part::get_part(&body.replace("\"part_img_url\": \"i\"", "\"part_img_url\": null")),
        Err(CatalogError::Field(Field::PartImgUrl))
    );
}

#[test]
fn records_are_read_from_hand_made_json() {
    let item = Json::Object(vec![
        member("part", Json::Object(vec![member("part_num", text("3001"))])),
        member("color", Json::Object(vec![member("id", Json::Number(Some(4)))])),
        member("quantity", Json::Number(Some(12))),
        member("is_spare", Json::Bool(true)),
    ]);
    let line = inventory_part::from_json(&item).unwrap();
    assert_eq!(
        line,
        inventory_part {
            id: 0,
            set_num: String::new(),
            part_num: "3001".to_string(),
            color_id: 4,
            quantity: 12,
            is_spare: true,
        }
    );
    assert_eq!(line.get_part_num(), "3001");
    assert_eq!(line.get_color_id(), 4);
    assert_eq!(line.get_quantity(), 12);
    let broken = Json::Object(vec![member("part", Json::Object(vec![member("part_num", text("3001"))]))]);
    assert_eq!(inventory_part::from_json(&broken), Err(Field::ColorId));
    let items = vec![item, broken];
    assert_eq!(read_records::<inventory_part>(&items), Err(Field::ColorId));
    let listing = Json::Object(vec![member("results", Json::Array(Vec::new()))]);
    assert_eq!(read_listing::<color>(&listing), Ok(Vec::new()));
    assert_eq!(read_listing::<color>(&Json::Null), Err(Field::Results));
}

#[test]
fn urls_are_written_with_the_token() {
    assert_eq!(
        color::get_all_url("KEY"),
        "https://rebrickable.com/api/v3/lego/colors/?page_size=1000&ordering=name&key=KEY"
    );
    assert_eq!(
        part_category::get_all_url("KEY"),
        "https://rebrickable.com/api/v3/lego/part_categories/?page_size=500&ordering=name&key=KEY"
    );
    assert_eq!(
        part::get_part_url("3001", "KEY"),
        "https://rebrickable.com/api/v3/lego/parts/3001/?key=KEY"
    );
    let line = inventory_part::new_simplified("3002".to_string(), 1, 1, false);
    assert_eq!(
        part_details::new_url(&line, "KEY"),
        "https://rebrickable.com/api/v3/lego/parts/3002/?key=KEY"
    );
    assert_eq!(
        part_details::get_100_url(&vec!["3001".to_string(), "3002".to_string(), "x".to_string()], "KEY"),
        "https://rebrickable.com/api/v3/lego/parts/?key=KEY&part_nums=3001,3002,x&inc_part_details=1"
    );
    assert_eq!(
        part_details::get_100_url(&Vec::new(), "KEY"),
        "https://rebrickable.com/api/v3/lego/parts/?key=KEY&part_nums=&inc_part_details=1"
    );
}

#[test]
fn set_numbers_are_checked() {
    for good in ["123-1", "1234-1", "75192-1", "10030-9", "abc-1"] {
        assert!(inventory::is_valid_set_num(good), "{}", good);
    }
    for bad in ["", "12-1", "123456-1", "0123-1", "1234-0", "1234-a", "12345", "1234--", "12341-", "é12-1", "123é-1"] {
        assert!(!inventory::is_valid_set_num(bad), "{}", bad);
    }
}

#[test]
fn an_inventory_knows_its_url() {
    let inventory = inventory::new("75192-1");
    assert_eq!(
        inventory,
        inventory {
            id: 0,
            set_num: "75192-1".to_string(),
            version: 0,
            inventory_url: "https://rebrickable.com/api/v3/lego/sets/75192-1/parts/".to_string(),
            last_modified_dt: "2020-01-01".to_string(),
        }
    );
    let start = inventory.begin();
    assert_eq!(start, Download { page: 1, parts: Vec::new(), finished: false });
    assert_eq!(
        inventory.page_url(&start, "KEY"),
        "https://rebrickable.com/api/v3/lego/sets/75192-1/parts/?page=1&page_size=100&ordering=color&key=KEY&inc_minifig_parts=1"
    );
    let later = Download { page: 12, parts: Vec::new(), finished: false };
    assert_eq!(
        Rebrickable::new("T".to_string()).inventory_url(&inventory, &later),
        "https://rebrickable.com/api/v3/lego/sets/75192-1/parts/?page=12&page_size=100&ordering=color&key=T&inc_minifig_parts=1"
    );
}

fn page(lines: &[(&str, i32, i32, bool)]) -> String {
    let items: Vec<String> = lines
        .iter()
        .map(|(part, color, quantity, spare)| {
            format!(
                "{{\"part\": {{\"part_num\": \"{}\"}}, \"color\": {{\"id\": {}}}, \"quantity\": {}, \"is_spare\": {}}}",
                part, color, quantity, spare
            )
        })
        .collect();
    format!("{{\"results\": [{}]}}", items.join(","))
}

#[test]
fn a_download_goes_page_by_page() {
    let inventory = inventory::new("1234-1");
    let first = inventory
        .download(inventory.begin(), 200, &page(&[("3001", 4, 2, false), ("3002", 0, 1, true)]))
        .unwrap();
    assert_eq!(first.page, 2);
    assert!(!first.finished);
    assert_eq!(first.parts.len(), 2);
    assert_eq!(
        first.parts[1],
        inventory_part {
            id: 0,
            set_num: "1234-1".to_string(),
            part_num: "3002".to_string(),
            color_id: 0,
            quantity: 1,
            is_spare: true,
        }
    );
    let second = inventory.download(first, 200, &page(&[("3003", 1, 5, false)])).unwrap();
    assert_eq!(second.page, 3);
    assert_eq!(second.parts.len(), 3);
    assert_eq!(second.parts[0].part_num, "3001");
    assert_eq!(second.parts[2].part_num, "3003");
    let last = inventory.download(second.clone(), 200, &page(&[])).unwrap();
    assert!(last.finished);
    assert_eq!(last.page, 3);
    assert_eq!(last.parts, second.parts);
    let not_found = inventory.download(second.clone(), 404, "whatever").unwrap();
    assert!(not_found.finished);
    assert_eq!(not_found.parts, second.parts);
}

#[test]
fn a_download_fails_on_a_bad_page() {
    let inventory = inventory::new("1234-1");
    assert_eq!(inventory.download(inventory.begin(), 200, "<html>"), Err(CatalogError::Syntax));
    assert_eq!(
        inventory.download(inventory.begin(), 200, "{\"detail\": \"x\"}"),
        Err(CatalogError::Field(Field::Results))
    );
    assert_eq!(
        inventory.download(
            inventory.begin(),
            200,
            "{\"results\": [{\"part\": {\"part_num\": \"1\"}, \"color\": {\"id\": 1}, \"quantity\": \"2\", \"is_spare\": false}]}"
        ),
        Err(CatalogError::Field(Field::Quantity))
    );
    let at_limit = Download { page: u64::MAX, parts: Vec::new(), finished: false };
    assert_eq!(
        inventory.download(at_limit, 200, &page(&[("3001", 4, 2, false)])),
        Err(CatalogError::PageLimit)
    );
    let document = parse_json(&page(&[("3001", 4, 2, false)])).unwrap();
    assert_eq!(inventory.take_page(inventory.begin(), &document).unwrap().page, 2);
}

#[test]
fn part_numbers_go_out_in_batches_of_a_hundred() {
    let numbers: Vec<String> = (0..250).map(|n| format!("n{}", n)).collect();
    let batches = part_details::batches(&numbers);
    assert_eq!(batches.len(), 3);
    assert_eq!(batches[0].len(), 100);
    assert_eq!(batches[1].len(), 100);
    assert_eq!(batches[2].len(), 50);
    assert_eq!(batches[1][0], "n100");
    assert_eq!(batches[2][49], "n249");
    assert_eq!(batches.concat(), numbers);
    assert!(part_details::batches(&Vec::new()).is_empty());
    assert_eq!(part_details::batches(&numbers[..100].to_vec()).len(), 1);
    assert_eq!(part_details::batches(&numbers[..101].to_vec()).len(), 2);
}

#[test]
fn the_client_asks_for_details_in_batches() {
    let client = Rebrickable::new("KEY".to_string());
    let lines: Vec<inventory_part> = (0..101)
        .map(|n| inventory_part::new_simplified(format!("n{}", n), 1, 1, false))
        .collect();
    let urls = client.part_details_urls(&lines);
    assert_eq!(urls.len(), 2);
    assert!(urls[0].starts_with("https://rebrickable.com/api/v3/lego/parts/?key=KEY&part_nums=n0,n1,n2,"));
    assert!(urls[0].ends_with(",n99&inc_part_details=1"));
    assert_eq!(
        urls[1],
        "https://rebrickable.com/api/v3/lego/parts/?key=KEY&part_nums=n100&inc_part_details=1"
    );
    assert_eq!(client.all_colors_url(), color::get_all_url("KEY"));
    assert_eq!(client.all_categories_url(), part_category::get_all_url("KEY"));
    assert_eq!(client.inventory("1234-1"), inventory::new("1234-1"));
}

#[test]
fn details_of_many_bodies_come_in_order() {
    let one = format!("{{\"results\": [{}]}}", details_json("null", "null"));
    let two = format!(
        "{{\"results\": [{}, {}]}}",
        details_json("null", "null").replace("3001pr1", "a"),
        details_json("null", "null").replace("3001pr1", "b")
    );
    let all = part_details::get_many(&vec![one.clone(), two.clone()]).unwrap();
    let numbers: Vec<&str> = all.iter().map(|d| d.part_num.as_str()).collect();
    assert_eq!(numbers, vec!["3001pr1", "a", "b"]);
    assert_eq!(part_details::get_many(&Vec::new()), Ok(Vec::new()));
    assert_eq!(
        part_details::get_many(&vec![one.clone(), "{".to_string(), two]),
        Err(CatalogError::Syntax)
    );
    let client = Rebrickable::new("KEY".to_string());
    assert_eq!(client.part_details(&vec![one]).unwrap().len(), 1);
    assert_eq!(
        client.all_colors("{\"results\": []}"),
        Ok(Vec::new())
    );
    assert_eq!(client.all_categories("{\"results\": []}"), Ok(Vec::new()));
}

#[test]
fn every_field_has_its_key() {
    let keys = [
        (Field::Results, "results"),
        (Field::Id, "id"),
        (Field::Name, "name"),
        (Field::IsTrans, "is_trans"),
        (Field::Rgb, "rgb"),
        (Field::PartCount, "part_count"),
        (Field::PartNum, "part_num"),
        (Field::ColorId, "id"),
        (Field::Quantity, "quantity"),
        (Field::IsSpare, "is_spare"),
        (Field::PartCatId, "part_cat_id"),
        (Field::YearFrom, "year_from"),
        (Field::YearTo, "year_to"),
        (Field::PartUrl, "part_url"),
        (Field::PartImgUrl, "part_img_url"),
        (Field::Prints, "prints"),
        (Field::Molds, "molds"),
        (Field::Alternates, "alternates"),
        (Field::PrintOf, "print_of"),
        (Field::ExternalIds, "external_ids"),
        (Field::ExternalId, "external_id"),
    ];
    for (field, key) in keys {
        assert_eq!(field.name(), key);
    }
}

#[test]
fn each_field_of_the_details_is_mandatory() {
    let fields = [
        ("part_num", Field::PartNum),
        ("name", Field::Name),
        ("part_cat_id", Field::PartCatId),
        ("year_from", Field::YearFrom),
        ("year_to", Field::YearTo),
        ("part_url", Field::PartUrl),
        ("prints", Field::Prints),
        ("molds", Field::Molds),
        ("alternates", Field::Alternates),
    ];
    for (key, field) in fields {
        let body = details_json("null", "null").replace(&format!("\"{}\":", key), "\"other\":");
        assert_eq!(part_details::new(&body), Err(CatalogError::Field(field)), "{}", key);
    }
    // the two optional texts may be absent
    let body = details_json("null", "null")
        .replace("\"part_img_url\":", "\"a\":")
        .replace("\"print_of\":", "\"b\":");
    let details = part_details::new(&body).unwrap();
    assert_eq!(details.part_img_url, None);
    assert_eq!(details.print_of, None);
}

#[test]
fn each_field_of_a_line_is_mandatory() {
    let good = page(&[("3001", 4, 2, false)]);
    let inventory = inventory::new("1234-1");
    for (from, field) in [
        ("\"part_num\"", Field::PartNum),
        ("\"id\"", Field::ColorId),
        ("\"quantity\"", Field::Quantity),
        ("\"is_spare\"", Field::IsSpare),
    ] {
        let body = good.replace(from, "\"other\"");
        assert_eq!(
            inventory.download(inventory.begin(), 200, &body),
            Err(CatalogError::Field(field)),
            "{}",
            from
        );
    }
    for (from, field) in [("\"name\"", Field::Name), ("\"rgb\"", Field::Rgb), ("\"id\"", Field::Id)] {
        let body = "{\"results\": [{\"id\": 1, \"name\": \"a\", \"is_trans\": false, \"rgb\": \"0\"}]}"
            .replace(from, "\"other\"");
        assert_eq!(color::get_all(&body), Err(CatalogError::Field(field)), "{}", from);
    }
}
