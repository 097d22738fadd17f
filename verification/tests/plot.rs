use brickstats::output::Dataset;
use brickstats::plot::{Gnuplot, DEFAULT_CONFIG};

fn strings(items: &[&str]) -> Vec<String> {
    items.iter().map(|s| s.to_string()).collect()
}

#[test]
fn default_settings_are_as_written() {
    assert!(DEFAULT_CONFIG.starts_with("\nset lmargin screen 0.05\nset rmargin screen 0.95\n"));
    assert!(DEFAULT_CONFIG.contains("\nset key autotitle columnheader \nset ytics auto\n#set mytics 5\n"));
    assert!(DEFAULT_CONFIG.ends_with("set grid ytics\nset title font \"Helvetica,20\"\n"));
    assert_eq!(DEFAULT_CONFIG.lines().count(), 17);
}

#[test]
fn a_histogram_is_shown() {
    let (config, data) = Gnuplot::prepare_plotting(
        strings(&["Bricks", "Plates"]),
        vec![vec![10, 0], vec![0, 3]],
        strings(&["ff0000", "00ff00"]),
        None,
        "Parts of Set 1234-1".to_string(),
    );
    let expected = format!(
        "{}\nset title \"Parts of Set 1234-1\"\nplot '-' using 2:xtic(1) with histogram notitle lc rgb \"#ff0000\", '-' using 2 with histogram notitle lc rgb \"#00ff00\"",
        DEFAULT_CONFIG
    );
    assert_eq!(config, expected);
    assert_eq!(data, "\"Bricks\" 10\n\"Plates\" 0\ne\n\"Bricks\" 0\n\"Plates\" 3\ne\n");
}

#[test]
fn a_histogram_is_written_to_a_file() {
    let (config, data) = Gnuplot::prepare_plotting(
        strings(&["Only"]),
        vec![vec![-2147483648], vec![2147483647], vec![7]],
        strings(&["000000", "111111", "222222", "unused"]),
        Some("images/1234-1".to_string()),
        "T".to_string(),
    );
    let expected = format!(
        "{}\nset title \"T\"\nset output 'images/1234-1_histogram.png'\nset terminal pngcairo enhanced font \"Times New Roman,12.0\" size 1920,1080\nplot '-' using 2:xtic(1) with histogram notitle lc rgb \"#000000\", '-' using 2 with histogram notitle lc rgb \"#111111\", '-' using 2 with histogram notitle lc rgb \"#222222\"",
        DEFAULT_CONFIG
    );
    assert_eq!(config, expected);
    assert_eq!(data, "\"Only\" -2147483648\ne\n\"Only\" 2147483647\ne\n\"Only\" 7\ne\n");
}

#[test]
fn lines_stop_with_the_shorter_of_labels_and_values() {
    let (config, data) = Gnuplot::plot_text(
        "cfg",
        &strings(&["a", "b"]),
        &vec![vec![1, 2, 3], vec![4], vec![]],
        &strings(&["c0", "c1", "c2"]),
    );
    assert_eq!(
        config,
        "cfg\nplot '-' using 2:xtic(1) with histogram notitle lc rgb \"#c0\", '-' using 2 with histogram notitle lc rgb \"#c1\", '-' using 2 with histogram notitle lc rgb \"#c2\""
    );
    assert_eq!(data, "\"a\" 1\n\"b\" 2\ne\n\"a\" 4\ne\n\ne\n");
}

#[test]
fn no_rows_still_name_one_series() {
    let (config, data) = Gnuplot::plot_text("", &strings(&["a"]), &Vec::new(), &strings(&["abcdef"]));
    assert_eq!(config, "\nplot '-' using 2:xtic(1) with histogram notitle lc rgb \"#abcdef\"");
    assert_eq!(data, "");
}

#[test]
fn a_dataset_gives_its_plot_text() {
    let dataset = Dataset::new(
        String::new(),
        strings(&["Bricks"]),
        vec![vec![5]],
        strings(&["c91a09"]),
    );
    assert_eq!(dataset.title, "");
    let (config, data) = dataset.output(Some("images/x".to_string()), "Parts of x".to_string());
    assert_eq!(
        config,
        Gnuplot::settings_text("Parts of x", &Some("images/x".to_string()))
            + "\nplot '-' using 2:xtic(1) with histogram notitle lc rgb \"#c91a09\""
    );
    assert_eq!(data, "\"Bricks\" 5\ne\n");
    let (shown, _) = dataset.output(None, "t".to_string());
    assert!(!shown.contains("set output"));
    assert!(shown.contains("\nset title \"t\"\n"));
}
