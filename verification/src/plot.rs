//! The text that gnuplot is fed to draw a dataset as a stacked histogram: a
//! block of settings that ends in the plot command, and the inline data.

use crate::text::{signed_decimal, signed_text};
use vstd::prelude::*;
use vstd::string::StringExecFns;

verus! {

/// The settings that every histogram starts from.
pub const DEFAULT_CONFIG: &'static str = "\n\
set lmargin screen 0.05\n\
set rmargin screen 0.95\n\
set tmargin screen 0.9\n\
set palette rgbformulae 3,2,2\n\
set palette maxcolors 256\n\
unset colorbox\n\
set style data histograms\n\
set style histogram rowstacked\n\
set style fill solid border -1\n\
set boxwidth 0.9 relative\n\
set key autotitle columnheader \n\
set ytics auto\n\
#set mytics 5\n\
set xtics rotate by -45 scale 0\n\
set grid ytics\n\
set title font \"Helvetica,20\"\n";

/// The gnuplot backend.
pub struct Gnuplot {}

/// The part of the plot command that draws the series with the given index.
pub open spec fn series_clause(index: int, color: Seq<char>) -> Seq<char> {
    if index == 0 {
        "\nplot '-' using 2:xtic(1) with histogram notitle lc rgb \"#"@ + color + "\""@
    } else {
        " '-' using 2 with histogram notitle lc rgb \"#"@ + color + "\""@
    }
}

/// The plot command for the first `count` series, separated by commas.
pub open spec fn plot_command(colors: Seq<Seq<char>>, count: nat) -> Seq<char>
    decreases count,
{
    if count == 0 {
        Seq::empty()
    } else if count == 1 {
        series_clause(0, colors[0])
    } else {
        plot_command(colors, (count - 1) as nat) + ","@ + series_clause(
            count - 1,
            colors[count - 1],
        )
    }
}

/// How many series the plot command names: one for each row, and one where
/// there is no row.
pub open spec fn series_count(rows: nat) -> nat {
    if rows == 0 {
        1
    } else {
        rows
    }
}

/// One line of data: the label in quotes, a blank and the value.
pub open spec fn data_line(label: Seq<char>, value: i32) -> Seq<char> {
    "\""@ + label + "\" "@ + signed_decimal(value as int)
}

/// The first `count` lines of a series, separated by line feeds.
pub open spec fn data_lines(labels: Seq<Seq<char>>, row: Seq<i32>, count: nat) -> Seq<char>
    decreases count,
{
    if count == 0 {
        Seq::empty()
    } else if count == 1 {
        data_line(labels[0], row[0])
    } else {
        data_lines(labels, row, (count - 1) as nat) + "\n"@ + data_line(
            labels[count - 1],
            row[count - 1],
        )
    }
}

/// How many lines a series has: as many as there are labels and values both.
pub open spec fn line_count(labels: Seq<Seq<char>>, row: Seq<i32>) -> nat {
    if labels.len() <= row.len() {
        labels.len()
    } else {
        row.len()
    }
}

/// The data of one series: its lines, closed by the end-of-data line.
pub open spec fn series_data(labels: Seq<Seq<char>>, row: Seq<i32>) -> Seq<char> {
    data_lines(labels, row, line_count(labels, row)) + "\ne\n"@
}

/// The data of the first `count` series, one after the other.
pub open spec fn plot_data(labels: Seq<Seq<char>>, matrix: Seq<Seq<i32>>, count: nat) -> Seq<char>
    decreases count,
{
    if count == 0 {
        Seq::empty()
    } else {
        plot_data(labels, matrix, (count - 1) as nat) + series_data(labels, matrix[count - 1])
    }
}

/// The settings of a histogram with the given title; with a file name prefix
/// the histogram is written to a PNG file of 1920 by 1080 pixels, without one
/// it is shown.
pub open spec fn settings(title: Seq<char>, file_name_prefix: Option<Seq<char>>) -> Seq<char> {
    let titled = DEFAULT_CONFIG@ + "\nset title \""@ + title + "\""@;
    match file_name_prefix {
        Some(prefix) => titled + "\nset output '"@ + prefix + "_histogram.png'"@
            + "\nset terminal pngcairo enhanced font \"Times New Roman,12.0\" size 1920,1080"@,
        None => titled,
    }
}

impl Gnuplot {
    /// The plot command for the rows of `data`, each in its colour, appended
    /// to `config`; and the data of the rows under `labels`.
    pub fn plot_text(
        config: &str,
        labels: &Vec<String>,
        data: &Vec<Vec<i32>>,
        colors: &Vec<String>,
    ) -> (text: (String, String))
        requires
            colors@.len() >= 1,
            colors@.len() >= data@.len(),
        ensures
            text.0@ == config@ + plot_command(colors.deep_view(), series_count(data@.len())),
            text.1@ == plot_data(labels.deep_view(), data.deep_view(), data@.len()),
    {
        let ghost color_texts = colors.deep_view();
        let ghost label_texts = labels.deep_view();
        let ghost matrix = data.deep_view();
        let mut command = String::from_str("\nplot '-' using 2:xtic(1) with histogram notitle lc rgb \"#");
        command.append(colors[0].as_str());
        command.append("\"");
        let mut k: usize = 1;
        while k < data.len()
            invariant
                color_texts == colors.deep_view(),
                1 <= k,
                k <= data@.len() || k == 1,
                colors@.len() >= data@.len(),
                command@ == plot_command(color_texts, k as nat),
            decreases data@.len() - k,
        {
            proof {
                assert(color_texts[k as int] == colors@[k as int]@);
            }
            command.append(",");
            command.append(" '-' using 2 with histogram notitle lc rgb \"#");
            command.append(colors[k].as_str());
            command.append("\"");
            k += 1;
        }
        let mut config_text = String::from_str(config);
        config_text.append(command.as_str());

        let mut data_text = String::new();
        let mut i: usize = 0;
        while i < data.len()
            invariant
                label_texts == labels.deep_view(),
                matrix == data.deep_view(),
                i <= data@.len(),
                data_text@ == plot_data(label_texts, matrix, i as nat),
            decreases data@.len() - i,
        {
            let row = &data[i];
            let ghost values = matrix[i as int];
            proof {
                assert(values =~= row@);
            }
            let mut j: usize = 0;
            let mut block = String::new();
            while j < labels.len() && j < row.len()
                invariant
                    label_texts == labels.deep_view(),
                    values == row@,
                    j <= labels@.len(),
                    j <= row@.len(),
                    block@ == data_lines(label_texts, values, j as nat),
                decreases labels@.len() - j,
            {
                proof {
                    assert(label_texts[j as int] == labels@[j as int]@);
                    if j == 0 {
                        assert(Seq::<char>::empty() + data_line(label_texts[0], values[0])
                            =~= data_line(label_texts[0], values[0]));
                    }
                }
                if j > 0 {
                    block.append("\n");
                }
                block.append("\"");
                block.append(labels[j].as_str());
                block.append("\" ");
                block.append(signed_text(row[j] as i64).as_str());
                j += 1;
            }
            block.append("\ne\n");
            data_text.append(block.as_str());
            i += 1;
        }
        (config_text, data_text)
    }

    /// The settings of a histogram, as `settings` defines them.
    pub fn settings_text(title: &str, file_name_prefix: &Option<String>) -> (config: String)
        ensures
            config@ == settings(title@, crate::reading::optional_view(*file_name_prefix)),
    {
        let mut config = String::from_str(DEFAULT_CONFIG);
        config.append("\nset title \"");
        config.append(title);
        config.append("\"");
        match file_name_prefix {
            Some(prefix) => {
                config.append("\nset output '");
                config.append(prefix.as_str());
                config.append("_histogram.png'");
                config.append(
                    "\nset terminal pngcairo enhanced font \"Times New Roman,12.0\" size 1920,1080",
                );
            },
            None => {},
        }
        config
    }

    /// The settings, the plot command and the data that draw a histogram of
    /// `data` under `labels`, each row in its colour.
    pub fn prepare_plotting(
        labels: Vec<String>,
        data: Vec<Vec<i32>>,
        colors: Vec<String>,
        file_name_prefix: Option<String>,
        title: String,
    ) -> (text: (String, String))
        requires
            colors@.len() >= 1,
            colors@.len() >= data@.len(),
        ensures
            text.0@ == settings(title@, crate::reading::optional_view(file_name_prefix))
                + plot_command(colors.deep_view(), series_count(data@.len())),
            text.1@ == plot_data(labels.deep_view(), data.deep_view(), data@.len()),
    {
        let config = Gnuplot::settings_text(title.as_str(), &file_name_prefix);
        Gnuplot::plot_text(config.as_str(), &labels, &data, &colors)
    }
}

} // verus!
