//! The dataset that a stacked histogram is drawn from.

use crate::plot::{plot_command, plot_data, series_count, settings, Gnuplot};
use crate::reading::optional_view;
use vstd::prelude::*;

verus! {

/// A stacked-histogram dataset: one column per label, one row per series, and
/// one colour per row.
#[derive(Debug, Clone, PartialEq, Eq)]
pub struct Dataset {
    pub title: String,
    pub labels: Vec<String>,
    pub matrix: Vec<Vec<i32>>,
    pub color_values: Vec<String>,
}

/// What a `Dataset` holds, as mathematical sequences.
pub struct DatasetView {
    pub title: Seq<char>,
    pub labels: Seq<Seq<char>>,
    pub matrix: Seq<Seq<i32>>,
    pub color_values: Seq<Seq<char>>,
}

impl DatasetView {
    /// The matrix is rectangular with one column per label, and every row has
    /// its colour.
    pub open spec fn well_formed(self) -> bool {
        &&& self.color_values.len() == self.matrix.len()
        &&& forall|i: int|
            0 <= i < self.matrix.len() ==> (#[trigger] self.matrix[i]).len() == self.labels.len()
    }
}

impl View for Dataset {
    type V = DatasetView;

    open spec fn view(&self) -> DatasetView {
        DatasetView {
            title: self.title@,
            labels: self.labels.deep_view(),
            matrix: self.matrix.deep_view(),
            color_values: self.color_values.deep_view(),
        }
    }
}

impl Dataset {
    /// A dataset of the given parts, taken as they are.
    pub fn new(
        title: String,
        labels: Vec<String>,
        matrix: Vec<Vec<i32>>,
        color_values: Vec<String>,
    ) -> (dataset: Dataset)
        ensures
            dataset.title == title,
            dataset.labels == labels,
            dataset.matrix == matrix,
            dataset.color_values == color_values,
    {
        Dataset { title, labels, matrix, color_values }
    }

    /// The text that draws the dataset with gnuplot, under the given title:
    /// the settings with the plot command, and the data. With `output` the
    /// histogram goes to the PNG file of that prefix; without, it is shown.
    pub fn output(&self, output: Option<String>, title: String) -> (text: (String, String))
        requires
            self.color_values@.len() >= 1,
            self.color_values@.len() >= self.matrix@.len(),
        ensures
            text.0@ == settings(title@, optional_view(output)) + plot_command(
                self@.color_values,
                series_count(self@.matrix.len()),
            ),
            text.1@ == plot_data(self@.labels, self@.matrix, self@.matrix.len()),
    {
        let config = Gnuplot::settings_text(title.as_str(), &output);
        Gnuplot::plot_text(config.as_str(), &self.labels, &self.matrix, &self.color_values)
    }
}

} // verus!
