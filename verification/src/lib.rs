//! Statistics over LEGO set inventories.
//!
//! The library joins the lines of an inventory with the parts, categories and
//! colours of the Rebrickable catalogue and shapes them into the dataset of a
//! stacked histogram (`input`, `output`). Around that it writes the requests
//! to the catalogue and reads its responses (`catalog`, `reading`, `json`),
//! reads inventories from local tables (`local`), and writes the text that the
//! renderers are fed (`plot`, `wordcloud`, `printout`). It moves no bytes
//! itself: requests, files and child processes are the caller's.

pub mod catalog;
pub mod input;
pub mod json;
pub mod local;
pub mod output;
pub mod plot;
pub mod printout;
pub mod reading;
pub mod rebrickable;
pub mod run;
pub mod sorting;
pub mod text;
pub mod wordcloud;
