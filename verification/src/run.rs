//! What a run works out from its arguments: the set number, the title of the
//! histogram and the names of the files it writes.

use crate::text::{join, text_equal};
use vstd::prelude::*;
use vstd::string::{StrSliceExecFns, StringExecFns};

verus! {

/// Whether the text holds a dash.
pub fn has_dash(text: &str) -> (found: bool)
    ensures
        found == text@.contains('-'),
{
    let len = text.unicode_len();
    let mut i: usize = 0;
    while i < len
        invariant
            len == text@.len(),
            i <= len,
            forall|k: int| 0 <= k < i ==> text@[k] != '-',
        decreases len - i,
    {
        if text.get_char(i) == '-' {
            return true;
        }
        i += 1;
    }
    false
}

/// The set number in full: as given where it holds a dash, else with "-1"
/// behind it.
pub open spec fn full_set_num(set: Seq<char>) -> Seq<char> {
    if set.contains('-') {
        set
    } else {
        set + "-1"@
    }
}

/// Completes a set number that is given without its version.
pub fn unify_set_num(set: &str) -> (set_num: String)
    ensures
        set_num@ == full_set_num(set@),
{
    if has_dash(set) {
        String::from_str(set)
    } else {
        join(set, "-1")
    }
}

/// Where the histogram goes: into the images of the given name where the
/// output is "png", onto the screen for any other output or none.
pub open spec fn prefix_for(output: Option<Seq<char>>, name: Seq<char>) -> Option<Seq<char>> {
    match output {
        Some(kind) => if kind == "png"@ {
            Some("images/"@ + name)
        } else {
            None
        },
        None => None,
    }
}

/// The prefix of the files that a run writes, where it writes any.
pub fn output_file_prefix(output: Option<&str>, name: &str) -> (prefix: Option<String>)
    ensures
        prefix is Some == prefix_for(
            match output {
                Some(kind) => Some(kind@),
                None => None,
            },
            name@,
        ) is Some,
        prefix is Some ==> Some(prefix->0@) == prefix_for(
            match output {
                Some(kind) => Some(kind@),
                None => None,
            },
            name@,
        ),
{
    match output {
        Some(kind) => {
            if text_equal(kind, "png") {
                Some(join("images/", name))
            } else {
                None
            }
        },
        None => None,
    }
}

/// Whether the output is one that a run can write: only "png" is.
pub fn output_is_supported(output: &str) -> (supported: bool)
    ensures
        supported == (output@ == "png"@),
{
    text_equal(output, "png")
}

/// The title of the histogram of a set.
pub fn set_title(set_num: &str) -> (title: String)
    ensures
        title@ == "Parts of Set "@ + set_num@,
{
    join("Parts of Set ", set_num)
}

/// The title of the histogram of a local table.
pub fn file_title(file_name: &str) -> (title: String)
    ensures
        title@ == "Parts of "@ + file_name@,
{
    join("Parts of ", file_name)
}

/// The name of the image of the word cloud.
pub fn wordcloud_file(prefix: &str) -> (file_name: String)
    ensures
        file_name@ == prefix@ + "_wordcloud.png"@,
{
    join(prefix, "_wordcloud.png")
}

} // verus!
