//! The text corpus that a word cloud of an inventory is made from: one line
//! for each piece, a colour and a part name shaped into single words.

use crate::text::{signed_decimal, signed_text, text_equal};
use vstd::prelude::*;
use vstd::string::StringExecFns;

verus! {

/// One kind of piece of an inventory, by the names of its colour and its part.
#[derive(Debug, Clone, PartialEq, Eq)]
pub struct InventoryEntry {
    pub color: String,
    pub part_name: String,
    pub quantity: i32,
}

impl InventoryEntry {
    pub fn new(color: String, part_name: String, quantity: i32) -> (entry: InventoryEntry)
        ensures
            entry.color == color,
            entry.part_name == part_name,
            entry.quantity == quantity,
    {
        InventoryEntry { color, part_name, quantity }
    }
}

/// Whether `text` begins with `pattern`.
pub open spec fn begins_with(text: Seq<char>, pattern: Seq<char>) -> bool {
    pattern.len() <= text.len() && text.take(pattern.len() as int) == pattern
}

/// `text` with every occurrence of `pattern` replaced by `with`, from left to
/// right; occurrences do not overlap.
pub open spec fn replaced(text: Seq<char>, pattern: Seq<char>, with: Seq<char>) -> Seq<char>
    recommends
        pattern.len() > 0,
    decreases text.len(),
{
    if pattern.len() == 0 || text.len() == 0 {
        text
    } else if begins_with(text, pattern) {
        with + replaced(text.skip(pattern.len() as int), pattern, with)
    } else {
        seq![text[0]] + replaced(text.drop_first(), pattern, with)
    }
}

/// Calls `str::replace` with a pattern that is not empty. The standard library
/// replaces all matches of the pattern, which it finds from left to right
/// without overlap; `replaced` says the same.
#[verifier::external_body]
fn replace(text: &str, pattern: &str, with: &str) -> (out: String)
    requires
        pattern@.len() > 0,
    ensures
        out@ == replaced(text@, pattern@, with@),
{
    text.replace(pattern, with)
}

/// The lower-case form that `str::to_lowercase` gives a text.
pub uninterp spec fn lowercase(text: Seq<char>) -> Seq<char>;

/// Calls `str::to_lowercase`, whose result depends on the text alone.
#[verifier::external_body]
fn to_lowercase(text: &str) -> (lower: String)
    ensures
        lower@ == lowercase(text@),
{
    text.to_lowercase()
}

/// The pieces of `text` between the matches of the regular expression
/// `pattern`, as `regex::Regex::split` hands them out; `None` where
/// `regex::Regex::new` does not take the pattern.
pub uninterp spec fn regex_gaps(pattern: Seq<char>, text: Seq<char>) -> Option<Seq<Seq<char>>>;

/// What the first group holds in each match of the regular expression
/// `pattern` in `text`, as `regex::Regex::captures_iter` hands the matches
/// out, and `None` for a match in which the group takes no part; `None` for
/// the whole where `regex::Regex::new` does not take the pattern.
pub uninterp spec fn regex_groups(pattern: Seq<char>, text: Seq<char>) -> Option<
    Seq<Option<Seq<char>>>,
>;

/// The views of optional strings, one for one.
pub open spec fn optional_views(items: Seq<Option<String>>) -> Seq<Option<Seq<char>>> {
    Seq::new(
        items.len(),
        |i: int|
            match items[i] {
                Some(text) => Some(text@),
                None => None,
            },
    )
}

/// Compiles `pattern` with `regex::Regex::new` and collects what
/// `regex::Regex::split` yields for `text`. The result depends on the pattern
/// and the text alone; nothing more is claimed of it.
#[verifier::external_body]
fn split_at_matches(pattern: &str, text: &str) -> (gaps: Option<Vec<String>>)
    ensures
        gaps is Some == regex_gaps(pattern@, text@) is Some,
        gaps is Some ==> Some(gaps->0.deep_view()) == regex_gaps(pattern@, text@),
{
    match regex::Regex::new(pattern) {
        Ok(re) => Some(re.split(text).map(|gap| gap.to_string()).collect()),
        Err(_) => None,
    }
}

/// Compiles `pattern` with `regex::Regex::new` and collects, for each match
/// that `regex::Regex::captures_iter` yields for `text`, what
/// `regex::Captures::get` gives for the first group. The result depends on
/// the pattern and the text alone; nothing more is claimed of it.
#[verifier::external_body]
fn first_groups(pattern: &str, text: &str) -> (groups: Option<Vec<Option<String>>>)
    ensures
        groups is Some == regex_groups(pattern@, text@) is Some,
        groups is Some ==> Some(optional_views(groups->0@)) == regex_groups(pattern@, text@),
{
    match regex::Regex::new(pattern) {
        Ok(re) => Some(
            re.captures_iter(text).map(|found| found.get(1).map(|m| m.as_str().to_string())).collect(),
        ),
        Err(_) => None,
    }
}

/// The regular expression for a number word between white space.
pub const NUMBER_WORD: &'static str =
    "(?i)\\s(one|two|three|four|five|six|seven|eight|nine|ten)\\s";

/// The regular expression for a single digit between white space.
pub const LONE_DIGIT: &'static str = "\\s(\\d)\\s";

/// The number that a lower-case number word stands for, from "one" to "nine";
/// 0 for every other text.
pub open spec fn number_of(lowered: Seq<char>) -> i32 {
    if lowered == "one"@ {
        1
    } else if lowered == "two"@ {
        2
    } else if lowered == "three"@ {
        3
    } else if lowered == "four"@ {
        4
    } else if lowered == "five"@ {
        5
    } else if lowered == "six"@ {
        6
    } else if lowered == "seven"@ {
        7
    } else if lowered == "eight"@ {
        8
    } else if lowered == "nine"@ {
        9
    } else {
        0
    }
}

/// The number that a lower-case number word stands for.
pub fn number_of_word(lowered: &str) -> (n: i32)
    ensures
        n == number_of(lowered@),
{
    if text_equal(lowered, "one") {
        1
    } else if text_equal(lowered, "two") {
        2
    } else if text_equal(lowered, "three") {
        3
    } else if text_equal(lowered, "four") {
        4
    } else if text_equal(lowered, "five") {
        5
    } else if text_equal(lowered, "six") {
        6
    } else if text_equal(lowered, "seven") {
        7
    } else if text_equal(lowered, "eight") {
        8
    } else if text_equal(lowered, "nine") {
        9
    } else {
        0
    }
}

/// The number that a number word stands for, whatever its case.
pub fn parse_number(number_str: &str) -> (n: i32)
    ensures
        n == number_of(lowercase(number_str@)),
{
    let lowered = to_lowercase(number_str);
    number_of_word(lowered.as_str())
}

/// What a match is replaced by.
#[derive(Debug, Clone, Copy, PartialEq, Eq, Structural)]
pub enum Fill {
    /// The number that the matched word stands for, in digits.
    Number,
    /// A blank, the matched digit and an underscore.
    Digit,
}

impl Fill {
    /// The text that takes the place of a match whose first group is `group`.
    pub open spec fn text(self, group: Seq<char>) -> Seq<char> {
        match self {
            Fill::Number => signed_decimal(number_of(lowercase(group)) as int),
            Fill::Digit => " "@ + group + "_"@,
        }
    }

    /// The text that takes the place of a match.
    pub fn text_for(self, group: &str) -> (fill: String)
        ensures
            fill@ == self.text(group@),
    {
        match self {
            Fill::Number => signed_text(parse_number(group) as i64),
            Fill::Digit => {
                let mut fill = String::from_str(" ");
                fill.append(group);
                fill.append("_");
                fill
            },
        }
    }
}

/// The first `count` fills woven into the gaps: a gap, a fill, a gap, and so
/// on, ending with the gap after the last fill.
pub open spec fn woven(gaps: Seq<Seq<char>>, fills: Seq<Seq<char>>, count: nat) -> Seq<char>
    decreases count,
{
    if count == 0 {
        gaps[0]
    } else {
        woven(gaps, fills, (count - 1) as nat) + fills[count - 1] + gaps[count as int]
    }
}

/// The fills for the given groups, one for one.
pub open spec fn fills_for(fill: Fill, groups: Seq<Option<Seq<char>>>) -> Seq<Seq<char>> {
    Seq::new(groups.len(), |k: int| fill.text(groups[k]->0))
}

/// `gaps` with the fills for `groups` woven in; `None` where there is not one
/// gap more than there are groups, or where a group is missing.
pub open spec fn matches_filled(
    fill: Fill,
    gaps: Seq<Seq<char>>,
    groups: Seq<Option<Seq<char>>>,
) -> Option<Seq<char>> {
    if gaps.len() == groups.len() + 1 && forall|k: int|
        0 <= k < groups.len() ==> (#[trigger] groups[k]) is Some {
        Some(woven(gaps, fills_for(fill, groups), groups.len()))
    } else {
        None
    }
}

/// Weaves the fills for the groups of the matches into the gaps between the
/// matches.
pub fn fill_matches(fill: Fill, gaps: &Vec<String>, groups: &Vec<Option<String>>) -> (out: Option<
    String,
>)
    ensures
        out is Some == matches_filled(fill, gaps.deep_view(), optional_views(groups@)) is Some,
        out is Some ==> Some(out->0@) == matches_filled(
            fill,
            gaps.deep_view(),
            optional_views(groups@),
        ),
{
    let ghost gap_texts = gaps.deep_view();
    let ghost group_texts = optional_views(groups@);
    if gaps.len() == 0 || gaps.len() - 1 != groups.len() {
        return None;
    }
    let mut out = gaps[0].clone();
    let mut k: usize = 0;
    while k < groups.len()
        invariant
            gap_texts == gaps.deep_view(),
            group_texts == optional_views(groups@),
            gaps@.len() == groups@.len() + 1,
            k <= groups@.len(),
            forall|j: int| 0 <= j < k ==> (#[trigger] group_texts[j]) is Some,
            out@ == woven(gap_texts, fills_for(fill, group_texts), k as nat),
        decreases groups@.len() - k,
    {
        match &groups[k] {
            Some(group) => {
                proof {
                    assert(group_texts[k as int] == Some(group@));
                    assert(gap_texts[k + 1] == gaps@[k + 1]@);
                }
                out.append(fill.text_for(group.as_str()).as_str());
                out.append(gaps[k + 1].as_str());
            },
            None => {
                proof {
                    assert(group_texts[k as int] is None);
                }
                return None;
            },
        }
        k += 1;
    }
    Some(out)
}

/// `text` with every match of `pattern` replaced by the fill for its first
/// group; `None` where the pattern is no regular expression or a match lacks
/// its first group.
pub open spec fn rewritten(fill: Fill, pattern: Seq<char>, text: Seq<char>) -> Option<Seq<char>> {
    match (regex_gaps(pattern, text), regex_groups(pattern, text)) {
        (Some(gaps), Some(groups)) => matches_filled(fill, gaps, groups),
        _ => None,
    }
}

/// Replaces every match of `pattern` in `text` by the fill for its first
/// group.
pub fn rewrite(fill: Fill, pattern: &str, text: &str) -> (out: Option<String>)
    ensures
        out is Some == rewritten(fill, pattern@, text@) is Some,
        out is Some ==> Some(out->0@) == rewritten(fill, pattern@, text@),
{
    let gaps = match split_at_matches(pattern, text) {
        Some(gaps) => gaps,
        None => { return None; },
    };
    let groups = match first_groups(pattern, text) {
        Some(groups) => groups,
        None => { return None; },
    };
    fill_matches(fill, &gaps, &groups)
}

/// A colour name without its fillers and in one piece: without "Reddish " and
/// " Bluish", and with underscores for blanks.
pub open spec fn color_stripped(color: Seq<char>) -> Seq<char> {
    replaced(replaced(replaced(color, "Reddish "@, ""@), " Bluish "@, " "@), " "@, "_"@)
}

/// A colour name as one word: stripped of its fillers, joined by underscores,
/// and in lower case.
pub open spec fn color_word(color: Seq<char>) -> Seq<char> {
    lowercase(color_stripped(color))
}

/// Shapes a colour name into one lower-case word.
pub fn format_color(color: &str) -> (word: String)
    ensures
        word@ == color_word(color@),
{
    proof {
        reveal_strlit("Reddish ");
        reveal_strlit(" Bluish ");
        reveal_strlit(" ");
    }
    let plain = replace(color, "Reddish ", "");
    let plain = replace(plain.as_str(), " Bluish ", " ");
    let joined = replace(plain.as_str(), " ", "_");
    to_lowercase(joined.as_str())
}

/// `text` with an underscore in place of the blank after each of the
/// prepositions with, on, of, for, in, to and from, where they stand between
/// blanks.
pub open spec fn prepositions_bound(text: Seq<char>) -> Seq<char> {
    let text = replaced(text, " with "@, " with_"@);
    let text = replaced(text, " on "@, " on_"@);
    let text = replaced(text, " of "@, " of_"@);
    let text = replaced(text, " for "@, " for_"@);
    let text = replaced(text, " in "@, " in_"@);
    let text = replaced(text, " to "@, " to_"@);
    replaced(text, " from "@, " from_"@)
}

/// A part name with its phrases bound into words: " x " becomes "x", a number
/// word between white space its digit, a lone digit is tied to what follows
/// it, and so is each preposition.
pub open spec fn part_words(part_name: Seq<char>) -> Option<Seq<char>> {
    match rewritten(Fill::Number, NUMBER_WORD@, replaced(part_name, " x "@, "x"@)) {
        Some(numbered) => match rewritten(Fill::Digit, LONE_DIGIT@, numbered) {
            Some(tied) => Some(prepositions_bound(tied)),
            None => None,
        },
        None => None,
    }
}

/// Binds the phrases of a part name into words.
pub fn format_part_name(part_name: &str) -> (words: Option<String>)
    ensures
        words is Some == part_words(part_name@) is Some,
        words is Some ==> Some(words->0@) == part_words(part_name@),
{
    proof {
        reveal_strlit(" x ");
        reveal_strlit(" with ");
        reveal_strlit(" on ");
        reveal_strlit(" of ");
        reveal_strlit(" for ");
        reveal_strlit(" in ");
        reveal_strlit(" to ");
        reveal_strlit(" from ");
    }
    let crossed = replace(part_name, " x ", "x");
    let numbered = match rewrite(Fill::Number, NUMBER_WORD, crossed.as_str()) {
        Some(numbered) => numbered,
        None => { return None; },
    };
    let tied = match rewrite(Fill::Digit, LONE_DIGIT, numbered.as_str()) {
        Some(tied) => tied,
        None => { return None; },
    };
    let text = replace(tied.as_str(), " with ", " with_");
    let text = replace(text.as_str(), " on ", " on_");
    let text = replace(text.as_str(), " of ", " of_");
    let text = replace(text.as_str(), " for ", " for_");
    let text = replace(text.as_str(), " in ", " in_");
    let text = replace(text.as_str(), " to ", " to_");
    Some(replace(text.as_str(), " from ", " from_"))
}

/// `line` written `count` times.
pub open spec fn repeated(line: Seq<char>, count: nat) -> Seq<char>
    decreases count,
{
    if count == 0 {
        Seq::empty()
    } else {
        repeated(line, (count - 1) as nat) + line
    }
}

/// The lines of one entry: its lower-case colour word, a blank and its part
/// words, once for each piece.
pub open spec fn entry_lines(entry: InventoryEntry) -> Option<Seq<char>> {
    match part_words(entry.part_name@) {
        Some(words) => Some(
            repeated(
                color_word(entry.color@) + " "@ + words + "\n"@,
                if entry.quantity > 0 {
                    entry.quantity as nat
                } else {
                    0
                },
            ),
        ),
        None => None,
    }
}

/// The lines of the first `count` entries, one entry after the other; `None`
/// where one of them has none.
pub open spec fn corpus(entries: Seq<InventoryEntry>, count: nat) -> Option<Seq<char>>
    decreases count,
{
    if count == 0 {
        Some(Seq::empty())
    } else {
        match (corpus(entries, (count - 1) as nat), entry_lines(entries[count - 1])) {
            (Some(before), Some(lines)) => Some(before + lines),
            _ => None,
        }
    }
}

/// The text that the word cloud is made from: for each entry, in order, one
/// line for each of its pieces.
pub fn text_file(inventory_entries: &Vec<InventoryEntry>) -> (text: Option<String>)
    ensures
        text is Some == corpus(inventory_entries@, inventory_entries@.len()) is Some,
        text is Some ==> Some(text->0@) == corpus(inventory_entries@, inventory_entries@.len()),
{
    let mut text = String::new();
    let mut i: usize = 0;
    while i < inventory_entries.len()
        invariant
            i <= inventory_entries@.len(),
            corpus(inventory_entries@, i as nat) == Some(text@),
        decreases inventory_entries@.len() - i,
    {
        let entry = &inventory_entries[i];
        let words = match format_part_name(entry.part_name.as_str()) {
            Some(words) => words,
            None => {
                proof {
                    lemma_corpus_fails_for_good(
                        inventory_entries@,
                        (i + 1) as nat,
                        inventory_entries@.len(),
                    );
                }
                return None;
            },
        };
        let mut line = format_color(entry.color.as_str());
        line.append(" ");
        line.append(words.as_str());
        line.append("\n");
        let mut written: i32 = 0;
        let ghost before = text@;
        proof {
            assert(before + repeated(line@, 0) =~= before);
        }
        while written < entry.quantity
            invariant
                0 <= written,
                entry.quantity >= 0 ==> written <= entry.quantity,
                entry.quantity < 0 ==> written == 0,
                text@ == before + repeated(line@, written as nat),
            decreases entry.quantity - written,
        {
            proof {
                assert(before + repeated(line@, written as nat) + line@ =~= before + repeated(
                    line@,
                    (written + 1) as nat,
                ));
            }
            text.append(line.as_str());
            written += 1;
        }
        i += 1;
    }
    Some(text)
}

/// Once the lines of some entry are missing, the corpus is missing however
/// many entries follow.
pub proof fn lemma_corpus_fails_for_good(entries: Seq<InventoryEntry>, count: nat, more: nat)
    requires
        count <= more,
        corpus(entries, count) is None,
    ensures
        corpus(entries, more) is None,
    decreases more,
{
    if count < more {
        lemma_corpus_fails_for_good(entries, count, (more - 1) as nat);
    }
}

/// The arguments with which the word cloud generator is called: the text
/// file, the image file, white background, a dark blue colour, 1920 by 1080
/// pixels, and the stop words file.
pub fn wordcloud_arguments(text_path: &str, output_path: &str, stopwords_path: &str) -> (arguments:
    Vec<String>)
    ensures
        arguments@.len() == 14,
        arguments@[0]@ == "--text"@,
        arguments@[1]@ == text_path@,
        arguments@[2]@ == "--imagefile"@,
        arguments@[3]@ == output_path@,
        arguments@[4]@ == "--background"@,
        arguments@[5]@ == "#FFFFFF"@,
        arguments@[6]@ == "--color"@,
        arguments@[7]@ == "#134567"@,
        arguments@[8]@ == "--width"@,
        arguments@[9]@ == "1920"@,
        arguments@[10]@ == "--height"@,
        arguments@[11]@ == "1080"@,
        arguments@[12]@ == "--stopwords"@,
        arguments@[13]@ == stopwords_path@,
{
    let mut arguments: Vec<String> = Vec::new();
    arguments.push(String::from_str("--text"));
    arguments.push(String::from_str(text_path));
    arguments.push(String::from_str("--imagefile"));
    arguments.push(String::from_str(output_path));
    arguments.push(String::from_str("--background"));
    arguments.push(String::from_str("#FFFFFF"));
    arguments.push(String::from_str("--color"));
    arguments.push(String::from_str("#134567"));
    arguments.push(String::from_str("--width"));
    arguments.push(String::from_str("1920"));
    arguments.push(String::from_str("--height"));
    arguments.push(String::from_str("1080"));
    arguments.push(String::from_str("--stopwords"));
    arguments.push(String::from_str(stopwords_path));
    arguments
}

} // verus!
