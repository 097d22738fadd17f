//! The lines of the printouts of an inventory and of the details of a part.

use crate::input::part_numbers;
use crate::reading::optional_view;
use crate::rebrickable::{inventory_part, part_details};
use crate::sorting::{
    distinct, lemma_stable_sort_maps, rank_le, sort_stably, stable_sort, Ranked,
};
use crate::text::{
    signed_decimal, signed_text, text_equal, text_le, text_precedes, wide_signed_text,
};
use vstd::prelude::*;
use vstd::string::StringExecFns;

verus! {

impl Ranked for String {
    /// In the order of strings.
    open spec fn precedes(&self, other: &Self) -> bool {
        text_le(self@, other@)
    }

    fn comes_before(&self, other: &Self) -> (b: bool) {
        text_precedes(self.as_str(), other.as_str())
    }
}

/// The order of texts, as a relation.
pub open spec fn text_order() -> spec_fn(Seq<char>, Seq<char>) -> bool {
    |a: Seq<char>, b: Seq<char>| text_le(a, b)
}

/// The given texts without repetition, in ascending order.
pub open spec fn listed(texts: Seq<Seq<char>>) -> Seq<Seq<char>> {
    stable_sort(distinct(texts), text_order())
}

/// The colour ids of the lines in decimal notation, one for one.
pub open spec fn color_texts(lines: Seq<inventory_part>) -> Seq<Seq<char>> {
    Seq::new(lines.len(), |i: int| signed_decimal(lines[i].color_id as int))
}

/// Whether the line is of the given part and colour.
pub open spec fn in_cell(line: inventory_part, part: Seq<char>, color: Seq<char>) -> bool {
    line.part_num@ == part && signed_decimal(line.color_id as int) == color
}

/// The pieces of the given part and colour, over all lines.
pub open spec fn cell_quantity(lines: Seq<inventory_part>, part: Seq<char>, color: Seq<char>) -> int
    decreases lines.len(),
{
    if lines.len() == 0 {
        0
    } else {
        cell_quantity(lines.drop_last(), part, color) + if in_cell(lines.last(), part, color) {
            lines.last().quantity as int
        } else {
            0
        }
    }
}

/// Whether the last line of the given part and colour is a spare; `false`
/// where there is no such line.
pub open spec fn cell_is_spare(lines: Seq<inventory_part>, part: Seq<char>, color: Seq<char>) -> bool
    decreases lines.len(),
{
    if lines.len() == 0 {
        false
    } else if in_cell(lines.last(), part, color) {
        lines.last().is_spare
    } else {
        cell_is_spare(lines.drop_last(), part, color)
    }
}

/// The line of the printout for one part and colour.
pub open spec fn cell_line(lines: Seq<inventory_part>, part: Seq<char>, color: Seq<char>) -> Seq<
    char,
> {
    part + " "@ + color + " "@ + signed_decimal(cell_quantity(lines, part, color)) + " "@
        + if cell_is_spare(lines, part, color) {
        "yes"@
    } else {
        "no"@
    }
}

/// The lines of the printout for one part: one for each colour, in order.
pub open spec fn part_block(lines: Seq<inventory_part>, part: Seq<char>, colors: Seq<Seq<char>>) -> Seq<
    Seq<char>,
> {
    Seq::new(colors.len(), |j: int| cell_line(lines, part, colors[j]))
}

/// The heading and the blocks of the first `count` parts.
pub open spec fn printout(
    lines: Seq<inventory_part>,
    parts: Seq<Seq<char>>,
    colors: Seq<Seq<char>>,
    count: nat,
) -> Seq<Seq<char>>
    decreases count,
{
    if count == 0 {
        seq!["Part Color Quantity Spare"@]
    } else {
        printout(lines, parts, colors, (count - 1) as nat) + part_block(
            lines,
            parts[count - 1],
            colors,
        )
    }
}

/// Whether `texts` holds `text`.
fn holds_text(texts: &Vec<String>, text: &str) -> (found: bool)
    ensures
        found == texts.deep_view().contains(text@),
{
    let mut i: usize = 0;
    while i < texts.len()
        invariant
            i <= texts@.len(),
            forall|k: int| 0 <= k < i ==> texts.deep_view()[k] != text@,
        decreases texts@.len() - i,
    {
        if text_equal(texts[i].as_str(), text) {
            assert(texts.deep_view()[i as int] == text@);
            return true;
        }
        i += 1;
    }
    false
}

/// The given texts without repetition, in ascending order.
pub fn list_texts(texts: &Vec<String>) -> (out: Vec<String>)
    ensures
        out.deep_view() == listed(texts.deep_view()),
{
    let ghost all = texts.deep_view();
    let mut kept: Vec<String> = Vec::new();
    let mut i: usize = 0;
    proof {
        assert(all.take(0) =~= Seq::<Seq<char>>::empty());
        assert(kept.deep_view() =~= Seq::<Seq<char>>::empty());
    }
    while i < texts.len()
        invariant
            all == texts.deep_view(),
            i <= texts@.len(),
            kept.deep_view() == distinct(all.take(i as int)),
        decreases texts@.len() - i,
    {
        proof {
            assert(all.take(i + 1).drop_last() =~= all.take(i as int));
            assert(all.take(i + 1).last() == texts@[i as int]@);
        }
        let ghost before = kept.deep_view();
        if !holds_text(&kept, texts[i].as_str()) {
            kept.push(texts[i].clone());
            proof {
                assert(kept.deep_view() =~= before.push(texts@[i as int]@));
            }
        }
        i += 1;
    }
    proof {
        assert(all.take(all.len() as int) =~= all);
    }
    let ghost unsorted = kept@;
    let out = sort_stably(kept);
    proof {
        let view = |s: String| s@;
        let le = rank_le::<String>();
        assert forall|a: int, b: int|
            0 <= a < unsorted.len() && 0 <= b < unsorted.len() implies #[trigger] le(
            unsorted[a],
            unsorted[b],
        ) == text_order()(view(unsorted[a]), view(unsorted[b])) by {}
        lemma_stable_sort_maps(unsorted, view, le, text_order());
        assert(unsorted.map_values(view) =~= distinct(all));
        assert(out@.map_values(view) =~= out.deep_view());
    }
    out
}

impl inventory_part {
    /// The printout of an inventory: a heading, and for each part number and
    /// each colour id that occurs, both in the order of strings, a line with
    /// the part, the colour, the number of pieces of that part in that colour
    /// and "yes" or "no" for spare, as the last such line says.
    pub fn print(inventory_parts: &Vec<inventory_part>) -> (lines: Vec<String>)
        ensures
            lines.deep_view() == printout(
                inventory_parts@,
                listed(part_numbers(inventory_parts@)),
                listed(color_texts(inventory_parts@)),
                listed(part_numbers(inventory_parts@)).len(),
            ),
    {
        let mut numbers: Vec<String> = Vec::new();
        let mut shades: Vec<String> = Vec::new();
        let mut i: usize = 0;
        while i < inventory_parts.len()
            invariant
                i <= inventory_parts@.len(),
                numbers@.len() == i,
                shades@.len() == i,
                forall|k: int|
                    0 <= k < i ==> (#[trigger] numbers@[k])@ == inventory_parts@[k].part_num@,
                forall|k: int|
                    0 <= k < i ==> (#[trigger] shades@[k])@ == signed_decimal(
                        inventory_parts@[k].color_id as int,
                    ),
            decreases inventory_parts@.len() - i,
        {
            numbers.push(inventory_parts[i].part_num.clone());
            shades.push(signed_text(inventory_parts[i].color_id as i64));
            i += 1;
        }
        proof {
            assert(numbers.deep_view() =~= part_numbers(inventory_parts@));
            assert(shades.deep_view() =~= color_texts(inventory_parts@));
        }
        let parts = list_texts(&numbers);
        let colors = list_texts(&shades);
        let ghost part_texts = parts.deep_view();
        let ghost color_list = colors.deep_view();

        let mut lines: Vec<String> = Vec::new();
        lines.push(String::from_str("Part Color Quantity Spare"));
        proof {
            assert(lines.deep_view() =~= printout(inventory_parts@, part_texts, color_list, 0));
        }
        let mut p: usize = 0;
        while p < parts.len()
            invariant
                part_texts == parts.deep_view(),
                color_list == colors.deep_view(),
                shades.deep_view() == color_texts(inventory_parts@),
                shades@.len() == inventory_parts@.len(),
                p <= parts@.len(),
                lines.deep_view() == printout(inventory_parts@, part_texts, color_list, p as nat),
            decreases parts@.len() - p,
        {
            let ghost before = lines.deep_view();
            let ghost block = part_block(inventory_parts@, part_texts[p as int], color_list);
            let mut c: usize = 0;
            proof {
                assert(before + block.take(0) =~= before);
            }
            while c < colors.len()
                invariant
                    part_texts == parts.deep_view(),
                    color_list == colors.deep_view(),
                    shades.deep_view() == color_texts(inventory_parts@),
                    shades@.len() == inventory_parts@.len(),
                    p < parts@.len(),
                    block == part_block(inventory_parts@, part_texts[p as int], color_list),
                    c <= colors@.len(),
                    lines.deep_view() == before + block.take(c as int),
                decreases colors@.len() - c,
            {
                let line = cell_text(inventory_parts, &shades, parts[p].as_str(), colors[c].as_str());
                let ghost earlier = lines.deep_view();
                lines.push(line);
                proof {
                    assert(part_texts[p as int] == parts@[p as int]@);
                    assert(color_list[c as int] == colors@[c as int]@);
                    assert(lines.deep_view() =~= earlier.push(line@));
                    assert(before + block.take(c + 1) =~= (before + block.take(c as int)).push(
                        block[c as int],
                    ));
                }
                c += 1;
            }
            proof {
                assert(block.take(block.len() as int) =~= block);
            }
            p += 1;
        }
        lines
    }
}

/// The line of the printout for one part and colour; `shades` holds the
/// colour ids of the lines in decimal notation.
fn cell_text(lines: &Vec<inventory_part>, shades: &Vec<String>, part: &str, color: &str) -> (line:
    String)
    requires
        shades@.len() == lines@.len(),
        shades.deep_view() == color_texts(lines@),
    ensures
        line@ == cell_line(lines@, part@, color@),
{
    let mut quantity: i128 = 0;
    let mut is_spare = false;
    let mut i: usize = 0;
    proof {
        assert(lines@.take(0) =~= Seq::<inventory_part>::empty());
    }
    while i < lines.len()
        invariant
            shades@.len() == lines@.len(),
            shades.deep_view() == color_texts(lines@),
            i <= lines@.len(),
            quantity == cell_quantity(lines@.take(i as int), part@, color@),
            -(i * 0x8000_0000) <= quantity <= i * 0x8000_0000,
            is_spare == cell_is_spare(lines@.take(i as int), part@, color@),
        decreases lines@.len() - i,
    {
        proof {
            assert(lines@.take(i + 1).drop_last() =~= lines@.take(i as int));
            assert(lines@.take(i + 1).last() == lines@[i as int]);
            assert(shades.deep_view()[i as int] == shades@[i as int]@);
        }
        if text_equal(lines[i].part_num.as_str(), part) && text_equal(shades[i].as_str(), color) {
            quantity = quantity + lines[i].quantity as i128;
            is_spare = lines[i].is_spare;
        }
        i += 1;
    }
    proof {
        assert(lines@.take(lines@.len() as int) =~= lines@);
    }
    let mut line = String::from_str(part);
    line.append(" ");
    line.append(color);
    line.append(" ");
    line.append(wide_signed_text(quantity).as_str());
    line.append(" ");
    if is_spare {
        line.append("yes");
    } else {
        line.append("no");
    }
    line
}

/// How the standard library writes an optional string for debugging (the
/// `{:?}` form of `Option<String>`).
pub uninterp spec fn debug_form(value: Option<Seq<char>>) -> Seq<char>;

/// Formats an optional string with `{:?}`. The result depends on the value
/// alone; nothing more is claimed of it.
#[verifier::external_body]
fn debug_text(value: &Option<String>) -> (text: String)
    ensures
        text@ == debug_form(optional_view(*value)),
{
    format!("{:?}", value)
}

/// The given texts with a comma and a blank between each two.
pub open spec fn comma_list(texts: Seq<Seq<char>>) -> Seq<char>
    decreases texts.len(),
{
    if texts.len() == 0 {
        Seq::empty()
    } else if texts.len() == 1 {
        texts[0]
    } else {
        comma_list(texts.drop_last()) + ", "@ + texts.last()
    }
}

fn comma_text(texts: &Vec<String>) -> (out: String)
    ensures
        out@ == comma_list(texts.deep_view()),
{
    let ghost all = texts.deep_view();
    let mut out = String::new();
    let mut i: usize = 0;
    proof {
        assert(all.take(0) =~= Seq::<Seq<char>>::empty());
    }
    while i < texts.len()
        invariant
            all == texts.deep_view(),
            i <= texts@.len(),
            out@ == comma_list(all.take(i as int)),
        decreases texts@.len() - i,
    {
        proof {
            assert(all.take(i + 1).drop_last() =~= all.take(i as int));
            assert(all.take(i + 1).last() == texts@[i as int]@);
            if i == 0 {
                assert(Seq::<char>::empty() + texts@[0]@ =~= texts@[0]@);
            }
        }
        if i > 0 {
            out.append(", ");
        }
        out.append(texts[i].as_str());
        i += 1;
    }
    proof {
        assert(all.take(all.len() as int) =~= all);
    }
    out
}

/// The printout of the details of a part, line by line.
pub open spec fn details_printout(details: part_details) -> Seq<Seq<char>> {
    seq![
        "Part: "@ + details.part_num@,
        "Name: "@ + details.name@,
        "Part Category: "@ + signed_decimal(details.part_cat_id as int),
        "Year: "@ + signed_decimal(details.year_from as int) + " - "@ + signed_decimal(
            details.year_to as int,
        ),
        "Part URL: "@ + details.part_url@,
        "Part Image URL: "@ + debug_form(optional_view(details.part_img_url)),
        "Prints: "@ + comma_list(details.prints.deep_view()),
        "Molds: "@ + comma_list(details.molds.deep_view()),
        "Alternates: "@ + comma_list(details.alternates.deep_view()),
        "Print of: "@ + debug_form(optional_view(details.print_of)),
    ]
}

impl part_details {
    /// The printout of the details, one line for each field.
    pub fn print(&self) -> (lines: Vec<String>)
        ensures
            lines.deep_view() == details_printout(*self),
    {
        let mut years = String::from_str("Year: ");
        years.append(signed_text(self.year_from as i64).as_str());
        years.append(" - ");
        years.append(signed_text(self.year_to as i64).as_str());
        let mut lines: Vec<String> = Vec::new();
        lines.push(crate::text::join("Part: ", self.part_num.as_str()));
        lines.push(crate::text::join("Name: ", self.name.as_str()));
        lines.push(
            crate::text::join("Part Category: ", signed_text(self.part_cat_id as i64).as_str()),
        );
        lines.push(years);
        lines.push(crate::text::join("Part URL: ", self.part_url.as_str()));
        lines.push(crate::text::join("Part Image URL: ", debug_text(&self.part_img_url).as_str()));
        lines.push(crate::text::join("Prints: ", comma_text(&self.prints).as_str()));
        lines.push(crate::text::join("Molds: ", comma_text(&self.molds).as_str()));
        lines.push(crate::text::join("Alternates: ", comma_text(&self.alternates).as_str()));
        lines.push(crate::text::join("Print of: ", debug_text(&self.print_of).as_str()));
        proof {
            assert(lines.deep_view() =~= details_printout(*self));
        }
        lines
    }
}

} // verus!
