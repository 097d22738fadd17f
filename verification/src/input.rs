//! From catalogue records to a dataset: the aggregation of an inventory.

use crate::catalog::{
    batch, batch_count, comma_separated, listing_outcome, page_url_of, valid_set_num, CatalogError,
    Download,
};
use crate::output::{Dataset, DatasetView};
use crate::rebrickable::{color, inventory, inventory_part, part_category, part_details};
use crate::wordcloud::InventoryEntry;
use crate::sorting::{
    distinct, lemma_distinct_holds_each_once, lemma_stable_sort_maps, lemma_stable_sort_members,
    rank_le, sort_stably, stable_sort, Ranked,
};
use crate::text::{text_equal, text_le, text_precedes};
use vstd::prelude::*;
use vstd::string::StringExecFns;

verus! {

/// One inventory line, joined with the category of its part.
#[derive(Clone, Copy, Debug, PartialEq, Eq)]
pub struct Tally {
    pub category_id: i32,
    pub quantity: i32,
    pub color_id: i32,
}

impl Ranked for Tally {
    /// By colour id, ascending; within a colour by quantity, descending.
    open spec fn precedes(&self, other: &Self) -> bool {
        self.color_id < other.color_id || (self.color_id == other.color_id && self.quantity
            >= other.quantity)
    }

    fn comes_before(&self, other: &Self) -> (b: bool) {
        self.color_id < other.color_id || (self.color_id == other.color_id && self.quantity
            >= other.quantity)
    }
}

/// A column of the dataset: a category id with its display name.
#[derive(Debug, Clone, PartialEq, Eq)]
pub struct Column {
    pub id: i32,
    pub name: String,
}

impl Ranked for Column {
    /// By display name, in the order of strings.
    open spec fn precedes(&self, other: &Self) -> bool {
        text_le(self.name@, other.name@)
    }

    fn comes_before(&self, other: &Self) -> (b: bool) {
        text_precedes(self.name.as_str(), other.name.as_str())
    }
}

/// The category of the first details record with the given part number.
pub open spec fn find_category(part_num: Seq<char>, details: Seq<part_details>) -> Option<i32>
    decreases details.len(),
{
    if details.len() == 0 {
        None
    } else if details[0].part_num@ == part_num {
        Some(details[0].part_cat_id)
    } else {
        find_category(part_num, details.drop_first())
    }
}

/// The name of the first category with the given id.
pub open spec fn find_name(id: i32, categories: Seq<part_category>) -> Option<Seq<char>>
    decreases categories.len(),
{
    if categories.len() == 0 {
        None
    } else if categories[0].id == id {
        Some(categories[0].name@)
    } else {
        find_name(id, categories.drop_first())
    }
}

/// The RGB value of the first colour with the given id.
pub open spec fn find_rgb(id: i32, colors: Seq<color>) -> Option<Seq<char>>
    decreases colors.len(),
{
    if colors.len() == 0 {
        None
    } else if colors[0].id == id {
        Some(colors[0].rgb@)
    } else {
        find_rgb(id, colors.drop_first())
    }
}

/// The category of a part, or 0 where the details do not hold the part.
pub open spec fn category_of(part_num: Seq<char>, details: Seq<part_details>) -> i32 {
    match find_category(part_num, details) {
        Some(id) => id,
        None => 0,
    }
}

/// The display name of a category, or "unknown" where the categories do not
/// hold the id.
pub open spec fn name_of(id: i32, categories: Seq<part_category>) -> Seq<char> {
    match find_name(id, categories) {
        Some(name) => name,
        None => "unknown"@,
    }
}

/// The RGB value of a colour, or "000000" where the colours do not hold the id.
pub open spec fn rgb_of(id: i32, colors: Seq<color>) -> Seq<char> {
    match find_rgb(id, colors) {
        Some(rgb) => rgb,
        None => "000000"@,
    }
}

/// The inventory joined with the part details, line by line, in input order.
pub open spec fn tallies(inventory: Seq<inventory_part>, details: Seq<part_details>) -> Seq<
    Tally,
> {
    Seq::new(
        inventory.len(),
        |i: int|
            Tally {
                category_id: category_of(inventory[i].part_num@, details),
                quantity: inventory[i].quantity,
                color_id: inventory[i].color_id,
            },
    )
}

/// The rows of the dataset: the tallies in ascending order of colour id, within
/// one colour in descending order of quantity, and otherwise in input order.
pub open spec fn rows(inventory: Seq<inventory_part>, details: Seq<part_details>) -> Seq<Tally> {
    stable_sort(tallies(inventory, details), rank_le::<Tally>())
}

/// The category ids of the given tallies, one for one.
pub open spec fn category_ids(tallies: Seq<Tally>) -> Seq<i32> {
    Seq::new(tallies.len(), |i: int| tallies[i].category_id)
}

/// The order of category ids by their display names.
pub open spec fn by_name(categories: Seq<part_category>) -> spec_fn(i32, i32) -> bool {
    |a: i32, b: i32| text_le(name_of(a, categories), name_of(b, categories))
}

/// The category ids of the columns: those that occur in the rows, in ascending
/// order of their names; ids of equal name in the order in which the rows
/// first show them.
pub open spec fn column_ids(
    inventory: Seq<inventory_part>,
    details: Seq<part_details>,
    categories: Seq<part_category>,
) -> Seq<i32> {
    stable_sort(
        distinct(category_ids(rows(inventory, details))),
        by_name(categories),
    )
}

/// The row of the matrix for one tally: its quantity in the column of its
/// category, zero elsewhere.
pub open spec fn matrix_row(tally: Tally, columns: Seq<i32>) -> Seq<i32> {
    Seq::new(
        columns.len(),
        |j: int|
            if columns[j] == tally.category_id {
                tally.quantity
            } else {
                0i32
            },
    )
}

/// The dataset of an inventory: labels from the columns, one row and one colour
/// value for each inventory line, and an empty title.
pub open spec fn dataset_of(
    inventory: Seq<inventory_part>,
    details: Seq<part_details>,
    categories: Seq<part_category>,
    colors: Seq<color>,
) -> DatasetView {
    let rows = rows(inventory, details);
    let columns = column_ids(inventory, details, categories);
    DatasetView {
        title: Seq::empty(),
        labels: Seq::new(columns.len(), |j: int| name_of(columns[j], categories)),
        matrix: Seq::new(rows.len(), |i: int| matrix_row(rows[i], columns)),
        color_values: Seq::new(rows.len(), |i: int| rgb_of(rows[i].color_id, colors)),
    }
}

/// The order of tallies relates every two tallies and is transitive.
pub proof fn lemma_tally_order_is_total()
    ensures
        crate::sorting::total_preorder(rank_le::<Tally>()),
{
}

/// The order of category ids by name relates every two ids and is transitive.
pub proof fn lemma_name_order_is_total(categories: Seq<part_category>)
    ensures
        crate::sorting::total_preorder(by_name(categories)),
{
    let le = by_name(categories);
    assert forall|a: i32, b: i32| #[trigger] le(a, b) || #[trigger] le(b, a) by {
        crate::text::lemma_text_le_total(name_of(a, categories), name_of(b, categories));
    }
    assert forall|a: i32, b: i32, c: i32| #[trigger] le(a, b) && #[trigger] le(b, c) implies le(
        a,
        c,
    ) by {
        crate::text::lemma_text_le_transitive(
            name_of(a, categories),
            name_of(b, categories),
            name_of(c, categories),
        );
    }
}

/// The dataset has one row and one colour value for each inventory line, and
/// every row has one entry for each label.
pub proof fn lemma_dataset_shape(
    inventory: Seq<inventory_part>,
    details: Seq<part_details>,
    categories: Seq<part_category>,
    colors: Seq<color>,
)
    ensures
        dataset_of(inventory, details, categories, colors).well_formed(),
        dataset_of(inventory, details, categories, colors).matrix.len() == inventory.len(),
        dataset_of(inventory, details, categories, colors).color_values.len() == inventory.len(),
        forall|i: int|
            0 <= i < inventory.len() ==> (#[trigger] dataset_of(
                inventory,
                details,
                categories,
                colors,
            ).matrix[i]).len() == dataset_of(inventory, details, categories, colors).labels.len(),
{
    crate::sorting::lemma_stable_sort_permutes(tallies(inventory, details), rank_le::<Tally>());
}

/// The labels stand in ascending order: no label is followed by one that
/// comes before it in the order of strings.
pub proof fn lemma_labels_ascend(
    inventory: Seq<inventory_part>,
    details: Seq<part_details>,
    categories: Seq<part_category>,
    colors: Seq<color>,
)
    ensures
        forall|i: int, j: int|
            0 <= i < j < dataset_of(inventory, details, categories, colors).labels.len()
                ==> text_le(
                #[trigger] dataset_of(inventory, details, categories, colors).labels[i],
                #[trigger] dataset_of(inventory, details, categories, colors).labels[j],
            ),
{
    let columns = column_ids(inventory, details, categories);
    let le = by_name(categories);
    lemma_name_order_is_total(categories);
    crate::sorting::lemma_stable_sort_orders(distinct(category_ids(rows(inventory, details))), le);
    let labels = dataset_of(inventory, details, categories, colors).labels;
    assert forall|i: int, j: int| 0 <= i < j < labels.len() implies text_le(
        #[trigger] labels[i],
        #[trigger] labels[j],
    ) by {
        assert(le(columns[i], columns[j]));
    }
}

/// The rows stand in ascending order of colour id, and within one colour in
/// descending order of quantity; each colour value is that of its row's colour.
pub proof fn lemma_rows_ascend_by_color(
    inventory: Seq<inventory_part>,
    details: Seq<part_details>,
    categories: Seq<part_category>,
    colors: Seq<color>,
)
    ensures
        forall|i: int, j: int|
            0 <= i < j < rows(inventory, details).len() ==> {
                let a = #[trigger] rows(inventory, details)[i];
                let b = #[trigger] rows(inventory, details)[j];
                a.color_id < b.color_id || (a.color_id == b.color_id && a.quantity >= b.quantity)
            },
        forall|i: int|
            0 <= i < rows(inventory, details).len() ==> #[trigger] dataset_of(
                inventory,
                details,
                categories,
                colors,
            ).color_values[i] == rgb_of(rows(inventory, details)[i].color_id, colors),
{
    let le = rank_le::<Tally>();
    let sorted = rows(inventory, details);
    crate::sorting::lemma_stable_sort_orders(tallies(inventory, details), le);
    assert forall|i: int, j: int| 0 <= i < j < sorted.len() implies {
        let a = #[trigger] sorted[i];
        let b = #[trigger] sorted[j];
        a.color_id < b.color_id || (a.color_id == b.color_id && a.quantity >= b.quantity)
    } by {
        assert(le(sorted[i], sorted[j]));
    }
}

/// The rows are the inventory lines, rearranged: none is merged with another,
/// dropped or added.
pub proof fn lemma_rows_rearrange_inventory(
    inventory: Seq<inventory_part>,
    details: Seq<part_details>,
)
    ensures
        rows(inventory, details).len() == inventory.len(),
        rows(inventory, details).to_multiset() == tallies(inventory, details).to_multiset(),
{
    crate::sorting::lemma_stable_sort_permutes(tallies(inventory, details), rank_le::<Tally>());
}

/// Every category that occurs in the rows has exactly one column, and every
/// column stands for a category that occurs: so the row of a tally holds its
/// quantity in one place and zero in all others.
pub proof fn lemma_one_column_for_each_category(
    inventory: Seq<inventory_part>,
    details: Seq<part_details>,
    categories: Seq<part_category>,
)
    ensures
        column_ids(inventory, details, categories).no_duplicates(),
        forall|x: i32| #[trigger]
            column_ids(inventory, details, categories).contains(x) <==> category_ids(
                rows(inventory, details),
            ).contains(x),
{
    broadcast use vstd::seq_lib::group_to_multiset_ensures;

    let seen = distinct(category_ids(rows(inventory, details)));
    let columns = column_ids(inventory, details, categories);
    lemma_distinct_holds_each_once(category_ids(rows(inventory, details)));
    crate::sorting::lemma_stable_sort_permutes(seen, by_name(categories));
    lemma_stable_sort_members(seen, by_name(categories));
    seen.lemma_multiset_has_no_duplicates();
    columns.lemma_multiset_has_no_duplicates_conv();
}

/// Lines of the same colour and quantity keep the order of the inventory: the
/// rows that rank with any given tally are the tallies that rank with it, in
/// input order.
pub proof fn lemma_rows_keep_input_order(
    inventory: Seq<inventory_part>,
    details: Seq<part_details>,
    tally: Tally,
)
    ensures
        rows(inventory, details).filter(
            |other: Tally| crate::sorting::same_rank(tally, other, rank_le::<Tally>()),
        ) == tallies(inventory, details).filter(
            |other: Tally| crate::sorting::same_rank(tally, other, rank_le::<Tally>()),
        ),
        forall|other: Tally|
            crate::sorting::same_rank(tally, other, rank_le::<Tally>()) <==> (tally.color_id
                == other.color_id && tally.quantity == other.quantity),
{
    lemma_tally_order_is_total();
    crate::sorting::lemma_stable_sort_is_stable(
        tallies(inventory, details),
        tally,
        rank_le::<Tally>(),
    );
}

/// A part is found exactly when some details record has its number; where
/// none has, its category is 0.
pub proof fn lemma_category_miss(part_num: Seq<char>, details: Seq<part_details>)
    ensures
        find_category(part_num, details) is None <==> forall|i: int|
            0 <= i < details.len() ==> (#[trigger] details[i]).part_num@ != part_num,
        find_category(part_num, details) is None ==> category_of(part_num, details) == 0,
    decreases details.len(),
{
    if details.len() > 0 {
        let rest = details.drop_first();
        lemma_category_miss(part_num, rest);
        if find_category(part_num, details) is None {
            assert forall|i: int| 0 <= i < details.len() implies (#[trigger] details[i]).part_num@
                != part_num by {
                if i > 0 {
                    assert(rest[i - 1] == details[i]);
                }
            }
        } else if details[0].part_num@ != part_num {
            let i = choose|i: int| 0 <= i < rest.len() && (#[trigger] rest[i]).part_num@ == part_num;
            assert(details[i + 1] == rest[i]);
        }
    }
}

/// A category is found exactly when some category record has its id; where
/// none has, its name is "unknown".
pub proof fn lemma_name_miss(id: i32, categories: Seq<part_category>)
    ensures
        find_name(id, categories) is None <==> forall|i: int|
            0 <= i < categories.len() ==> (#[trigger] categories[i]).id != id,
        find_name(id, categories) is None ==> name_of(id, categories) == "unknown"@,
    decreases categories.len(),
{
    if categories.len() > 0 {
        let rest = categories.drop_first();
        lemma_name_miss(id, rest);
        if find_name(id, categories) is None {
            assert forall|i: int| 0 <= i < categories.len() implies (#[trigger] categories[i]).id
                != id by {
                if i > 0 {
                    assert(rest[i - 1] == categories[i]);
                }
            }
        } else if categories[0].id != id {
            let i = choose|i: int| 0 <= i < rest.len() && (#[trigger] rest[i]).id == id;
            assert(categories[i + 1] == rest[i]);
        }
    }
}

/// A colour is found exactly when some colour record has its id; where none
/// has, its RGB value is "000000".
pub proof fn lemma_rgb_miss(id: i32, colors: Seq<color>)
    ensures
        find_rgb(id, colors) is None <==> forall|i: int|
            0 <= i < colors.len() ==> (#[trigger] colors[i]).id != id,
        find_rgb(id, colors) is None ==> rgb_of(id, colors) == "000000"@,
    decreases colors.len(),
{
    if colors.len() > 0 {
        let rest = colors.drop_first();
        lemma_rgb_miss(id, rest);
        if find_rgb(id, colors) is None {
            assert forall|i: int| 0 <= i < colors.len() implies (#[trigger] colors[i]).id
                != id by {
                if i > 0 {
                    assert(rest[i - 1] == colors[i]);
                }
            }
        } else if colors[0].id != id {
            let i = choose|i: int| 0 <= i < rest.len() && (#[trigger] rest[i]).id == id;
            assert(colors[i + 1] == rest[i]);
        }
    }
}

/// The same collections always give the same dataset: two datasets made from
/// equal inputs hold the same title, labels, matrix and colour values.
pub proof fn lemma_dataset_is_determined(
    first: Dataset,
    second: Dataset,
    inventory: Seq<inventory_part>,
    details: Seq<part_details>,
    categories: Seq<part_category>,
    colors: Seq<color>,
)
    requires
        first@ == dataset_of(inventory, details, categories, colors),
        second@ == dataset_of(inventory, details, categories, colors),
    ensures
        first@ == second@,
        first@.labels == second@.labels,
        first@.matrix == second@.matrix,
        first@.color_values == second@.color_values,
{
}

/// Looks a part up in the details, by its number.
pub fn lookup_category(part_num: &str, details: &Vec<part_details>) -> (found: Option<i32>)
    ensures
        found == find_category(part_num@, details@),
{
    let mut i: usize = 0;
    proof {
        assert(details@.skip(0) =~= details@);
    }
    while i < details.len()
        invariant
            i <= details@.len(),
            find_category(part_num@, details@) == find_category(part_num@, details@.skip(i as int)),
        decreases details@.len() - i,
    {
        proof {
            assert(details@.skip(i as int).drop_first() =~= details@.skip(i + 1));
        }
        if text_equal(details[i].part_num.as_str(), part_num) {
            return Some(details[i].part_cat_id);
        }
        i += 1;
    }
    None
}

/// Looks a category up by its id and returns its name.
pub fn lookup_name(id: i32, categories: &Vec<part_category>) -> (found: Option<String>)
    ensures
        found is Some == find_name(id, categories@) is Some,
        found is Some ==> Some(found->0@) == find_name(id, categories@),
{
    let mut i: usize = 0;
    proof {
        assert(categories@.skip(0) =~= categories@);
    }
    while i < categories.len()
        invariant
            i <= categories@.len(),
            find_name(id, categories@) == find_name(id, categories@.skip(i as int)),
        decreases categories@.len() - i,
    {
        proof {
            assert(categories@.skip(i as int).drop_first() =~= categories@.skip(i + 1));
        }
        if categories[i].id == id {
            return Some(categories[i].name.clone());
        }
        i += 1;
    }
    None
}

/// Looks a colour up by its id and returns its RGB value.
pub fn lookup_rgb(id: i32, colors: &Vec<color>) -> (found: Option<String>)
    ensures
        found is Some == find_rgb(id, colors@) is Some,
        found is Some ==> Some(found->0@) == find_rgb(id, colors@),
{
    let mut i: usize = 0;
    proof {
        assert(colors@.skip(0) =~= colors@);
    }
    while i < colors.len()
        invariant
            i <= colors@.len(),
            find_rgb(id, colors@) == find_rgb(id, colors@.skip(i as int)),
        decreases colors@.len() - i,
    {
        proof {
            assert(colors@.skip(i as int).drop_first() =~= colors@.skip(i + 1));
        }
        if colors[i].id == id {
            return Some(colors[i].rgb.clone());
        }
        i += 1;
    }
    None
}

/// Joins each inventory line with the category of its part.
pub fn tally_inventory(inventory: &Vec<inventory_part>, details: &Vec<part_details>) -> (out: Vec<
    Tally,
>)
    ensures
        out@ == tallies(inventory@, details@),
{
    let mut out: Vec<Tally> = Vec::new();
    let mut i: usize = 0;
    while i < inventory.len()
        invariant
            i <= inventory@.len(),
            out@ == tallies(inventory@, details@).take(i as int),
        decreases inventory@.len() - i,
    {
        let category_id = match lookup_category(inventory[i].part_num.as_str(), details) {
            Some(id) => id,
            None => 0,
        };
        out.push(
            Tally { category_id, quantity: inventory[i].quantity, color_id: inventory[i].color_id },
        );
        proof {
            let all = tallies(inventory@, details@);
            assert(out@ =~= all.take(i + 1));
        }
        i += 1;
    }
    proof {
        let all = tallies(inventory@, details@);
        assert(all.take(all.len() as int) =~= all);
    }
    out
}

/// Whether `ids` holds `id`.
fn holds_id(ids: &Vec<i32>, id: i32) -> (found: bool)
    ensures
        found == ids@.contains(id),
{
    let mut i: usize = 0;
    while i < ids.len()
        invariant
            i <= ids@.len(),
            forall|k: int| 0 <= k < i ==> ids@[k] != id,
        decreases ids@.len() - i,
    {
        if ids[i] == id {
            return true;
        }
        i += 1;
    }
    false
}

/// The category ids that occur in `rows`, each once, in the order in which
/// the rows first show them.
pub fn distinct_categories(rows: &Vec<Tally>) -> (ids: Vec<i32>)
    ensures
        ids@ == distinct(category_ids(rows@)),
{
    let ghost all = category_ids(rows@);
    let mut ids: Vec<i32> = Vec::new();
    let mut i: usize = 0;
    proof {
        assert(all.take(0) =~= Seq::<i32>::empty());
    }
    while i < rows.len()
        invariant
            all == category_ids(rows@),
            i <= rows@.len(),
            ids@ == distinct(all.take(i as int)),
        decreases rows@.len() - i,
    {
        proof {
            assert(all.take(i + 1).drop_last() =~= all.take(i as int));
            assert(all.take(i + 1).last() == rows@[i as int].category_id);
        }
        if !holds_id(&ids, rows[i].category_id) {
            ids.push(rows[i].category_id);
        }
        i += 1;
    }
    proof {
        assert(all.take(all.len() as int) =~= all);
    }
    ids
}

/// The ids of the given columns, one for one.
pub open spec fn ids_of(columns: Seq<Column>) -> Seq<i32> {
    Seq::new(columns.len(), |j: int| columns[j].id)
}

/// Gives each category id its display name and orders the columns by name;
/// columns of equal name keep the order of `ids`.
pub fn order_columns(ids: &Vec<i32>, categories: &Vec<part_category>) -> (columns: Vec<Column>)
    ensures
        ids_of(columns@) == stable_sort(ids@, by_name(categories@)),
        forall|j: int|
            0 <= j < columns@.len() ==> (#[trigger] columns@[j]).name@ == name_of(
                columns@[j].id,
                categories@,
            ),
{
    let mut named: Vec<Column> = Vec::new();
    let mut i: usize = 0;
    while i < ids.len()
        invariant
            i <= ids@.len(),
            named@.len() == i,
            forall|k: int| 0 <= k < i ==> (#[trigger] named@[k]).id == ids@[k],
            forall|k: int|
                0 <= k < i ==> (#[trigger] named@[k]).name@ == name_of(named@[k].id, categories@),
        decreases ids@.len() - i,
    {
        let name = match lookup_name(ids[i], categories) {
            Some(name) => name,
            None => "unknown".to_string(),
        };
        named.push(Column { id: ids[i], name });
        i += 1;
    }
    let ghost before = named@;
    let columns = sort_stably(named);
    proof {
        let f = |c: Column| c.id;
        let le = rank_le::<Column>();
        assert forall|a: int, b: int|
            0 <= a < before.len() && 0 <= b < before.len() implies #[trigger] le(
            before[a],
            before[b],
        ) == by_name(categories@)(f(before[a]), f(before[b])) by {}
        lemma_stable_sort_maps(before, f, le, by_name(categories@));
        assert(before.map_values(f) =~= ids@);
        assert(columns@.map_values(f) =~= ids_of(columns@));
        lemma_stable_sort_members(before, le);
        assert forall|j: int| 0 <= j < columns@.len() implies (#[trigger] columns@[j]).name@
            == name_of(columns@[j].id, categories@) by {
            assert(columns@.contains(columns@[j]));
            assert(before.contains(columns@[j]));
        }
    }
    columns
}

/// Lays one tally out over the columns: its quantity under its category.
pub fn lay_out_row(tally: &Tally, columns: &Vec<Column>) -> (row: Vec<i32>)
    ensures
        row@ == matrix_row(*tally, ids_of(columns@)),
{
    let mut row: Vec<i32> = Vec::new();
    let mut j: usize = 0;
    while j < columns.len()
        invariant
            j <= columns@.len(),
            row@ == matrix_row(*tally, ids_of(columns@)).take(j as int),
        decreases columns@.len() - j,
    {
        if columns[j].id == tally.category_id {
            row.push(tally.quantity);
        } else {
            row.push(0);
        }
        proof {
            assert(row@ =~= matrix_row(*tally, ids_of(columns@)).take(j + 1));
        }
        j += 1;
    }
    proof {
        let whole = matrix_row(*tally, ids_of(columns@));
        assert(whole.take(whole.len() as int) =~= whole);
    }
    row
}

/// Shapes an inventory into the dataset of a stacked histogram: a column for
/// each category that occurs, ordered by name, and a row with its colour for
/// each inventory line, ordered by colour id and then by falling quantity.
/// A part, category or colour that is not found is shown as category 0, as
/// "unknown" and as "000000". The title is left empty: it is given when the
/// dataset is drawn.
pub fn prepare_dataset(
    inventory_parts: Vec<inventory_part>,
    part_details: Vec<part_details>,
    categories: Vec<part_category>,
    colors: Vec<color>,
) -> (dataset: Dataset)
    ensures
        dataset@ == dataset_of(inventory_parts@, part_details@, categories@, colors@),
        dataset@.well_formed(),
{
    proof {
        lemma_dataset_shape(inventory_parts@, part_details@, categories@, colors@);
    }
    let rows = sort_stably(tally_inventory(&inventory_parts, &part_details));
    let ids = distinct_categories(&rows);
    let columns = order_columns(&ids, &categories);
    let ghost wanted = dataset_of(inventory_parts@, part_details@, categories@, colors@);
    assert(rows@ == self::rows(inventory_parts@, part_details@));
    assert(ids_of(columns@) == column_ids(inventory_parts@, part_details@, categories@));

    let mut labels: Vec<String> = Vec::new();
    let mut j: usize = 0;
    while j < columns.len()
        invariant
            j <= columns@.len(),
            labels@.len() == j,
            forall|k: int| 0 <= k < j ==> (#[trigger] labels@[k])@ == columns@[k].name@,
        decreases columns@.len() - j,
    {
        labels.push(columns[j].name.clone());
        j += 1;
    }

    let mut matrix: Vec<Vec<i32>> = Vec::new();
    let mut color_values: Vec<String> = Vec::new();
    let mut i: usize = 0;
    while i < rows.len()
        invariant
            i <= rows@.len(),
            matrix@.len() == i,
            color_values@.len() == i,
            forall|k: int|
                0 <= k < i ==> (#[trigger] matrix@[k])@ == matrix_row(rows@[k], ids_of(columns@)),
            forall|k: int|
                0 <= k < i ==> (#[trigger] color_values@[k])@ == rgb_of(rows@[k].color_id, colors@),
        decreases rows@.len() - i,
    {
        matrix.push(lay_out_row(&rows[i], &columns));
        let rgb = match lookup_rgb(rows[i].color_id, &colors) {
            Some(rgb) => rgb,
            None => "000000".to_string(),
        };
        color_values.push(rgb);
        i += 1;
    }
    let dataset = Dataset::new(String::new(), labels, matrix, color_values);
    proof {
        assert(dataset@.title =~= wanted.title);
        assert(dataset@.labels =~= wanted.labels) by {
            assert forall|k: int| 0 <= k < columns@.len() implies dataset@.labels[k]
                == wanted.labels[k] by {
                assert(labels@[k]@ == columns@[k].name@);
                assert(ids_of(columns@)[k] == columns@[k].id);
            }
        }
        assert(dataset@.matrix =~= wanted.matrix) by {
            assert forall|k: int| 0 <= k < rows@.len() implies dataset@.matrix[k]
                == wanted.matrix[k] by {
                assert(matrix@[k]@ == matrix_row(rows@[k], ids_of(columns@)));
                assert(matrix@[k].deep_view() =~= matrix@[k]@);
            }
        }
        assert(dataset@.color_values =~= wanted.color_values) by {
            assert forall|k: int| 0 <= k < rows@.len() implies dataset@.color_values[k]
                == wanted.color_values[k] by {
                assert(color_values@[k]@ == rgb_of(rows@[k].color_id, colors@));
            }
        }
    }
    dataset
}

/// A client of the Rebrickable API: it holds the token, writes the requests
/// and reads the responses.
#[derive(Debug, Clone, PartialEq, Eq)]
pub struct Rebrickable {
    pub api_token: String,
}

/// The part numbers of the given inventory lines, one for one.
pub open spec fn part_numbers(inventory: Seq<inventory_part>) -> Seq<Seq<char>> {
    Seq::new(inventory.len(), |i: int| inventory[i].part_num@)
}

/// The URL that asks for the details of the given parts.
pub open spec fn details_url_of(api_token: Seq<char>, part_nums: Seq<Seq<char>>) -> Seq<char> {
    "https://rebrickable.com/api/v3/lego/parts/?key="@ + api_token + "&part_nums="@
        + comma_separated(part_nums) + "&inc_part_details=1"@
}

impl Rebrickable {
    pub fn new(api_token: String) -> (client: Rebrickable)
        ensures
            client.api_token == api_token,
    {
        Rebrickable { api_token }
    }

    /// The inventory of a set, ready to be downloaded page by page.
    pub fn inventory(&self, set_num: &str) -> (inventory: inventory)
        requires
            valid_set_num(set_num@),
        ensures
            inventory.id == 0,
            inventory.version == 0,
            inventory.set_num@ == set_num@,
            inventory.inventory_url@ == crate::catalog::inventory_url_of(set_num@),
            inventory.last_modified_dt@ == "2020-01-01"@,
    {
        inventory::new(set_num)
    }

    /// The URL of the page that the download of `inventory` asks for next.
    pub fn inventory_url(&self, inventory: &inventory, progress: &Download) -> (url: String)
        ensures
            url@ == page_url_of(inventory.inventory_url@, progress.page as nat, self.api_token@),
    {
        inventory.page_url(progress, self.api_token.as_str())
    }

    /// The URL that lists all colours.
    pub fn all_colors_url(&self) -> (url: String)
        ensures
            url@ == "https://rebrickable.com/api/v3/lego/colors/?page_size="@
                + crate::text::decimal(crate::catalog::COLOR_PAGE_SIZE as nat)
                + "&ordering=name&key="@ + self.api_token@,
    {
        color::get_all_url(self.api_token.as_str())
    }

    /// Reads all colours from the body of the response to `all_colors_url`.
    pub fn all_colors(&self, body: &str) -> (r: Result<Vec<color>, CatalogError>)
        ensures
            listing_outcome(r, body@),
    {
        color::get_all(body)
    }

    /// The URL that lists all part categories.
    pub fn all_categories_url(&self) -> (url: String)
        ensures
            url@ == "https://rebrickable.com/api/v3/lego/part_categories/?page_size="@
                + crate::text::decimal(crate::catalog::CATEGORY_PAGE_SIZE as nat)
                + "&ordering=name&key="@ + self.api_token@,
    {
        part_category::get_all_url(self.api_token.as_str())
    }

    /// Reads all part categories from the body of the response to
    /// `all_categories_url`.
    pub fn all_categories(&self, body: &str) -> (r: Result<Vec<part_category>, CatalogError>)
        ensures
            listing_outcome(r, body@),
    {
        part_category::get_all(body)
    }

    /// The URLs that ask for the details of the parts of the inventory, one for
    /// each batch of part numbers, in the order of the inventory.
    pub fn part_details_urls(&self, inventory_parts: &Vec<inventory_part>) -> (urls: Vec<String>)
        ensures
            urls@.len() == batch_count(inventory_parts@.len()),
            forall|k: int|
                0 <= k < urls@.len() ==> (#[trigger] urls@[k])@ == details_url_of(
                    self.api_token@,
                    batch(part_numbers(inventory_parts@), k),
                ),
    {
        let mut numbers: Vec<String> = Vec::new();
        let mut i: usize = 0;
        while i < inventory_parts.len()
            invariant
                i <= inventory_parts@.len(),
                numbers@.len() == i,
                forall|k: int| 0 <= k < i ==> (#[trigger] numbers@[k])@ == inventory_parts@[k].part_num@,
            decreases inventory_parts@.len() - i,
        {
            numbers.push(inventory_parts[i].part_num.clone());
            i += 1;
        }
        proof {
            assert(numbers.deep_view() =~= part_numbers(inventory_parts@));
        }
        let batches = part_details::batches(&numbers);
        let mut urls: Vec<String> = Vec::new();
        let mut k: usize = 0;
        while k < batches.len()
            invariant
                k <= batches@.len(),
                urls@.len() == k,
                numbers.deep_view() == part_numbers(inventory_parts@),
                forall|j: int|
                    0 <= j < batches@.len() ==> (#[trigger] batches@[j]).deep_view() == batch(
                        numbers.deep_view(),
                        j,
                    ),
                forall|j: int|
                    0 <= j < k ==> (#[trigger] urls@[j])@ == details_url_of(
                        self.api_token@,
                        batch(part_numbers(inventory_parts@), j),
                    ),
            decreases batches@.len() - k,
        {
            urls.push(part_details::get_100_url(&batches[k], self.api_token.as_str()));
            k += 1;
        }
        urls
    }

    /// Reads the details of the parts from the bodies of the responses to
    /// `part_details_urls`, in their order.
    pub fn part_details(&self, bodies: &Vec<String>) -> (r: Result<Vec<part_details>, CatalogError>)
        ensures
            match r {
                Ok(records) => exists|read: Seq<Vec<part_details>>| #[trigger]
                    crate::catalog::bodies_read(read, bodies@, bodies@.len() as int) && records@
                        == crate::catalog::all_records(read),
                Err(error) => exists|k: int, read: Seq<Vec<part_details>>|
                    {
                        &&& 0 <= k < bodies@.len()
                        &&& #[trigger] crate::catalog::bodies_read(read, bodies@, k)
                        &&& listing_outcome(
                            Err::<Vec<part_details>, CatalogError>(error),
                            bodies@[k]@,
                        )
                    },
            },
    {
        part_details::get_many(bodies)
    }
}

/// The name of the first details record with the given part number.
pub open spec fn find_part_name(part_num: Seq<char>, details: Seq<part_details>) -> Option<
    Seq<char>,
>
    decreases details.len(),
{
    if details.len() == 0 {
        None
    } else if details[0].part_num@ == part_num {
        Some(details[0].name@)
    } else {
        find_part_name(part_num, details.drop_first())
    }
}

/// The name of the first colour with the given id.
pub open spec fn find_color_name(id: i32, colors: Seq<color>) -> Option<Seq<char>>
    decreases colors.len(),
{
    if colors.len() == 0 {
        None
    } else if colors[0].id == id {
        Some(colors[0].name@)
    } else {
        find_color_name(id, colors.drop_first())
    }
}

/// Whether the details hold the part and the colours hold the colour of every
/// line of the inventory.
pub open spec fn all_named(
    inventory: Seq<inventory_part>,
    details: Seq<part_details>,
    colors: Seq<color>,
) -> bool {
    forall|i: int|
        0 <= i < inventory.len() ==> {
            &&& find_part_name((#[trigger] inventory[i]).part_num@, details) is Some
            &&& find_color_name(inventory[i].color_id, colors) is Some
        }
}

fn lookup_part_name(part_num: &str, details: &Vec<part_details>) -> (found: Option<String>)
    ensures
        found is Some == find_part_name(part_num@, details@) is Some,
        found is Some ==> Some(found->0@) == find_part_name(part_num@, details@),
{
    let mut i: usize = 0;
    proof {
        assert(details@.skip(0) =~= details@);
    }
    while i < details.len()
        invariant
            i <= details@.len(),
            find_part_name(part_num@, details@) == find_part_name(
                part_num@,
                details@.skip(i as int),
            ),
        decreases details@.len() - i,
    {
        proof {
            assert(details@.skip(i as int).drop_first() =~= details@.skip(i + 1));
        }
        if text_equal(details[i].part_num.as_str(), part_num) {
            return Some(details[i].name.clone());
        }
        i += 1;
    }
    None
}

fn lookup_color_name(id: i32, colors: &Vec<color>) -> (found: Option<String>)
    ensures
        found is Some == find_color_name(id, colors@) is Some,
        found is Some ==> Some(found->0@) == find_color_name(id, colors@),
{
    let mut i: usize = 0;
    proof {
        assert(colors@.skip(0) =~= colors@);
    }
    while i < colors.len()
        invariant
            i <= colors@.len(),
            find_color_name(id, colors@) == find_color_name(id, colors@.skip(i as int)),
        decreases colors@.len() - i,
    {
        proof {
            assert(colors@.skip(i as int).drop_first() =~= colors@.skip(i + 1));
        }
        if colors[i].id == id {
            return Some(colors[i].name.clone());
        }
        i += 1;
    }
    None
}

/// The inventory by names: for each line the name of its colour, the name of
/// its part and its quantity, in the order of the inventory. There is no such
/// list where a part or a colour of some line is not found.
pub fn formatted_rebrickable_inventory(
    inventory_parts: &Vec<inventory_part>,
    all_part_details: &Vec<part_details>,
    all_colors: &Vec<color>,
) -> (entries: Option<Vec<InventoryEntry>>)
    ensures
        entries is Some <==> all_named(inventory_parts@, all_part_details@, all_colors@),
        entries is Some ==> {
            &&& (entries->0)@.len() == inventory_parts@.len()
            &&& forall|i: int|
                0 <= i < inventory_parts@.len() ==> {
                    &&& Some((#[trigger] (entries->0)@[i]).color@) == find_color_name(
                        inventory_parts@[i].color_id,
                        all_colors@,
                    )
                    &&& Some((entries->0)@[i].part_name@) == find_part_name(
                        inventory_parts@[i].part_num@,
                        all_part_details@,
                    )
                    &&& (entries->0)@[i].quantity == inventory_parts@[i].quantity
                }
        },
{
    let mut entries: Vec<InventoryEntry> = Vec::new();
    let mut i: usize = 0;
    while i < inventory_parts.len()
        invariant
            i <= inventory_parts@.len(),
            entries@.len() == i,
            forall|k: int|
                0 <= k < i ==> {
                    &&& find_part_name((#[trigger] inventory_parts@[k]).part_num@, all_part_details@) is Some
                    &&& find_color_name(inventory_parts@[k].color_id, all_colors@) is Some
                },
            forall|k: int|
                0 <= k < i ==> {
                    &&& Some((#[trigger] entries@[k]).color@) == find_color_name(
                        inventory_parts@[k].color_id,
                        all_colors@,
                    )
                    &&& Some(entries@[k].part_name@) == find_part_name(
                        inventory_parts@[k].part_num@,
                        all_part_details@,
                    )
                    &&& entries@[k].quantity == inventory_parts@[k].quantity
                },
        decreases inventory_parts@.len() - i,
    {
        let line = &inventory_parts[i];
        let part_name = match lookup_part_name(line.part_num.as_str(), all_part_details) {
            Some(name) => name,
            None => { return None; },
        };
        let color_name = match lookup_color_name(line.color_id, all_colors) {
            Some(name) => name,
            None => { return None; },
        };
        entries.push(InventoryEntry { color: color_name, part_name, quantity: line.quantity });
        i += 1;
    }
    Some(entries)
}

/// What the aggregation did not find, for the diagnostics of a run.
#[derive(Debug, Clone, PartialEq, Eq)]
pub struct Misses {
    /// The part numbers of the inventory lines without details, in input order.
    pub parts: Vec<String>,
    /// The category ids of the columns without a name, in column order.
    pub categories: Vec<i32>,
    /// The colour ids of the rows without a colour, in row order.
    pub colors: Vec<i32>,
}

/// The colour ids of the given tallies, one for one.
pub open spec fn color_ids(tallies: Seq<Tally>) -> Seq<i32> {
    Seq::new(tallies.len(), |i: int| tallies[i].color_id)
}

/// The part numbers of the lines whose part the details do not hold.
pub open spec fn missed_parts(inventory: Seq<inventory_part>, details: Seq<part_details>) -> Seq<
    Seq<char>,
> {
    part_numbers(inventory).filter(|part_num: Seq<char>| find_category(part_num, details) is None)
}

/// The column ids that the categories do not hold.
pub open spec fn missed_categories(
    inventory: Seq<inventory_part>,
    details: Seq<part_details>,
    categories: Seq<part_category>,
) -> Seq<i32> {
    column_ids(inventory, details, categories).filter(|id: i32| find_name(id, categories) is None)
}

/// The colour ids of the rows that the colours do not hold.
pub open spec fn missed_colors(
    inventory: Seq<inventory_part>,
    details: Seq<part_details>,
    colors: Seq<color>,
) -> Seq<i32> {
    color_ids(rows(inventory, details)).filter(|id: i32| find_rgb(id, colors) is None)
}

/// Names what `prepare_dataset` replaces by "unknown", category 0 and
/// "000000" for the same collections.
pub fn lookup_misses(
    inventory_parts: &Vec<inventory_part>,
    part_details: &Vec<part_details>,
    categories: &Vec<part_category>,
    colors: &Vec<color>,
) -> (misses: Misses)
    ensures
        misses.parts.deep_view() == missed_parts(inventory_parts@, part_details@),
        misses.categories@ == missed_categories(inventory_parts@, part_details@, categories@),
        misses.colors@ == missed_colors(inventory_parts@, part_details@, colors@),
{
    let ghost numbers = part_numbers(inventory_parts@);
    let ghost no_details = |part_num: Seq<char>| find_category(part_num, part_details@) is None;
    let mut parts: Vec<String> = Vec::new();
    let mut i: usize = 0;
    proof {
        assert(numbers.take(0) =~= Seq::<Seq<char>>::empty());
    }
    while i < inventory_parts.len()
        invariant
            numbers == part_numbers(inventory_parts@),
            no_details == |part_num: Seq<char>| find_category(part_num, part_details@) is None,
            i <= inventory_parts@.len(),
            parts.deep_view() == numbers.take(i as int).filter(no_details),
        decreases inventory_parts@.len() - i,
    {
        proof {
            reveal_with_fuel(Seq::filter, 2);
            assert(numbers.take(i + 1).drop_last() =~= numbers.take(i as int));
            assert(numbers.take(i + 1).last() == inventory_parts@[i as int].part_num@);
        }
        let ghost before = parts.deep_view();
        if lookup_category(inventory_parts[i].part_num.as_str(), part_details).is_none() {
            parts.push(inventory_parts[i].part_num.clone());
            proof {
                assert(parts.deep_view() =~= before.push(inventory_parts@[i as int].part_num@));
            }
        }
        i += 1;
    }
    proof {
        assert(numbers.take(numbers.len() as int) =~= numbers);
    }

    let sorted = sort_stably(tally_inventory(inventory_parts, part_details));
    let ids = distinct_categories(&sorted);
    let columns = order_columns(&ids, categories);
    let ghost wanted = column_ids(inventory_parts@, part_details@, categories@);
    let ghost no_name = |id: i32| find_name(id, categories@) is None;
    let mut unnamed: Vec<i32> = Vec::new();
    let mut j: usize = 0;
    proof {
        assert(wanted.take(0) =~= Seq::<i32>::empty());
    }
    while j < columns.len()
        invariant
            wanted == ids_of(columns@),
            no_name == |id: i32| find_name(id, categories@) is None,
            j <= columns@.len(),
            unnamed@ == wanted.take(j as int).filter(no_name),
        decreases columns@.len() - j,
    {
        proof {
            reveal_with_fuel(Seq::filter, 2);
            assert(wanted.take(j + 1).drop_last() =~= wanted.take(j as int));
            assert(wanted.take(j + 1).last() == columns@[j as int].id);
        }
        if lookup_name(columns[j].id, categories).is_none() {
            unnamed.push(columns[j].id);
        }
        j += 1;
    }
    proof {
        assert(wanted.take(wanted.len() as int) =~= wanted);
    }

    let ghost shades = color_ids(sorted@);
    let ghost no_rgb = |id: i32| find_rgb(id, colors@) is None;
    let mut colorless: Vec<i32> = Vec::new();
    let mut k: usize = 0;
    proof {
        assert(shades.take(0) =~= Seq::<i32>::empty());
    }
    while k < sorted.len()
        invariant
            shades == color_ids(sorted@),
            no_rgb == |id: i32| find_rgb(id, colors@) is None,
            k <= sorted@.len(),
            colorless@ == shades.take(k as int).filter(no_rgb),
        decreases sorted@.len() - k,
    {
        proof {
            reveal_with_fuel(Seq::filter, 2);
            assert(shades.take(k + 1).drop_last() =~= shades.take(k as int));
            assert(shades.take(k + 1).last() == sorted@[k as int].color_id);
        }
        if lookup_rgb(sorted[k].color_id, colors).is_none() {
            colorless.push(sorted[k].color_id);
        }
        k += 1;
    }
    proof {
        assert(shades.take(shades.len() as int) =~= shades);
    }
    Misses { parts, categories: unnamed, colors: colorless }
}

} // verus!
