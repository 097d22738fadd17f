//! Inventories from a local table: rows of part, quantity, colour and an
//! optional spare flag.

use crate::rebrickable::inventory_part;
use crate::text::text_equal;
use vstd::prelude::*;
use vstd::string::StringExecFns;

verus! {

/// One row of the table, with the spare flag as it is written there.
#[derive(Debug, Clone, PartialEq, Eq)]
pub struct DatasetEntry {
    pub part: String,
    pub quantity: i32,
    pub color_id: i32,
    pub is_spare: Option<String>,
}

/// A spare flag that is neither "True" nor "False".
#[derive(Debug, Clone, PartialEq, Eq)]
pub struct InvalidBool {
    /// The index of the row that holds it; 0 where a single flag was read.
    pub row: usize,
    /// The flag as written.
    pub value: String,
}

impl InvalidBool {
    /// The error as a sentence.
    pub fn message(&self) -> (message: String)
        ensures
            message@ == "invalid bool: "@ + self.value@,
    {
        let mut message = String::from_str("invalid bool: ");
        message.append(self.value.as_str());
        message
    }
}

/// What a spare flag says: "False" and "True" are the only flags.
pub open spec fn spare_flag(text: Seq<char>) -> Option<bool> {
    if text == "False"@ {
        Some(false)
    } else if text == "True"@ {
        Some(true)
    } else {
        None
    }
}

/// Reads a spare flag.
pub fn deserialize_bool(s: &str) -> (r: Result<Option<bool>, InvalidBool>)
    ensures
        match r {
            Ok(flag) => flag is Some && flag == spare_flag(s@),
            Err(error) => spare_flag(s@) is None && error.value@ == s@ && error.row == 0,
        },
{
    if text_equal(s, "False") {
        Ok(Some(false))
    } else if text_equal(s, "True") {
        Ok(Some(true))
    } else {
        Err(InvalidBool { row: 0, value: String::from_str(s) })
    }
}

/// Whether the flag of the row can be read: it is absent, "True" or "False".
pub open spec fn readable(row: DatasetEntry) -> bool {
    match row.is_spare {
        Some(flag) => spare_flag(flag@) is Some,
        None => true,
    }
}

/// Whether the row is flagged as spare.
pub open spec fn spare(row: DatasetEntry) -> bool {
    match row.is_spare {
        Some(flag) => spare_flag(flag@) == Some(true),
        None => false,
    }
}

/// The rows that are not flagged as spare, in their order.
pub open spec fn kept(rows: Seq<DatasetEntry>) -> Seq<DatasetEntry> {
    rows.filter(|row: DatasetEntry| !spare(row))
}

/// Whether `line` is the inventory line of `row`.
pub open spec fn line_of(line: inventory_part, row: DatasetEntry) -> bool {
    &&& line.id == 0
    &&& line.set_num@ == Seq::<char>::empty()
    &&& line.part_num@ == row.part@
    &&& line.color_id == row.color_id
    &&& line.quantity == row.quantity
    &&& !line.is_spare
}

/// Whether `index` is the first row whose flag cannot be read.
pub open spec fn first_unreadable(rows: Seq<DatasetEntry>, index: int) -> bool {
    &&& 0 <= index < rows.len()
    &&& !readable(rows[index])
    &&& forall|k: int| 0 <= k < index ==> readable(#[trigger] rows[k])
}

/// No row that is flagged as spare is kept, and every other row is.
pub proof fn lemma_spare_rows_are_left_out(rows: Seq<DatasetEntry>)
    ensures
        forall|i: int| 0 <= i < kept(rows).len() ==> !spare(#[trigger] kept(rows)[i]),
        forall|k: int| 0 <= k < rows.len() && !spare(rows[k]) ==> kept(rows).contains(#[trigger] rows[k]),
        forall|k: int|
            0 <= k < rows.len() && (#[trigger] rows[k]).is_spare is Some && rows[k].is_spare->0@
                == "True"@ ==> spare(rows[k]),
{
    reveal_strlit("True");
    reveal_strlit("False");
    assert("True"@.len() != "False"@.len());
    assert forall|k: int|
        0 <= k < rows.len() && (#[trigger] rows[k]).is_spare is Some && rows[k].is_spare->0@
            == "True"@ implies spare(rows[k]) by {
        assert(spare_flag(rows[k].is_spare->0@) == Some(true));
    }
    let wanted = |row: DatasetEntry| !spare(row);
    assert forall|i: int| 0 <= i < kept(rows).len() implies !spare(#[trigger] kept(rows)[i]) by {
        rows.lemma_filter_pred(wanted, i);
    }
    assert forall|k: int| 0 <= k < rows.len() && !spare(rows[k]) implies kept(rows).contains(
        #[trigger] rows[k],
    ) by {
        rows.lemma_filter_contains(wanted, k);
    }
}

impl inventory_part {
    /// An inventory line that names no set.
    pub fn new_simplified(part_num: String, color_id: i32, quantity: i32, is_spare: bool) -> (line:
        inventory_part)
        ensures
            line.id == 0,
            line.set_num@ == Seq::<char>::empty(),
            line.part_num == part_num,
            line.color_id == color_id,
            line.quantity == quantity,
            line.is_spare == is_spare,
    {
        inventory_part { id: 0, set_num: String::new(), part_num, color_id, quantity, is_spare }
    }
}

/// The inventory that the rows of a table hold: a line for each row that is
/// not flagged as spare, in the order of the rows. A flag that is neither
/// "True" nor "False" fails the whole table; the error names the first such
/// row.
pub fn inventory_from_file(rows: Vec<DatasetEntry>) -> (r: Result<Vec<inventory_part>, InvalidBool>)
    ensures
        r is Ok <==> forall|k: int| 0 <= k < rows@.len() ==> readable(#[trigger] rows@[k]),
        r is Ok ==> {
            &&& (r->Ok_0)@.len() == kept(rows@).len()
            &&& forall|i: int|
                0 <= i < kept(rows@).len() ==> line_of(#[trigger] (r->Ok_0)@[i], kept(rows@)[i])
        },
        r is Err ==> {
            &&& first_unreadable(rows@, (r->Err_0).row as int)
            &&& Some((r->Err_0).value) == rows@[(r->Err_0).row as int].is_spare
        },
{
    let mut lines: Vec<inventory_part> = Vec::new();
    let mut i: usize = 0;
    proof {
        assert(rows@.take(0) =~= Seq::<DatasetEntry>::empty());
    }
    while i < rows.len()
        invariant
            i <= rows@.len(),
            forall|k: int| 0 <= k < i ==> readable(#[trigger] rows@[k]),
            lines@.len() == kept(rows@.take(i as int)).len(),
            forall|j: int|
                0 <= j < lines@.len() ==> line_of(#[trigger] lines@[j], kept(rows@.take(i as int))[j]),
        decreases rows@.len() - i,
    {
        let row = &rows[i];
        proof {
            reveal_with_fuel(Seq::filter, 2);
            assert(rows@.take(i + 1).drop_last() =~= rows@.take(i as int));
            assert(rows@.take(i + 1).last() == rows@[i as int]);
        }
        let is_spare = match &row.is_spare {
            Some(flag) => match deserialize_bool(flag.as_str()) {
                Ok(Some(is_spare)) => is_spare,
                Ok(None) => false,
                Err(_) => {
                    return Err(InvalidBool { row: i, value: flag.clone() });
                },
            },
            None => false,
        };
        if !is_spare {
            lines.push(inventory_part::new_simplified(row.part.clone(), row.color_id, row.quantity, false));
        }
        i += 1;
    }
    proof {
        assert(rows@.take(rows@.len() as int) =~= rows@);
    }
    Ok(lines)
}

} // verus!
