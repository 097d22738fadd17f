//! Typed reading of catalogue records from JSON: each record kind names the
//! fields it needs, and a field that is absent or of the wrong type is
//! reported by name.

use crate::json::Json;
use crate::rebrickable::{color, inventory_part, part, part_category, part_details};
use vstd::prelude::*;
use vstd::string::StringExecFns;

verus! {

/// The fields that records are read from.
#[derive(Debug, Clone, Copy, PartialEq, Eq, Structural)]
pub enum Field {
    Results,
    Id,
    Name,
    IsTrans,
    Rgb,
    PartCount,
    PartNum,
    ColorId,
    Quantity,
    IsSpare,
    PartCatId,
    YearFrom,
    YearTo,
    PartUrl,
    PartImgUrl,
    Prints,
    Molds,
    Alternates,
    PrintOf,
    ExternalIds,
    ExternalId,
}

impl Field {
    /// The key under which the field stands in its JSON object.
    pub open spec fn key(self) -> Seq<char> {
        match self {
            Field::Results => "results"@,
            Field::Id => "id"@,
            Field::Name => "name"@,
            Field::IsTrans => "is_trans"@,
            Field::Rgb => "rgb"@,
            Field::PartCount => "part_count"@,
            Field::PartNum => "part_num"@,
            Field::ColorId => "id"@,
            Field::Quantity => "quantity"@,
            Field::IsSpare => "is_spare"@,
            Field::PartCatId => "part_cat_id"@,
            Field::YearFrom => "year_from"@,
            Field::YearTo => "year_to"@,
            Field::PartUrl => "part_url"@,
            Field::PartImgUrl => "part_img_url"@,
            Field::Prints => "prints"@,
            Field::Molds => "molds"@,
            Field::Alternates => "alternates"@,
            Field::PrintOf => "print_of"@,
            Field::ExternalIds => "external_ids"@,
            Field::ExternalId => "external_id"@,
        }
    }

    /// The key of the field, as a string.
    pub fn name(self) -> (name: &'static str)
        ensures
            name@ == self.key(),
    {
        match self {
            Field::Results => "results",
            Field::Id => "id",
            Field::Name => "name",
            Field::IsTrans => "is_trans",
            Field::Rgb => "rgb",
            Field::PartCount => "part_count",
            Field::PartNum => "part_num",
            Field::ColorId => "id",
            Field::Quantity => "quantity",
            Field::IsSpare => "is_spare",
            Field::PartCatId => "part_cat_id",
            Field::YearFrom => "year_from",
            Field::YearTo => "year_to",
            Field::PartUrl => "part_url",
            Field::PartImgUrl => "part_img_url",
            Field::Prints => "prints",
            Field::Molds => "molds",
            Field::Alternates => "alternates",
            Field::PrintOf => "print_of",
            Field::ExternalIds => "external_ids",
            Field::ExternalId => "external_id",
        }
    }
}

/// The number from -2^31 up to 2^31 - 1 that differs from `n` by a multiple of
/// 2^32: what the low 32 bits of `n` stand for as a signed integer.
pub open spec fn low_32_bits(n: int) -> int {
    (n + 0x8000_0000) % 0x1_0000_0000 - 0x8000_0000
}

/// The 32-bit integer under `field`: an integer in the range of `i64`, taken
/// by its low 32 bits.
pub open spec fn int_at(object: Json, field: Field) -> Option<i32> {
    match object.member(field.key()).integer() {
        Some(n) => Some(low_32_bits(n as int) as i32),
        None => None,
    }
}

/// The low 32 bits of `n` as a signed integer; for a number in the range of
/// `i32` that is the number itself.
pub fn keep_low_32_bits(n: i64) -> (low: i32)
    ensures
        low == low_32_bits(n as int),
        i32::MIN <= n <= i32::MAX ==> low == n,
{
    let shifted: u128 = (n as i128 + 0x8000_0000_0000_0000 + 0x8000_0000) as u128;
    let low: u128 = shifted % 0x1_0000_0000;
    assert(low == (n + 0x8000_0000) % 0x1_0000_0000) by {
        assert(shifted == (n + 0x8000_0000) + 0x8000_0000 * 0x1_0000_0000);
        vstd::arithmetic::div_mod::lemma_mod_multiples_vanish(
            0x8000_0000,
            n + 0x8000_0000,
            0x1_0000_0000,
        );
    }
    (low as i64 - 0x8000_0000) as i32
}

/// The text under `field`.
pub open spec fn text_at(object: Json, field: Field) -> Option<Seq<char>> {
    object.member(field.key()).text()
}

/// The truth value under `field`.
pub open spec fn flag_at(object: Json, field: Field) -> Option<bool> {
    object.member(field.key()).flag()
}

/// The text under `field` where there is one, `Some(None)` where the field is
/// null or absent, and `None` where it holds something else.
pub open spec fn optional_text_at(object: Json, field: Field) -> Option<Option<Seq<char>>> {
    if object.member(field.key()) is Null {
        Some(None)
    } else {
        match object.member(field.key()).text() {
            Some(text) => Some(Some(text)),
            None => None,
        }
    }
}

/// The texts that `items` holds, where every item is a string.
pub open spec fn all_text(items: Seq<Json>) -> Option<Seq<Seq<char>>> {
    if forall|i: int| 0 <= i < items.len() ==> (#[trigger] items[i].text()) is Some {
        Some(Seq::new(items.len(), |i: int| items[i].text()->0))
    } else {
        None
    }
}

/// The texts of the array of strings under `field`.
pub open spec fn texts_at(object: Json, field: Field) -> Option<Seq<Seq<char>>> {
    match object.member(field.key()).items() {
        Some(items) => all_text(items),
        None => None,
    }
}

/// Reads the integer under `field`.
pub fn read_int(object: &Json, field: Field) -> (r: Result<i32, Field>)
    ensures
        r is Ok <==> int_at(*object, field) is Some,
        r is Ok ==> Some(r->Ok_0) == int_at(*object, field),
        r is Err ==> r->Err_0 == field,
{
    match object.get(field.name()).as_i64() {
        Some(n) => Ok(keep_low_32_bits(n)),
        None => Err(field),
    }
}

/// Reads the text under `field`.
pub fn read_text(object: &Json, field: Field) -> (r: Result<String, Field>)
    ensures
        r is Ok <==> text_at(*object, field) is Some,
        r is Ok ==> Some(r->Ok_0@) == text_at(*object, field),
        r is Err ==> r->Err_0 == field,
{
    match object.get(field.name()).as_str() {
        Some(text) => Ok(String::from_str(text)),
        None => Err(field),
    }
}

/// Reads the truth value under `field`.
pub fn read_flag(object: &Json, field: Field) -> (r: Result<bool, Field>)
    ensures
        r is Ok <==> flag_at(*object, field) is Some,
        r is Ok ==> Some(r->Ok_0) == flag_at(*object, field),
        r is Err ==> r->Err_0 == field,
{
    match object.get(field.name()).as_bool() {
        Some(flag) => Ok(flag),
        None => Err(field),
    }
}

/// The view of an optional string.
pub open spec fn optional_view(text: Option<String>) -> Option<Seq<char>> {
    match text {
        Some(text) => Some(text@),
        None => None,
    }
}

/// Reads the text under `field`, which may be null or absent.
pub fn read_optional_text(object: &Json, field: Field) -> (r: Result<Option<String>, Field>)
    ensures
        r is Ok <==> optional_text_at(*object, field) is Some,
        r is Ok ==> Some(optional_view(r->Ok_0)) == optional_text_at(*object, field),
        r is Err ==> r->Err_0 == field,
{
    let value = object.get(field.name());
    if value.is_null() {
        Ok(None)
    } else {
        match value.as_str() {
            Some(text) => Ok(Some(String::from_str(text))),
            None => Err(field),
        }
    }
}

/// Reads the array of strings under `field`.
pub fn read_texts(object: &Json, field: Field) -> (r: Result<Vec<String>, Field>)
    ensures
        r is Ok <==> texts_at(*object, field) is Some,
        r is Ok ==> Some(r->Ok_0.deep_view()) == texts_at(*object, field),
        r is Err ==> r->Err_0 == field,
{
    match object.get(field.name()).as_array() {
        Some(items) => {
            let mut texts: Vec<String> = Vec::new();
            let mut i: usize = 0;
            while i < items.len()
                invariant
                    object.member(field.key()).items() == Some(items@),
                    i <= items@.len(),
                    texts@.len() == i,
                    forall|k: int| 0 <= k < i ==> (#[trigger] items@[k].text()) is Some,
                    forall|k: int| 0 <= k < i ==> (#[trigger] texts@[k])@ == items@[k].text()->0,
                decreases items@.len() - i,
            {
                match items[i].as_str() {
                    Some(text) => {
                        texts.push(String::from_str(text));
                    },
                    None => {
                        assert(items@[i as int].text() is None);
                        return Err(field);
                    },
                }
                i += 1;
            }
            proof {
                assert(texts.deep_view() =~= all_text(items@)->0);
            }
            Ok(texts)
        },
        None => Err(field),
    }
}

/// A kind of record that is read from a JSON object, field by field.
pub trait Record: Sized {
    /// The first field, in the order of reading, that `object` lacks or holds
    /// with the wrong type.
    spec fn fault(object: Json) -> Option<Field>;

    /// Whether the record holds what the fields of `object` hold.
    spec fn read_from(&self, object: Json) -> bool;

    /// Reads a record; reports the first faulty field where there is one.
    fn from_json(object: &Json) -> (r: Result<Self, Field>)
        ensures
            r is Ok <==> Self::fault(*object) is None,
            r is Ok ==> (r->Ok_0).read_from(*object),
            r is Err ==> Some(r->Err_0) == Self::fault(*object),
    ;
}

impl Record for color {
    open spec fn fault(object: Json) -> Option<Field> {
        if int_at(object, Field::Id) is None {
            Some(Field::Id)
        } else if text_at(object, Field::Name) is None {
            Some(Field::Name)
        } else if flag_at(object, Field::IsTrans) is None {
            Some(Field::IsTrans)
        } else if text_at(object, Field::Rgb) is None {
            Some(Field::Rgb)
        } else {
            None
        }
    }

    open spec fn read_from(&self, object: Json) -> bool {
        &&& Some(self.id) == int_at(object, Field::Id)
        &&& Some(self.name@) == text_at(object, Field::Name)
        &&& Some(self.is_trans) == flag_at(object, Field::IsTrans)
        &&& Some(self.rgb@) == text_at(object, Field::Rgb)
    }

    fn from_json(object: &Json) -> (r: Result<Self, Field>) {
        let id = match read_int(object, Field::Id) {
            Ok(id) => id,
            Err(field) => { return Err(field); },
        };
        let name = match read_text(object, Field::Name) {
            Ok(name) => name,
            Err(field) => { return Err(field); },
        };
        let is_trans = match read_flag(object, Field::IsTrans) {
            Ok(is_trans) => is_trans,
            Err(field) => { return Err(field); },
        };
        let rgb = match read_text(object, Field::Rgb) {
            Ok(rgb) => rgb,
            Err(field) => { return Err(field); },
        };
        Ok(color { id, name, rgb, is_trans })
    }
}

impl Record for part_category {
    open spec fn fault(object: Json) -> Option<Field> {
        if int_at(object, Field::Id) is None {
            Some(Field::Id)
        } else if text_at(object, Field::Name) is None {
            Some(Field::Name)
        } else if int_at(object, Field::PartCount) is None {
            Some(Field::PartCount)
        } else {
            None
        }
    }

    open spec fn read_from(&self, object: Json) -> bool {
        &&& Some(self.id) == int_at(object, Field::Id)
        &&& Some(self.name@) == text_at(object, Field::Name)
        &&& Some(self.part_count) == int_at(object, Field::PartCount)
    }

    fn from_json(object: &Json) -> (r: Result<Self, Field>) {
        let id = match read_int(object, Field::Id) {
            Ok(id) => id,
            Err(field) => { return Err(field); },
        };
        let name = match read_text(object, Field::Name) {
            Ok(name) => name,
            Err(field) => { return Err(field); },
        };
        let part_count = match read_int(object, Field::PartCount) {
            Ok(part_count) => part_count,
            Err(field) => { return Err(field); },
        };
        Ok(part_category { id, name, part_count })
    }
}

/// An inventory line is read from the part number under "part", the colour id
/// under "color", the quantity and the spare flag; it names no set yet.
impl Record for inventory_part {
    open spec fn fault(object: Json) -> Option<Field> {
        if text_at(object.member("part"@), Field::PartNum) is None {
            Some(Field::PartNum)
        } else if int_at(object.member("color"@), Field::ColorId) is None {
            Some(Field::ColorId)
        } else if int_at(object, Field::Quantity) is None {
            Some(Field::Quantity)
        } else if flag_at(object, Field::IsSpare) is None {
            Some(Field::IsSpare)
        } else {
            None
        }
    }

    open spec fn read_from(&self, object: Json) -> bool {
        &&& self.id == 0
        &&& self.set_num@ == Seq::<char>::empty()
        &&& Some(self.part_num@) == text_at(object.member("part"@), Field::PartNum)
        &&& Some(self.color_id) == int_at(object.member("color"@), Field::ColorId)
        &&& Some(self.quantity) == int_at(object, Field::Quantity)
        &&& Some(self.is_spare) == flag_at(object, Field::IsSpare)
    }

    fn from_json(object: &Json) -> (r: Result<Self, Field>) {
        let part_num = match read_text(object.get("part"), Field::PartNum) {
            Ok(part_num) => part_num,
            Err(field) => { return Err(field); },
        };
        let color_id = match read_int(object.get("color"), Field::ColorId) {
            Ok(color_id) => color_id,
            Err(field) => { return Err(field); },
        };
        let quantity = match read_int(object, Field::Quantity) {
            Ok(quantity) => quantity,
            Err(field) => { return Err(field); },
        };
        let is_spare = match read_flag(object, Field::IsSpare) {
            Ok(is_spare) => is_spare,
            Err(field) => { return Err(field); },
        };
        Ok(inventory_part { id: 0, set_num: String::new(), part_num, color_id, quantity, is_spare })
    }
}

impl Record for part_details {
    open spec fn fault(object: Json) -> Option<Field> {
        if text_at(object, Field::PartNum) is None {
            Some(Field::PartNum)
        } else if text_at(object, Field::Name) is None {
            Some(Field::Name)
        } else if int_at(object, Field::PartCatId) is None {
            Some(Field::PartCatId)
        } else if int_at(object, Field::YearFrom) is None {
            Some(Field::YearFrom)
        } else if int_at(object, Field::YearTo) is None {
            Some(Field::YearTo)
        } else if text_at(object, Field::PartUrl) is None {
            Some(Field::PartUrl)
        } else if optional_text_at(object, Field::PartImgUrl) is None {
            Some(Field::PartImgUrl)
        } else if texts_at(object, Field::Prints) is None {
            Some(Field::Prints)
        } else if texts_at(object, Field::Molds) is None {
            Some(Field::Molds)
        } else if texts_at(object, Field::Alternates) is None {
            Some(Field::Alternates)
        } else if optional_text_at(object, Field::PrintOf) is None {
            Some(Field::PrintOf)
        } else {
            None
        }
    }

    open spec fn read_from(&self, object: Json) -> bool {
        &&& Some(self.part_num@) == text_at(object, Field::PartNum)
        &&& Some(self.name@) == text_at(object, Field::Name)
        &&& Some(self.part_cat_id) == int_at(object, Field::PartCatId)
        &&& Some(self.year_from) == int_at(object, Field::YearFrom)
        &&& Some(self.year_to) == int_at(object, Field::YearTo)
        &&& Some(self.part_url@) == text_at(object, Field::PartUrl)
        &&& Some(optional_view(self.part_img_url)) == optional_text_at(object, Field::PartImgUrl)
        &&& Some(self.prints.deep_view()) == texts_at(object, Field::Prints)
        &&& Some(self.molds.deep_view()) == texts_at(object, Field::Molds)
        &&& Some(self.alternates.deep_view()) == texts_at(object, Field::Alternates)
        &&& Some(optional_view(self.print_of)) == optional_text_at(object, Field::PrintOf)
    }

    fn from_json(object: &Json) -> (r: Result<Self, Field>) {
        let part_num = match read_text(object, Field::PartNum) {
            Ok(part_num) => part_num,
            Err(field) => { return Err(field); },
        };
        let name = match read_text(object, Field::Name) {
            Ok(name) => name,
            Err(field) => { return Err(field); },
        };
        let part_cat_id = match read_int(object, Field::PartCatId) {
            Ok(part_cat_id) => part_cat_id,
            Err(field) => { return Err(field); },
        };
        let year_from = match read_int(object, Field::YearFrom) {
            Ok(year_from) => year_from,
            Err(field) => { return Err(field); },
        };
        let year_to = match read_int(object, Field::YearTo) {
            Ok(year_to) => year_to,
            Err(field) => { return Err(field); },
        };
        let part_url = match read_text(object, Field::PartUrl) {
            Ok(part_url) => part_url,
            Err(field) => { return Err(field); },
        };
        let part_img_url = match read_optional_text(object, Field::PartImgUrl) {
            Ok(part_img_url) => part_img_url,
            Err(field) => { return Err(field); },
        };
        let prints = match read_texts(object, Field::Prints) {
            Ok(prints) => prints,
            Err(field) => { return Err(field); },
        };
        let molds = match read_texts(object, Field::Molds) {
            Ok(molds) => molds,
            Err(field) => { return Err(field); },
        };
        let alternates = match read_texts(object, Field::Alternates) {
            Ok(alternates) => alternates,
            Err(field) => { return Err(field); },
        };
        let print_of = match read_optional_text(object, Field::PrintOf) {
            Ok(print_of) => print_of,
            Err(field) => { return Err(field); },
        };
        Ok(
            part_details {
                part_num,
                name,
                part_cat_id,
                year_from,
                year_to,
                part_url,
                part_img_url,
                prints,
                molds,
                alternates,
                print_of,
            },
        )
    }
}

/// The texts under "external_id" of the given objects, where each has one.
pub open spec fn external_ids_in(items: Seq<Json>) -> Option<Seq<Seq<char>>> {
    if forall|i: int| 0 <= i < items.len() ==> (#[trigger] text_at(items[i], Field::ExternalId)) is Some {
        Some(Seq::new(items.len(), |i: int| text_at(items[i], Field::ExternalId)->0))
    } else {
        None
    }
}

/// The given texts, one after the other, as one text.
pub open spec fn concatenation(texts: Seq<Seq<char>>) -> Seq<char>
    decreases texts.len(),
{
    if texts.len() == 0 {
        Seq::empty()
    } else {
        concatenation(texts.drop_last()) + texts.last()
    }
}

/// A part is read with its image URL as a mandatory text, and with the
/// external ids of the array under "external_ids" joined into one text.
impl Record for part {
    open spec fn fault(object: Json) -> Option<Field> {
        if text_at(object, Field::PartNum) is None {
            Some(Field::PartNum)
        } else if text_at(object, Field::Name) is None {
            Some(Field::Name)
        } else if text_at(object, Field::PartUrl) is None {
            Some(Field::PartUrl)
        } else if text_at(object, Field::PartImgUrl) is None {
            Some(Field::PartImgUrl)
        } else if object.member(Field::ExternalIds.key()).items() is None {
            Some(Field::ExternalIds)
        } else if external_ids_in(object.member(Field::ExternalIds.key()).items()->0) is None {
            Some(Field::ExternalId)
        } else if int_at(object, Field::PartCatId) is None {
            Some(Field::PartCatId)
        } else {
            None
        }
    }

    open spec fn read_from(&self, object: Json) -> bool {
        &&& self.id == 0
        &&& Some(self.part_num@) == text_at(object, Field::PartNum)
        &&& Some(self.name@) == text_at(object, Field::Name)
        &&& Some(self.part_url@) == text_at(object, Field::PartUrl)
        &&& Some(self.part_img_url@) == text_at(object, Field::PartImgUrl)
        &&& object.member(Field::ExternalIds.key()).items() is Some
        &&& external_ids_in(object.member(Field::ExternalIds.key()).items()->0) is Some
        &&& self.external_ids@ == concatenation(
            external_ids_in(object.member(Field::ExternalIds.key()).items()->0)->0,
        )
        &&& Some(self.part_cat_id) == int_at(object, Field::PartCatId)
    }

    #[verifier::loop_isolation(false)]
    fn from_json(object: &Json) -> (r: Result<Self, Field>) {
        let part_num = match read_text(object, Field::PartNum) {
            Ok(part_num) => part_num,
            Err(field) => { return Err(field); },
        };
        let name = match read_text(object, Field::Name) {
            Ok(name) => name,
            Err(field) => { return Err(field); },
        };
        let part_url = match read_text(object, Field::PartUrl) {
            Ok(part_url) => part_url,
            Err(field) => { return Err(field); },
        };
        let part_img_url = match read_text(object, Field::PartImgUrl) {
            Ok(part_img_url) => part_img_url,
            Err(field) => { return Err(field); },
        };
        let external_ids = match object.get(Field::ExternalIds.name()).as_array() {
            Some(items) => {
                let ghost texts = Seq::new(
                    items@.len(),
                    |k: int| text_at(items@[k], Field::ExternalId)->0,
                );
                let mut joined = String::new();
                let mut i: usize = 0;
                proof {
                    assert(texts.take(0) =~= Seq::<Seq<char>>::empty());
                }
                while i < items.len()
                    invariant
                        object.member(Field::ExternalIds.key()).items() == Some(items@),
                        texts == Seq::new(
                            items@.len(),
                            |k: int| text_at(items@[k], Field::ExternalId)->0,
                        ),
                        i <= items@.len(),
                        forall|k: int|
                            0 <= k < i ==> (#[trigger] text_at(items@[k], Field::ExternalId)) is Some,
                        joined@ == concatenation(texts.take(i as int)),
                    decreases items@.len() - i,
                {
                    match read_text(&items[i], Field::ExternalId) {
                        Ok(text) => {
                            proof {
                                assert(texts.take(i + 1).drop_last() =~= texts.take(i as int));
                                assert(texts.take(i + 1).last() == text@);
                            }
                            joined.append(text.as_str());
                        },
                        Err(_) => {
                            assert(text_at(items@[i as int], Field::ExternalId) is None);
                            return Err(Field::ExternalId);
                        },
                    }
                    i += 1;
                }
                proof {
                    assert(texts.take(texts.len() as int) =~= texts);
                }
                joined
            },
            None => { return Err(Field::ExternalIds); },
        };
        let part_cat_id = match read_int(object, Field::PartCatId) {
            Ok(part_cat_id) => part_cat_id,
            Err(field) => { return Err(field); },
        };
        Ok(part { id: 0, part_num, name, part_cat_id, part_url, part_img_url, external_ids })
    }
}

/// The first fault among the records of `items`, in their order.
pub open spec fn first_fault<T: Record>(items: Seq<Json>) -> Option<Field>
    decreases items.len(),
{
    if items.len() == 0 {
        None
    } else if T::fault(items[0]) is Some {
        T::fault(items[0])
    } else {
        first_fault::<T>(items.drop_first())
    }
}

/// Reads one record from each item; stops at the first faulty field.
pub fn read_records<T: Record>(items: &Vec<Json>) -> (r: Result<Vec<T>, Field>)
    ensures
        r is Ok <==> first_fault::<T>(items@) is None,
        r is Ok ==> (r->Ok_0)@.len() == items@.len(),
        r is Ok ==> forall|i: int|
            0 <= i < items@.len() ==> (#[trigger] (r->Ok_0)@[i]).read_from(items@[i]),
        r is Err ==> Some(r->Err_0) == first_fault::<T>(items@),
{
    let mut records: Vec<T> = Vec::new();
    let mut i: usize = 0;
    proof {
        assert(items@.skip(0) =~= items@);
    }
    while i < items.len()
        invariant
            i <= items@.len(),
            records@.len() == i,
            first_fault::<T>(items@) == first_fault::<T>(items@.skip(i as int)),
            forall|k: int| 0 <= k < i ==> (#[trigger] records@[k]).read_from(items@[k]),
        decreases items@.len() - i,
    {
        proof {
            assert(items@.skip(i as int).drop_first() =~= items@.skip(i + 1));
            assert(items@.skip(i as int)[0] == items@[i as int]);
        }
        match T::from_json(&items[i]) {
            Ok(record) => {
                records.push(record);
            },
            Err(field) => {
                return Err(field);
            },
        }
        i += 1;
    }
    Ok(records)
}

/// The first fault of a listing: the response has no array under "results",
/// or one of the records there has a fault.
pub open spec fn listing_fault<T: Record>(response: Json) -> Option<Field> {
    match response.member(Field::Results.key()).items() {
        Some(items) => first_fault::<T>(items),
        None => Some(Field::Results),
    }
}

/// Reads the records under "results" of a response.
pub fn read_listing<T: Record>(response: &Json) -> (r: Result<Vec<T>, Field>)
    ensures
        r is Ok <==> listing_fault::<T>(*response) is None,
        r is Ok ==> {
            let items = response.member(Field::Results.key()).items()->0;
            &&& (r->Ok_0)@.len() == items.len()
            &&& forall|i: int|
                0 <= i < items.len() ==> (#[trigger] (r->Ok_0)@[i]).read_from(items[i])
        },
        r is Err ==> Some(r->Err_0) == listing_fault::<T>(*response),
{
    match response.get(Field::Results.name()).as_array() {
        Some(items) => read_records::<T>(items),
        None => Err(Field::Results),
    }
}

} // verus!
