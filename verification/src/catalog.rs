//! Requests to the Rebrickable API and the reading of its responses. The
//! library writes the URLs and reads the bodies; the transport is the caller's.

use crate::json::{parse_json, parsed_json, Json};
use crate::reading::{
    first_fault, listing_fault, read_listing, read_records, Field, Record,
};
use crate::rebrickable::{color, inventory, inventory_part, part, part_category, part_details};
use crate::text::{decimal, unsigned_text};
use vstd::prelude::*;
use vstd::string::{StrSliceExecFns, StringExecFns};
use vstd::utf8::is_ascii_chars;

verus! {

/// Why a response could not be read.
#[derive(Debug, Clone, Copy, PartialEq, Eq, Structural)]
pub enum CatalogError {
    /// The body is no JSON document.
    Syntax,
    /// A field is absent or of the wrong type.
    Field(Field),
    /// The page counter cannot go further.
    PageLimit,
}

/// How many inventory lines are asked for in one page.
pub const INVENTORY_PAGE_SIZE: u64 = 100;

/// How many categories are asked for in one page.
pub const CATEGORY_PAGE_SIZE: u64 = 500;

/// How many colours are asked for in one page.
pub const COLOR_PAGE_SIZE: u64 = 1000;

/// How many part numbers go into one request for part details.
pub const PART_BATCH_SIZE: usize = 100;

/// What reading a listing of `T` gives for a parsed response.
pub open spec fn listing_read<T: Record>(records: Seq<T>, response: Json) -> bool {
    let items = response.member(Field::Results.key()).items()->0;
    &&& listing_fault::<T>(response) is None
    &&& records.len() == items.len()
    &&& forall|i: int| 0 <= i < items.len() ==> (#[trigger] records[i]).read_from(items[i])
}

/// Whether `r` is what the listing of `T` in the body `text` reads as: the
/// records of the document, its first fault, or a syntax error.
pub open spec fn listing_outcome<T: Record>(r: Result<Vec<T>, CatalogError>, text: Seq<char>) -> bool {
    match parsed_json(text) {
        None => r == Err::<Vec<T>, CatalogError>(CatalogError::Syntax),
        Some(response) => match r {
            Ok(records) => listing_read(records@, response),
            Err(CatalogError::Field(field)) => listing_fault::<T>(response) == Some(field),
            Err(_) => false,
        },
    }
}

/// Reads the listing of `T` from a response body.
pub fn listing_from_body<T: Record>(body: &str) -> (r: Result<Vec<T>, CatalogError>)
    ensures
        listing_outcome(r, body@),
{
    match parse_json(body) {
        Ok(response) => match read_listing::<T>(&response) {
            Ok(records) => Ok(records),
            Err(field) => Err(CatalogError::Field(field)),
        },
        Err(_) => Err(CatalogError::Syntax),
    }
}

/// Whether `r` is what the single record of `T` in the body `text` reads as.
pub open spec fn record_outcome<T: Record>(r: Result<T, CatalogError>, text: Seq<char>) -> bool {
    match parsed_json(text) {
        None => r == Err::<T, CatalogError>(CatalogError::Syntax),
        Some(response) => match r {
            Ok(record) => T::fault(response) is None && record.read_from(response),
            Err(CatalogError::Field(field)) => T::fault(response) == Some(field),
            Err(_) => false,
        },
    }
}

/// Reads a single record of `T` from a response body.
pub fn record_from_body<T: Record>(body: &str) -> (r: Result<T, CatalogError>)
    ensures
        record_outcome(r, body@),
{
    match parse_json(body) {
        Ok(response) => match T::from_json(&response) {
            Ok(record) => Ok(record),
            Err(field) => Err(CatalogError::Field(field)),
        },
        Err(_) => Err(CatalogError::Syntax),
    }
}

impl color {
    /// The URL that lists all colours.
    pub fn get_all_url(api_token: &str) -> (url: String)
        ensures
            url@ == "https://rebrickable.com/api/v3/lego/colors/?page_size="@ + decimal(
                COLOR_PAGE_SIZE as nat,
            ) + "&ordering=name&key="@ + api_token@,
    {
        let mut url = String::from_str("https://rebrickable.com/api/v3/lego/colors/?page_size=");
        url.append(unsigned_text(COLOR_PAGE_SIZE).as_str());
        url.append("&ordering=name&key=");
        url.append(api_token);
        url
    }

    /// Reads all colours from the body of the response to `get_all_url`.
    pub fn get_all(body: &str) -> (r: Result<Vec<color>, CatalogError>)
        ensures
            listing_outcome(r, body@),
    {
        listing_from_body::<color>(body)
    }
}

impl part_category {
    /// The URL that lists all part categories.
    pub fn get_all_url(api_token: &str) -> (url: String)
        ensures
            url@ == "https://rebrickable.com/api/v3/lego/part_categories/?page_size="@ + decimal(
                CATEGORY_PAGE_SIZE as nat,
            ) + "&ordering=name&key="@ + api_token@,
    {
        let mut url = String::from_str(
            "https://rebrickable.com/api/v3/lego/part_categories/?page_size=",
        );
        url.append(unsigned_text(CATEGORY_PAGE_SIZE).as_str());
        url.append("&ordering=name&key=");
        url.append(api_token);
        url
    }

    /// Reads all part categories from the body of the response to
    /// `get_all_url`.
    pub fn get_all(body: &str) -> (r: Result<Vec<part_category>, CatalogError>)
        ensures
            listing_outcome(r, body@),
    {
        listing_from_body::<part_category>(body)
    }
}

/// The URL of one part.
pub open spec fn part_url_of(part_num: Seq<char>, api_token: Seq<char>) -> Seq<char> {
    "https://rebrickable.com/api/v3/lego/parts/"@ + part_num + "/?key="@ + api_token
}

fn part_url(part_num: &str, api_token: &str) -> (url: String)
    ensures
        url@ == part_url_of(part_num@, api_token@),
{
    let mut url = String::from_str("https://rebrickable.com/api/v3/lego/parts/");
    url.append(part_num);
    url.append("/?key=");
    url.append(api_token);
    url
}

impl part {
    /// The URL of the part with the given number.
    pub fn get_part_url(part_num: &str, api_token: &str) -> (url: String)
        ensures
            url@ == part_url_of(part_num@, api_token@),
    {
        part_url(part_num, api_token)
    }

    /// Reads a part from the body of the response to `get_part_url`.
    pub fn get_part(body: &str) -> (r: Result<part, CatalogError>)
        ensures
            record_outcome(r, body@),
    {
        record_from_body::<part>(body)
    }
}

/// The given texts with a comma between each two.
pub open spec fn comma_separated(texts: Seq<Seq<char>>) -> Seq<char>
    decreases texts.len(),
{
    if texts.len() == 0 {
        Seq::empty()
    } else if texts.len() == 1 {
        texts[0]
    } else {
        comma_separated(texts.drop_last()) + ","@ + texts.last()
    }
}

/// The batch with the given index when `items` is cut into batches of
/// `PART_BATCH_SIZE`.
pub open spec fn batch<T>(items: Seq<T>, index: int) -> Seq<T> {
    items.subrange(
        index * PART_BATCH_SIZE as int,
        if (index + 1) * PART_BATCH_SIZE as int <= items.len() {
            (index + 1) * PART_BATCH_SIZE as int
        } else {
            items.len() as int
        },
    )
}

/// How many batches `count` items make: the last one may be short, none is
/// empty.
pub open spec fn batch_count(count: nat) -> int {
    (count + PART_BATCH_SIZE as int - 1) / (PART_BATCH_SIZE as int)
}

/// Whether `read` holds, for each of the first `count` bodies, the records
/// that the body reads as.
pub open spec fn bodies_read(read: Seq<Vec<part_details>>, bodies: Seq<String>, count: int) -> bool {
    &&& read.len() == count
    &&& count <= bodies.len()
    &&& forall|k: int|
        0 <= k < count ==> listing_outcome(
            Ok::<Vec<part_details>, CatalogError>(#[trigger] read[k]),
            bodies[k]@,
        )
}

/// The records of all the given pages, in their order.
pub open spec fn all_records(read: Seq<Vec<part_details>>) -> Seq<part_details> {
    read.map_values(|v: Vec<part_details>| v@).flatten()
}

impl part_details {
    /// The URL of the details of the part of an inventory line.
    pub fn new_url(part: &inventory_part, api_token: &str) -> (url: String)
        ensures
            url@ == part_url_of(part.part_num@, api_token@),
    {
        part_url(part.part_num.as_str(), api_token)
    }

    /// Reads the details of a part from the body of the response to `new_url`.
    pub fn new(body: &str) -> (r: Result<part_details, CatalogError>)
        ensures
            record_outcome(r, body@),
    {
        record_from_body::<part_details>(body)
    }

    /// The URL of the details of the given parts, asked for in one request.
    pub fn get_100_url(part_numbers: &Vec<String>, api_token: &str) -> (url: String)
        ensures
            url@ == "https://rebrickable.com/api/v3/lego/parts/?key="@ + api_token@
                + "&part_nums="@ + comma_separated(part_numbers.deep_view())
                + "&inc_part_details=1"@,
    {
        let ghost texts = part_numbers.deep_view();
        let mut numbers = String::new();
        let mut i: usize = 0;
        proof {
            assert(texts.take(0) =~= Seq::<Seq<char>>::empty());
        }
        while i < part_numbers.len()
            invariant
                texts == part_numbers.deep_view(),
                i <= part_numbers@.len(),
                numbers@ == comma_separated(texts.take(i as int)),
            decreases part_numbers@.len() - i,
        {
            proof {
                assert(texts.take(i + 1).drop_last() =~= texts.take(i as int));
                assert(texts.take(i + 1).last() == part_numbers@[i as int]@);
                if i == 0 {
                    assert(Seq::<char>::empty() + part_numbers@[0]@ =~= part_numbers@[0]@);
                }
            }
            if i > 0 {
                numbers.append(",");
            }
            numbers.append(part_numbers[i].as_str());
            i += 1;
        }
        proof {
            assert(texts.take(texts.len() as int) =~= texts);
        }
        let mut url = String::from_str("https://rebrickable.com/api/v3/lego/parts/?key=");
        url.append(api_token);
        url.append("&part_nums=");
        url.append(numbers.as_str());
        url.append("&inc_part_details=1");
        url
    }

    /// Reads the details of parts from the body of the response to
    /// `get_100_url`.
    pub fn get_100(body: &str) -> (r: Result<Vec<part_details>, CatalogError>)
        ensures
            listing_outcome(r, body@),
    {
        listing_from_body::<part_details>(body)
    }

    /// Cuts the part numbers into the batches that are asked for one by one:
    /// each holds `PART_BATCH_SIZE` numbers, the last one what is left.
    pub fn batches(part_numbers: &Vec<String>) -> (batches: Vec<Vec<String>>)
        ensures
            batches@.len() == batch_count(part_numbers@.len()),
            forall|k: int|
                0 <= k < batches@.len() ==> (#[trigger] batches@[k]).deep_view() == batch(
                    part_numbers.deep_view(),
                    k,
                ),
    {
        let ghost texts = part_numbers.deep_view();
        let mut batches: Vec<Vec<String>> = Vec::new();
        let mut current: Vec<String> = Vec::new();
        let mut i: usize = 0;
        while i < part_numbers.len()
            invariant
                texts == part_numbers.deep_view(),
                i <= part_numbers@.len(),
                batches@.len() == i / PART_BATCH_SIZE,
                current@.len() == i % PART_BATCH_SIZE,
                forall|k: int|
                    0 <= k < batches@.len() ==> (#[trigger] batches@[k]).deep_view() == batch(
                        texts,
                        k,
                    ),
                current.deep_view() == texts.subrange(i - current@.len(), i as int),
            decreases part_numbers@.len() - i,
        {
            current.push(part_numbers[i].clone());
            proof {
                assert(current.deep_view() =~= texts.subrange(i + 1 - current@.len(), i + 1));
            }
            i += 1;
            if current.len() == PART_BATCH_SIZE {
                proof {
                    assert(i % PART_BATCH_SIZE == 0);
                    assert(current.deep_view() == batch(texts, batches@.len() as int));
                }
                batches.push(current);
                current = Vec::new();
                proof {
                    assert(current.deep_view() =~= texts.subrange(i as int, i as int));
                }
            }
        }
        if current.len() > 0 {
            proof {
                assert(current.deep_view() == batch(texts, batches@.len() as int));
            }
            batches.push(current);
        }
        batches
    }

    /// Reads the details of parts from the bodies of the responses to the
    /// requests for the batches, in their order: the records of all bodies, or
    /// the error of the first body that cannot be read.
    pub fn get_many(bodies: &Vec<String>) -> (r: Result<Vec<part_details>, CatalogError>)
        ensures
            match r {
                Ok(records) => exists|read: Seq<Vec<part_details>>| #[trigger]
                    bodies_read(read, bodies@, bodies@.len() as int) && records@ == all_records(
                        read,
                    ),
                Err(error) => exists|k: int, read: Seq<Vec<part_details>>|
                    {
                        &&& 0 <= k < bodies@.len()
                        &&& #[trigger] bodies_read(read, bodies@, k)
                        &&& listing_outcome(
                            Err::<Vec<part_details>, CatalogError>(error),
                            bodies@[k]@,
                        )
                    },
            },
    {
        let mut records: Vec<part_details> = Vec::new();
        let ghost mut read: Seq<Vec<part_details>> = Seq::empty();
        let mut i: usize = 0;
        proof {
            assert(all_records(read) =~= Seq::<part_details>::empty());
        }
        while i < bodies.len()
            invariant
                i <= bodies@.len(),
                bodies_read(read, bodies@, i as int),
                records@ == all_records(read),
            decreases bodies@.len() - i,
        {
            match part_details::get_100(bodies[i].as_str()) {
                Ok(mut page) => {
                    proof {
                        let views = read.map_values(|v: Vec<part_details>| v@);
                        views.lemma_flatten_push(page@);
                        assert(read.push(page).map_values(|v: Vec<part_details>| v@) =~= views.push(
                            page@,
                        ));
                        read = read.push(page);
                    }
                    records.append(&mut page);
                },
                Err(error) => {
                    return Err(error);
                },
            }
            i += 1;
        }
        Ok(records)
    }
}

/// A set number that an inventory can be asked for: five to seven ASCII
/// characters that do not start with a zero and that end in a dash and a digit
/// from 1 to 9.
pub open spec fn valid_set_num(set_num: Seq<char>) -> bool {
    &&& is_ascii_chars(set_num)
    &&& 5 <= set_num.len() <= 7
    &&& set_num[0] != '0'
    &&& set_num[set_num.len() - 2] == '-'
    &&& '1' <= set_num[set_num.len() - 1] <= '9'
}

/// The URL of the inventory of a set.
pub open spec fn inventory_url_of(set_num: Seq<char>) -> Seq<char> {
    "https://rebrickable.com/api/v3/lego/sets/"@ + set_num + "/parts/"@
}

/// The URL of one page of an inventory.
pub open spec fn page_url_of(inventory_url: Seq<char>, page: nat, api_token: Seq<char>) -> Seq<
    char,
> {
    inventory_url + "?page="@ + decimal(page) + "&page_size="@ + decimal(
        INVENTORY_PAGE_SIZE as nat,
    ) + "&ordering=color&key="@ + api_token + "&inc_minifig_parts=1"@
}

/// How far the download of an inventory has come.
#[derive(Debug, Clone, PartialEq, Eq)]
pub struct Download {
    /// The number of the page to ask for next; the first page is 1.
    pub page: u64,
    /// The lines of the pages read so far.
    pub parts: Vec<inventory_part>,
    /// Whether the last page has been seen.
    pub finished: bool,
}

/// Whether `parts` are the lines of `items`, each with the set number
/// `set_num`.
pub open spec fn lines_read(parts: Seq<inventory_part>, items: Seq<Json>, set_num: Seq<char>) -> bool {
    &&& parts.len() == items.len()
    &&& forall|i: int|
        0 <= i < items.len() ==> {
            &&& (#[trigger] parts[i]).set_num@ == set_num
            &&& parts[i].id == 0
            &&& Some(parts[i].part_num@) == crate::reading::text_at(
                items[i].member("part"@),
                Field::PartNum,
            )
            &&& Some(parts[i].color_id) == crate::reading::int_at(
                items[i].member("color"@),
                Field::ColorId,
            )
            &&& Some(parts[i].quantity) == crate::reading::int_at(items[i], Field::Quantity)
            &&& Some(parts[i].is_spare) == crate::reading::flag_at(items[i], Field::IsSpare)
        }
}

/// Whether `r` is where the download stands after the page `response` has been
/// read at `before`: a page without lines ends the download; a page with lines
/// adds them and moves on to the next page.
pub open spec fn page_taken(
    r: Result<Download, CatalogError>,
    before: Download,
    response: Json,
    set_num: Seq<char>,
) -> bool {
    match response.member(Field::Results.key()).items() {
        None => r == Err::<Download, CatalogError>(CatalogError::Field(Field::Results)),
        Some(items) => if items.len() == 0 {
            &&& r is Ok
            &&& (r->Ok_0).finished
            &&& (r->Ok_0).page == before.page
            &&& (r->Ok_0).parts@ == before.parts@
        } else if first_fault::<inventory_part>(items) is Some {
            r == Err::<Download, CatalogError>(
                CatalogError::Field(first_fault::<inventory_part>(items)->0),
            )
        } else if before.page == u64::MAX {
            r == Err::<Download, CatalogError>(CatalogError::PageLimit)
        } else {
            &&& r is Ok
            &&& !(r->Ok_0).finished
            &&& (r->Ok_0).page == before.page + 1
            &&& (r->Ok_0).parts@.len() == before.parts@.len() + items.len()
            &&& (r->Ok_0).parts@.take(before.parts@.len() as int) == before.parts@
            &&& lines_read((r->Ok_0).parts@.skip(before.parts@.len() as int), items, set_num)
        },
    }
}

/// Whether `r` is where the download stands after a response with the given
/// status and body has come in at `before`: any status but 200 ends the
/// download, a body that is no JSON document is an error, and a document is
/// taken as `page_taken` says.
pub open spec fn response_taken(
    r: Result<Download, CatalogError>,
    before: Download,
    status: u16,
    body: Seq<char>,
    set_num: Seq<char>,
) -> bool {
    if status != 200 {
        &&& r is Ok
        &&& (r->Ok_0).finished
        &&& (r->Ok_0).page == before.page
        &&& (r->Ok_0).parts@ == before.parts@
    } else {
        match parsed_json(body) {
            None => r == Err::<Download, CatalogError>(CatalogError::Syntax),
            Some(response) => page_taken(r, before, response, set_num),
        }
    }
}

impl inventory {
    /// Whether `set_num` is a set number that an inventory can be asked for.
    pub fn is_valid_set_num(set_num: &str) -> (valid: bool)
        ensures
            valid == valid_set_num(set_num@),
    {
        if !set_num.is_ascii() {
            return false;
        }
        let len = set_num.unicode_len();
        if len < 5 || len > 7 {
            return false;
        }
        let last = set_num.get_char(len - 1);
        set_num.get_char(0) != '0' && set_num.get_char(len - 2) == '-' && '1' <= last && last
            <= '9'
    }

    /// The inventory of the set with the given number, not yet downloaded.
    pub fn new(set_num: &str) -> (inventory: inventory)
        requires
            valid_set_num(set_num@),
        ensures
            inventory.id == 0,
            inventory.version == 0,
            inventory.set_num@ == set_num@,
            inventory.inventory_url@ == inventory_url_of(set_num@),
            inventory.last_modified_dt@ == "2020-01-01"@,
    {
        let mut inventory_url = String::from_str("https://rebrickable.com/api/v3/lego/sets/");
        inventory_url.append(set_num);
        inventory_url.append("/parts/");
        inventory {
            id: 0,
            set_num: String::from_str(set_num),
            version: 0,
            inventory_url,
            last_modified_dt: String::from_str("2020-01-01"),
        }
    }

    /// The state in which a download begins: at page 1, with no lines.
    pub fn begin(&self) -> (start: Download)
        ensures
            start.page == 1,
            start.parts@.len() == 0,
            !start.finished,
    {
        Download { page: 1, parts: Vec::new(), finished: false }
    }

    /// The URL of the page that the download asks for next.
    pub fn page_url(&self, progress: &Download, api_token: &str) -> (url: String)
        ensures
            url@ == page_url_of(self.inventory_url@, progress.page as nat, api_token@),
    {
        let mut url = self.inventory_url.clone();
        url.append("?page=");
        url.append(unsigned_text(progress.page).as_str());
        url.append("&page_size=");
        url.append(unsigned_text(INVENTORY_PAGE_SIZE).as_str());
        url.append("&ordering=color&key=");
        url.append(api_token);
        url.append("&inc_minifig_parts=1");
        url
    }

    /// Takes one parsed page into the download.
    pub fn take_page(&self, progress: Download, response: &Json) -> (r: Result<
        Download,
        CatalogError,
    >)
        ensures
            page_taken(r, progress, *response, self.set_num@),
    {
        let items = match response.get(Field::Results.name()).as_array() {
            Some(items) => items,
            None => { return Err(CatalogError::Field(Field::Results)); },
        };
        if items.len() == 0 {
            return Ok(Download { page: progress.page, parts: progress.parts, finished: true });
        }
        let lines = match read_records::<inventory_part>(items) {
            Ok(lines) => lines,
            Err(field) => { return Err(CatalogError::Field(field)); },
        };
        if progress.page == u64::MAX {
            return Err(CatalogError::PageLimit);
        }
        let ghost before = progress.parts@;
        let mut parts = progress.parts;
        let mut i: usize = 0;
        while i < lines.len()
            invariant
                i <= lines@.len(),
                lines@.len() == items@.len(),
                forall|k: int|
                    0 <= k < items@.len() ==> (#[trigger] lines@[k]).read_from(items@[k]),
                parts@.len() == before.len() + i,
                parts@.take(before.len() as int) == before,
                lines_read(parts@.skip(before.len() as int), items@.take(i as int), self.set_num@),
            decreases lines@.len() - i,
        {
            let line = &lines[i];
            let ghost earlier = parts@;
            parts.push(
                inventory_part {
                    id: 0,
                    set_num: self.set_num.clone(),
                    part_num: line.part_num.clone(),
                    color_id: line.color_id,
                    quantity: line.quantity,
                    is_spare: line.is_spare,
                },
            );
            proof {
                assert(parts@.take(before.len() as int) =~= before);
                let tail = parts@.skip(before.len() as int);
                assert forall|k: int| 0 <= k < i + 1 implies {
                    &&& (#[trigger] tail[k]).set_num@ == self.set_num@
                    &&& tail[k].id == 0
                    &&& Some(tail[k].part_num@) == crate::reading::text_at(
                        items@.take(i + 1)[k].member("part"@),
                        Field::PartNum,
                    )
                    &&& Some(tail[k].color_id) == crate::reading::int_at(
                        items@.take(i + 1)[k].member("color"@),
                        Field::ColorId,
                    )
                    &&& Some(tail[k].quantity) == crate::reading::int_at(
                        items@.take(i + 1)[k],
                        Field::Quantity,
                    )
                    &&& Some(tail[k].is_spare) == crate::reading::flag_at(
                        items@.take(i + 1)[k],
                        Field::IsSpare,
                    )
                } by {
                    if k < i {
                        let old_tail = earlier.skip(before.len() as int);
                        assert(tail[k] == old_tail[k]);
                        assert(items@.take(i + 1)[k] == items@.take(i as int)[k]);
                    } else {
                        assert(tail[k] == parts@[before.len() + i]);
                        assert(lines@[k].read_from(items@[k]));
                        assert(items@.take(i + 1)[k] == items@[k]);
                    }
                }
            }
            i += 1;
        }
        proof {
            assert(items@.take(items@.len() as int) =~= items@);
        }
        Ok(Download { page: progress.page + 1, parts, finished: false })
    }

    /// Takes the response to the request for the next page into the download.
    pub fn download(&self, progress: Download, status: u16, body: &str) -> (r: Result<
        Download,
        CatalogError,
    >)
        ensures
            response_taken(r, progress, status, body@, self.set_num@),
    {
        if status != 200 {
            return Ok(Download { page: progress.page, parts: progress.parts, finished: true });
        }
        match parse_json(body) {
            Ok(response) => self.take_page(progress, &response),
            Err(_) => Err(CatalogError::Syntax),
        }
    }
}

} // verus!
