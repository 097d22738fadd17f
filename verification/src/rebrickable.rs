//! Records of the Rebrickable catalogue (API v3), as plain values.

use vstd::prelude::*;

verus! {

#[allow(non_camel_case_types)]
#[derive(Debug, Clone, PartialEq, Eq)]
pub struct part_relationship {
    pub id: i32,
    pub parent_part_num: String,
    pub child_part_num: String,
    pub quantity: i32,
}

#[allow(non_camel_case_types)]
#[derive(Debug, Clone, PartialEq, Eq)]
pub struct part {
    pub id: i32,
    pub part_num: String,
    pub name: String,
    pub part_cat_id: i32,
    pub part_url: String,
    pub part_img_url: String,
    pub external_ids: String,
}

#[allow(non_camel_case_types)]
#[derive(Debug, Clone, PartialEq, Eq)]
pub struct element {
    pub element_id: String,
    pub part_num: String,
    pub color_id: i32,
}

/// A category of parts; `id` is its key.
#[allow(non_camel_case_types)]
#[derive(Debug, Clone, PartialEq, Eq)]
pub struct part_category {
    pub id: i32,
    pub name: String,
    pub part_count: i32,
}

/// A colour; `id` is its key and `rgb` holds six hexadecimal digits.
#[allow(non_camel_case_types)]
#[derive(Debug, Clone, PartialEq, Eq)]
pub struct color {
    pub id: i32,
    pub name: String,
    pub rgb: String,
    pub is_trans: bool,
}

/// One line of a set's inventory: so many pieces of one part in one colour.
#[allow(non_camel_case_types)]
#[derive(Debug, Clone, PartialEq, Eq)]
pub struct inventory_part {
    pub id: i32,
    pub set_num: String,
    pub part_num: String,
    pub color_id: i32,
    pub quantity: i32,
    pub is_spare: bool,
}

#[allow(non_camel_case_types)]
#[derive(Debug, Clone, PartialEq, Eq)]
pub struct inventory {
    pub id: i32,
    pub set_num: String,
    pub version: i32,
    pub inventory_url: String,
    pub last_modified_dt: String,
}

#[allow(non_camel_case_types)]
#[derive(Debug, Clone, PartialEq, Eq)]
pub struct inventory_minifig {
    pub inventory_id: i32,
    pub fig_num: String,
    pub quantity: i32,
}

#[allow(non_camel_case_types)]
#[derive(Debug, Clone, PartialEq, Eq)]
pub struct minifig {
    pub fig_num: String,
    pub name: String,
    pub num_parts: i32,
}

#[allow(non_camel_case_types)]
#[derive(Debug, Clone, PartialEq, Eq)]
pub struct inventory_set {
    pub inventory_id: i32,
    pub set_num: String,
    pub quantity: i32,
}

#[allow(non_camel_case_types)]
#[derive(Debug, Clone, PartialEq, Eq)]
pub struct set {
    pub id: i32,
    pub set_num: String,
    pub name: String,
    pub year: i32,
    pub theme_id: i32,
    pub num_parts: i32,
    pub set_img_url: String,
    pub set_url: String,
    pub last_modified_dt: String,
}

#[allow(non_camel_case_types)]
#[derive(Debug, Clone, PartialEq, Eq)]
pub struct theme {
    pub id: i32,
    pub name: String,
    pub parent_id: i32,
    pub theme_url: String,
    pub num_sets: i32,
    pub num_parts: i32,
    pub theme_img_url: String,
    pub last_modified_dt: String,
}

/// What the catalogue knows of a part; `part_num` is its key.
#[allow(non_camel_case_types)]
#[derive(Debug, Clone, PartialEq, Eq)]
pub struct part_details {
    pub part_num: String,
    pub name: String,
    pub part_cat_id: i32,
    pub year_from: i32,
    pub year_to: i32,
    pub part_url: String,
    pub part_img_url: Option<String>,
    pub prints: Vec<String>,
    pub molds: Vec<String>,
    pub alternates: Vec<String>,
    pub print_of: Option<String>,
}

impl color {
    pub fn get_id(&self) -> (id: i32)
        ensures
            id == self.id,
    {
        self.id
    }

    pub fn get_rgb(&self) -> (rgb: String)
        ensures
            rgb@ == self.rgb@,
    {
        self.rgb.clone()
    }
}

impl part_category {
    pub fn get_id(&self) -> (id: i32)
        ensures
            id == self.id,
    {
        self.id
    }

    pub fn get_name(&self) -> (name: String)
        ensures
            name@ == self.name@,
    {
        self.name.clone()
    }
}

impl part_details {
    pub fn get_part_num(&self) -> (part_num: String)
        ensures
            part_num@ == self.part_num@,
    {
        self.part_num.clone()
    }

    pub fn get_part_cat_id(&self) -> (id: i32)
        ensures
            id == self.part_cat_id,
    {
        self.part_cat_id
    }

    pub fn get_year_from(&self) -> (year: i32)
        ensures
            year == self.year_from,
    {
        self.year_from
    }
}

impl inventory_part {
    pub fn get_part_num(&self) -> (part_num: String)
        ensures
            part_num@ == self.part_num@,
    {
        self.part_num.clone()
    }

    pub fn get_color_id(&self) -> (id: i32)
        ensures
            id == self.color_id,
    {
        self.color_id
    }

    pub fn get_quantity(&self) -> (quantity: i32)
        ensures
            quantity == self.quantity,
    {
        self.quantity
    }
}

} // verus!
