//! Body types of cars in the two vocabularies of the tables.

use crate::constants::{
    BODY_TYPE_COUPE, BODY_TYPE_HATCHBACK_3_DOORS, BODY_TYPE_HATCHBACK_5_DOORS, BODY_TYPE_LIFTBACK,
    BODY_TYPE_PICKUP, BODY_TYPE_SEDAN, BODY_TYPE_SUV_3_DOORS, BODY_TYPE_SUV_5_DOORS,
    BODY_TYPE_WAGON, T1_ENTRY_COUPE, T1_ENTRY_HATCHBACK_3_DOORS, T1_ENTRY_HATCHBACK_5_DOORS,
    T1_ENTRY_LIFTBACK, T1_ENTRY_PICKUP, T1_ENTRY_SEDAN, T1_ENTRY_SUV_3_DOORS,
    T1_ENTRY_SUV_5_DOORS, T1_ENTRY_WAGON,
};
use crate::text::str_eq;
use vstd::prelude::*;
use vstd::string::StringExecFns;

verus! {

/// What the catalogue knows of a car model.
#[derive(Debug, Clone)]
pub struct CarData {
    pub body: Vec<String>,
    pub is_suv: bool,
    pub estimated_price: u32,
    pub euro_class: String,
    pub euro_body_types: Vec<String>,
}

/// A line of the part list.
#[derive(Debug)]
pub struct CarPart {
    pub class: String,
    pub type_field: String,
    pub detail_rus: String,
    pub detail_eng: String,
    pub detail_ukr: String,
}

/// The entry of the part list for a body type; a text that names no body
/// type stands for itself.
pub open spec fn t1_entry_of(body_type: Seq<char>) -> Seq<char> {
    if body_type == BODY_TYPE_WAGON@ {
        T1_ENTRY_WAGON@
    } else if body_type == BODY_TYPE_PICKUP@ {
        T1_ENTRY_PICKUP@
    } else if body_type == BODY_TYPE_SEDAN@ {
        T1_ENTRY_SEDAN@
    } else if body_type == BODY_TYPE_LIFTBACK@ {
        T1_ENTRY_LIFTBACK@
    } else if body_type == BODY_TYPE_HATCHBACK_5_DOORS@ {
        T1_ENTRY_HATCHBACK_5_DOORS@
    } else if body_type == BODY_TYPE_HATCHBACK_3_DOORS@ {
        T1_ENTRY_HATCHBACK_3_DOORS@
    } else if body_type == BODY_TYPE_SUV_3_DOORS@ {
        T1_ENTRY_SUV_3_DOORS@
    } else if body_type == BODY_TYPE_SUV_5_DOORS@ {
        T1_ENTRY_SUV_5_DOORS@
    } else if body_type == BODY_TYPE_COUPE@ {
        T1_ENTRY_COUPE@
    } else {
        body_type
    }
}

/// The body type for an entry of the part list; a text that is no such
/// entry stands for itself.
pub open spec fn body_type_of(entry: Seq<char>) -> Seq<char> {
    if entry == T1_ENTRY_WAGON@ {
        BODY_TYPE_WAGON@
    } else if entry == T1_ENTRY_PICKUP@ {
        BODY_TYPE_PICKUP@
    } else if entry == T1_ENTRY_SEDAN@ {
        BODY_TYPE_SEDAN@
    } else if entry == T1_ENTRY_LIFTBACK@ {
        BODY_TYPE_LIFTBACK@
    } else if entry == T1_ENTRY_HATCHBACK_5_DOORS@ {
        BODY_TYPE_HATCHBACK_5_DOORS@
    } else if entry == T1_ENTRY_HATCHBACK_3_DOORS@ {
        BODY_TYPE_HATCHBACK_3_DOORS@
    } else if entry == T1_ENTRY_SUV_3_DOORS@ {
        BODY_TYPE_SUV_3_DOORS@
    } else if entry == T1_ENTRY_SUV_5_DOORS@ {
        BODY_TYPE_SUV_5_DOORS@
    } else if entry == T1_ENTRY_COUPE@ {
        BODY_TYPE_COUPE@
    } else {
        entry
    }
}

/// The entry of the part list for a body type.
pub fn body_type_into_t1_entry(s: &str) -> (entry: String)
    ensures
        entry@ == t1_entry_of(s@),
{
    let entry: &str = if str_eq(s, BODY_TYPE_WAGON) {
        T1_ENTRY_WAGON
    } else if str_eq(s, BODY_TYPE_PICKUP) {
        T1_ENTRY_PICKUP
    } else if str_eq(s, BODY_TYPE_SEDAN) {
        T1_ENTRY_SEDAN
    } else if str_eq(s, BODY_TYPE_LIFTBACK) {
        T1_ENTRY_LIFTBACK
    } else if str_eq(s, BODY_TYPE_HATCHBACK_5_DOORS) {
        T1_ENTRY_HATCHBACK_5_DOORS
    } else if str_eq(s, BODY_TYPE_HATCHBACK_3_DOORS) {
        T1_ENTRY_HATCHBACK_3_DOORS
    } else if str_eq(s, BODY_TYPE_SUV_3_DOORS) {
        T1_ENTRY_SUV_3_DOORS
    } else if str_eq(s, BODY_TYPE_SUV_5_DOORS) {
        T1_ENTRY_SUV_5_DOORS
    } else if str_eq(s, BODY_TYPE_COUPE) {
        T1_ENTRY_COUPE
    } else {
        s
    };
    String::from_str(entry)
}

/// The body type for an entry of the part list.
pub fn t1_entry_into_body_type(s: &str) -> (body_type: String)
    ensures
        body_type@ == body_type_of(s@),
{
    let body_type: &str = if str_eq(s, T1_ENTRY_WAGON) {
        BODY_TYPE_WAGON
    } else if str_eq(s, T1_ENTRY_PICKUP) {
        BODY_TYPE_PICKUP
    } else if str_eq(s, T1_ENTRY_SEDAN) {
        BODY_TYPE_SEDAN
    } else if str_eq(s, T1_ENTRY_LIFTBACK) {
        BODY_TYPE_LIFTBACK
    } else if str_eq(s, T1_ENTRY_HATCHBACK_5_DOORS) {
        BODY_TYPE_HATCHBACK_5_DOORS
    } else if str_eq(s, T1_ENTRY_HATCHBACK_3_DOORS) {
        BODY_TYPE_HATCHBACK_3_DOORS
    } else if str_eq(s, T1_ENTRY_SUV_3_DOORS) {
        BODY_TYPE_SUV_3_DOORS
    } else if str_eq(s, T1_ENTRY_SUV_5_DOORS) {
        BODY_TYPE_SUV_5_DOORS
    } else if str_eq(s, T1_ENTRY_COUPE) {
        BODY_TYPE_COUPE
    } else {
        s
    };
    String::from_str(body_type)
}

} // verus!
