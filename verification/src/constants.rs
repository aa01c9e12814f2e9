//! The fixed names of the tables: body types in the two vocabularies, and the
//! column names of the part lists.

use vstd::prelude::*;

verus! {

pub const BODY_TYPE_WAGON: &'static str = "wagon";

pub const BODY_TYPE_PICKUP: &'static str = "pickup";

pub const BODY_TYPE_SEDAN: &'static str = "sedan";

pub const BODY_TYPE_LIFTBACK: &'static str = "liftback";

pub const BODY_TYPE_HATCHBACK_5_DOORS: &'static str = "hatchback 5 doors";

pub const BODY_TYPE_HATCHBACK_3_DOORS: &'static str = "hatchback 3 doors";

pub const BODY_TYPE_SUV_3_DOORS: &'static str = "suv 3 doors";

pub const BODY_TYPE_SUV_5_DOORS: &'static str = "suv 5 doors";

pub const BODY_TYPE_COUPE: &'static str = "coupe";

pub const T1_ENTRY_WAGON: &'static str = "УНИВЕРСАЛ";

pub const T1_ENTRY_PICKUP: &'static str = "ПИКАП";

pub const T1_ENTRY_SEDAN: &'static str = "СЕДАН";

pub const T1_ENTRY_LIFTBACK: &'static str = "ЛИФТБЭК 5 дверей";

pub const T1_ENTRY_HATCHBACK_5_DOORS: &'static str = "ХЕТЧБЕК 5 дверей";

pub const T1_ENTRY_HATCHBACK_3_DOORS: &'static str = "ХЕТЧБЕК 3 двери";

pub const T1_ENTRY_SUV_3_DOORS: &'static str = "ВНЕДОРОЖНИК 3 дверный";

pub const T1_ENTRY_SUV_5_DOORS: &'static str = "ВНЕДОРОЖНИК 5 дверный";

pub const T1_ENTRY_COUPE: &'static str = "КУПЕ";

pub const CAR_PART_CLASS_FIELD: &'static str = "Список Класс";

pub const CAR_PART_TYPE_FIELD: &'static str = "Список Тип";

pub const CAR_PART_DETAIL_RUS_FIELD: &'static str = "Список деталь рус";

pub const CAR_PART_DETAIL_ENG_FIELD: &'static str = "Список деталь eng";

pub const CAR_PART_DETAIL_UKR_FIELD: &'static str = "Список деталь укр";

pub const T2_ZONE: &'static str = "зона";

pub const T2_PART_1: &'static str = "деталь 1";

pub const T2_PART_2: &'static str = "деталь 2";

pub const T2_BLUEPRINT: &'static str = "Схема кузова";

pub const T2_BODY: &'static str = "ТИП КУЗОВА";

pub const T2_ACTION_ASSEMBLE: &'static str = "розібрати/зібрати";

pub const T2_ACTION_TWIST: &'static str = "усунення перекосу";

pub const T2_ACTION_REPLACE: &'static str = "замінити";

pub const T2_ACTION_MOUNT: &'static str = "зняти/встановити";

pub const T2_ACTION_REPAIR: &'static str = "ремонт";

pub const T2_ACTION_PAINT: &'static str = "фарбування";

} // verus!
