//! The body types that each class of car comes in, from the rows of the part
//! list.

use crate::cars::{body_type_of, t1_entry_into_body_type};
use crate::keyed::{key_index, lemma_key_absent, lemma_key_index, lemma_key_index_is};
use crate::tabular::table_texts;
use crate::text::{str_eq, texts};
use crate::tree::{lemma_text_lt_irreflexive, name_before, text_lt};
use vstd::prelude::*;

verus! {

/// The file that keeps the body types of each class.
pub const CLASS_TYPE_MAPPING_FILE: &'static str = "tables/class_body_mapping.yaml";

/// The sorted texts with `s` among them: a text that is there already is not
/// put in again.
pub open spec fn insert_sorted(list: Seq<Seq<char>>, s: Seq<char>) -> Seq<Seq<char>>
    decreases list.len(),
{
    if list.len() == 0 {
        seq![s]
    } else if list[0] == s {
        list
    } else if text_lt(s, list[0]) {
        seq![s] + list
    } else {
        seq![list[0]] + insert_sorted(list.drop_first(), s)
    }
}

/// The body types of each class after the first `n` rows: the class of a row
/// is its first field, its body type the second, in English; a row of fewer
/// fields counts for nothing. The classes stand in the order in which they
/// first appear, the body types of a class in the order of strings.
pub open spec fn class_map(records: Seq<Seq<Seq<char>>>, n: nat) -> Seq<
    (Seq<char>, Seq<Seq<char>>),
>
    decreases n,
{
    if n == 0 || n > records.len() {
        Seq::empty()
    } else {
        let before = class_map(records, (n - 1) as nat);
        let record = records[n - 1];
        if record.len() < 2 {
            before
        } else {
            let i = key_index(before, record[0]);
            let body = body_type_of(record[1]);
            if 0 <= i < before.len() {
                before.update(i, (record[0], insert_sorted(before[i].1, body)))
            } else {
                before.push((record[0], seq![body]))
            }
        }
    }
}

/// The classes with their body types, as sequences.
pub open spec fn class_views(classes: Seq<(String, Vec<String>)>) -> Seq<
    (Seq<char>, Seq<Seq<char>>),
> {
    classes.map_values(|class: (String, Vec<String>)| (class.0@, texts(class.1@)))
}

/// Where a text goes among sorted texts: nowhere where it is among them, else
/// before the first one that comes after it.
pub proof fn lemma_insert_sorted_at(list: Seq<Seq<char>>, s: Seq<char>, p: int)
    requires
        0 <= p <= list.len(),
        forall|k: int| 0 <= k < p ==> (#[trigger] list[k]) != s && !text_lt(s, list[k]),
        p < list.len() ==> list[p] == s || text_lt(s, list[p]),
    ensures
        insert_sorted(list, s) == (if p < list.len() && list[p] == s {
            list
        } else {
            list.insert(p, s)
        }),
    decreases list.len(),
{
    if list.len() == 0 {
        assert(list.insert(p, s) =~= seq![s]);
    } else if p == 0 {
        assert(list.insert(0, s) =~= seq![s] + list);
    } else {
        assert(list[0] != s && !text_lt(s, list[0]));
        let rest = list.drop_first();
        assert forall|k: int| 0 <= k < p - 1 implies (#[trigger] rest[k]) != s && !text_lt(
            s,
            rest[k],
        ) by {
            assert(rest[k] == list[k + 1]);
        }
        lemma_insert_sorted_at(rest, s, p - 1);
        if p < list.len() && list[p] == s {
            assert(seq![list[0]] + rest =~= list);
        } else {
            assert(list.insert(p, s) =~= seq![list[0]] + rest.insert(p - 1, s));
        }
    }
}

/// Puts a text among sorted texts, unless it is among them.
pub fn insert_text_sorted(list: &mut Vec<String>, s: String)
    ensures
        texts(final(list)@) == insert_sorted(texts(old(list)@), s@),
{
    let mut p: usize = 0;
    let mut found = false;
    while p < list.len() && !found && !name_before(s.as_str(), list[p].as_str())
        invariant
            p <= list.len(),
            list@ == old(list)@,
            forall|k: int|
                0 <= k < p ==> (#[trigger] texts(list@)[k]) != s@ && !text_lt(s@, texts(list@)[k]),
            found ==> p < list.len() && texts(list@)[p as int] == s@,
        decreases list.len() - p + (if found { 0int } else { 1int }),
    {
        assert(texts(list@)[p as int] == list@[p as int]@);
        if str_eq(list[p].as_str(), s.as_str()) {
            found = true;
        } else {
            p += 1;
        }
    }
    proof {
        if p < list.len() {
            assert(texts(list@)[p as int] == list@[p as int]@);
        }
        lemma_insert_sorted_at(texts(list@), s@, p as int);
        lemma_text_lt_irreflexive(s@);
    }
    if !found {
        let ghost before = list@;
        list.insert(p, s);
        assert(texts(list@) =~= texts(before).insert(p as int, s@));
    }
}

/// The position of a class among the classes.
fn find_class(classes: &Vec<(String, Vec<String>)>, class: &str) -> (r: Option<usize>)
    ensures
        match r {
            Some(i) => i < classes@.len() && key_index(class_views(classes@), class@) == i,
            None => key_index(class_views(classes@), class@) == -1,
        },
{
    let mut i: usize = 0;
    while i < classes.len()
        invariant
            i <= classes.len(),
            forall|k: int| 0 <= k < i ==> (#[trigger] class_views(classes@)[k]).0 != class@,
        decreases classes.len() - i,
    {
        assert(class_views(classes@)[i as int].0 == classes@[i as int].0@);
        if str_eq(classes[i].0.as_str(), class) {
            proof {
                lemma_key_index_is(class_views(classes@), class@, i as int);
            }
            return Some(i);
        }
        i += 1;
    }
    proof {
        lemma_key_absent(class_views(classes@), class@);
    }
    None
}

/// The body types that each class of car comes in, from the rows of the part
/// list without its header.
pub fn map_classes_to_body_types(records: &Vec<Vec<String>>) -> (classes: Vec<(String, Vec<String>)>)
    ensures
        class_views(classes@) == class_map(table_texts(records@), records@.len()),
{
    let mut classes: Vec<(String, Vec<String>)> = Vec::new();
    let ghost rows = table_texts(records@);
    let mut i: usize = 0;
    assert(class_views(classes@) =~= class_map(rows, 0));
    while i < records.len()
        invariant
            i <= records.len(),
            rows == table_texts(records@),
            class_views(classes@) == class_map(rows, i as nat),
        decreases records.len() - i,
    {
        let record = &records[i];
        assert(rows[i as int] == texts(record@));
        if record.len() >= 2 {
            assert(texts(record@)[0] == record@[0]@);
            assert(texts(record@)[1] == record@[1]@);
            let body = t1_entry_into_body_type(record[1].as_str());
            let ghost before = class_views(classes@);
            match find_class(&classes, record[0].as_str()) {
                Some(at) => {
                    let ghost old_classes = classes@;
                    let mut entry = classes.remove(at);
                    assert(entry == old_classes[at as int]);
                    assert(before[at as int] == (entry.0@, texts(entry.1@)));
                    let ghost class_name = entry.0@;
                    let ghost old_types = texts(entry.1@);
                    proof {
                        lemma_key_index(before, record@[0]@);
                        assert(class_name == record@[0]@);
                    }
                    insert_text_sorted(&mut entry.1, body);
                    assert(entry.0@ == class_name);
                    assert(texts(entry.1@) == insert_sorted(old_types, body@));
                    classes.insert(at, entry);
                    proof {
                        let wanted = before.update(
                            at as int,
                            (record@[0]@, insert_sorted(before[at as int].1, body@)),
                        );
                        assert(classes@ =~= old_classes.update(at as int, entry));
                        assert forall|k: int| 0 <= k < wanted.len() implies class_views(
                            classes@,
                        )[k] == wanted[k] by {
                            if k != at {
                                assert(classes@[k] == old_classes[k]);
                                assert(before[k] == (old_classes[k].0@, texts(old_classes[k].1@)));
                            } else {
                                assert(classes@[k] == entry);
                            }
                        }
                        assert(class_views(classes@) =~= wanted);
                    }
                },
                None => {
                    let mut types: Vec<String> = Vec::new();
                    types.push(body);
                    assert(texts(types@) =~= seq![body@]);
                    classes.push((record[0].clone(), types));
                    assert(class_views(classes@) =~= before.push((record@[0]@, seq![body@])));
                },
            }
        }
        i += 1;
    }
    classes
}

} // verus!
