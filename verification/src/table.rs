//! What the service expects of the store, and what follows from it.
//!
//! The store is a table of rows, each under its key. A batched write puts the
//! rows that the store takes, each replacing the row of the same key, and
//! reports the others; a query lists the rows of one partition, each once, in
//! an order of the store's choosing. The table here is that of a store whose
//! reads have caught up with its writes. Nothing in this module runs: it
//! states the laws that the service's steps obey on such a store.

use vstd::prelude::*;
use crate::error::{DecodeError, ServiceError};
use crate::household::members_of;
use crate::ident::HouseholdId;
use crate::person::PersonView;
use crate::record::{
    decoded, decoded_all, decoding_undoes_encoding, encoded, encoded_all,
    encoding_undoes_decoding, first_undecodable_finds_every_error, RecordView,
};
use crate::service::{reported, EventView, OperationView, ServiceView, StepView};

verus! {

/// The rows of a store, each under its key: the household and the name.
pub type Table = Map<(Option<HouseholdId>, Option<Seq<char>>), RecordView>;

/// The table after one row is put.
pub open spec fn put(table: Table, record: RecordView) -> Table {
    table.insert(record.key(), record)
}

/// The table after some rows are put, one after the other.
pub open spec fn put_all(table: Table, records: Seq<RecordView>) -> Table
    decreases records.len(),
{
    if records.len() == 0 {
        table
    } else {
        put(put_all(table, records.drop_last()), records.last())
    }
}

/// Whether the table holds a row of the household.
pub open spec fn has_household(table: Table, id: HouseholdId) -> bool {
    exists|key: (Option<HouseholdId>, Option<Seq<char>>)|
        #[trigger] table.contains_key(key) && key.0 == Some(id)
}

/// `rows` is a reply to a query for the household: the rows that the table
/// holds in the household's partition, each once.
pub open spec fn lists_partition(table: Table, id: HouseholdId, rows: Seq<RecordView>) -> bool {
    &&& forall|j: int|
        0 <= j < rows.len() ==> (#[trigger] rows[j]).household_id == Some(id)
            && table.contains_key(rows[j].key()) && table[rows[j].key()] == rows[j]
    &&& forall|key: (Option<HouseholdId>, Option<Seq<char>>)|
        #[trigger] table.contains_key(key) && key.0 == Some(id) ==> reported(key, rows)
    &&& forall|a: int, b: int|
        0 <= a < b < rows.len() ==> (#[trigger] rows[a]).key() != (#[trigger] rows[b]).key()
}

/// Every row of the household's partition describes a person.
pub open spec fn partition_is_readable(table: Table, id: HouseholdId) -> bool {
    forall|key: (Option<HouseholdId>, Option<Seq<char>>)|
        #[trigger] table.contains_key(key) && key.0 == Some(id) ==> decoded(table[key]) is Ok
}

/// No two of the people have the same name: each has a row of its own.
pub open spec fn names_differ(people: Seq<PersonView>) -> bool {
    forall|i: int, j: int|
        0 <= i < j < people.len() ==> (#[trigger] people[i]).name != (#[trigger] people[j]).name
}

/// No two of the rows have the same key.
pub open spec fn keys_differ(records: Seq<RecordView>) -> bool {
    forall|a: int, b: int|
        0 <= a < b < records.len() ==> (#[trigger] records[a]).key() != (
        #[trigger] records[b]).key()
}

/// Rows of the same key are the same row: it does not matter which of them is
/// put last.
pub open spec fn keys_agree(records: Seq<RecordView>) -> bool {
    forall|a: int, b: int|
        0 <= a < records.len() && 0 <= b < records.len() && (#[trigger] records[a]).key() == (
        #[trigger] records[b]).key() ==> records[a] == records[b]
}

/// Whether the person is among the people.
pub open spec fn among(person: PersonView, people: Seq<PersonView>) -> bool {
    exists|i: int| 0 <= i < people.len() && #[trigger] people[i] == person
}

/// Putting rows adds exactly their keys and changes nothing under another key.
pub proof fn put_all_changes_only_its_keys(table: Table, records: Seq<RecordView>)
    ensures
        forall|key: (Option<HouseholdId>, Option<Seq<char>>)|
            #[trigger] put_all(table, records).contains_key(key) <==> table.contains_key(key)
                || reported(key, records),
        forall|key: (Option<HouseholdId>, Option<Seq<char>>)|
            table.contains_key(key) && !reported(key, records) ==> #[trigger] put_all(
                table,
                records,
            )[key] == table[key],
    decreases records.len(),
{
    if records.len() > 0 {
        let earlier = records.drop_last();
        let last = records.last();
        let before = put_all(table, earlier);
        let after = put_all(table, records);
        put_all_changes_only_its_keys(table, earlier);
        assert forall|key: (Option<HouseholdId>, Option<Seq<char>>)|
            reported(key, records) <==> reported(key, earlier) || key == last.key() by {
            if reported(key, earlier) {
                let j = choose|j: int|
                    0 <= j < earlier.len() && (#[trigger] earlier[j]).key() == key;
                assert(records[j].key() == key);
            }
            if key == last.key() {
                assert(records[records.len() - 1].key() == key);
            }
            if reported(key, records) {
                let j = choose|j: int|
                    0 <= j < records.len() && (#[trigger] records[j]).key() == key;
                if j < earlier.len() {
                    assert(earlier[j].key() == key);
                }
            }
        }
        assert forall|key: (Option<HouseholdId>, Option<Seq<char>>)|
            #[trigger] after.contains_key(key) <==> table.contains_key(key) || reported(
                key,
                records,
            ) by {
            assert(before.contains_key(key) <==> table.contains_key(key) || reported(key, earlier));
        }
    } else {
        assert forall|key: (Option<HouseholdId>, Option<Seq<char>>)| !reported(key, records) by {}
    }
}

/// Putting rows of which those of the same key are the same adds exactly their
/// keys, leaves each of them under its key, and changes no other row.
pub proof fn put_all_places_every_row(table: Table, records: Seq<RecordView>)
    requires
        keys_agree(records),
    ensures
        forall|key: (Option<HouseholdId>, Option<Seq<char>>)|
            #[trigger] put_all(table, records).contains_key(key) <==> table.contains_key(key)
                || reported(key, records),
        forall|i: int|
            0 <= i < records.len() ==> put_all(table, records)[(#[trigger] records[i]).key()]
                == records[i],
        forall|key: (Option<HouseholdId>, Option<Seq<char>>)|
            table.contains_key(key) && !reported(key, records) ==> #[trigger] put_all(
                table,
                records,
            )[key] == table[key],
    decreases records.len(),
{
    if records.len() > 0 {
        let earlier = records.drop_last();
        let last = records.last();
        let before = put_all(table, earlier);
        let after = put_all(table, records);
        assert(keys_agree(earlier)) by {
            assert forall|a: int, b: int|
                0 <= a < earlier.len() && 0 <= b < earlier.len() && (#[trigger] earlier[a]).key()
                    == (#[trigger] earlier[b]).key() implies earlier[a] == earlier[b] by {
                assert(earlier[a] == records[a] && earlier[b] == records[b]);
            }
        }
        put_all_places_every_row(table, earlier);
        assert forall|key: (Option<HouseholdId>, Option<Seq<char>>)|
            reported(key, records) <==> reported(key, earlier) || key == last.key() by {
            if reported(key, earlier) {
                let j = choose|j: int|
                    0 <= j < earlier.len() && (#[trigger] earlier[j]).key() == key;
                assert(records[j].key() == key);
            }
            if key == last.key() {
                assert(records[records.len() - 1].key() == key);
            }
            if reported(key, records) {
                let j = choose|j: int|
                    0 <= j < records.len() && (#[trigger] records[j]).key() == key;
                if j < earlier.len() {
                    assert(earlier[j].key() == key);
                }
            }
        }
        assert forall|i: int| 0 <= i < records.len() implies after[(#[trigger] records[i]).key()]
            == records[i] by {
            if i < earlier.len() {
                assert(earlier[i] == records[i]);
                if records[i].key() == last.key() {
                    assert(records[i] == records[records.len() - 1]);
                }
            }
        }
        assert forall|key: (Option<HouseholdId>, Option<Seq<char>>)|
            #[trigger] after.contains_key(key) <==> table.contains_key(key) || reported(
                key,
                records,
            ) by {
            assert(before.contains_key(key) <==> table.contains_key(key) || reported(key, earlier));
        }
    } else {
        assert forall|key: (Option<HouseholdId>, Option<Seq<char>>)| !reported(key, records) by {}
    }
}

/// Rows with different keys agree.
pub proof fn different_keys_agree(records: Seq<RecordView>)
    requires
        keys_differ(records),
    ensures
        keys_agree(records),
{
    assert forall|a: int, b: int|
        0 <= a < records.len() && 0 <= b < records.len() && (#[trigger] records[a]).key() == (
        #[trigger] records[b]).key() implies records[a] == records[b] by {
        if a < b {
            assert(records[a].key() != records[b].key());
        } else if b < a {
            assert(records[b].key() != records[a].key());
        }
    }
}

/// The rows of people with different names have different keys.
pub proof fn rows_of_a_household_have_their_own_keys(people: Seq<PersonView>)
    requires
        names_differ(people),
    ensures
        keys_differ(encoded_all(people)),
{
    let rows = encoded_all(people);
    assert forall|a: int, b: int| 0 <= a < b < rows.len() implies (#[trigger] rows[a]).key() != (
    #[trigger] rows[b]).key() by {
        assert(people[a].name != people[b].name);
    }
}

/// Rows that all describe people are decoded row by row.
pub proof fn readable_rows_decode_one_by_one(rows: Seq<RecordView>)
    requires
        forall|j: int| 0 <= j < rows.len() ==> decoded(#[trigger] rows[j]) is Ok,
    ensures
        decoded_all(rows) is Ok,
        decoded_all(rows)->Ok_0.len() == rows.len(),
        forall|j: int|
            0 <= j < rows.len() ==> Ok::<PersonView, DecodeError>(
                #[trigger] decoded_all(rows)->Ok_0[j],
            ) == decoded(rows[j]),
{
    first_undecodable_finds_every_error(rows, 0);
}

/// A household that was never created is not found: on a table without a row
/// of the household, the reply to the read's query is empty, and the read ends
/// with `None`.
pub proof fn unknown_household_is_not_found(
    service: ServiceView,
    table: Table,
    id: HouseholdId,
    rows: Seq<RecordView>,
)
    requires
        !has_household(table, id),
        lists_partition(table, id, rows),
    ensures
        rows.len() == 0,
        service.read(id) matches StepView::Query { resume, .. } && service.resume(
            resume,
            EventView::Rows { rows },
        ) == (StepView::Found { household: None }),
{
    if rows.len() > 0 {
        assert(table.contains_key(rows[0].key()) && rows[0].key().0 == Some(id));
    }
}

/// An update of a household that does not exist writes nothing: on a table
/// without a row of the household, the reply to the update's query is empty,
/// and the update ends there with `NotFound`.
pub proof fn update_of_unknown_household_writes_nothing(
    service: ServiceView,
    table: Table,
    id: HouseholdId,
    people: Seq<PersonView>,
    rows: Seq<RecordView>,
)
    requires
        !has_household(table, id),
        lists_partition(table, id, rows),
    ensures
        service.update(id, people) matches StepView::Query { resume, .. } && service.resume(
            resume,
            EventView::Rows { rows },
        ) == (StepView::Failed { error: ServiceError::NotFound }),
{
    if rows.len() > 0 {
        assert(table.contains_key(rows[0].key()) && rows[0].key().0 == Some(id));
    }
}

/// What a read finds once the rows of valid people with different names, all of
/// the household `id`, are put into a table whose rows of that household can be
/// read. The read succeeds, and whoever it finds is a valid member of the
/// household. Each of the people is found as given, and is the only one found
/// under that name: what an earlier write said of that name is gone. Whoever
/// else is found was in the table before, and whoever was in the table before
/// under a name that none of the people has is still found: a member that the
/// new people do not name stays.
pub proof fn read_after_write(
    service: ServiceView,
    table: Table,
    id: HouseholdId,
    people: Seq<PersonView>,
    rows: Seq<RecordView>,
)
    requires
        members_of(id, people),
        names_differ(people),
        partition_is_readable(table, id),
        lists_partition(put_all(table, encoded_all(people)), id, rows),
    ensures
        service.resume(OperationView::Reading { household_id: id }, EventView::Rows { rows })
            matches StepView::Found { household: Some(found) } && {
            &&& found == decoded_all(rows)->Ok_0
            &&& forall|j: int|
                0 <= j < found.len() ==> (#[trigger] found[j]).household_id == id
                    && found[j].valid()
            &&& forall|i: int| 0 <= i < people.len() ==> among(#[trigger] people[i], found)
            &&& forall|i: int, j: int|
                0 <= i < people.len() && 0 <= j < found.len() && (#[trigger] found[j]).name == (
                #[trigger] people[i]).name ==> found[j] == people[i]
            &&& forall|j: int|
                0 <= j < found.len() && !among(#[trigger] found[j], people) ==> table.contains_key(
                    encoded(found[j]).key(),
                ) && decoded(table[encoded(found[j]).key()]) == Ok::<PersonView, DecodeError>(
                    found[j],
                )
            &&& forall|key: (Option<HouseholdId>, Option<Seq<char>>)|
                #[trigger] table.contains_key(key) && key.0 == Some(id) && !reported(
                    key,
                    encoded_all(people),
                ) ==> among(decoded(table[key])->Ok_0, found)
        },
{
    let written = encoded_all(people);
    let after = put_all(table, written);
    rows_of_a_household_have_their_own_keys(people);
    different_keys_agree(written);
    put_all_places_every_row(table, written);
    assert forall|i: int| 0 <= i < people.len() implies decoded(#[trigger] written[i]) == Ok::<
        PersonView,
        DecodeError,
    >(people[i]) && written[i].key() == (Some(id), Some(people[i].name)) by {
        assert(people[i].household_id == id && people[i].valid());
        decoding_undoes_encoding(people[i]);
    }
    // Every row of the reply is one of the rows written or was there before.
    assert forall|j: int| 0 <= j < rows.len() implies decoded(#[trigger] rows[j]) is Ok && (
    reported(rows[j].key(), written) || (table.contains_key(rows[j].key()) && table[rows[j].key()]
        == rows[j])) by {
        let key = rows[j].key();
        assert(after.contains_key(key) && after[key] == rows[j]);
        if reported(key, written) {
            let i = choose|i: int| 0 <= i < written.len() && (#[trigger] written[i]).key() == key;
            assert(after[written[i].key()] == written[i]);
        } else {
            assert(table.contains_key(key));
            assert(after[key] == table[key]);
            assert(key.0 == Some(id));
        }
    }
    readable_rows_decode_one_by_one(rows);
    let found = decoded_all(rows)->Ok_0;
    assert(rows.len() > 0) by {
        assert(after.contains_key(written[0].key()) && written[0].key().0 == Some(id));
        assert(reported(written[0].key(), rows));
    }
    assert forall|j: int| 0 <= j < found.len() implies (#[trigger] found[j]).household_id == id
        && found[j].valid() by {
        assert(Ok::<PersonView, DecodeError>(found[j]) == decoded(rows[j]));
        assert(rows[j].household_id == Some(id));
        encoding_undoes_decoding(rows[j]);
    }
    assert forall|i: int| 0 <= i < people.len() implies among(#[trigger] people[i], found) by {
        let key = written[i].key();
        assert(after.contains_key(key) && key.0 == Some(id));
        assert(reported(key, rows));
        let j = choose|j: int| 0 <= j < rows.len() && (#[trigger] rows[j]).key() == key;
        assert(after[rows[j].key()] == rows[j]);
        assert(after[written[i].key()] == written[i]);
        assert(Ok::<PersonView, DecodeError>(found[j]) == decoded(rows[j]));
        assert(found[j] == people[i]);
    }
    assert forall|i: int, j: int|
        0 <= i < people.len() && 0 <= j < found.len() && (#[trigger] found[j]).name == (
        #[trigger] people[i]).name implies found[j] == people[i] by {
        assert(Ok::<PersonView, DecodeError>(found[j]) == decoded(rows[j]));
        assert(rows[j].household_id == Some(id));
        assert(rows[j].key() == written[i].key());
        assert(after[rows[j].key()] == rows[j]);
        assert(after[written[i].key()] == written[i]);
    }
    assert forall|key: (Option<HouseholdId>, Option<Seq<char>>)|
        #[trigger] table.contains_key(key) && key.0 == Some(id) && !reported(
            key,
            written,
        ) implies among(decoded(table[key])->Ok_0, found) by {
        assert(after.contains_key(key));
        assert(after[key] == table[key]);
        assert(reported(key, rows));
        let j = choose|j: int| 0 <= j < rows.len() && (#[trigger] rows[j]).key() == key;
        assert(after[rows[j].key()] == rows[j]);
        assert(Ok::<PersonView, DecodeError>(found[j]) == decoded(rows[j]));
    }
    assert forall|j: int| 0 <= j < found.len() && !among(#[trigger] found[j], people) implies
        table.contains_key(encoded(found[j]).key()) && decoded(table[encoded(found[j]).key()])
        == Ok::<PersonView, DecodeError>(found[j]) by {
        assert(Ok::<PersonView, DecodeError>(found[j]) == decoded(rows[j]));
        encoding_undoes_decoding(rows[j]);
        let key = rows[j].key();
        if reported(key, written) {
            let i = choose|i: int| 0 <= i < written.len() && (#[trigger] written[i]).key() == key;
            assert(after[written[i].key()] == written[i]);
            assert(after[rows[j].key()] == rows[j]);
            assert(found[j] == people[i]);
        }
    }
}

/// Read after create: once the rows of a new household are written, a read
/// finds its members, all of them and nobody else. The people are at least
/// one, valid, of one household and of different names, and the household had
/// no row before.
pub proof fn read_after_create(
    service: ServiceView,
    table: Table,
    people: Seq<PersonView>,
    rows: Seq<RecordView>,
)
    requires
        people.len() > 0,
        members_of(people[0].household_id, people),
        names_differ(people),
        !has_household(table, people[0].household_id),
        lists_partition(put_all(table, encoded_all(people)), people[0].household_id, rows),
    ensures
        service.resume(
            OperationView::Reading { household_id: people[0].household_id },
            EventView::Rows { rows },
        ) matches StepView::Found { household: Some(found) } && found.to_set()
            == people.to_set(),
{
    let id = people[0].household_id;
    read_after_write(service, table, id, people, rows);
    let found = decoded_all(rows)->Ok_0;
    assert forall|person: PersonView| found.to_set().contains(person) <==> people.to_set().contains(
        person,
    ) by {
        if people.to_set().contains(person) {
            let i = choose|i: int| 0 <= i < people.len() && people[i] == person;
            assert(among(people[i], found));
        }
        if found.to_set().contains(person) {
            let j = choose|j: int| 0 <= j < found.len() && found[j] == person;
            if !among(found[j], people) {
                assert(table.contains_key(encoded(found[j]).key()));
                assert(found[j].household_id == id);
                assert(has_household(table, id));
            }
            let i = choose|i: int| 0 <= i < people.len() && #[trigger] people[i] == found[j];
        }
    }
    assert(found.to_set() =~= people.to_set());
}

/// Read after update: once the rows of an update are written over those of an
/// existing household, a read finds every one of the new people as given, and
/// under the name of each nothing else: the read shows the change, not what
/// was there before. A member of before whose name none of the new people has
/// is found as well: an update removes nobody.
pub proof fn read_after_update(
    service: ServiceView,
    table: Table,
    id: HouseholdId,
    people: Seq<PersonView>,
    rows: Seq<RecordView>,
)
    requires
        has_household(table, id),
        partition_is_readable(table, id),
        members_of(id, people),
        names_differ(people),
        lists_partition(put_all(table, encoded_all(people)), id, rows),
    ensures
        service.resume(OperationView::Reading { household_id: id }, EventView::Rows { rows })
            matches StepView::Found { household: Some(found) } && {
            &&& forall|i: int| 0 <= i < people.len() ==> among(#[trigger] people[i], found)
            &&& forall|i: int, j: int|
                0 <= i < people.len() && 0 <= j < found.len() && (#[trigger] found[j]).name == (
                #[trigger] people[i]).name ==> found[j] == people[i]
            &&& forall|key: (Option<HouseholdId>, Option<Seq<char>>)|
                #[trigger] table.contains_key(key) && key.0 == Some(id) && !reported(
                    key,
                    encoded_all(people),
                ) ==> among(decoded(table[key])->Ok_0, found)
        },
{
    read_after_write(service, table, id, people, rows);
}

} // verus!
