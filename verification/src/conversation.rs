//! Whole operations: the steps of the service and the replies of a store, one
//! after the other, and what the table holds at the end.
//!
//! The store here takes of every batch the rows that it does not report, and
//! nothing of a batch that it fails. Its reply to a query lists the partition
//! as the table holds it at that moment. Nothing in this module runs.

use vstd::prelude::*;
use crate::error::ServiceError;
use crate::household::{faultless_means_members, household_fault, members_of};
use crate::ident::HouseholdId;
use crate::person::PersonView;
use crate::record::{
    decoded, decoded_all, encoded, encoded_all, encoding_undoes_decoding,
    first_undecodable_finds_every_error, RecordView,
};
use crate::retry::pauses_are_bounded;
use crate::service::{
    is_reported, reported, retained, EventView, OperationView, ServiceView, StepView,
};
use crate::table::{
    among, different_keys_agree, has_household, keys_agree, keys_differ, lists_partition,
    names_differ, partition_is_readable, put_all, put_all_changes_only_its_keys,
    put_all_places_every_row, read_after_create, read_after_update,
    rows_of_a_household_have_their_own_keys, Table,
};

verus! {

/// The test that picks the rows of a batch that the store took.
pub open spec fn is_taken(unaccepted: Seq<RecordView>) -> spec_fn(RecordView) -> bool {
    |record: RecordView| !reported(record.key(), unaccepted)
}

/// The rows of a batch that the store took: those that it does not report.
pub open spec fn taken(batch: Seq<RecordView>, unaccepted: Seq<RecordView>) -> Seq<RecordView> {
    batch.filter(is_taken(unaccepted))
}

/// The table after the store has replied to a step: a write that the store
/// answers with the rows it did not take has put the others; nothing else
/// changes the table.
pub open spec fn table_after(table: Table, step: StepView, event: EventView) -> Table {
    match step {
        StepView::Write { rows, .. } => match event {
            EventView::Written { unaccepted } => put_all(table, taken(rows, unaccepted)),
            _ => table,
        },
        _ => table,
    }
}

/// The household that an operation is about.
pub open spec fn household_of(operation: OperationView) -> HouseholdId {
    match operation {
        OperationView::Creating { people, .. } => people[0].household_id,
        OperationView::Reading { household_id } => household_id,
        OperationView::Updating { household_id, .. } => household_id,
    }
}

/// Whether the reply is one that the store can give to the step on this
/// table: rows in reply to a query list the partition that was asked for.
pub open spec fn fits(table: Table, step: StepView, event: EventView) -> bool {
    match step {
        StepView::Query { resume, .. } => match event {
            EventView::Rows { rows } => lists_partition(table, household_of(resume), rows),
            _ => true,
        },
        _ => true,
    }
}

/// Where an operation stands after the store has given the replies, one to
/// each request, beginning with the request of `step` on `table`: the table,
/// and the step that is due. Replies that come after the operation's end are
/// not looked at.
pub open spec fn converse(
    service: ServiceView,
    table: Table,
    step: StepView,
    replies: Seq<EventView>,
) -> (Table, StepView)
    decreases replies.len(),
{
    if replies.len() == 0 {
        (table, step)
    } else {
        match step {
            StepView::Write { resume, .. } => converse(
                service,
                table_after(table, step, replies[0]),
                service.resume(resume, replies[0]),
                replies.drop_first(),
            ),
            StepView::Query { resume, .. } => converse(
                service,
                table_after(table, step, replies[0]),
                service.resume(resume, replies[0]),
                replies.drop_first(),
            ),
            _ => (table, step),
        }
    }
}

/// Whether every reply fits the step that it answers.
pub open spec fn honest(
    service: ServiceView,
    table: Table,
    step: StepView,
    replies: Seq<EventView>,
) -> bool
    decreases replies.len(),
{
    if replies.len() == 0 {
        true
    } else {
        match step {
            StepView::Write { resume, .. } => fits(table, step, replies[0]) && honest(
                service,
                table_after(table, step, replies[0]),
                service.resume(resume, replies[0]),
                replies.drop_first(),
            ),
            StepView::Query { resume, .. } => fits(table, step, replies[0]) && honest(
                service,
                table_after(table, step, replies[0]),
                service.resume(resume, replies[0]),
                replies.drop_first(),
            ),
            _ => true,
        }
    }
}

/// An operation that has ended stays where it is.
pub proof fn ended_operation_stays(
    service: ServiceView,
    table: Table,
    step: StepView,
    replies: Seq<EventView>,
)
    requires
        !step.calls_store(),
    ensures
        converse(service, table, step, replies) == (table, step),
{
}

/// The table `now` differs from the table `start` only under keys of the rows
/// `written`: no row is gone, no row has come under another key than one of
/// theirs, and what lies under another key is unchanged.
pub open spec fn changed_only_under(start: Table, now: Table, written: Seq<RecordView>) -> bool {
    &&& forall|key: (Option<HouseholdId>, Option<Seq<char>>)|
        start.contains_key(key) ==> #[trigger] now.contains_key(key)
    &&& forall|key: (Option<HouseholdId>, Option<Seq<char>>)|
        #[trigger] now.contains_key(key) ==> start.contains_key(key) || reported(key, written)
    &&& forall|key: (Option<HouseholdId>, Option<Seq<char>>)|
        start.contains_key(key) && !reported(key, written) ==> #[trigger] now[key] == start[key]
}

/// What lies in the table `now` under the key of one of the rows `written` is
/// that row or what lay there at the start.
pub open spec fn rows_or_as_before(start: Table, now: Table, written: Seq<RecordView>) -> bool {
    forall|i: int|
        0 <= i < written.len() && now.contains_key((#[trigger] written[i]).key())
            ==> now[written[i].key()] == written[i] || (start.contains_key(written[i].key())
            && now[written[i].key()] == start[written[i].key()])
}

/// Every one of the rows `written` is in `batch` or in `rest` or lies in the
/// table.
spec fn sent_or_placed(
    now: Table,
    written: Seq<RecordView>,
    batch: Seq<RecordView>,
    rest: Seq<RecordView>,
) -> bool {
    forall|i: int|
        0 <= i < written.len() ==> batch.contains(#[trigger] written[i]) || rest.contains(
            written[i],
        ) || (now.contains_key(written[i].key()) && now[written[i].key()] == written[i])
}

/// The table `now` is the table `start` but for some of the rows `written`,
/// which have been put: it differs only under their keys, and what lies under
/// the key of one of them is that row or what lay there at the start.
pub open spec fn only_rows_put(start: Table, now: Table, written: Seq<RecordView>) -> bool {
    &&& changed_only_under(start, now, written)
    &&& rows_or_as_before(start, now, written)
}

/// What holds while the rows `written` are on their way from `start` to the
/// table `now`, with `batch` sent and `rest` still to send: both are rows of
/// `written`, and the table differs from `start` only under keys of `written`.
/// Where the rows have different keys, moreover, every one of them is in
/// `batch` or `rest` or lies in the table, and what lies under the key of one
/// of them is that row or what lay there at the start.
spec fn on_the_way(
    start: Table,
    now: Table,
    written: Seq<RecordView>,
    batch: Seq<RecordView>,
    rest: Seq<RecordView>,
) -> bool {
    &&& forall|x: int| 0 <= x < batch.len() ==> written.contains(#[trigger] batch[x])
    &&& forall|x: int| 0 <= x < rest.len() ==> written.contains(#[trigger] rest[x])
    &&& changed_only_under(start, now, written)
    &&& keys_differ(written) ==> sent_or_placed(now, written, batch, rest) && rows_or_as_before(
        start,
        now,
        written,
    )
}

/// With nothing on the way any more, the table is `start` with every row put.
proof fn arrived(start: Table, now: Table, written: Seq<RecordView>)
    requires
        keys_differ(written),
        on_the_way(start, now, written, Seq::empty(), Seq::empty()),
    ensures
        now == put_all(start, written),
{
    different_keys_agree(written);
    put_all_places_every_row(start, written);
    let all = put_all(start, written);
    assert forall|key: (Option<HouseholdId>, Option<Seq<char>>)|
        now.contains_key(key) == all.contains_key(key) by {
        if reported(key, written) {
            let i = choose|i: int| 0 <= i < written.len() && (#[trigger] written[i]).key() == key;
            assert(!Seq::<RecordView>::empty().contains(written[i]));
            assert(now.contains_key(written[i].key()));
        }
    }
    assert forall|key: (Option<HouseholdId>, Option<Seq<char>>)| now.contains_key(key) implies
        now[key] == all[key] by {
        if reported(key, written) {
            let i = choose|i: int| 0 <= i < written.len() && (#[trigger] written[i]).key() == key;
            assert(!Seq::<RecordView>::empty().contains(written[i]));
            assert(all[written[i].key()] == written[i]);
        } else {
            assert(start.contains_key(key));
        }
    }
    assert(now =~= all);
}

/// A reply to a write keeps the rows on their way: those that the store took
/// lie in the table, the others are sent again.
proof fn reply_keeps_rows_on_the_way(
    start: Table,
    now: Table,
    written: Seq<RecordView>,
    batch: Seq<RecordView>,
    rest: Seq<RecordView>,
    unaccepted: Seq<RecordView>,
)
    requires
        on_the_way(start, now, written, batch, rest),
    ensures
        on_the_way(
            start,
            put_all(now, taken(batch, unaccepted)),
            written,
            retained(batch, unaccepted),
            rest,
        ),
{
    let put = taken(batch, unaccepted);
    let again = retained(batch, unaccepted);
    let after = put_all(now, put);
    // The rows taken and the rows to send again are rows of the batch.
    assert forall|x: int| 0 <= x < put.len() implies batch.contains(#[trigger] put[x])
        && !reported(put[x].key(), unaccepted) by {
        batch.lemma_filter_contains_rev(is_taken(unaccepted), put[x]);
        batch.lemma_filter_pred(is_taken(unaccepted), x);
    }
    assert forall|x: int| 0 <= x < again.len() implies written.contains(#[trigger] again[x]) by {
        batch.lemma_filter_contains_rev(is_reported(unaccepted), again[x]);
        let y = choose|y: int| 0 <= y < batch.len() && batch[y] == again[x];
        assert(written.contains(batch[y]));
    }
    assert forall|x: int| 0 <= x < put.len() implies written.contains(#[trigger] put[x]) by {
        let y = choose|y: int| 0 <= y < batch.len() && batch[y] == put[x];
        assert(written.contains(batch[y]));
    }
    put_all_changes_only_its_keys(now, put);
    assert forall|key: (Option<HouseholdId>, Option<Seq<char>>)| #[trigger]
        after.contains_key(key) implies start.contains_key(key) || reported(key, written) by {
        if reported(key, put) {
            let x = choose|x: int| 0 <= x < put.len() && (#[trigger] put[x]).key() == key;
            assert(written.contains(put[x]));
            let j = choose|j: int| 0 <= j < written.len() && written[j] == put[x];
            assert(written[j].key() == key);
        } else {
            assert(now.contains_key(key));
        }
    }
    assert forall|key: (Option<HouseholdId>, Option<Seq<char>>)|
        start.contains_key(key) && !reported(key, written) implies #[trigger] after[key]
        == start[key] by {
        assert(now.contains_key(key));
        if reported(key, put) {
            let x = choose|x: int| 0 <= x < put.len() && (#[trigger] put[x]).key() == key;
            assert(written.contains(put[x]));
            let j = choose|j: int| 0 <= j < written.len() && written[j] == put[x];
            assert(written[j].key() == key);
        }
        assert(after[key] == now[key]);
    }
    assert forall|key: (Option<HouseholdId>, Option<Seq<char>>)|
        start.contains_key(key) implies #[trigger] after.contains_key(key) by {
        assert(now.contains_key(key));
    }
    if keys_differ(written) {
        different_keys_agree(written);
        assert(keys_agree(put)) by {
            assert forall|a: int, b: int|
                0 <= a < put.len() && 0 <= b < put.len() && (#[trigger] put[a]).key() == (
                #[trigger] put[b]).key() implies put[a] == put[b] by {
                assert(written.contains(put[a]) && written.contains(put[b]));
                let i = choose|i: int| 0 <= i < written.len() && written[i] == put[a];
                let j = choose|j: int| 0 <= j < written.len() && written[j] == put[b];
                assert(written[i].key() == written[j].key());
            }
        }
        put_all_places_every_row(now, put);
        assert forall|i: int| 0 <= i < written.len() implies again.contains(
            #[trigger] written[i],
        ) || rest.contains(written[i]) || (after.contains_key(written[i].key())
            && after[written[i].key()] == written[i]) by {
            let row = written[i];
            if batch.contains(row) {
                let y = choose|y: int| 0 <= y < batch.len() && batch[y] == row;
                if reported(row.key(), unaccepted) {
                    batch.lemma_filter_contains(is_reported(unaccepted), y);
                } else {
                    batch.lemma_filter_contains(is_taken(unaccepted), y);
                    let x = choose|x: int| 0 <= x < put.len() && put[x] == row;
                    assert(after[put[x].key()] == put[x]);
                    assert(reported(row.key(), put));
                }
            } else if !rest.contains(row) {
                assert(now.contains_key(row.key()) && now[row.key()] == row);
                if reported(row.key(), put) {
                    let x = choose|x: int|
                        0 <= x < put.len() && (#[trigger] put[x]).key() == row.key();
                    assert(written.contains(put[x]));
                    let j = choose|j: int| 0 <= j < written.len() && written[j] == put[x];
                    assert(written[j].key() == written[i].key());
                    assert(after[put[x].key()] == put[x]);
                }
            }
        }
        assert forall|i: int|
            0 <= i < written.len() && after.contains_key((#[trigger] written[i]).key()) implies
            after[written[i].key()] == written[i] || (start.contains_key(written[i].key())
            && after[written[i].key()] == start[written[i].key()]) by {
            let key = written[i].key();
            if reported(key, put) {
                let x = choose|x: int| 0 <= x < put.len() && (#[trigger] put[x]).key() == key;
                assert(written.contains(put[x]));
                let j = choose|j: int| 0 <= j < written.len() && written[j] == put[x];
                assert(written[j].key() == written[i].key());
                assert(after[put[x].key()] == put[x]);
            } else {
                assert(now.contains_key(key));
                assert(after[key] == now[key]);
            }
        }
    }
}

/// What a create that is under way leaves behind: it changes the table only
/// under keys of its people's rows, and it ends with `Accepted` only with the
/// people it was given. Where the rows have different keys, nothing but those
/// rows is put, and with `Accepted` all of them are.
spec fn leaves_behind(
    start: Table,
    people: Seq<PersonView>,
    end: (Table, StepView),
) -> bool {
    &&& changed_only_under(start, end.0, encoded_all(people))
    &&& end.1 is Accepted ==> end.1 == (StepView::Accepted { people })
    &&& keys_differ(encoded_all(people)) ==> only_rows_put(start, end.0, encoded_all(people)) && (
    end.1 is Accepted ==> end.0 == put_all(start, encoded_all(people)))
}

/// A create that is under way leaves behind what `leaves_behind` says.
proof fn write_in_flight_puts_the_rows(
    service: ServiceView,
    start: Table,
    now: Table,
    step: StepView,
    replies: Seq<EventView>,
)
    requires
        step matches StepView::Write {
            rows,
            resume: OperationView::Creating { people, batch, rest, .. },
            ..
        } && rows == batch && on_the_way(start, now, encoded_all(people), batch, rest),
    ensures
        step matches StepView::Write { resume: OperationView::Creating { people, .. }, .. }
            && leaves_behind(start, people, converse(service, now, step, replies)),
    decreases replies.len(), 0nat,
{
    if replies.len() > 0 {
        let event = replies[0];
        if let StepView::Write {
            rows,
            resume: OperationView::Creating {
                partition_key,
                people,
                batch,
                rest,
                attempt,
                waited_ms,
            },
            ..
        } = step {
            let written = encoded_all(people);
            let after = table_after(now, step, event);
            let later = replies.drop_first();
            match event {
                EventView::Written { unaccepted } => {
                    reply_keeps_rows_on_the_way(start, now, written, batch, rest, unaccepted);
                    batch_done_puts_the_rows(
                        service,
                        start,
                        after,
                        partition_key,
                        people,
                        retained(batch, unaccepted),
                        rest,
                        attempt,
                        waited_ms,
                        later,
                    );
                },
                EventView::Unavailable => {
                    batch_done_puts_the_rows(
                        service,
                        start,
                        after,
                        partition_key,
                        people,
                        batch,
                        rest,
                        attempt,
                        waited_ms,
                        later,
                    );
                },
                _ => {
                    let next = service.resume(step->Write_resume, event);
                    ended_operation_stays(service, after, next, later);
                },
            }
        }
    }
}

/// The same, from the step that follows a batch.
proof fn batch_done_puts_the_rows(
    service: ServiceView,
    start: Table,
    now: Table,
    partition_key: Seq<char>,
    people: Seq<PersonView>,
    again: Seq<RecordView>,
    rest: Seq<RecordView>,
    attempt: u32,
    waited_ms: u64,
    replies: Seq<EventView>,
)
    requires
        on_the_way(start, now, encoded_all(people), again, rest),
    ensures
        leaves_behind(
            start,
            people,
            converse(
                service,
                now,
                service.after_batch(partition_key, people, again, rest, attempt, waited_ms),
                replies,
            ),
        ),
    decreases replies.len(), 1nat,
{
    let written = encoded_all(people);
    let step = service.after_batch(partition_key, people, again, rest, attempt, waited_ms);
    if again.len() == 0 {
        if rest.len() == 0 {
            assert(again =~= Seq::<RecordView>::empty() && rest =~= Seq::<RecordView>::empty());
            if keys_differ(written) {
                arrived(start, now, written);
            }
            ended_operation_stays(service, now, step, replies);
        } else {
            let size: int = service.batch_len(rest);
            let batch = rest.subrange(0, size);
            let left = rest.subrange(size, rest.len() as int);
            if keys_differ(written) {
                assert forall|i: int| 0 <= i < written.len() implies batch.contains(
                    #[trigger] written[i],
                ) || left.contains(written[i]) || (now.contains_key(written[i].key())
                    && now[written[i].key()] == written[i]) by {
                    if rest.contains(written[i]) {
                        let x = choose|x: int| 0 <= x < rest.len() && rest[x] == written[i];
                        if x < size {
                            assert(batch[x] == written[i]);
                        } else {
                            assert(left[x - size] == written[i]);
                        }
                    } else {
                        assert(!again.contains(written[i]));
                    }
                }
            }
            assert forall|x: int| 0 <= x < batch.len() implies written.contains(
                #[trigger] batch[x],
            ) by {
                assert(batch[x] == rest[x]);
            }
            assert forall|x: int| 0 <= x < left.len() implies written.contains(
                #[trigger] left[x],
            ) by {
                assert(left[x] == rest[x + size]);
            }
            write_in_flight_puts_the_rows(service, start, now, step, replies);
        }
    } else if service.retry.allows_retry(attempt, waited_ms) {
        write_in_flight_puts_the_rows(service, start, now, step, replies);
    } else {
        ended_operation_stays(service, now, step, replies);
    }
}

/// The rows of some people, all still to send, are on their way.
proof fn rows_set_out(service: ServiceView, table: Table, people: Seq<PersonView>)
    ensures
        on_the_way(
            table,
            table,
            encoded_all(people),
            encoded_all(people).subrange(0, service.batch_len(encoded_all(people))),
            encoded_all(people).subrange(
                service.batch_len(encoded_all(people)),
                encoded_all(people).len() as int,
            ),
        ),
{
    let written = encoded_all(people);
    let size: int = service.batch_len(written);
    let batch = written.subrange(0, size);
    let rest = written.subrange(size, written.len() as int);
    assert forall|i: int| 0 <= i < written.len() implies batch.contains(#[trigger] written[i])
        || rest.contains(written[i]) by {
        if i < size {
            assert(batch[i] == written[i]);
        } else {
            assert(rest[i - size] == written[i]);
        }
    }
    assert forall|x: int| 0 <= x < batch.len() implies written.contains(#[trigger] batch[x]) by {
        assert(batch[x] == written[x]);
    }
    assert forall|x: int| 0 <= x < rest.len() implies written.contains(#[trigger] rest[x]) by {
        assert(rest[x] == written[x + size]);
    }
}

/// What a create leaves behind, whatever the store replies and however the
/// create ends.
proof fn create_leaves_behind(
    service: ServiceView,
    table: Table,
    people: Seq<PersonView>,
    replies: Seq<EventView>,
)
    ensures
        leaves_behind(table, people, converse(service, table, service.create(people), replies)),
{
    let step = service.create(people);
    if step is Write {
        rows_set_out(service, table, people);
        write_in_flight_puts_the_rows(service, table, table, step, replies);
    } else {
        ended_operation_stays(service, table, step, replies);
    }
}

/// A create changes the table only under keys of its people's rows, whatever
/// the store replies and however the create ends: no row is gone, and nothing
/// has come or changed under another key.
pub proof fn create_changes_only_its_rows(
    service: ServiceView,
    table: Table,
    people: Seq<PersonView>,
    replies: Seq<EventView>,
)
    ensures
        changed_only_under(
            table,
            converse(service, table, service.create(people), replies).0,
            encoded_all(people),
        ),
{
    create_leaves_behind(service, table, people, replies);
}

/// A create of people with different names puts nothing but rows of its
/// people, whatever the store replies and however the create ends: the table
/// afterwards is the table before, but for those of the people's rows that the
/// store has taken. Rows that are taken before a failure stay.
pub proof fn create_puts_only_rows_of_the_people(
    service: ServiceView,
    table: Table,
    people: Seq<PersonView>,
    replies: Seq<EventView>,
)
    requires
        names_differ(people),
    ensures
        only_rows_put(
            table,
            converse(service, table, service.create(people), replies).0,
            encoded_all(people),
        ),
{
    rows_of_a_household_have_their_own_keys(people);
    create_leaves_behind(service, table, people, replies);
}

/// A create ends with `Accepted` only when the store has taken every row: the
/// table is then the one it was, with the rows of all the people put. The
/// people are then as `create` wants them, and are handed back as given.
pub proof fn accepted_create_has_put_every_row(
    service: ServiceView,
    table: Table,
    people: Seq<PersonView>,
    replies: Seq<EventView>,
)
    requires
        names_differ(people),
        converse(service, table, service.create(people), replies).1 is Accepted,
    ensures
        people.len() > 0,
        members_of(people[0].household_id, people),
        converse(service, table, service.create(people), replies) == (
            put_all(table, encoded_all(people)),
            StepView::Accepted { people },
        ),
{
    let step = service.create(people);
    rows_of_a_household_have_their_own_keys(people);
    create_leaves_behind(service, table, people, replies);
    if step is Write {
        faultless_means_members(people[0].household_id, people);
    } else {
        ended_operation_stays(service, table, step, replies);
    }
}

/// Create, then read: where a create of people with different names ends with
/// `Accepted` on a table that had no row of their household, a read of that
/// household finds them, all of them and nobody else.
pub proof fn created_household_is_read_back(
    service: ServiceView,
    table: Table,
    people: Seq<PersonView>,
    replies: Seq<EventView>,
    rows: Seq<RecordView>,
)
    requires
        people.len() > 0,
        names_differ(people),
        !has_household(table, people[0].household_id),
        converse(service, table, service.create(people), replies).1 is Accepted,
        lists_partition(
            converse(service, table, service.create(people), replies).0,
            people[0].household_id,
            rows,
        ),
    ensures
        service.read(people[0].household_id) matches StepView::Query { resume, .. }
            && service.resume(resume, EventView::Rows { rows }) matches StepView::Found {
            household: Some(found),
        } && found.to_set() == people.to_set(),
{
    accepted_create_has_put_every_row(service, table, people, replies);
    read_after_create(service, table, people, rows);
}

/// Whether every reply says that the store took the whole batch.
pub open spec fn all_taken(replies: Seq<EventView>) -> bool {
    forall|i: int|
        0 <= i < replies.len() ==> (#[trigger] replies[i]) is Written
            && replies[i]->unaccepted.len() == 0
}

/// Where the store reports no row, no row is sent again.
pub proof fn nothing_reported_nothing_retained(batch: Seq<RecordView>)
    ensures
        retained(batch, Seq::empty()) == Seq::<RecordView>::empty(),
{
    let again = retained(batch, Seq::empty());
    if again.len() > 0 {
        batch.lemma_filter_pred(is_reported(Seq::empty()), 0);
    }
    assert(again =~= Seq::<RecordView>::empty());
}

/// Of rows with different keys, where the store reports one, that one alone
/// is sent again.
pub proof fn the_row_reported_is_retained(batch: Seq<RecordView>, k: int)
    requires
        keys_differ(batch),
        0 <= k < batch.len(),
    ensures
        retained(batch, seq![batch[k]]) == seq![batch[k]],
    decreases batch.len(),
{
    let test = is_reported(seq![batch[k]]);
    let earlier = batch.drop_last();
    let last = batch.last();
    assert(batch =~= earlier.push(last));
    earlier.lemma_filter_push(last, test);
    assert(seq![batch[k]][0] == batch[k]);
    assert forall|i: int| 0 <= i < batch.len() implies test(#[trigger] batch[i]) == (i == k) by {
        if i < k {
            assert(batch[i].key() != batch[k].key());
        } else if k < i {
            assert(batch[k].key() != batch[i].key());
        }
    }
    if k == batch.len() - 1 {
        let kept = earlier.filter(test);
        if kept.len() > 0 {
            earlier.lemma_filter_pred(test, 0);
            earlier.lemma_filter_contains_rev(test, kept[0]);
            let i = choose|i: int| 0 <= i < earlier.len() && earlier[i] == kept[0];
            assert(test(batch[i]));
        }
        assert(kept =~= Seq::<RecordView>::empty());
        assert(batch.filter(test) =~= seq![batch[k]]);
    } else {
        assert(!test(batch[batch.len() - 1]));
        assert(keys_differ(earlier)) by {
            assert forall|a: int, b: int| 0 <= a < b < earlier.len() implies (
            #[trigger] earlier[a]).key() != (#[trigger] earlier[b]).key() by {
                assert(earlier[a] == batch[a] && earlier[b] == batch[b]);
            }
        }
        assert(earlier[k] == batch[k]);
        the_row_reported_is_retained(earlier, k);
    }
}

/// A create that is under way is accepted by a store that takes every batch,
/// once it has replied to each.
proof fn write_in_flight_is_accepted(
    service: ServiceView,
    table: Table,
    step: StepView,
    replies: Seq<EventView>,
)
    requires
        service.valid(),
        all_taken(replies),
        replies.len() >= 1,
        step matches StepView::Write { resume: OperationView::Creating { rest, .. }, .. }
            && rest.len() <= (replies.len() - 1) * service.max_batch_size,
    ensures
        step matches StepView::Write { resume: OperationView::Creating { people, .. }, .. }
            && converse(service, table, step, replies).1 == (StepView::Accepted { people }),
    decreases replies.len(),
{
    if let StepView::Write {
        resume: OperationView::Creating { partition_key, people, batch, rest, attempt, waited_ms },
        ..
    } = step {
        let event = replies[0];
        let later = replies.drop_first();
        let after = table_after(table, step, event);
        let most: int = service.max_batch_size as int;
        assert(event is Written && event->unaccepted.len() == 0);
        assert(event->unaccepted =~= Seq::<RecordView>::empty());
        nothing_reported_nothing_retained(batch);
        let next = service.resume(step->Write_resume, event);
        if rest.len() == 0 {
            ended_operation_stays(service, after, next, later);
        } else {
            assert(later.len() >= 1) by (nonlinear_arith)
                requires
                    1 <= rest.len() <= (replies.len() - 1) * most,
                    later.len() == replies.len() - 1,
                    most >= 1,
            ;
            let size: int = service.batch_len(rest);
            assert(rest.subrange(size, rest.len() as int).len() == rest.len() - size);
            assert(rest.len() - size <= (later.len() - 1) * most) by (nonlinear_arith)
                requires
                    rest.len() <= (later.len()) * most,
                    size == rest.len() || size == most,
                    later.len() >= 1,
                    most >= 1,
            ;
            assert(all_taken(later)) by {
                assert forall|i: int| 0 <= i < later.len() implies (#[trigger] later[i]) is Written
                    && later[i]->unaccepted.len() == 0 by {
                    assert(later[i] == replies[i + 1]);
                }
            }
            write_in_flight_is_accepted(service, after, next, later);
        }
    }
}

/// A store that takes every row ends the create with `Accepted`: where the
/// people are as `create` wants them and the store takes every batch whole,
/// the create is accepted once the store has replied to each batch, and the
/// people are handed back as given. Where their names differ, the table then
/// holds the row of each.
pub proof fn create_is_accepted_where_every_row_is_taken(
    service: ServiceView,
    table: Table,
    people: Seq<PersonView>,
    replies: Seq<EventView>,
)
    requires
        service.valid(),
        people.len() > 0,
        members_of(people[0].household_id, people),
        all_taken(replies),
        replies.len() * service.max_batch_size >= people.len(),
    ensures
        converse(service, table, service.create(people), replies).1 == (StepView::Accepted {
            people,
        }),
        names_differ(people) ==> converse(service, table, service.create(people), replies).0
            == put_all(table, encoded_all(people)),
{
    faultless_means_members(people[0].household_id, people);
    let step = service.create(people);
    let written = encoded_all(people);
    let most: int = service.max_batch_size as int;
    let size: int = service.batch_len(written);
    assert(written.subrange(size, written.len() as int).len() == written.len() - size);
    assert(replies.len() >= 1 && written.len() - size <= (replies.len() - 1) * most)
        by (nonlinear_arith)
        requires
            replies.len() * most >= written.len(),
            written.len() >= 1,
            size == written.len() || size == most,
            most >= 1,
            replies.len() >= 0,
    ;
    write_in_flight_is_accepted(service, table, step, replies);
    if names_differ(people) {
        accepted_create_has_put_every_row(service, table, people, replies);
    }
}

/// A row that the store leaves once and takes at the second try: where the
/// people are as `create` wants them, of different names and few enough for
/// one batch, and the policy allows a second attempt, the first write carries
/// the rows of all; after the store has reported the row of one of them, the
/// second write carries that row alone, after the pause before a first retry;
/// and after the store has taken it, the create is accepted.
pub proof fn row_left_once_is_written_again(service: ServiceView, people: Seq<PersonView>, k: int)
    requires
        people.len() > 0,
        members_of(people[0].household_id, people),
        names_differ(people),
        people.len() <= service.max_batch_size,
        0 <= k < people.len(),
        service.retry.allows_retry(1, 0),
    ensures
        ({
            let first = service.create(people);
            let second = service.resume(
                first->Write_resume,
                EventView::Written { unaccepted: seq![encoded(people[k])] },
            );
            let third = service.resume(
                second->Write_resume,
                EventView::Written { unaccepted: Seq::empty() },
            );
            &&& first is Write
            &&& first->rows == encoded_all(people)
            &&& first->delay_ms == 0
            &&& second is Write
            &&& second->rows == seq![encoded(people[k])]
            &&& second->delay_ms == service.retry.pause_ms(1)
            &&& third == (StepView::Accepted { people })
        }),
{
    faultless_means_members(people[0].household_id, people);
    rows_of_a_household_have_their_own_keys(people);
    pauses_are_bounded(service.retry, 1);
    let written = encoded_all(people);
    assert(written.subrange(0, written.len() as int) =~= written);
    assert(written.subrange(written.len() as int, written.len() as int) =~= Seq::<
        RecordView,
    >::empty());
    assert(written[k] == encoded(people[k]));
    the_row_reported_is_retained(written, k);
    nothing_reported_nothing_retained(seq![encoded(people[k])]);
}

/// An update changes nothing outside the household that it names, whoever
/// the people are, whatever the store replies and however the update ends: a
/// row of another household is neither put nor changed nor gone.
pub proof fn update_changes_only_its_household(
    service: ServiceView,
    table: Table,
    id: HouseholdId,
    people: Seq<PersonView>,
    replies: Seq<EventView>,
)
    ensures
        ({
            let after = converse(service, table, service.update(id, people), replies).0;
            forall|key: (Option<HouseholdId>, Option<Seq<char>>)|
                key.0 != Some(id) ==> (#[trigger] after.contains_key(key) == table.contains_key(
                    key,
                )) && (table.contains_key(key) ==> after[key] == table[key])
        }),
{
    if replies.len() > 0 {
        let step = service.update(id, people);
        let next = service.resume(step->Query_resume, replies[0]);
        let later = replies.drop_first();
        if next is Write {
            faultless_means_members(id, people);
            assert(next == service.create(people));
            create_changes_only_its_rows(service, table, people, later);
            let written = encoded_all(people);
            assert forall|key: (Option<HouseholdId>, Option<Seq<char>>)|
                key.0 != Some(id) implies !reported(key, written) by {
                if reported(key, written) {
                    let i = choose|i: int|
                        0 <= i < written.len() && (#[trigger] written[i]).key() == key;
                    assert(people[i].household_id == id);
                }
            }
        } else {
            ended_operation_stays(service, table, next, later);
        }
    }
}

/// An update with people who are not the members of the household that it
/// names writes nothing, whatever the store replies: the table stays as it
/// was, and once the household is found and read, the update fails with what
/// is wrong with the people.
pub proof fn update_by_others_writes_nothing(
    service: ServiceView,
    table: Table,
    id: HouseholdId,
    people: Seq<PersonView>,
    replies: Seq<EventView>,
)
    requires
        household_fault(id, people) is Some,
    ensures
        converse(service, table, service.update(id, people), replies).0 == table,
        !converse(service, table, service.update(id, people), replies).1.writes(),
        replies.len() > 0 && replies[0] is Rows && replies[0]->rows.len() > 0 && decoded_all(
            replies[0]->rows,
        ) is Ok ==> converse(service, table, service.update(id, people), replies).1
            == (StepView::Failed {
            error: ServiceError::Validation(household_fault(id, people)->0),
        }),
{
    if replies.len() > 0 {
        let step = service.update(id, people);
        let next = service.resume(step->Query_resume, replies[0]);
        ended_operation_stays(service, table, next, replies.drop_first());
    }
}

/// Whether one of the people has the name.
pub open spec fn named(name: Seq<char>, people: Seq<PersonView>) -> bool {
    exists|i: int| 0 <= i < people.len() && (#[trigger] people[i]).name == name
}

/// An update of a household that does not exist fails with `NotFound` at the
/// first reply, and whatever the store replies, the table stays as it was:
/// nothing is written.
pub proof fn update_of_unknown_household_changes_nothing(
    service: ServiceView,
    table: Table,
    id: HouseholdId,
    people: Seq<PersonView>,
    replies: Seq<EventView>,
)
    requires
        !has_household(table, id),
        honest(service, table, service.update(id, people), replies),
    ensures
        converse(service, table, service.update(id, people), replies).0 == table,
        !converse(service, table, service.update(id, people), replies).1.writes(),
        replies.len() > 0 && replies[0] is Rows ==> converse(
            service,
            table,
            service.update(id, people),
            replies,
        ).1 == (StepView::Failed { error: ServiceError::NotFound }),
{
    if replies.len() > 0 {
        let step = service.update(id, people);
        let next = service.resume(step->Query_resume, replies[0]);
        if let EventView::Rows { rows } = replies[0] {
            if rows.len() > 0 {
                assert(table.contains_key(rows[0].key()) && rows[0].key().0 == Some(id));
            }
        }
        ended_operation_stays(service, table, next, replies.drop_first());
    }
}

/// Update, then read: where an update ends with `Accepted`, with people of
/// different names, the people are the members of the household that is
/// updated, and a read finds each of them as given, and under the name of each
/// nothing else: it shows what the update said, not what was there before.
/// Whoever the update found in the household under a name that none of the
/// people has is found again: an update removes nobody.
pub proof fn updated_household_is_read_back(
    service: ServiceView,
    table: Table,
    id: HouseholdId,
    people: Seq<PersonView>,
    replies: Seq<EventView>,
    rows: Seq<RecordView>,
)
    requires
        names_differ(people),
        honest(service, table, service.update(id, people), replies),
        converse(service, table, service.update(id, people), replies).1 is Accepted,
        lists_partition(
            converse(service, table, service.update(id, people), replies).0,
            id,
            rows,
        ),
    ensures
        members_of(id, people),
        converse(service, table, service.update(id, people), replies).1 == (StepView::Accepted {
            people,
        }),
        service.read(id) matches StepView::Query { resume, .. } && service.resume(
            resume,
            EventView::Rows { rows },
        ) matches StepView::Found { household: Some(found) } && {
            &&& forall|i: int| 0 <= i < people.len() ==> among(#[trigger] people[i], found)
            &&& forall|i: int, j: int|
                0 <= i < people.len() && 0 <= j < found.len() && (#[trigger] found[j]).name == (
                #[trigger] people[i]).name ==> found[j] == people[i]
            &&& replies[0] matches EventView::Rows { rows: before } && forall|j: int|
                0 <= j < before.len() && !named(decoded(#[trigger] before[j])->Ok_0.name, people)
                    ==> among(decoded(before[j])->Ok_0, found)
        },
{
    let step = service.update(id, people);
    assert(replies.len() > 0);
    let first = replies[0];
    let later = replies.drop_first();
    let next = service.resume(step->Query_resume, first);
    if let EventView::Rows { rows: old } = first {
        if old.len() > 0 && decoded_all(old) is Ok && next is Write {
            faultless_means_members(id, people);
            assert(next == service.create(people));
            accepted_create_has_put_every_row(service, table, people, later);
            assert(has_household(table, id)) by {
                assert(table.contains_key(old[0].key()) && old[0].key().0 == Some(id));
            }
            assert(partition_is_readable(table, id)) by {
                first_undecodable_finds_every_error(old, 0);
                assert forall|key: (Option<HouseholdId>, Option<Seq<char>>)| #[trigger]
                    table.contains_key(key) && key.0 == Some(id) implies decoded(table[key])
                    is Ok by {
                    assert(reported(key, old));
                    let j = choose|j: int| 0 <= j < old.len() && (#[trigger] old[j]).key() == key;
                    assert(decoded(old[j]) is Ok);
                }
            }
            read_after_update(service, table, id, people, rows);
            let found = decoded_all(rows)->Ok_0;
            let written = encoded_all(people);
            assert forall|j: int|
                0 <= j < old.len() && !named(decoded(#[trigger] old[j])->Ok_0.name, people)
                    implies among(decoded(old[j])->Ok_0, found) by {
                let key = old[j].key();
                assert(decoded(old[j]) is Ok);
                encoding_undoes_decoding(old[j]);
                assert(table.contains_key(key) && table[key] == old[j] && key.0 == Some(id));
                if reported(key, written) {
                    let i = choose|i: int|
                        0 <= i < written.len() && (#[trigger] written[i]).key() == key;
                    assert(people[i].name == decoded(old[j])->Ok_0.name);
                }
            }
        } else {
            ended_operation_stays(service, table, next, later);
        }
    } else {
        ended_operation_stays(service, table, next, later);
    }
}

/// How many replies a create that is under way can still take, at most: those
/// to the batch that is sent, and as many as the policy allows for every row
/// that is still to send.
pub open spec fn replies_left(service: ServiceView, operation: OperationView) -> int {
    match operation {
        OperationView::Creating { rest, attempt, .. } => service.retry.max_attempts - attempt + 1
            + rest.len() * service.retry.max_attempts,
        _ => 1,
    }
}

/// A create that is under way ends before it has taken more replies than are
/// left to it.
proof fn write_in_flight_ends(
    service: ServiceView,
    table: Table,
    step: StepView,
    replies: Seq<EventView>,
)
    requires
        service.valid(),
        step matches StepView::Write { resume: OperationView::Creating { attempt, .. }, .. } && 1
            <= attempt <= service.retry.max_attempts,
        replies.len() >= replies_left(service, step->Write_resume),
    ensures
        !converse(service, table, step, replies).1.calls_store(),
    decreases replies.len(),
{
    if let StepView::Write {
        resume: OperationView::Creating { partition_key, people, batch, rest, attempt, waited_ms },
        ..
    } = step {
        let most: int = service.retry.max_attempts as int;
        assert(rest.len() * most >= 0) by (nonlinear_arith)
            requires
                rest.len() >= 0,
                most >= 0,
        ;
        let event = replies[0];
        let after = table_after(table, step, event);
        let later = replies.drop_first();
        let next = service.resume(step->Write_resume, event);
        if next matches StepView::Write { resume, .. } {
            let again = match event {
                EventView::Written { unaccepted } => retained(batch, unaccepted),
                _ => batch,
            };
            if again.len() == 0 {
                let size: int = service.batch_len(rest);
                assert((rest.len() - size) * most <= (rest.len() - 1) * most) by (nonlinear_arith)
                    requires
                        size >= 1,
                        most >= 0,
                ;
                assert((rest.len() - 1) * most == rest.len() * most - most) by (nonlinear_arith);
                assert(rest.subrange(size, rest.len() as int).len() == rest.len() - size);
            }
            write_in_flight_ends(service, after, next, later);
        } else {
            ended_operation_stays(service, after, next, later);
        }
    }
}

/// A read ends with the first reply.
pub proof fn read_ends(
    service: ServiceView,
    table: Table,
    id: HouseholdId,
    replies: Seq<EventView>,
)
    requires
        replies.len() >= 1,
    ensures
        !converse(service, table, service.read(id), replies).1.calls_store(),
        converse(service, table, service.read(id), replies).0 == table,
{
    let step = service.read(id);
    ended_operation_stays(
        service,
        table,
        service.resume(step->Query_resume, replies[0]),
        replies.drop_first(),
    );
}

/// A create ends: whatever the store replies, after as many replies as the
/// people are, times the attempts that the policy allows, nothing more is asked
/// of the store.
pub proof fn create_ends(
    service: ServiceView,
    table: Table,
    people: Seq<PersonView>,
    replies: Seq<EventView>,
)
    requires
        service.valid(),
        replies.len() >= people.len() * service.retry.max_attempts,
    ensures
        !converse(service, table, service.create(people), replies).1.calls_store(),
{
    let step = service.create(people);
    if step is Write {
        let written = encoded_all(people);
        let size: int = service.batch_len(written);
        let most: int = service.retry.max_attempts as int;
        let rest = written.subrange(size, written.len() as int);
        assert(rest.len() == people.len() - size);
        assert((people.len() - size) * most <= (people.len() - 1) * most) by (nonlinear_arith)
            requires
                size >= 1,
                most >= 0,
        ;
        assert((people.len() - 1) * most == people.len() * most - most) by (nonlinear_arith);
        write_in_flight_ends(service, table, step, replies);
    } else {
        ended_operation_stays(service, table, step, replies);
    }
}

/// An update ends: one reply tells whether the household exists, and the write
/// that may follow ends as a create does.
pub proof fn update_ends(
    service: ServiceView,
    table: Table,
    id: HouseholdId,
    people: Seq<PersonView>,
    replies: Seq<EventView>,
)
    requires
        service.valid(),
        replies.len() >= 1 + people.len() * service.retry.max_attempts,
    ensures
        !converse(service, table, service.update(id, people), replies).1.calls_store(),
{
    let step = service.update(id, people);
    let next = service.resume(step->Query_resume, replies[0]);
    let later = replies.drop_first();
    assert(people.len() * service.retry.max_attempts >= 0) by (nonlinear_arith)
        requires
            people.len() >= 0,
            service.retry.max_attempts >= 0,
    ;
    if next == service.create(people) {
        create_ends(service, table, people, later);
    } else {
        ended_operation_stays(service, table, next, later);
    }
}

/// The pauses, in milliseconds, that an operation asks for from `step` on,
/// as far as the replies take it.
pub open spec fn pauses(service: ServiceView, step: StepView, replies: Seq<EventView>) -> int
    decreases replies.len(),
{
    match step {
        StepView::Write { delay_ms, resume, .. } => delay_ms + if replies.len() == 0 {
            0
        } else {
            pauses(service, service.resume(resume, replies[0]), replies.drop_first())
        },
        StepView::Query { resume, .. } => if replies.len() == 0 {
            0
        } else {
            pauses(service, service.resume(resume, replies[0]), replies.drop_first())
        },
        _ => 0,
    }
}

/// A create that is under way and has paused within the limit pauses no
/// longer than the limit leaves.
proof fn write_in_flight_pauses_within_the_limit(
    service: ServiceView,
    step: StepView,
    replies: Seq<EventView>,
)
    requires
        step matches StepView::Write { resume: OperationView::Creating { waited_ms, .. }, .. }
            && waited_ms <= service.retry.max_total_delay_ms,
    ensures
        step matches StepView::Write {
            delay_ms,
            resume: OperationView::Creating { waited_ms, .. },
            ..
        } && pauses(service, step, replies) <= delay_ms + service.retry.max_total_delay_ms
            - waited_ms,
    decreases replies.len(),
{
    if replies.len() > 0 {
        let next = service.resume(step->Write_resume, replies[0]);
        let later = replies.drop_first();
        if let StepView::Write { resume: OperationView::Creating { attempt, .. }, .. } = step {
            pauses_are_bounded(service.retry, attempt);
        }
        if next is Write {
            write_in_flight_pauses_within_the_limit(service, next, later);
        } else {
            assert(pauses(service, next, later) == 0);
        }
    }
}

/// The pauses of a create never add up to more than the policy allows in all.
pub proof fn create_pauses_within_the_limit(
    service: ServiceView,
    people: Seq<PersonView>,
    replies: Seq<EventView>,
)
    ensures
        pauses(service, service.create(people), replies) <= service.retry.max_total_delay_ms,
{
    let step = service.create(people);
    if step is Write {
        write_in_flight_pauses_within_the_limit(service, step, replies);
    }
}

/// Nor do those of an update.
pub proof fn update_pauses_within_the_limit(
    service: ServiceView,
    id: HouseholdId,
    people: Seq<PersonView>,
    replies: Seq<EventView>,
)
    ensures
        pauses(service, service.update(id, people), replies)
            <= service.retry.max_total_delay_ms,
{
    if replies.len() > 0 {
        let step = service.update(id, people);
        let next = service.resume(step->Query_resume, replies[0]);
        let later = replies.drop_first();
        if next is Write {
            assert(next == service.create(people));
            create_pauses_within_the_limit(service, people, later);
        } else {
            assert(pauses(service, next, later) == 0);
        }
    }
}

} // verus!
