//! The household service: what to ask of the store, and what to make of its
//! replies.
//!
//! An operation is a conversation with the store. `create`, `read` and `update`
//! open one and return its first [`Step`]; a step that asks something of the
//! store carries the [`Operation`] to hand back, with the store's reply, to
//! `resume`. A step that asks nothing ends the operation. The rules of the
//! conversation are the spec functions of [`ServiceView`]; the executable
//! functions compute exactly those.
//!
//! A household is written as one row per member, in batches. Nothing spans the
//! batches: where a later batch fails, the rows of the earlier ones stay. An
//! update writes to the household that it names and to no other: the people
//! must be its members. A member that an update no longer names keeps its row:
//! the store is only ever asked to put rows, never to delete one.

use vstd::prelude::*;
use crate::error::{ConfigError, ServiceError, ValidationError};
use crate::household::{check_members, household_fault};
use crate::ident::HouseholdId;
use crate::person::{Person, PersonView};
use crate::record::{
    decode_all, decoded_all, encode_all, encoded_all, HouseholdRecord, RecordView,
};
use crate::retry::RetryPolicy;

verus! {

/// What the store's client reports of the last request.
#[derive(Debug, Clone, PartialEq, Eq)]
pub enum StoreEvent {
    /// The batch was taken, but for the rows listed.
    Written { unaccepted: Vec<HouseholdRecord> },
    /// The rows of the partition that was queried.
    Rows { rows: Vec<HouseholdRecord> },
    /// The store could not be reached or was too busy: nothing is known to be
    /// written, and the request may succeed later.
    Unavailable,
    /// The store refused the request for good.
    Refused,
    /// The caller's time limit passed.
    TimedOut,
    /// The caller withdrew the request.
    Canceled,
}

/// What a `StoreEvent` holds.
pub enum EventView {
    Written { unaccepted: Seq<RecordView> },
    Rows { rows: Seq<RecordView> },
    Unavailable,
    Refused,
    TimedOut,
    Canceled,
}

impl DeepView for StoreEvent {
    type V = EventView;

    open spec fn deep_view(&self) -> EventView {
        match self {
            StoreEvent::Written { unaccepted } => EventView::Written {
                unaccepted: unaccepted.deep_view(),
            },
            StoreEvent::Rows { rows } => EventView::Rows { rows: rows.deep_view() },
            StoreEvent::Unavailable => EventView::Unavailable,
            StoreEvent::Refused => EventView::Refused,
            StoreEvent::TimedOut => EventView::TimedOut,
            StoreEvent::Canceled => EventView::Canceled,
        }
    }
}

/// An operation that waits for the store's reply.
#[derive(Debug, Clone, PartialEq, Eq)]
pub enum Operation {
    /// A household is being written to the partition. `batch` has been sent,
    /// for the `attempt`-th time; `rest` is still to be sent. The operation has
    /// paused for `waited_ms` in all.
    Creating {
        partition_key: String,
        people: Vec<Person>,
        batch: Vec<HouseholdRecord>,
        rest: Vec<HouseholdRecord>,
        attempt: u32,
        waited_ms: u64,
    },
    /// The rows of a household have been asked for.
    Reading { household_id: HouseholdId },
    /// The rows of a household have been asked for, to learn whether it exists
    /// before `people` replace its members.
    Updating { household_id: HouseholdId, people: Vec<Person> },
}

/// What an `Operation` holds.
pub enum OperationView {
    Creating {
        partition_key: Seq<char>,
        people: Seq<PersonView>,
        batch: Seq<RecordView>,
        rest: Seq<RecordView>,
        attempt: u32,
        waited_ms: u64,
    },
    Reading { household_id: HouseholdId },
    Updating { household_id: HouseholdId, people: Seq<PersonView> },
}

impl DeepView for Operation {
    type V = OperationView;

    open spec fn deep_view(&self) -> OperationView {
        match self {
            Operation::Creating { partition_key, people, batch, rest, attempt, waited_ms } => {
                OperationView::Creating {
                    partition_key: partition_key@,
                    people: people.deep_view(),
                    batch: batch.deep_view(),
                    rest: rest.deep_view(),
                    attempt: *attempt,
                    waited_ms: *waited_ms,
                }
            },
            Operation::Reading { household_id } => OperationView::Reading {
                household_id: *household_id,
            },
            Operation::Updating { household_id, people } => OperationView::Updating {
                household_id: *household_id,
                people: people.deep_view(),
            },
        }
    }
}

/// What to do next.
#[derive(Debug, Clone, PartialEq, Eq)]
pub enum Step {
    /// Pause for `delay_ms`, then put `rows` into the partition in one batch,
    /// and hand the reply to `resume` with the operation.
    Write { partition_key: String, rows: Vec<HouseholdRecord>, delay_ms: u64, resume: Operation },
    /// Ask for all rows of the partition, and hand the reply to `resume` with
    /// the operation.
    Query { partition_key: String, resume: Operation },
    /// A create or an update is done: these people are written, in the order
    /// in which they were given.
    Accepted { people: Vec<Person> },
    /// A read is done: the members of the household, or `None` where the
    /// household does not exist.
    Found { household: Option<Vec<Person>> },
    /// The operation has failed.
    Failed { error: ServiceError },
}

/// What a `Step` holds.
pub enum StepView {
    Write { partition_key: Seq<char>, rows: Seq<RecordView>, delay_ms: u64, resume: OperationView },
    Query { partition_key: Seq<char>, resume: OperationView },
    Accepted { people: Seq<PersonView> },
    Found { household: Option<Seq<PersonView>> },
    Failed { error: ServiceError },
}

impl DeepView for Step {
    type V = StepView;

    open spec fn deep_view(&self) -> StepView {
        match self {
            Step::Write { partition_key, rows, delay_ms, resume } => StepView::Write {
                partition_key: partition_key@,
                rows: rows.deep_view(),
                delay_ms: *delay_ms,
                resume: resume.deep_view(),
            },
            Step::Query { partition_key, resume } => StepView::Query {
                partition_key: partition_key@,
                resume: resume.deep_view(),
            },
            Step::Accepted { people } => StepView::Accepted { people: people.deep_view() },
            Step::Found { household } => StepView::Found { household: household.deep_view() },
            Step::Failed { error } => StepView::Failed { error: *error },
        }
    }
}

impl StepView {
    /// Whether the step asks the store to write.
    pub open spec fn writes(self) -> bool {
        self is Write
    }

    /// Whether the step asks anything of the store.
    pub open spec fn calls_store(self) -> bool {
        self is Write || self is Query
    }
}

/// Whether a row with the given key is among those that the store reports.
pub open spec fn reported(
    key: (Option<HouseholdId>, Option<Seq<char>>),
    unaccepted: Seq<RecordView>,
) -> bool {
    exists|j: int| 0 <= j < unaccepted.len() && (#[trigger] unaccepted[j]).key() == key
}

/// The test that picks the rows to write again.
pub open spec fn is_reported(unaccepted: Seq<RecordView>) -> spec_fn(RecordView) -> bool {
    |record: RecordView| reported(record.key(), unaccepted)
}

/// The rows of a batch that the store did not take: those whose key is among
/// the rows it reports, in the batch's order. A row that the store reports and
/// that was not in the batch is not written.
pub open spec fn retained(batch: Seq<RecordView>, unaccepted: Seq<RecordView>) -> Seq<RecordView> {
    batch.filter(is_reported(unaccepted))
}

/// What a service goes by: how many rows a batch may hold, and how often and
/// after which pauses a batch is written again.
pub struct ServiceView {
    pub max_batch_size: usize,
    pub retry: RetryPolicy,
}

impl ServiceView {
    /// A batch holds at least one row and is written at least once.
    pub open spec fn valid(self) -> bool {
        self.max_batch_size >= 1 && self.retry.max_attempts >= 1
    }

    /// How many of the given rows go into the next batch.
    pub open spec fn batch_len(self, rows: Seq<RecordView>) -> int {
        if rows.len() <= self.max_batch_size {
            rows.len() as int
        } else {
            self.max_batch_size as int
        }
    }

    /// The first write of the next batch: as many of `rows` as a batch may
    /// hold, at once, with the others left for later.
    pub open spec fn send(
        self,
        partition_key: Seq<char>,
        people: Seq<PersonView>,
        rows: Seq<RecordView>,
        waited_ms: u64,
    ) -> StepView {
        let batch = rows.subrange(0, self.batch_len(rows));
        let rest = rows.subrange(self.batch_len(rows), rows.len() as int);
        StepView::Write {
            partition_key,
            rows: batch,
            delay_ms: 0,
            resume: OperationView::Creating {
                partition_key,
                people,
                batch,
                rest,
                attempt: 1,
                waited_ms,
            },
        }
    }

    /// The first step of the writing of the household `household_id`, with its
    /// partition key given. People who are not the members of that household
    /// are refused before anything is asked of the store: nobody, a person of
    /// another household, a person without a name or a contact. Otherwise the
    /// rows of the people are written to the partition, batch by batch.
    pub open spec fn write_under(
        self,
        partition_key: Seq<char>,
        household_id: HouseholdId,
        people: Seq<PersonView>,
    ) -> StepView {
        match household_fault(household_id, people) {
            Some(fault) => StepView::Failed { error: ServiceError::Validation(fault) },
            None => self.send(partition_key, people, encoded_all(people), 0),
        }
    }

    /// The first step of a create, with the partition key of the people's
    /// household given: nobody is refused, and others are written as the
    /// members of the household of the first of them.
    pub open spec fn create_under(self, partition_key: Seq<char>, people: Seq<PersonView>)
        -> StepView {
        if people.len() == 0 {
            StepView::Failed { error: ServiceError::Validation(ValidationError::EmptyHousehold) }
        } else {
            self.write_under(partition_key, people[0].household_id, people)
        }
    }

    /// The first step of a create: that of `create_under`, with the partition
    /// key of the household of the first of the people.
    pub open spec fn create(self, people: Seq<PersonView>) -> StepView {
        self.create_under(people[0].household_id.text(), people)
    }

    /// The first step of a read: the rows of the household are asked for.
    pub open spec fn read(self, household_id: HouseholdId) -> StepView {
        StepView::Query {
            partition_key: household_id.text(),
            resume: OperationView::Reading { household_id },
        }
    }

    /// The first step of an update: the rows of the household are asked for,
    /// and nothing is written before they have come.
    pub open spec fn update(self, household_id: HouseholdId, people: Seq<PersonView>) -> StepView {
        StepView::Query {
            partition_key: household_id.text(),
            resume: OperationView::Updating { household_id, people },
        }
    }

    /// The failure that a reply means whatever was asked, if it means one; a
    /// reply to another request than the one made counts as a failure of the
    /// store.
    pub open spec fn failure(event: EventView) -> ServiceError {
        match event {
            EventView::TimedOut => ServiceError::Timeout,
            EventView::Canceled => ServiceError::Canceled,
            _ => ServiceError::Store,
        }
    }

    /// The step after a batch of which the rows `again` are not yet written.
    /// With none left, the next batch is sent, or the create is done. Else the
    /// rows are written again after a pause, unless the policy forbids it: then
    /// the create fails, and what is written stays.
    pub open spec fn after_batch(
        self,
        partition_key: Seq<char>,
        people: Seq<PersonView>,
        again: Seq<RecordView>,
        rest: Seq<RecordView>,
        attempt: u32,
        waited_ms: u64,
    ) -> StepView {
        if again.len() == 0 {
            if rest.len() == 0 {
                StepView::Accepted { people }
            } else {
                self.send(partition_key, people, rest, waited_ms)
            }
        } else if self.retry.allows_retry(attempt, waited_ms) {
            StepView::Write {
                partition_key,
                rows: again,
                delay_ms: self.retry.pause_ms(attempt) as u64,
                resume: OperationView::Creating {
                    partition_key,
                    people,
                    batch: again,
                    rest,
                    attempt: (attempt + 1) as u32,
                    waited_ms: (waited_ms + self.retry.pause_ms(attempt)) as u64,
                },
            }
        } else {
            StepView::Failed { error: ServiceError::Store }
        }
    }

    /// The step after the reply to a query of a read: no rows mean that there
    /// is no such household; one row that describes no person fails the read.
    pub open spec fn after_read(event: EventView) -> StepView {
        match event {
            EventView::Rows { rows } => {
                if rows.len() == 0 {
                    StepView::Found { household: None }
                } else {
                    match decoded_all(rows) {
                        Ok(people) => StepView::Found { household: Some(people) },
                        Err(error) => StepView::Failed { error: ServiceError::Decode(error) },
                    }
                }
            },
            _ => StepView::Failed { error: Self::failure(event) },
        }
    }

    /// The step after the reply to the query of an update: a household without
    /// rows does not exist and is not made; one that cannot be read is left
    /// alone; one that is read gets the rows of the people, who must be its
    /// members: an update writes to no other household than the one updated.
    pub open spec fn after_existence_check(
        self,
        household_id: HouseholdId,
        people: Seq<PersonView>,
        event: EventView,
    ) -> StepView {
        match event {
            EventView::Rows { rows } => {
                if rows.len() == 0 {
                    StepView::Failed { error: ServiceError::NotFound }
                } else {
                    match decoded_all(rows) {
                        Ok(_) => self.write_under(household_id.text(), household_id, people),
                        Err(error) => StepView::Failed { error: ServiceError::Decode(error) },
                    }
                }
            },
            _ => StepView::Failed { error: Self::failure(event) },
        }
    }

    /// The step after the store's reply to the request of an operation.
    pub open spec fn resume(self, operation: OperationView, event: EventView) -> StepView {
        match operation {
            OperationView::Creating { partition_key, people, batch, rest, attempt, waited_ms } => {
                match event {
                    EventView::Written { unaccepted } => self.after_batch(
                        partition_key,
                        people,
                        retained(batch, unaccepted),
                        rest,
                        attempt,
                        waited_ms,
                    ),
                    EventView::Unavailable => self.after_batch(
                        partition_key,
                        people,
                        batch,
                        rest,
                        attempt,
                        waited_ms,
                    ),
                    _ => StepView::Failed { error: Self::failure(event) },
                }
            },
            OperationView::Reading { .. } => Self::after_read(event),
            OperationView::Updating { household_id, people } => self.after_existence_check(
                household_id,
                people,
                event,
            ),
        }
    }
}

/// The options of a service.
#[derive(Debug, Clone, PartialEq, Eq)]
pub struct ServiceConfig {
    /// The table that holds the rows.
    pub table_name: String,
    /// The most rows that the store takes in one batch.
    pub max_batch_size: usize,
    pub retry: RetryPolicy,
}

/// The household service. It holds no connection: see the module.
#[derive(Debug)]
pub struct HouseholdService {
    table_name: String,
    max_batch_size: usize,
    retry: RetryPolicy,
}

impl View for HouseholdService {
    type V = ServiceView;

    closed spec fn view(&self) -> ServiceView {
        ServiceView { max_batch_size: self.max_batch_size, retry: self.retry }
    }
}

/// Whether some row of `unaccepted` has the key of `record`.
fn is_among(record: &HouseholdRecord, unaccepted: &Vec<HouseholdRecord>) -> (found: bool)
    ensures
        found == reported(record.deep_view().key(), unaccepted.deep_view()),
{
    let mut j: usize = 0;
    while j < unaccepted.len()
        invariant
            j <= unaccepted.len(),
            forall|k: int|
                0 <= k < j ==> (#[trigger] unaccepted.deep_view()[k]).key()
                    != record.deep_view().key(),
        decreases unaccepted.len() - j,
    {
        assert(unaccepted.deep_view()[j as int] == unaccepted[j as int].deep_view());
        if unaccepted[j].same_key(record) {
            return true;
        }
        j = j + 1;
    }
    false
}

/// Picks the rows of a batch that the store reports as not taken.
pub fn retain_unaccepted(
    batch: &Vec<HouseholdRecord>,
    unaccepted: &Vec<HouseholdRecord>,
) -> (again: Vec<HouseholdRecord>)
    ensures
        again.deep_view() == retained(batch.deep_view(), unaccepted.deep_view()),
{
    let ghost test = is_reported(unaccepted.deep_view());
    let mut again: Vec<HouseholdRecord> = Vec::new();
    let mut i: usize = 0;
    assert(batch.deep_view().take(0) =~= Seq::<RecordView>::empty());
    assert(again.deep_view() =~= Seq::<RecordView>::empty());
    while i < batch.len()
        invariant
            i <= batch.len(),
            test == is_reported(unaccepted.deep_view()),
            again.deep_view() == batch.deep_view().take(i as int).filter(test),
        decreases batch.len() - i,
    {
        let ghost before = again.deep_view();
        let ghost row = batch.deep_view()[i as int];
        assert(row == batch[i as int].deep_view());
        proof {
            assert(batch.deep_view().take(i + 1) =~= batch.deep_view().take(i as int).push(row));
            batch.deep_view().take(i as int).lemma_filter_push(row, test);
        }
        if is_among(&batch[i], unaccepted) {
            again.push(batch[i].duplicate());
            assert(again.deep_view() =~= before.push(row));
        }
        i = i + 1;
    }
    assert(batch.deep_view().take(batch.len() as int) =~= batch.deep_view());
    again
}

/// Copies some rows.
fn duplicate_all(records: &Vec<HouseholdRecord>) -> (copies: Vec<HouseholdRecord>)
    ensures
        copies.deep_view() == records.deep_view(),
{
    let mut copies: Vec<HouseholdRecord> = Vec::new();
    let mut i: usize = 0;
    while i < records.len()
        invariant
            i <= records.len(),
            copies.len() == i,
            forall|j: int|
                0 <= j < i ==> (#[trigger] copies[j]).deep_view() == records[j].deep_view(),
        decreases records.len() - i,
    {
        copies.push(records[i].duplicate());
        i = i + 1;
    }
    assert(copies.deep_view() =~= records.deep_view());
    copies
}

impl HouseholdService {
    #[verifier::type_invariant]
    spec fn well_formed(self) -> bool {
        &&& self.table_name@.len() > 0
        &&& self.max_batch_size >= 1
        &&& self.retry.max_attempts >= 1
    }

    /// The name of the table that holds the rows.
    pub closed spec fn table(&self) -> Seq<char> {
        self.table_name@
    }

    /// A service with the given options, unless no service can work with them.
    /// The options are looked at in the order of the fields.
    pub fn new(config: ServiceConfig) -> (made: Result<HouseholdService, ConfigError>)
        ensures
            made matches Ok(service) ==> service@ == (ServiceView {
                max_batch_size: config.max_batch_size,
                retry: config.retry,
            }) && service.table() == config.table_name@ && service@.valid(),
            made matches Err(error) ==> error == (if config.table_name@.len() == 0 {
                ConfigError::EmptyTableName
            } else if config.max_batch_size == 0 {
                ConfigError::ZeroBatchSize
            } else {
                ConfigError::ZeroAttempts
            }),
            made is Ok <==> config.table_name@.len() > 0 && config.max_batch_size >= 1
                && config.retry.max_attempts >= 1,
    {
        if config.table_name.as_str().is_empty() {
            Err(ConfigError::EmptyTableName)
        } else if config.max_batch_size == 0 {
            Err(ConfigError::ZeroBatchSize)
        } else if config.retry.max_attempts == 0 {
            Err(ConfigError::ZeroAttempts)
        } else {
            Ok(
                HouseholdService {
                    table_name: config.table_name,
                    max_batch_size: config.max_batch_size,
                    retry: config.retry,
                },
            )
        }
    }

    pub fn table_name(&self) -> (name: &String)
        ensures
            name@ == self.table(),
            name@.len() > 0,
    {
        proof {
            use_type_invariant(self);
        }
        &self.table_name
    }

    pub fn max_batch_size(&self) -> (size: usize)
        ensures
            size == self@.max_batch_size,
            self@.valid(),
    {
        proof {
            use_type_invariant(self);
        }
        self.max_batch_size
    }

    pub fn retry_policy(&self) -> (retry: RetryPolicy)
        ensures
            retry == self@.retry,
            self@.valid(),
    {
        proof {
            use_type_invariant(self);
        }
        self.retry
    }

    /// Sends the next batch of `rows` for the first time.
    fn send(
        &self,
        partition_key: String,
        people: Vec<Person>,
        rows: Vec<HouseholdRecord>,
        waited_ms: u64,
    ) -> (step: Step)
        ensures
            step.deep_view() == self@.send(
                partition_key@,
                people.deep_view(),
                rows.deep_view(),
                waited_ms,
            ),
    {
        let ghost all = rows.deep_view();
        let mut batch = rows;
        let at: usize = if batch.len() <= self.max_batch_size {
            batch.len()
        } else {
            self.max_batch_size
        };
        let rest = batch.split_off(at);
        assert(batch.deep_view() =~= all.subrange(0, at as int));
        assert(rest.deep_view() =~= all.subrange(at as int, all.len() as int));
        let rows = duplicate_all(&batch);
        Step::Write {
            partition_key: partition_key.clone(),
            rows,
            delay_ms: 0,
            resume: Operation::Creating {
                partition_key,
                people,
                batch,
                rest,
                attempt: 1,
                waited_ms,
            },
        }
    }

    /// Opens the writing of the household `household_id` under its partition
    /// key, which the caller has.
    ///
    /// The step is `Failed` with a validation error where the people are not
    /// the members of the household: where there is nobody, where one of them
    /// is of another household, or where one of them is not valid. The store
    /// is then not asked anything. Otherwise it is the write of the first
    /// batch.
    pub fn write_under(
        &self,
        partition_key: String,
        household_id: HouseholdId,
        people: Vec<Person>,
    ) -> (step: Step)
        ensures
            step.deep_view() == self@.write_under(
                partition_key@,
                household_id,
                people.deep_view(),
            ),
            step.deep_view().calls_store() <==> household_fault(household_id, people.deep_view())
                is None,
            household_fault(household_id, people.deep_view()) matches Some(fault)
                ==> step.deep_view() == (StepView::Failed {
                error: ServiceError::Validation(fault),
            }),
    {
        match check_members(household_id, &people) {
            Err(fault) => Step::Failed { error: ServiceError::Validation(fault) },
            Ok(()) => {
                let rows = encode_all(&people);
                self.send(partition_key, people, rows, 0)
            },
        }
    }

    /// Opens a create under the partition key of the people's household, which
    /// the caller has: `create` computes it.
    ///
    /// The step is `Failed` with a validation error where there is nobody,
    /// where the people are not all of the household of the first, or where
    /// one of them is not valid; the store is then not asked anything.
    /// Otherwise it is the write of the first batch.
    pub fn create_under(&self, partition_key: String, people: Vec<Person>) -> (step: Step)
        ensures
            step.deep_view() == self@.create_under(partition_key@, people.deep_view()),
            people.len() == 0 ==> step.deep_view() == (StepView::Failed {
                error: ServiceError::Validation(ValidationError::EmptyHousehold),
            }),
            step.deep_view().calls_store() <==> people.len() > 0 && household_fault(
                people[0].household_id,
                people.deep_view(),
            ) is None,
    {
        if people.len() == 0 {
            return Step::Failed {
                error: ServiceError::Validation(ValidationError::EmptyHousehold),
            };
        }
        let household_id = people[0].household_id;
        assert(people.deep_view()[0] == people[0].deep_view());
        self.write_under(partition_key, household_id, people)
    }

    /// Opens a create: `people` become the members of their household.
    ///
    /// The step is that of `create_under` with the partition key of the
    /// household of the first of the people. A create of nobody fails before
    /// anything is asked of the store.
    pub fn create(&self, people: Vec<Person>) -> (step: Step)
        ensures
            step.deep_view() == self@.create(people.deep_view()),
            people.len() == 0 ==> step.deep_view() == (StepView::Failed {
                error: ServiceError::Validation(ValidationError::EmptyHousehold),
            }),
            step.deep_view().calls_store() <==> people.len() > 0 && household_fault(
                people[0].household_id,
                people.deep_view(),
            ) is None,
    {
        if people.len() == 0 {
            return Step::Failed {
                error: ServiceError::Validation(ValidationError::EmptyHousehold),
            };
        }
        assert(people.deep_view()[0] == people[0].deep_view());
        let partition_key = people[0].household_id.to_text();
        self.create_under(partition_key, people)
    }

    /// Opens a read of the household: its rows are asked for.
    pub fn read(&self, household_id: HouseholdId) -> (step: Step)
        ensures
            step.deep_view() == self@.read(household_id),
    {
        Step::Query {
            partition_key: household_id.to_text(),
            resume: Operation::Reading { household_id },
        }
    }

    /// Opens an update of the household: its rows are asked for, to learn
    /// whether it exists. Nothing is written yet.
    pub fn update(&self, household_id: HouseholdId, people: Vec<Person>) -> (step: Step)
        ensures
            step.deep_view() == self@.update(household_id, people.deep_view()),
            !step.deep_view().writes(),
    {
        Step::Query {
            partition_key: household_id.to_text(),
            resume: Operation::Updating { household_id, people },
        }
    }

    /// Decides what follows a batch of which `again` is not yet written.
    fn after_batch(
        &self,
        partition_key: String,
        people: Vec<Person>,
        again: Vec<HouseholdRecord>,
        rest: Vec<HouseholdRecord>,
        attempt: u32,
        waited_ms: u64,
    ) -> (step: Step)
        ensures
            step.deep_view() == self@.after_batch(
                partition_key@,
                people.deep_view(),
                again.deep_view(),
                rest.deep_view(),
                attempt,
                waited_ms,
            ),
    {
        if again.len() == 0 {
            if rest.len() == 0 {
                Step::Accepted { people }
            } else {
                self.send(partition_key, people, rest, waited_ms)
            }
        } else {
            match self.retry.next_pause(attempt, waited_ms) {
                None => Step::Failed { error: ServiceError::Store },
                Some(delay_ms) => {
                    let rows = duplicate_all(&again);
                    Step::Write {
                        partition_key: partition_key.clone(),
                        rows,
                        delay_ms,
                        resume: Operation::Creating {
                            partition_key,
                            people,
                            batch: again,
                            rest,
                            attempt: attempt + 1,
                            waited_ms: waited_ms + delay_ms,
                        },
                    }
                },
            }
        }
    }

    /// Names the failure that a reply means.
    fn failure(event: &StoreEvent) -> (error: ServiceError)
        ensures
            error == ServiceView::failure(event.deep_view()),
    {
        match event {
            StoreEvent::TimedOut => ServiceError::Timeout,
            StoreEvent::Canceled => ServiceError::Canceled,
            _ => ServiceError::Store,
        }
    }

    /// Takes the store's reply to the request of an operation and says what to
    /// do next.
    ///
    /// After a write, the rows that the store did not take are written again,
    /// as far as the retry policy allows; a store that cannot be reached has
    /// taken none. After the query of a read, the rows are decoded. After the
    /// query of an update, a household without rows fails the update with
    /// `NotFound`, and people who are not the members of the household that is
    /// updated fail it with a validation error; either way nothing is written.
    pub fn resume(&self, operation: Operation, event: StoreEvent) -> (step: Step)
        ensures
            step.deep_view() == self@.resume(operation.deep_view(), event.deep_view()),
            operation is Updating && (event matches StoreEvent::Rows { rows } && rows.len() == 0)
                ==> step.deep_view() == (StepView::Failed { error: ServiceError::NotFound }),
            operation is Reading && (event matches StoreEvent::Rows { rows } && rows.len() == 0)
                ==> step.deep_view() == (StepView::Found { household: None }),
            operation is Updating && event is Rows && event->rows.len() > 0 && decoded_all(
                event->rows.deep_view(),
            ) is Ok ==> step.deep_view() == self@.write_under(
                operation->Updating_household_id.text(),
                operation->Updating_household_id,
                operation->Updating_people.deep_view(),
            ),
            operation is Updating && household_fault(
                operation->Updating_household_id,
                operation->Updating_people.deep_view(),
            ) is Some ==> !step.deep_view().calls_store(),
            event is TimedOut ==> step.deep_view() == (StepView::Failed {
                error: ServiceError::Timeout,
            }),
            event is Canceled ==> step.deep_view() == (StepView::Failed {
                error: ServiceError::Canceled,
            }),
    {
        match operation {
            Operation::Creating { partition_key, people, batch, rest, attempt, waited_ms } => {
                match event {
                    StoreEvent::Written { unaccepted } => {
                        let again = retain_unaccepted(&batch, &unaccepted);
                        self.after_batch(partition_key, people, again, rest, attempt, waited_ms)
                    },
                    StoreEvent::Unavailable => {
                        self.after_batch(partition_key, people, batch, rest, attempt, waited_ms)
                    },
                    other => Step::Failed { error: Self::failure(&other) },
                }
            },
            Operation::Reading { household_id } => {
                match event {
                    StoreEvent::Rows { rows } => {
                        if rows.len() == 0 {
                            Step::Found { household: None }
                        } else {
                            match decode_all(&rows) {
                                Ok(people) => Step::Found { household: Some(people) },
                                Err(error) => Step::Failed { error: ServiceError::Decode(error) },
                            }
                        }
                    },
                    other => Step::Failed { error: Self::failure(&other) },
                }
            },
            Operation::Updating { household_id, people } => {
                match event {
                    StoreEvent::Rows { rows } => {
                        if rows.len() == 0 {
                            Step::Failed { error: ServiceError::NotFound }
                        } else {
                            match decode_all(&rows) {
                                Ok(_) => {
                                    let partition_key = household_id.to_text();
                                    self.write_under(partition_key, household_id, people)
                                },
                                Err(error) => Step::Failed { error: ServiceError::Decode(error) },
                            }
                        }
                    },
                    other => Step::Failed { error: Self::failure(&other) },
                }
            },
        }
    }
}

} // verus!
