use rsvp_households::record::encode_all;
use rsvp_households::service::retain_unaccepted;
use rsvp_households::{
    ConfigError, Contact, DecodeError, DietaryRestrictions, DishPreference, HouseholdId,
    HouseholdRecord, HouseholdService, Operation, Person, RetryPolicy, ServiceConfig,
    ServiceError, Step, StoreEvent, StoreFailure, ValidationError,
};
use uuid::Uuid;

/// A store in memory. It takes every row, but those whose names it was told to
/// refuse, and lists a partition in the order of the names.
struct FakeStore {
    rows: Vec<HouseholdRecord>,
    refuse_once: Vec<String>,
    refuse_always: Vec<String>,
    unavailable_times: usize,
    batches: Vec<Vec<HouseholdRecord>>,
    delays: Vec<u64>,
    keys: Vec<String>,
    queries: usize,
}

impl FakeStore {
    fn new() -> FakeStore {
        FakeStore {
            rows: Vec::new(),
            refuse_once: Vec::new(),
            refuse_always: Vec::new(),
            unavailable_times: 0,
            batches: Vec::new(),
            delays: Vec::new(),
            keys: Vec::new(),
            queries: 0,
        }
    }

    fn write(&mut self, partition_key: &str, rows: Vec<HouseholdRecord>, delay_ms: u64)
        -> StoreEvent {
        self.batches.push(rows.clone());
        self.delays.push(delay_ms);
        self.keys.push(partition_key.to_string());
        if self.unavailable_times > 0 {
            self.unavailable_times -= 1;
            return StoreEvent::Unavailable;
        }
        let mut unaccepted = Vec::new();
        for row in rows {
            let name = row.name.clone().unwrap();
            if self.refuse_always.contains(&name) {
                unaccepted.push(row);
            } else if let Some(at) = self.refuse_once.iter().position(|n| *n == name) {
                self.refuse_once.remove(at);
                unaccepted.push(row);
            } else {
                self.rows.retain(|old| !old.same_key(&row));
                self.rows.push(row);
            }
        }
        StoreEvent::Written { unaccepted }
    }

    fn query(&mut self, partition_key: &str) -> StoreEvent {
        self.queries += 1;
        self.keys.push(partition_key.to_string());
        let mut rows: Vec<HouseholdRecord> = self
            .rows
            .iter()
            .filter(|row| match row.household_id {
                Some(id) => id.to_text() == partition_key,
                None => false,
            })
            .cloned()
            .collect();
        rows.sort_by(|a, b| a.name.cmp(&b.name));
        StoreEvent::Rows { rows }
    }
}

fn run(service: &HouseholdService, store: &mut FakeStore, first: Step) -> Step {
    let mut step = first;
    for _ in 0..1000 {
        step = match step {
            Step::Write { partition_key, rows, delay_ms, resume } => {
                let event = store.write(&partition_key, rows, delay_ms);
                service.resume(resume, event)
            }
            Step::Query { partition_key, resume } => {
                let event = store.query(&partition_key);
                service.resume(resume, event)
            }
            done => return done,
        };
    }
    panic!("the operation does not end");
}

fn create(service: &HouseholdService, store: &mut FakeStore, people: Vec<Person>)
    -> Result<Vec<Person>, ServiceError> {
    match run(service, store, service.create(people)) {
        Step::Accepted { people } => Ok(people),
        Step::Failed { error } => Err(error),
        other => panic!("a create ended with {:?}", other),
    }
}

fn read(service: &HouseholdService, store: &mut FakeStore, household_id: HouseholdId)
    -> Result<Option<Vec<Person>>, ServiceError> {
    match run(service, store, service.read(household_id)) {
        Step::Found { household } => Ok(household),
        Step::Failed { error } => Err(error),
        other => panic!("a read ended with {:?}", other),
    }
}

fn update(
    service: &HouseholdService,
    store: &mut FakeStore,
    household_id: HouseholdId,
    people: Vec<Person>,
) -> Result<Vec<Person>, ServiceError> {
    match run(service, store, service.update(household_id, people)) {
        Step::Accepted { people } => Ok(people),
        Step::Failed { error } => Err(error),
        other => panic!("an update ended with {:?}", other),
    }
}

fn policy() -> RetryPolicy {
    RetryPolicy { max_attempts: 4, base_delay_ms: 50, max_delay_ms: 1000, max_total_delay_ms: 5000 }
}

fn service_with(max_batch_size: usize, retry: RetryPolicy) -> HouseholdService {
    HouseholdService::new(ServiceConfig {
        table_name: "rsvp_table".to_string(),
        max_batch_size,
        retry,
    })
    .unwrap()
}

fn service() -> HouseholdService {
    service_with(25, policy())
}

fn new_id() -> HouseholdId {
    HouseholdId::from_u128(Uuid::new_v4().as_u128())
}

fn person(household_id: HouseholdId, name: &str) -> Person {
    Person {
        household_id,
        name: name.to_string(),
        contact: Contact::Email { value: format!("{}@example.com", name) },
        rsvp: None,
        dietary_restrictions: None,
        dish_preference: None,
    }
}

fn sorted(mut people: Vec<Person>) -> Vec<Person> {
    people.sort_by(|a, b| a.name.cmp(&b.name));
    people
}

fn names(rows: &Vec<HouseholdRecord>) -> Vec<String> {
    rows.iter().map(|row| row.name.clone().unwrap()).collect()
}

#[test]
fn it_should_create_a_household() {
    let service = service();
    let mut store = FakeStore::new();
    let household_id = new_id();
    let people = vec![
        Person {
            household_id,
            name: "John".to_string(),
            contact: Contact::Email {
                value: "hello@example.com".to_string(),
            },
            rsvp: None,
            dietary_restrictions: None,
            dish_preference: None,
        },
        Person {
            household_id,
            name: "Sally".to_string(),
            contact: Contact::SMS {
                value: "5555555555".to_string(),
            },
            rsvp: None,
            dietary_restrictions: None,
            dish_preference: None,
        },
    ];

    let guests = create(&service, &mut store, people).unwrap();
    assert_eq!(guests.len(), 2 as usize);
}

#[test]
fn it_should_get_a_household() {
    let mut store = FakeStore::new();
    let household_id = new_id();
    let people = vec![
        Person {
            household_id,
            name: "John".to_string(),
            contact: Contact::Email {
                value: "hello@example.com".to_string(),
            },
            rsvp: None,
            dietary_restrictions: None,
            dish_preference: None,
        },
        Person {
            household_id,
            name: "Sally".to_string(),
            contact: Contact::SMS {
                value: "5555555555".to_string(),
            },
            rsvp: None,
            dietary_restrictions: None,
            dish_preference: None,
        },
    ];
    create(&service(), &mut store, people).unwrap();

    match read(&service(), &mut store, household_id).unwrap() {
        Some(guests) => assert_eq!(guests.len(), 2 as usize),
        None => assert!(false),
    }
}

#[test]
fn it_should_not_get_a_household() {
    let mut store = FakeStore::new();
    match read(&service(), &mut store, new_id()).unwrap() {
        Some(_household) => assert!(false),
        None => assert!(true),
    }
}

#[test]
fn it_should_update_a_household() {
    let mut store = FakeStore::new();
    let household_id = new_id();
    let people = vec![
        Person {
            household_id,
            name: "John".to_string(),
            contact: Contact::Email {
                value: "hello@example.com".to_string(),
            },
            rsvp: None,
            dietary_restrictions: None,
            dish_preference: None,
        },
        Person {
            household_id,
            name: "Sally".to_string(),
            contact: Contact::SMS {
                value: "5555555555".to_string(),
            },
            rsvp: None,
            dietary_restrictions: None,
            dish_preference: None,
        },
    ];

    let new_people = vec![
        Person {
            household_id,
            name: "John".to_string(),
            contact: Contact::Email {
                value: "hello@example.com".to_string(),
            },
            rsvp: Some(true),
            dietary_restrictions: None,
            dish_preference: None,
        },
        Person {
            household_id,
            name: "Sally".to_string(),
            contact: Contact::SMS {
                value: "5555555555".to_string(),
            },
            rsvp: Some(true),
            dietary_restrictions: None,
            dish_preference: None,
        },
    ];

    create(&service(), &mut store, people).unwrap();
    update(&service(), &mut store, household_id, new_people).unwrap();
}

#[test]
fn household_is_created_read_and_updated() {
    let service = service();
    let mut store = FakeStore::new();
    let h1 = new_id();
    let john = Person {
        household_id: h1,
        name: "John".to_string(),
        contact: Contact::Email { value: "hello@example.com".to_string() },
        rsvp: None,
        dietary_restrictions: None,
        dish_preference: None,
    };
    let sally = Person {
        household_id: h1,
        name: "Sally".to_string(),
        contact: Contact::SMS { value: "5555555555".to_string() },
        rsvp: None,
        dietary_restrictions: None,
        dish_preference: None,
    };
    let accepted = create(&service, &mut store, vec![john.duplicate(), sally.duplicate()]);
    assert_eq!(accepted, Ok(vec![john.duplicate(), sally.duplicate()]));
    assert_eq!(
        read(&service, &mut store, h1),
        Ok(Some(vec![john.duplicate(), sally.duplicate()]))
    );

    let mut john_yes = john.duplicate();
    john_yes.rsvp = Some(true);
    john_yes.dish_preference = Some(DishPreference::Chicken);
    let mut sally_yes = sally.duplicate();
    sally_yes.rsvp = Some(true);
    sally_yes.dish_preference = Some(DishPreference::Steak);
    let accepted =
        update(&service, &mut store, h1, vec![john_yes.duplicate(), sally_yes.duplicate()]);
    assert_eq!(accepted, Ok(vec![john_yes.duplicate(), sally_yes.duplicate()]));
    let found = read(&service, &mut store, h1).unwrap().unwrap();
    assert_eq!(found, vec![john_yes, sally_yes]);
    assert_eq!(found[0].rsvp, Some(true));
    assert_eq!(found[0].dish_preference, Some(DishPreference::Chicken));
    assert_eq!(found[1].rsvp, Some(true));
    assert_eq!(found[1].dish_preference, Some(DishPreference::Steak));
}

#[test]
fn unused_identifier_reads_none() {
    let service = service();
    let mut store = FakeStore::new();
    create(&service, &mut store, vec![person(new_id(), "Ada")]).unwrap();
    assert_eq!(read(&service, &mut store, new_id()), Ok(None));
    assert_eq!(store.queries, 1);
}

#[test]
fn create_of_nobody_fails_without_asking_the_store() {
    let service = service();
    let step = service.create(Vec::new());
    assert_eq!(
        step,
        Step::Failed { error: ServiceError::Validation(ValidationError::EmptyHousehold) }
    );
    let mut store = FakeStore::new();
    assert_eq!(
        create(&service, &mut store, Vec::new()),
        Err(ServiceError::Validation(ValidationError::EmptyHousehold))
    );
    assert!(store.batches.is_empty());
    assert_eq!(store.queries, 0);
}

#[test]
fn create_refuses_people_of_two_households() {
    let service = service();
    let mut store = FakeStore::new();
    let people = vec![person(new_id(), "Ada"), person(new_id(), "Bob")];
    assert_eq!(
        create(&service, &mut store, people),
        Err(ServiceError::Validation(ValidationError::HouseholdMismatch))
    );
    assert!(store.batches.is_empty());
}

#[test]
fn create_refuses_an_invalid_member() {
    let service = service();
    let mut store = FakeStore::new();
    let id = new_id();
    assert_eq!(
        create(&service, &mut store, vec![person(id, "Ada"), person(id, "")]),
        Err(ServiceError::Validation(ValidationError::EmptyName))
    );
    let mut silent = person(id, "Bob");
    silent.contact = Contact::SMS { value: String::new() };
    assert_eq!(
        create(&service, &mut store, vec![silent, person(id, "Ada")]),
        Err(ServiceError::Validation(ValidationError::EmptyContact))
    );
    assert!(store.batches.is_empty());
}

#[test]
fn create_first_writes_the_first_batch() {
    let service = service_with(2, policy());
    let id = HouseholdId::from_u128(0xa1a2a3a4b1b2c1c2d1d2d3d4d5d6d7d8u128);
    let people = vec![person(id, "Ada"), person(id, "Bob"), person(id, "Cy")];
    let rows = encode_all(&people);
    let step = service.create(people.clone());
    assert_eq!(
        step,
        Step::Write {
            partition_key: "a1a2a3a4-b1b2-c1c2-d1d2-d3d4d5d6d7d8".to_string(),
            rows: vec![rows[0].duplicate(), rows[1].duplicate()],
            delay_ms: 0,
            resume: Operation::Creating {
                partition_key: "a1a2a3a4-b1b2-c1c2-d1d2-d3d4d5d6d7d8".to_string(),
                people,
                batch: vec![rows[0].duplicate(), rows[1].duplicate()],
                rest: vec![rows[2].duplicate()],
                attempt: 1,
                waited_ms: 0,
            },
        }
    );
}

#[test]
fn create_under_a_key_writes_to_that_partition() {
    let service = service_with(1, policy());
    let id = new_id();
    let people = vec![person(id, "Ada"), person(id, "Bob")];
    let rows = encode_all(&people);
    assert_eq!(
        service.create_under("H1".to_string(), people.clone()),
        Step::Write {
            partition_key: "H1".to_string(),
            rows: vec![rows[0].duplicate()],
            delay_ms: 0,
            resume: Operation::Creating {
                partition_key: "H1".to_string(),
                people,
                batch: vec![rows[0].duplicate()],
                rest: vec![rows[1].duplicate()],
                attempt: 1,
                waited_ms: 0,
            },
        }
    );
    assert_eq!(
        service.create_under("H1".to_string(), Vec::new()),
        Step::Failed { error: ServiceError::Validation(ValidationError::EmptyHousehold) }
    );
    assert_eq!(
        service.create_under("H1".to_string(), vec![person(id, "Ada"), person(new_id(), "Bob")]),
        Step::Failed { error: ServiceError::Validation(ValidationError::HouseholdMismatch) }
    );
}

#[test]
fn read_first_asks_for_the_partition() {
    let id = HouseholdId::from_u128(0xa1a2a3a4b1b2c1c2d1d2d3d4d5d6d7d8u128);
    assert_eq!(
        service().read(id),
        Step::Query {
            partition_key: "a1a2a3a4-b1b2-c1c2-d1d2-d3d4d5d6d7d8".to_string(),
            resume: Operation::Reading { household_id: id },
        }
    );
}

#[test]
fn update_first_asks_for_the_partition() {
    let id = HouseholdId::from_u128(0xa1a2a3a4b1b2c1c2d1d2d3d4d5d6d7d8u128);
    assert_eq!(
        service().update(id, vec![person(id, "Ada")]),
        Step::Query {
            partition_key: "a1a2a3a4-b1b2-c1c2-d1d2-d3d4d5d6d7d8".to_string(),
            resume: Operation::Updating { household_id: id, people: vec![person(id, "Ada")] },
        }
    );
}

#[test]
fn created_household_is_read_back() {
    let service = service_with(3, policy());
    let mut store = FakeStore::new();
    let id = new_id();
    let mut people = Vec::new();
    for name in ["Zed", "Ada", "Moe", "Bob", "Cy", "Eve", "Dan"] {
        people.push(person(id, name));
    }
    people[1].rsvp = Some(true);
    people[1].dietary_restrictions = Some(DietaryRestrictions::Vegetarian);
    people[1].dish_preference = Some(DishPreference::Pancakes);
    people[2].rsvp = Some(false);
    let accepted = create(&service, &mut store, people.clone()).unwrap();
    assert_eq!(accepted, people);
    let found = read(&service, &mut store, id).unwrap().unwrap();
    assert_eq!(found, sorted(people));
}

#[test]
fn write_is_split_into_batches() {
    let service = service_with(2, policy());
    let mut store = FakeStore::new();
    let id = new_id();
    let people: Vec<Person> =
        ["Ada", "Bob", "Cy", "Dan", "Eve"].iter().map(|name| person(id, name)).collect();
    assert_eq!(create(&service, &mut store, people.clone()), Ok(people));
    let sent: Vec<Vec<String>> = store.batches.iter().map(names).collect();
    assert_eq!(sent, vec![vec!["Ada", "Bob"], vec!["Cy", "Dan"], vec!["Eve"]]);
    assert_eq!(store.delays, vec![0, 0, 0]);
    assert_eq!(store.keys, vec![id.to_text(), id.to_text(), id.to_text()]);
}

#[test]
fn batch_of_exactly_the_limit_is_one_write() {
    let service = service_with(3, policy());
    let mut store = FakeStore::new();
    let id = new_id();
    let people: Vec<Person> = ["Ada", "Bob", "Cy"].iter().map(|name| person(id, name)).collect();
    assert_eq!(create(&service, &mut store, people.clone()), Ok(people));
    assert_eq!(store.batches.len(), 1);
}

#[test]
fn row_refused_once_is_written_again() {
    let service = service();
    let mut store = FakeStore::new();
    store.refuse_once.push("Bob".to_string());
    let id = new_id();
    let people: Vec<Person> = ["Ada", "Bob", "Cy"].iter().map(|name| person(id, name)).collect();
    assert_eq!(create(&service, &mut store, people.clone()), Ok(people.clone()));
    let sent: Vec<Vec<String>> = store.batches.iter().map(names).collect();
    assert_eq!(sent, vec![vec!["Ada", "Bob", "Cy"], vec!["Bob"]]);
    assert_eq!(store.delays, vec![0, 50]);
    assert_eq!(read(&service, &mut store, id), Ok(Some(people)));
}

#[test]
fn pauses_grow_until_the_attempts_are_used_up() {
    let service = service_with(2, policy());
    let mut store = FakeStore::new();
    store.refuse_always.push("Cy".to_string());
    let id = new_id();
    let people: Vec<Person> =
        ["Ada", "Bob", "Cy", "Dan", "Eve"].iter().map(|name| person(id, name)).collect();
    assert_eq!(create(&service, &mut store, people), Err(ServiceError::Store));
    let sent: Vec<Vec<String>> = store.batches.iter().map(names).collect();
    assert_eq!(
        sent,
        vec![vec!["Ada", "Bob"], vec!["Cy", "Dan"], vec!["Cy"], vec!["Cy"], vec!["Cy"]]
    );
    assert_eq!(store.delays, vec![0, 0, 50, 100, 200]);
    // What was written before the failure stays.
    let found = read(&service, &mut store, id).unwrap().unwrap();
    let found: Vec<String> = found.iter().map(|p| p.name.clone()).collect();
    assert_eq!(found, vec!["Ada", "Bob", "Dan"]);
}

#[test]
fn attempts_start_anew_with_each_batch() {
    let retry = RetryPolicy {
        max_attempts: 2,
        base_delay_ms: 10,
        max_delay_ms: 1000,
        max_total_delay_ms: 5000,
    };
    let service = service_with(1, retry);
    let mut store = FakeStore::new();
    store.refuse_once = vec!["Ada".to_string(), "Bob".to_string(), "Cy".to_string()];
    let id = new_id();
    let people: Vec<Person> = ["Ada", "Bob", "Cy"].iter().map(|name| person(id, name)).collect();
    assert_eq!(create(&service, &mut store, people.clone()), Ok(people));
    assert_eq!(store.delays, vec![0, 10, 0, 10, 0, 10]);
}

#[test]
fn pauses_of_one_create_are_capped_in_all() {
    let retry = RetryPolicy {
        max_attempts: 10,
        base_delay_ms: 100,
        max_delay_ms: 1000,
        max_total_delay_ms: 350,
    };
    let service = service_with(25, retry);
    let mut store = FakeStore::new();
    store.refuse_always.push("Ada".to_string());
    let id = new_id();
    assert_eq!(create(&service, &mut store, vec![person(id, "Ada")]), Err(ServiceError::Store));
    assert_eq!(store.delays, vec![0, 100, 200]);
}

#[test]
fn single_attempt_means_no_retry() {
    let retry =
        RetryPolicy { max_attempts: 1, base_delay_ms: 0, max_delay_ms: 0, max_total_delay_ms: 0 };
    let service = service_with(25, retry);
    let mut store = FakeStore::new();
    store.refuse_once.push("Ada".to_string());
    let id = new_id();
    assert_eq!(create(&service, &mut store, vec![person(id, "Ada")]), Err(ServiceError::Store));
    assert_eq!(store.batches.len(), 1);
}

#[test]
fn unavailable_store_is_asked_again_for_the_whole_batch() {
    let service = service();
    let mut store = FakeStore::new();
    store.unavailable_times = 2;
    let id = new_id();
    let people: Vec<Person> = ["Ada", "Bob"].iter().map(|name| person(id, name)).collect();
    assert_eq!(create(&service, &mut store, people.clone()), Ok(people.clone()));
    let sent: Vec<Vec<String>> = store.batches.iter().map(names).collect();
    assert_eq!(sent, vec![vec!["Ada", "Bob"], vec!["Ada", "Bob"], vec!["Ada", "Bob"]]);
    assert_eq!(store.delays, vec![0, 50, 100]);
    assert_eq!(read(&service, &mut store, id), Ok(Some(people)));
}

#[test]
fn store_that_stays_unavailable_fails_the_create() {
    let service = service();
    let mut store = FakeStore::new();
    store.unavailable_times = 100;
    let id = new_id();
    assert_eq!(create(&service, &mut store, vec![person(id, "Ada")]), Err(ServiceError::Store));
    assert_eq!(store.delays, vec![0, 50, 100, 200]);
}

fn creating(id: HouseholdId) -> Operation {
    match service().create(vec![person(id, "Ada"), person(id, "Bob")]) {
        Step::Write { resume, .. } => resume,
        other => panic!("a create began with {:?}", other),
    }
}

#[test]
fn failures_of_the_store_end_a_create() {
    let service = service();
    let id = new_id();
    assert_eq!(
        service.resume(creating(id), StoreEvent::Refused),
        Step::Failed { error: ServiceError::Store }
    );
    assert_eq!(
        service.resume(creating(id), StoreEvent::TimedOut),
        Step::Failed { error: ServiceError::Timeout }
    );
    assert_eq!(
        service.resume(creating(id), StoreEvent::Canceled),
        Step::Failed { error: ServiceError::Canceled }
    );
    assert_eq!(
        service.resume(creating(id), StoreEvent::Rows { rows: Vec::new() }),
        Step::Failed { error: ServiceError::Store }
    );
}

#[test]
fn failures_of_the_store_end_a_read() {
    let service = service();
    let id = new_id();
    let reading = Operation::Reading { household_id: id };
    assert_eq!(
        service.resume(reading.clone(), StoreEvent::Unavailable),
        Step::Failed { error: ServiceError::Store }
    );
    assert_eq!(
        service.resume(reading.clone(), StoreEvent::Refused),
        Step::Failed { error: ServiceError::Store }
    );
    assert_eq!(
        service.resume(reading.clone(), StoreEvent::TimedOut),
        Step::Failed { error: ServiceError::Timeout }
    );
    assert_eq!(
        service.resume(reading.clone(), StoreEvent::Canceled),
        Step::Failed { error: ServiceError::Canceled }
    );
    assert_eq!(
        service.resume(reading, StoreEvent::Written { unaccepted: Vec::new() }),
        Step::Failed { error: ServiceError::Store }
    );
}

#[test]
fn failures_of_the_store_end_an_update() {
    let service = service();
    let id = new_id();
    let updating = Operation::Updating { household_id: id, people: vec![person(id, "Ada")] };
    assert_eq!(
        service.resume(updating.clone(), StoreEvent::Unavailable),
        Step::Failed { error: ServiceError::Store }
    );
    assert_eq!(
        service.resume(updating.clone(), StoreEvent::Refused),
        Step::Failed { error: ServiceError::Store }
    );
    assert_eq!(
        service.resume(updating.clone(), StoreEvent::TimedOut),
        Step::Failed { error: ServiceError::Timeout }
    );
    assert_eq!(
        service.resume(updating.clone(), StoreEvent::Canceled),
        Step::Failed { error: ServiceError::Canceled }
    );
    assert_eq!(
        service.resume(updating, StoreEvent::Written { unaccepted: Vec::new() }),
        Step::Failed { error: ServiceError::Store }
    );
}

#[test]
fn read_fails_on_one_bad_row() {
    let service = service();
    let mut store = FakeStore::new();
    let id = new_id();
    create(&service, &mut store, vec![person(id, "Ada"), person(id, "Bob")]).unwrap();
    let mut bad = HouseholdRecord::encode(&person(id, "Cy"));
    bad.contact_kind = Some("Pigeon".to_string());
    store.rows.push(bad);
    assert_eq!(
        read(&service, &mut store, id),
        Err(ServiceError::Decode(DecodeError::UnknownContact))
    );
}

#[test]
fn update_of_unknown_household_fails_and_writes_nothing() {
    let service = service();
    let mut store = FakeStore::new();
    let other = new_id();
    create(&service, &mut store, vec![person(other, "Ada")]).unwrap();
    let writes = store.batches.len();
    let id = new_id();
    assert_eq!(
        update(&service, &mut store, id, vec![person(id, "Bob")]),
        Err(ServiceError::NotFound)
    );
    assert_eq!(store.batches.len(), writes);
    assert_eq!(store.queries, 1);
    assert_eq!(read(&service, &mut store, id), Ok(None));
}

#[test]
fn update_of_unknown_household_comes_before_validation() {
    let service = service();
    let mut store = FakeStore::new();
    let id = new_id();
    assert_eq!(update(&service, &mut store, id, Vec::new()), Err(ServiceError::NotFound));
    create(&service, &mut store, vec![person(id, "Ada")]).unwrap();
    assert_eq!(
        update(&service, &mut store, id, Vec::new()),
        Err(ServiceError::Validation(ValidationError::EmptyHousehold))
    );
    assert_eq!(store.batches.len(), 1);
}

#[test]
fn update_fails_where_the_household_cannot_be_read() {
    let service = service();
    let mut store = FakeStore::new();
    let id = new_id();
    let mut bad = HouseholdRecord::encode(&person(id, "Cy"));
    bad.dish_preference = Some("Salmon".to_string());
    store.rows.push(bad);
    assert_eq!(
        update(&service, &mut store, id, vec![person(id, "Ada")]),
        Err(ServiceError::Decode(DecodeError::UnknownDishPreference))
    );
    assert!(store.batches.is_empty());
}

#[test]
fn update_changes_what_is_read() {
    let service = service();
    let mut store = FakeStore::new();
    let id = new_id();
    let before = vec![person(id, "Ada"), person(id, "Bob")];
    create(&service, &mut store, before.clone()).unwrap();
    let mut ada = person(id, "Ada");
    ada.rsvp = Some(true);
    ada.dietary_restrictions = Some(DietaryRestrictions::Vegan);
    let mut bob = person(id, "Bob");
    bob.rsvp = Some(false);
    let after = vec![ada, bob];
    assert_eq!(update(&service, &mut store, id, after.clone()), Ok(after.clone()));
    let found = read(&service, &mut store, id).unwrap().unwrap();
    assert_eq!(found, after);
    assert_ne!(found, before);
}

#[test]
fn update_leaves_the_members_it_does_not_name() {
    let service = service();
    let mut store = FakeStore::new();
    let id = new_id();
    create(&service, &mut store, vec![person(id, "Ada"), person(id, "Bob")]).unwrap();
    let mut ada = person(id, "Ada");
    ada.rsvp = Some(true);
    let cy = person(id, "Cy");
    update(&service, &mut store, id, vec![ada.duplicate(), cy.duplicate()]).unwrap();
    assert_eq!(read(&service, &mut store, id), Ok(Some(vec![ada, person(id, "Bob"), cy])));
}

#[test]
fn update_refuses_people_of_another_household() {
    let service = service();
    let mut store = FakeStore::new();
    let id = new_id();
    let other = new_id();
    create(&service, &mut store, vec![person(id, "Ada")]).unwrap();
    let writes = store.batches.len();
    assert_eq!(
        update(&service, &mut store, id, vec![person(other, "Bob")]),
        Err(ServiceError::Validation(ValidationError::HouseholdMismatch))
    );
    assert_eq!(
        update(&service, &mut store, id, vec![person(id, "Ada"), person(other, "Bob")]),
        Err(ServiceError::Validation(ValidationError::HouseholdMismatch))
    );
    assert_eq!(store.batches.len(), writes);
    assert_eq!(read(&service, &mut store, id), Ok(Some(vec![person(id, "Ada")])));
    assert_eq!(read(&service, &mut store, other), Ok(None));
}

#[test]
fn update_refuses_an_invalid_member() {
    let service = service();
    let mut store = FakeStore::new();
    let id = new_id();
    create(&service, &mut store, vec![person(id, "Ada")]).unwrap();
    let writes = store.batches.len();
    assert_eq!(
        update(&service, &mut store, id, vec![person(id, "Ada"), person(id, "")]),
        Err(ServiceError::Validation(ValidationError::EmptyName))
    );
    let mut silent = person(id, "Bob");
    silent.contact = Contact::SMS { value: String::new() };
    assert_eq!(
        update(&service, &mut store, id, vec![silent]),
        Err(ServiceError::Validation(ValidationError::EmptyContact))
    );
    assert_eq!(store.batches.len(), writes);
}

#[test]
fn update_step_after_the_rows_is_the_first_write() {
    let service = service_with(1, policy());
    let id = new_id();
    let people = vec![person(id, "Ada"), person(id, "Bob")];
    let rows = encode_all(&people);
    let found = vec![HouseholdRecord::encode(&person(id, "Zed"))];
    let updating = Operation::Updating { household_id: id, people: people.clone() };
    assert_eq!(
        service.resume(updating, StoreEvent::Rows { rows: found.clone() }),
        Step::Write {
            partition_key: id.to_text(),
            rows: vec![rows[0].duplicate()],
            delay_ms: 0,
            resume: Operation::Creating {
                partition_key: id.to_text(),
                people,
                batch: vec![rows[0].duplicate()],
                rest: vec![rows[1].duplicate()],
                attempt: 1,
                waited_ms: 0,
            },
        }
    );
    let stranger = Operation::Updating { household_id: id, people: vec![person(new_id(), "Ada")] };
    assert_eq!(
        service.resume(stranger, StoreEvent::Rows { rows: found }),
        Step::Failed { error: ServiceError::Validation(ValidationError::HouseholdMismatch) }
    );
}

#[test]
fn write_under_a_key_checks_the_members_of_the_household() {
    let service = service_with(25, policy());
    let id = new_id();
    let people = vec![person(id, "Ada"), person(id, "Bob")];
    let rows = encode_all(&people);
    assert_eq!(
        service.write_under("H1".to_string(), id, people.clone()),
        Step::Write {
            partition_key: "H1".to_string(),
            rows: rows.clone(),
            delay_ms: 0,
            resume: Operation::Creating {
                partition_key: "H1".to_string(),
                people: people.clone(),
                batch: rows,
                rest: Vec::new(),
                attempt: 1,
                waited_ms: 0,
            },
        }
    );
    assert_eq!(
        service.write_under("H1".to_string(), new_id(), people),
        Step::Failed { error: ServiceError::Validation(ValidationError::HouseholdMismatch) }
    );
    assert_eq!(
        service.write_under("H1".to_string(), id, Vec::new()),
        Step::Failed { error: ServiceError::Validation(ValidationError::EmptyHousehold) }
    );
    assert_eq!(
        service.write_under("H1".to_string(), id, vec![person(id, "")]),
        Step::Failed { error: ServiceError::Validation(ValidationError::EmptyName) }
    );
}

#[test]
fn rows_to_write_again_are_those_of_the_batch_that_are_reported() {
    let id = new_id();
    let batch = encode_all(&vec![person(id, "Ada"), person(id, "Bob"), person(id, "Cy")]);
    let mut changed_bob = HouseholdRecord::encode(&person(id, "Bob"));
    changed_bob.rsvp = Some(true);
    let unaccepted = vec![
        HouseholdRecord::encode(&person(id, "Cy")),
        HouseholdRecord::encode(&person(id, "Zed")),
        changed_bob,
        HouseholdRecord::encode(&person(new_id(), "Ada")),
    ];
    assert_eq!(
        retain_unaccepted(&batch, &unaccepted),
        vec![batch[1].duplicate(), batch[2].duplicate()]
    );
    assert_eq!(retain_unaccepted(&batch, &Vec::new()), Vec::new());
    assert_eq!(retain_unaccepted(&Vec::new(), &unaccepted), Vec::new());
    assert_eq!(retain_unaccepted(&batch, &batch), batch);
}

#[test]
fn reported_row_that_was_not_sent_is_not_written() {
    let service = service();
    let id = new_id();
    let stray = HouseholdRecord::encode(&person(id, "Zed"));
    let people = vec![person(id, "Ada"), person(id, "Bob")];
    assert_eq!(
        service.resume(creating(id), StoreEvent::Written { unaccepted: vec![stray] }),
        Step::Accepted { people }
    );
}

#[test]
fn retry_carries_the_attempt_and_the_time_waited() {
    let service = service();
    let id = new_id();
    let people = vec![person(id, "Ada"), person(id, "Bob")];
    let rows = encode_all(&people);
    let step = service
        .resume(creating(id), StoreEvent::Written { unaccepted: vec![rows[1].duplicate()] });
    assert_eq!(
        step,
        Step::Write {
            partition_key: id.to_text(),
            rows: vec![rows[1].duplicate()],
            delay_ms: 50,
            resume: Operation::Creating {
                partition_key: id.to_text(),
                people: people.clone(),
                batch: vec![rows[1].duplicate()],
                rest: Vec::new(),
                attempt: 2,
                waited_ms: 50,
            },
        }
    );
    let resume = match step {
        Step::Write { resume, .. } => resume,
        other => panic!("the create ended with {:?}", other),
    };
    let step = service.resume(resume, StoreEvent::Unavailable);
    assert_eq!(
        step,
        Step::Write {
            partition_key: id.to_text(),
            rows: vec![rows[1].duplicate()],
            delay_ms: 100,
            resume: Operation::Creating {
                partition_key: id.to_text(),
                people,
                batch: vec![rows[1].duplicate()],
                rest: Vec::new(),
                attempt: 3,
                waited_ms: 150,
            },
        }
    );
}

#[test]
fn service_needs_workable_options() {
    let config = ServiceConfig {
        table_name: "rsvp_table".to_string(),
        max_batch_size: 25,
        retry: policy(),
    };
    let service = HouseholdService::new(config.clone()).unwrap();
    assert_eq!(service.table_name(), "rsvp_table");
    assert_eq!(service.max_batch_size(), 25);
    assert_eq!(service.retry_policy(), policy());

    let mut nameless = config.clone();
    nameless.table_name = String::new();
    nameless.max_batch_size = 0;
    assert_eq!(HouseholdService::new(nameless).err(), Some(ConfigError::EmptyTableName));
    let mut no_rows = config.clone();
    no_rows.max_batch_size = 0;
    no_rows.retry.max_attempts = 0;
    assert_eq!(HouseholdService::new(no_rows).err(), Some(ConfigError::ZeroBatchSize));
    let mut no_attempts = config;
    no_attempts.retry.max_attempts = 0;
    assert_eq!(HouseholdService::new(no_attempts).err(), Some(ConfigError::ZeroAttempts));
}

#[test]
fn failures_that_pass_are_told_apart_from_those_that_stay() {
    let passing = [
        StoreFailure::Dispatch,
        StoreFailure::InternalServerError,
        StoreFailure::ProvisionedThroughputExceeded,
        StoreFailure::RequestLimitExceeded,
    ];
    for failure in passing {
        assert!(failure.is_transient());
        assert_eq!(failure.event(), StoreEvent::Unavailable);
    }
    let staying = [
        StoreFailure::ItemCollectionSizeLimitExceeded,
        StoreFailure::ResourceNotFound,
        StoreFailure::Credentials,
        StoreFailure::Validation,
        StoreFailure::Parse,
        StoreFailure::Unknown,
        StoreFailure::Blocking,
    ];
    for failure in staying {
        assert!(!failure.is_transient());
        assert_eq!(failure.event(), StoreEvent::Refused);
    }
}

#[test]
fn throttled_write_is_tried_again_and_a_missing_table_is_not() {
    let service = service();
    let id = new_id();
    let throttled = service
        .resume(creating(id), StoreFailure::ProvisionedThroughputExceeded.event());
    assert!(matches!(throttled, Step::Write { delay_ms: 50, .. }));
    let missing = service.resume(creating(id), StoreFailure::ResourceNotFound.event());
    assert_eq!(missing, Step::Failed { error: ServiceError::Store });
}
