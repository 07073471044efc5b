use lockfree_counters::registry::{CounterNotFoundError, Entry, Registry};
use lockfree_counters::{
    AnyState, Counter, CounterKind, ElapsedCounter, EventCounter, EventState, IntervalCounter,
    Variant,
};

#[test]
fn registry_lookup_finds_and_misses() {
    let mut builder = Registry::create();
    builder.add_counter::<EventCounter>("requests");
    let registry = builder.bind();
    let found = registry.lookup("requests");
    assert!(found.is_ok());
    assert_eq!(found.unwrap().kind(), CounterKind::Event);
    let missing = registry.lookup("missing");
    assert_eq!(missing.unwrap_err().counter(), "missing");
}

#[test]
fn registry_count_reports_presence() {
    let mut builder = Registry::create();
    builder.add_counter::<ElapsedCounter>("latency");
    let registry = builder.bind();
    assert!(registry.count("latency").is_ok());
    let e = registry.count("nothing").unwrap_err();
    assert_eq!(e.counter(), "nothing");
    assert_eq!(e.message(), "nothing not found");
}

#[test]
fn error_message_names_the_counter() {
    let e = CounterNotFoundError::new("requests");
    assert_eq!(e.counter(), "requests");
    assert_eq!(e.message(), "requests not found");
    assert_eq!(CounterNotFoundError::new("").message(), " not found");
}

#[test]
fn registry_created_empty() {
    let registry = Registry::create().bind();
    assert_eq!(registry.len(), 0);
    assert!(registry.lookup("anything").is_err());
    assert!(registry.entry_at(0).is_none());
}

#[test]
fn added_counter_is_new_and_named() {
    let mut builder = Entry::new();
    builder.add_counter::<IntervalCounter>("arrivals");
    let c = builder.lookup("arrivals").unwrap();
    assert_eq!(c.kind(), CounterKind::Interval);
    assert_eq!(c.header().name(), "arrivals");
    assert_eq!(c.snapshot(), IntervalCounter::new("x").into_any().snapshot());
}

#[test]
fn last_counter_added_under_a_name_wins() {
    let mut builder = Registry::create();
    builder.add_counter::<EventCounter>("a");
    builder.lookup("a").unwrap().increment(5, 0);
    builder.add_counter::<ElapsedCounter>("b");
    builder.add_counter::<ElapsedCounter>("a");
    assert_eq!(builder.len(), 2);
    let registry = builder.bind();
    assert_eq!(registry.len(), 2);
    assert_eq!(registry.lookup("a").unwrap().kind(), CounterKind::Elapsed);
    assert_eq!(registry.lookup("b").unwrap().kind(), CounterKind::Elapsed);
    assert_eq!(registry.entry_at(0).unwrap().0, "a");
    assert_eq!(registry.entry_at(1).unwrap().0, "b");
    assert!(registry.entry_at(2).is_none());
}

#[test]
fn insert_keeps_the_counter_it_was_given() {
    let counter = EventCounter::new("given");
    counter.increment(3, 0);
    let mut builder = Entry::new();
    builder.insert("hits", counter.into_any());
    let found = builder.lookup("hits").unwrap();
    assert_eq!(found.snapshot(), AnyState::Event(EventState { count: 3 }));
    assert_eq!(found.header().name(), "given");
}

#[test]
fn from_entries_takes_each_pair_and_the_later_of_two() {
    let first = EventCounter::new("first");
    first.increment(1, 0);
    let second = EventCounter::new("second");
    second.increment(2, 0);
    let entries = vec![
        ("hits".to_string(), first.into_any()),
        ("waits".to_string(), ElapsedCounter::new("waits").into_any()),
        ("hits".to_string(), second.into_any()),
    ];
    let registry = Registry::from_entries(entries);
    assert_eq!(registry.len(), 2);
    assert_eq!(
        registry.lookup("hits").unwrap().snapshot(),
        AnyState::Event(EventState { count: 2 })
    );
    assert_eq!(registry.lookup("waits").unwrap().kind(), CounterKind::Elapsed);
    assert!(registry.lookup("other").is_err());
    assert!(Registry::from_entries(Vec::new()).lookup("hits").is_err());
}

#[test]
fn registry_entries_can_be_walked() {
    let mut builder = Registry::create();
    builder.add_counter::<EventCounter>("a");
    builder.add_counter::<ElapsedCounter>("b");
    builder.add_counter::<IntervalCounter>("c");
    let registry = builder.bind();
    let mut seen = Vec::new();
    let mut i = 0;
    while let Some((name, counter)) = registry.entry_at(i) {
        assert_eq!(counter.header().name(), name);
        assert_eq!(registry.lookup(name).unwrap().kind(), counter.kind());
        seen.push((name.to_string(), counter.kind()));
        i += 1;
    }
    assert_eq!(i, registry.len());
    assert_eq!(
        seen,
        vec![
            ("a".to_string(), CounterKind::Event),
            ("b".to_string(), CounterKind::Elapsed),
            ("c".to_string(), CounterKind::Interval),
        ]
    );
}

#[test]
fn registry_is_shared_between_holders() {
    let mut builder = Registry::create();
    builder.add_counter::<EventCounter>("requests");
    let registry = builder.bind();
    let holders: Vec<Registry> = (0..4).map(|_| registry.clone()).collect();
    for _ in 0..500 {
        for holder in &holders {
            holder.lookup("requests").unwrap().increment(1, 0);
        }
    }
    drop(holders);
    assert_eq!(
        registry.lookup("requests").unwrap().snapshot(),
        AnyState::Event(EventState { count: 2000 })
    );
}
