use cdc_streamer::cdc::engine::{slot_name, CDCEngine, EngineAction};
use cdc_streamer::cdc::events::{operation_str, ChangeEvent, ChangeOperation, ColumnValue};
use cdc_streamer::channel::{EventQueue, SendOutcome};
use cdc_streamer::config::{
    select_database, selector_matches, str_eq_ignore_case, DatabaseConfig, DatabaseType,
    KafkaConfig, RedisConfig,
};
use cdc_streamer::connectors::postgres::{decode_wal_text, PostgresConnector, WalRecord};
use cdc_streamer::connectors::scylla::ScyllaConnector;
use cdc_streamer::streaming::kafka::KafkaStreamer;
use cdc_streamer::streaming::redis::RedisStreamer;
use cdc_streamer::streaming::{after_publish, SinkAction};
use cdc_streamer::CHANNEL_CAPACITY;

fn pg_config(tables: Vec<&str>) -> DatabaseConfig {
    DatabaseConfig {
        name: String::from("shop"),
        db_type: DatabaseType::PostgreSQL,
        connection_string: String::from("postgres://localhost/shop"),
        tables: tables.into_iter().map(String::from).collect(),
        poll_interval_ms: 1000,
    }
}

fn wal_record(kind: &str, table: &str, cols: Vec<(&str, ColumnValue)>) -> WalRecord {
    WalRecord {
        kind: String::from(kind),
        table: String::from(table),
        columnvalues: Some(
            cols.into_iter().map(|(k, v)| (String::from(k), v)).collect(),
        ),
        oldkeys: None,
    }
}

#[test]
fn topic_name_is_pure_and_deterministic() {
    let e = ChangeEvent::new(
        String::from("shop"),
        String::from("orders"),
        ChangeOperation::Insert,
        None,
        None,
        vec![],
    );
    assert_eq!(e.topic_name(), "cdc.shop.orders");
    assert_eq!(e.topic_name(), "cdc.shop.orders");
    let f = ChangeEvent::new(
        String::from("a.b"),
        String::from("c"),
        ChangeOperation::Delete,
        None,
        None,
        vec![],
    );
    assert_eq!(f.topic_name(), "cdc.a.b.c");
}

#[test]
fn selector_matching_is_case_insensitive() {
    assert!(str_eq_ignore_case("PSQL", "psql"));
    assert!(!str_eq_ignore_case("psq", "psql"));
    assert!(selector_matches(DatabaseType::PostgreSQL, "PSQL"));
    assert!(selector_matches(DatabaseType::PostgreSQL, "PostgreSQL"));
    assert!(!selector_matches(DatabaseType::PostgreSQL, "scylla"));
    assert!(selector_matches(DatabaseType::ScyllaDB, "ScyllaDB"));
    assert!(selector_matches(DatabaseType::ScyllaDB, "scylla"));
    assert!(!selector_matches(DatabaseType::ScyllaDB, "postgresql"));
}

#[test]
fn select_database_picks_the_first_match() {
    let mut scylla = pg_config(vec!["t"]);
    scylla.db_type = DatabaseType::ScyllaDB;
    let databases = vec![scylla, pg_config(vec!["t"]), pg_config(vec!["u"])];
    assert_eq!(select_database(&databases, "psql"), Some(1));
    assert_eq!(select_database(&databases, "SCYLLA"), Some(0));
    assert_eq!(select_database(&databases, "mysql"), None);
}

#[test]
fn backpressure_blocks_instead_of_dropping() {
    let mut q = EventQueue::new(CHANNEL_CAPACITY);
    let total = CHANNEL_CAPACITY + 5;
    let mut outcomes = Vec::new();
    for k in 0..total {
        let e = ChangeEvent::new(
            String::from("shop"),
            format!("t{}", k),
            ChangeOperation::Insert,
            None,
            None,
            vec![],
        );
        outcomes.push(q.send(e));
    }
    assert!(outcomes[..CHANNEL_CAPACITY]
        .iter()
        .all(|o| *o == SendOutcome::Accepted));
    assert!(outcomes[CHANNEL_CAPACITY..]
        .iter()
        .all(|o| *o == SendOutcome::WouldBlock));
    assert_eq!(q.len(), CHANNEL_CAPACITY);
    let first = q.recv().expect("queue holds events");
    assert_eq!(first.table, "t0");
    let second = q.recv().expect("queue holds events");
    assert_eq!(second.table, "t1");
}

#[test]
fn engine_startup_tolerates_cursor_failure() {
    let engine = CDCEngine::new(pg_config(vec!["orders"]));
    match engine.startup_action(true) {
        EngineAction::CreateCursor(slot) => assert_eq!(slot, "slot_shop"),
        other => panic!("log-based startup must create a cursor, got {:?}", other),
    }
    // Cursor creation simulated to fail (it already exists): startup
    // still succeeds and the read loop still runs.
    assert_eq!(engine.after_cursor_setup(false), EngineAction::StartProduceLoop);
    assert_eq!(engine.after_cursor_setup(true), EngineAction::StartProduceLoop);
    assert_eq!(engine.startup_action(false), EngineAction::Abort);
    assert_eq!(slot_name("mydb"), "slot_mydb");
}

#[test]
fn scylla_startup_polls_immediately() {
    let mut config = pg_config(vec!["orders"]);
    config.db_type = DatabaseType::ScyllaDB;
    let engine = CDCEngine::new(config);
    assert_eq!(engine.startup_action(true), EngineAction::StartProduceLoop);
}

#[test]
fn wal_decode_reads_a_change_log_entry() {
    let text = "{\"change\":{\"kind\":\"insert\",\"table\":\"orders\",\
                \"columnvalues\":{\"id\":7,\"name\":\"x\"},\"oldkeys\":null}}";
    let rec = decode_wal_text(text).expect("well-formed entry decodes");
    assert_eq!(rec.kind, "insert");
    assert_eq!(rec.table, "orders");
    let cols = rec.columnvalues.expect("post-image present");
    assert_eq!(cols.len(), 2);
    assert_eq!(cols[0].0, "id");
    assert_eq!(cols[0].1, ColumnValue::Num(String::from("7")));
    assert!(rec.oldkeys.is_none());
    assert!(decode_wal_text("{\"change\":{}}").is_none());
    assert!(decode_wal_text("").is_none());
}

#[test]
fn parse_wal_drops_untracked_tables_and_unknown_kinds() {
    let connector = PostgresConnector::new(pg_config(vec!["orders"]));
    let ok = wal_record("insert", "orders", vec![("id", ColumnValue::Num(String::from("1")))]);
    let e = connector.parse_wal(&ok).expect("tracked insert converts");
    assert_eq!(e.operation, ChangeOperation::Insert);
    assert_eq!(e.database, "shop");
    assert_eq!(e.table, "orders");
    assert_eq!(
        e.primary_key,
        vec![(String::from("id"), ColumnValue::Num(String::from("1")))]
    );
    assert!(e.transaction_id.is_none());

    let untracked = wal_record("insert", "users", vec![]);
    assert!(connector.parse_wal(&untracked).is_none());
    let unknown = wal_record("truncate", "orders", vec![]);
    assert!(connector.parse_wal(&unknown).is_none());
}

#[test]
fn batch_keeps_only_recognized_records_in_order() {
    let connector = PostgresConnector::new(pg_config(vec!["orders", "items"]));
    let records = vec![
        wal_record("insert", "orders", vec![("id", ColumnValue::Num(String::from("1")))]),
        wal_record("truncate", "orders", vec![]),
        wal_record("update", "items", vec![("id", ColumnValue::Num(String::from("2")))]),
        wal_record("insert", "users", vec![]),
        wal_record("delete", "orders", vec![]),
    ];
    let events = connector.events_from_records(&records);
    assert_eq!(events.len(), 3);
    assert_eq!(events[0].operation, ChangeOperation::Insert);
    assert_eq!(events[0].table, "orders");
    assert_eq!(events[1].operation, ChangeOperation::Update);
    assert_eq!(events[1].table, "items");
    assert_eq!(events[2].operation, ChangeOperation::Delete);
    assert_eq!(events[2].table, "orders");
}

#[test]
fn snapshot_connector_synthesizes_one_update_per_row() {
    let mut config = pg_config(vec!["orders"]);
    config.db_type = DatabaseType::ScyllaDB;
    let connector = ScyllaConnector::new(config);
    let events = connector.snapshot_events("orders", 3);
    assert_eq!(events.len(), 3);
    for e in &events {
        assert_eq!(e.operation, ChangeOperation::Update);
        assert_eq!(e.database, "shop");
        assert_eq!(e.table, "orders");
        assert_eq!(
            e.primary_key,
            vec![(String::from("id"), ColumnValue::Str(String::from("cdc")))]
        );
        assert_eq!(
            e.after,
            Some(vec![(String::from("table"), ColumnValue::Str(String::from("orders")))])
        );
    }
}

#[test]
fn broker_sink_addresses_and_keys_each_event() {
    let streamer = KafkaStreamer::new(KafkaConfig {
        brokers: String::from("localhost:9092"),
        topic_prefix: String::from("cdc-events"),
        batch_size: 100,
    });
    let e = ChangeEvent::new(
        String::from("shop"),
        String::from("orders"),
        ChangeOperation::Insert,
        None,
        None,
        vec![],
    );
    let rec = streamer.prepare_publish(&e);
    assert_eq!(rec.topic, "cdc-events.cdc.shop.orders");
    assert_eq!(rec.key, e.id);
    assert!(rec.payload.starts_with("{\"id\":"));
}

#[test]
fn broker_sink_proceeds_past_a_failed_publish() {
    let streamer = KafkaStreamer::new(KafkaConfig {
        brokers: String::from("localhost:9092"),
        topic_prefix: String::from("cdc-events"),
        batch_size: 100,
    });
    let failing = ChangeEvent::new(
        String::from("shop"),
        String::from("orders"),
        ChangeOperation::Insert,
        None,
        None,
        vec![],
    );
    let next = ChangeEvent::new(
        String::from("shop"),
        String::from("items"),
        ChangeOperation::Update,
        None,
        None,
        vec![],
    );
    let next_id = next.id.clone();
    let plan = streamer.publish_plan(&vec![failing, next]);
    // The publish of the first event fails: the sink logs and moves on,
    // without retrying; the next event's publish is attempted as planned.
    assert_eq!(after_publish(false), SinkAction::ContinueNext);
    assert_eq!(plan.len(), 2);
    assert_eq!(plan[1].topic, "cdc-events.cdc.shop.items");
    assert_eq!(plan[1].key, next_id);
    assert_eq!(after_publish(true), SinkAction::ContinueNext);
}

#[test]
fn stream_store_sink_trims_after_every_append_when_bounded() {
    let streamer = RedisStreamer::new(RedisConfig {
        url: String::from("redis://localhost"),
        stream_prefix: String::from("streams"),
        max_len: Some(100),
    });
    let mut last = None;
    for k in 0..101 {
        let e = ChangeEvent::new(
            String::from("shop"),
            String::from("orders"),
            ChangeOperation::Update,
            None,
            None,
            vec![(String::from("n"), ColumnValue::Num(format!("{}", k)))],
        );
        last = Some(streamer.prepare_append(&e));
    }
    // After the 101st append to the stream, a trim targeting the
    // approximate length 100 is issued.
    let append = last.expect("an append was prepared");
    assert_eq!(append.stream, "streams.cdc.shop.orders");
    assert_eq!(append.trim_to, Some(100));

    let unbounded = RedisStreamer::new(RedisConfig {
        url: String::from("redis://localhost"),
        stream_prefix: String::from("streams"),
        max_len: None,
    });
    let e = ChangeEvent::new(
        String::from("shop"),
        String::from("orders"),
        ChangeOperation::Update,
        None,
        None,
        vec![],
    );
    assert_eq!(unbounded.prepare_append(&e).trim_to, None);
}

#[test]
fn operation_wire_names() {
    assert_eq!(operation_str(ChangeOperation::Insert), "insert");
    assert_eq!(operation_str(ChangeOperation::Update), "update");
    assert_eq!(operation_str(ChangeOperation::Delete), "delete");
}

#[test]
fn event_ids_are_fresh_per_instance() {
    let a = ChangeEvent::new(
        String::from("shop"),
        String::from("orders"),
        ChangeOperation::Insert,
        None,
        None,
        vec![],
    );
    let b = ChangeEvent::new(
        String::from("shop"),
        String::from("orders"),
        ChangeOperation::Insert,
        None,
        None,
        vec![],
    );
    assert_ne!(a.id, b.id);
}
