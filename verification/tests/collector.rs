use icecast_influx::collector::{
    step, Action, CycleError, Event, LoopState, Phase, PublishError, PAUSE_SECS,
};
use icecast_influx::config::{Config, Icecast, Influx};
use icecast_influx::fetch::FetchError;
use icecast_influx::list_mounts::{Icestats, ParseError, Source};
use icecast_influx::mapper::MapError;
use influent::measurement::{Measurement, Value};

fn config() -> Config {
    Config {
        icecast: Icecast {
            user: "admin".to_string(),
            password: "hackme".to_string(),
            host: "radio1".to_string(),
            port: 8000,
        },
        influxdb: Influx {
            user: "writer".to_string(),
            password: "secret".to_string(),
            host: "http://influx:8086".to_string(),
            database: "icecast".to_string(),
        },
    }
}

fn source(mount: Option<&str>, listeners: i64) -> Source {
    Source {
        mount: mount.map(|m| m.to_string()),
        fallback: None,
        listeners,
        content_type: "audio/mpeg".to_string(),
    }
}

fn snapshot(records: &[(&str, i64)]) -> Icestats {
    Icestats { sources: records.iter().map(|(m, c)| source(Some(m), *c)).collect() }
}

fn value(m: &Measurement) -> i64 {
    match m.fields.get("value") {
        Some(Value::Integer(v)) => *v,
        other => panic!("value is {:?}", other),
    }
}

fn tag<'a>(m: &'a Measurement, name: &str) -> Option<&'a str> {
    m.tags.get(name).map(|v| v.as_ref())
}

fn fetched(status: u16) -> Event {
    Event::Fetched { status, body: "<icestats/>".to_string() }
}

fn all_events() -> Vec<Event> {
    vec![
        Event::Tick,
        fetched(200),
        fetched(500),
        Event::FetchFailed,
        Event::Parsed { snapshot: snapshot(&[("jazz", 5)]), timestamp: 1 },
        Event::ParseFailed,
        Event::Published,
        Event::PublishFailed(PublishError::Transport),
        Event::PublishFailed(PublishError::Rejected),
    ]
}

#[test]
fn loop_starts_idle() {
    assert_eq!(LoopState::initial(), LoopState::Idle);
    assert_eq!(PAUSE_SECS, 30);
}

#[test]
fn a_whole_cycle() {
    let config = config();
    let state = LoopState::initial();

    let tick = Event::Tick;
    let (state, action) = step(state, &tick, &config);
    assert_eq!(state, LoopState::Running(Phase::Fetching));
    match action {
        Action::Fetch(request) => {
            assert_eq!(request.url, "http://radio1:8000/admin/listmounts");
            assert_eq!(request.user, "admin");
            assert_eq!(request.password, "hackme");
        },
        other => panic!("{:?}", other),
    }

    let answer = Event::Fetched { status: 200, body: "<icestats></icestats>".to_string() };
    let (state, action) = step(state, &answer, &config);
    assert_eq!(state, LoopState::Running(Phase::Parsing));
    match action {
        Action::Parse(body) => assert_eq!(body, "<icestats></icestats>"),
        other => panic!("{:?}", other),
    }

    let parsed = Event::Parsed {
        snapshot: snapshot(&[("jazz", 5), ("rock", 12)]),
        timestamp: 1_700_000_000_000_000_000,
    };
    let (state, action) = step(state, &parsed, &config);
    assert_eq!(state, LoopState::Running(Phase::Publishing));
    match action {
        Action::Publish(batch) => {
            assert_eq!(batch.len(), 3);
            assert_eq!(batch[0].key, "listeners");
            assert_eq!(tag(&batch[0], "host"), Some("radio1"));
            assert_eq!(tag(&batch[0], "mount"), Some("jazz"));
            assert_eq!(value(&batch[0]), 5);
            assert_eq!(tag(&batch[1], "mount"), Some("rock"));
            assert_eq!(value(&batch[1]), 12);
            assert_eq!(batch[2].key, "listenerstotal");
            assert_eq!(tag(&batch[2], "host"), Some("radio1"));
            assert_eq!(tag(&batch[2], "mount"), None);
            assert_eq!(value(&batch[2]), 17);
            for m in &batch {
                assert_eq!(m.timestamp, Some(1_700_000_000_000_000_000));
            }
        },
        other => panic!("{:?}", other),
    }

    let done = Event::Published;
    let (state, action) = step(state, &done, &config);
    assert_eq!(state, LoopState::Idle);
    assert!(matches!(action, Action::Sleep(30)));

    let tick = Event::Tick;
    let (state, action) = step(state, &tick, &config);
    assert_eq!(state, LoopState::Running(Phase::Fetching));
    assert!(matches!(action, Action::Fetch(_)));
}

#[test]
fn non_success_status_stops_the_cycle_before_any_publish() {
    let config = config();
    for status in [201u16, 204, 301, 401, 404, 500] {
        let answer = fetched(status);
        let (state, action) = step(LoopState::Running(Phase::Fetching), &answer, &config);
        assert_eq!(state, LoopState::Idle);
        match action {
            Action::Halt(error) => {
                assert_eq!(error, CycleError::Fetch(FetchError::NonSuccess(status)))
            },
            other => panic!("{:?}", other),
        }
        let events = all_events();
        let mut state = state;
        for event in events.iter().filter(|e| **e != Event::Tick) {
            let (next, action) = step(state, event, &config);
            assert!(matches!(action, Action::Nothing), "{:?}", action);
            assert_eq!(next, LoopState::Idle);
            state = next;
        }
    }
}

#[test]
fn unreachable_server_stops_the_cycle() {
    let config = config();
    let failed = Event::FetchFailed;
    let (state, action) = step(LoopState::Running(Phase::Fetching), &failed, &config);
    assert_eq!(state, LoopState::Idle);
    assert!(matches!(action, Action::Halt(CycleError::Fetch(FetchError::Transport))));
}

#[test]
fn broken_document_stops_the_cycle() {
    let config = config();
    let failed = Event::ParseFailed;
    let (state, action) = step(LoopState::Running(Phase::Parsing), &failed, &config);
    assert_eq!(state, LoopState::Idle);
    assert!(matches!(action, Action::Halt(CycleError::Parse(ParseError::Malformed))));
}

#[test]
fn count_below_zero_stops_the_cycle() {
    let config = config();
    let parsed = Event::Parsed { snapshot: snapshot(&[("a", 1), ("b", -3)]), timestamp: 5 };
    let (state, action) = step(LoopState::Running(Phase::Parsing), &parsed, &config);
    assert_eq!(state, LoopState::Idle);
    assert!(matches!(
        action,
        Action::Halt(CycleError::Parse(ParseError::NegativeListeners(1)))
    ));
}

#[test]
fn record_without_mount_stops_the_cycle() {
    let config = config();
    let parsed = Event::Parsed {
        snapshot: Icestats { sources: vec![source(Some("a"), 1), source(None, 3)] },
        timestamp: 5,
    };
    let (state, action) = step(LoopState::Running(Phase::Parsing), &parsed, &config);
    assert_eq!(state, LoopState::Idle);
    assert!(matches!(action, Action::Halt(CycleError::Mapping(MapError::MissingMount(1)))));
}

#[test]
fn count_below_zero_is_found_before_a_missing_mount() {
    let config = config();
    let parsed = Event::Parsed {
        snapshot: Icestats { sources: vec![source(None, 1), source(Some("b"), -3)] },
        timestamp: 5,
    };
    let (_, action) = step(LoopState::Running(Phase::Parsing), &parsed, &config);
    assert!(matches!(
        action,
        Action::Halt(CycleError::Parse(ParseError::NegativeListeners(1)))
    ));
}

#[test]
fn total_out_of_range_stops_the_cycle() {
    let config = config();
    let parsed = Event::Parsed { snapshot: snapshot(&[("a", i64::MAX), ("b", 1)]), timestamp: 5 };
    let (state, action) = step(LoopState::Running(Phase::Parsing), &parsed, &config);
    assert_eq!(state, LoopState::Idle);
    assert!(matches!(action, Action::Halt(CycleError::Mapping(MapError::TotalOutOfRange))));
}

#[test]
fn refused_batch_stops_the_cycle() {
    let config = config();
    for error in [PublishError::Transport, PublishError::Rejected] {
        let failed = Event::PublishFailed(error);
        let (state, action) = step(LoopState::Running(Phase::Publishing), &failed, &config);
        assert_eq!(state, LoopState::Idle);
        match action {
            Action::Halt(found) => assert_eq!(found, CycleError::Publish(error)),
            other => panic!("{:?}", other),
        }
    }
}

#[test]
fn events_out_of_turn_are_dropped() {
    let config = config();
    let states = [
        LoopState::Idle,
        LoopState::Running(Phase::Fetching),
        LoopState::Running(Phase::Parsing),
        LoopState::Running(Phase::Publishing),
    ];
    for state in states {
        for event in all_events() {
            let in_turn = match (state, &event) {
                (LoopState::Idle, Event::Tick) => true,
                (LoopState::Running(Phase::Fetching), Event::Fetched { .. }) => true,
                (LoopState::Running(Phase::Fetching), Event::FetchFailed) => true,
                (LoopState::Running(Phase::Parsing), Event::Parsed { .. }) => true,
                (LoopState::Running(Phase::Parsing), Event::ParseFailed) => true,
                (LoopState::Running(Phase::Publishing), Event::Published) => true,
                (LoopState::Running(Phase::Publishing), Event::PublishFailed(_)) => true,
                _ => false,
            };
            let (next, action) = step(state, &event, &config);
            if in_turn {
                assert!(!matches!(action, Action::Nothing), "{:?} {:?}", state, event);
            } else {
                assert!(matches!(action, Action::Nothing), "{:?} {:?}", state, event);
                assert_eq!(next, state);
            }
        }
    }
}

#[test]
fn a_tick_during_a_cycle_starts_nothing() {
    let config = config();
    for phase in [Phase::Fetching, Phase::Parsing, Phase::Publishing] {
        let tick = Event::Tick;
        let (state, action) = step(LoopState::Running(phase), &tick, &config);
        assert_eq!(state, LoopState::Running(phase));
        assert!(matches!(action, Action::Nothing));
    }
}

#[test]
fn publish_comes_only_from_a_decoded_snapshot() {
    let config = config();
    let states = [
        LoopState::Idle,
        LoopState::Running(Phase::Fetching),
        LoopState::Running(Phase::Parsing),
        LoopState::Running(Phase::Publishing),
    ];
    for state in states {
        for event in all_events() {
            let (next, action) = step(state, &event, &config);
            if matches!(action, Action::Publish(_)) {
                assert_eq!(state, LoopState::Running(Phase::Parsing));
                assert!(matches!(event, Event::Parsed { .. }));
                assert_eq!(next, LoopState::Running(Phase::Publishing));
            }
            if matches!(action, Action::Halt(_) | Action::Sleep(_)) {
                assert_eq!(next, LoopState::Idle);
            }
        }
    }
}

fn run_cycle(state: LoopState, config: &Config, records: &[(&str, i64)], ts: i64) -> (
    LoopState,
    Vec<(String, Option<String>, i64, Option<i64>)>,
) {
    let tick = Event::Tick;
    let (state, _) = step(state, &tick, config);
    let answer = fetched(200);
    let (state, _) = step(state, &answer, config);
    let parsed = Event::Parsed { snapshot: snapshot(records), timestamp: ts };
    let (state, action) = step(state, &parsed, config);
    let points = match action {
        Action::Publish(batch) => batch
            .iter()
            .map(|m| {
                (m.key.to_string(), tag(m, "mount").map(|t| t.to_string()), value(m), m.timestamp)
            })
            .collect(),
        other => panic!("{:?}", other),
    };
    let done = Event::Published;
    let (state, _) = step(state, &done, config);
    (state, points)
}

#[test]
fn cycles_do_not_depend_on_each_other() {
    let config = config();
    let first: [(&str, i64); 2] = [("jazz", 5), ("rock", 12)];
    let second: [(&str, i64); 3] = [("news", 1), ("talk", 2), ("pop", 3)];

    let (state, a) = run_cycle(LoopState::initial(), &config, &first, 100);
    assert_eq!(state, LoopState::Idle);
    let (state, b) = run_cycle(state, &config, &second, 200);
    assert_eq!(state, LoopState::Idle);
    let (_, fresh) = run_cycle(LoopState::initial(), &config, &second, 200);

    assert_eq!(b, fresh);
    assert_eq!(a.len(), 3);
    assert_eq!(b.len(), 4);
    assert_eq!(b[3], ("listenerstotal".to_string(), None, 6, Some(200)));
    for point in &b {
        assert_ne!(point.1.as_deref(), Some("jazz"));
        assert_ne!(point.1.as_deref(), Some("rock"));
        assert_eq!(point.3, Some(200));
    }
}
