use docker_compose_runner::{
    Action, ContainerStatus, DockerCompose, Event, Image, Phase, Request, Yaml,
};

fn text(s: &str) -> Yaml {
    Yaml::Text(s.to_string())
}

fn manifest(services: Vec<(&str, &str)>) -> Yaml {
    let entries = services
        .into_iter()
        .map(|(name, image)| (text(name), Yaml::Mapping(vec![(text("image"), text(image))])))
        .collect();
    Yaml::Mapping(vec![(text("services"), Yaml::Mapping(entries))])
}

const CATALOG: [Image; 1] = [Image {
    name: "x",
    log_regex_to_wait_for: "Ready$",
    timeout_ms: 5000,
}];

const LINE_CATALOG: [Image; 1] = [Image {
    name: "x",
    log_regex_to_wait_for: "(?m)Ready$",
    timeout_ms: 5000,
}];

fn output(s: &str) -> Event {
    Event::Output(s.to_string())
}

fn strings(v: &[&str]) -> Vec<String> {
    v.iter().map(|s| s.to_string()).collect()
}

#[test]
fn first_match_makes_service_ready() {
    let mut compose = DockerCompose::new(&CATALOG, "compose.yaml", &manifest(vec![("db", "x")])).unwrap();
    assert_eq!(compose.logs_seen(0), 0);
    let mut waiter = compose.wait_all();
    assert_eq!(waiter.first_request(), Request::StatusFlagHelp);
    let a = waiter.step(&mut compose, output("Usage: ps [OPTIONS]\n  --status string\n"));
    assert!(matches!(a, Action::Run(Request::ServiceLogs(0))));
    let a = waiter.step(&mut compose, output("starting...\nReady"));
    assert!(matches!(a, Action::Ready));
    assert_eq!(compose.logs_seen(0), 1);
}

#[test]
fn restart_waits_for_a_second_match() {
    let mut compose =
        DockerCompose::new(&LINE_CATALOG, "compose.yaml", &manifest(vec![("db", "x")])).unwrap();
    let mut waiter = compose.wait_all();
    waiter.step(&mut compose, output("no status flag here"));
    let a = waiter.step(&mut compose, output("starting...\nReady"));
    assert!(matches!(a, Action::Ready));
    assert_eq!(compose.logs_seen(0), 1);

    let (args, mut waiter) = compose.start_service("db").unwrap();
    assert_eq!(args, strings(&["compose", "-f", "compose.yaml", "start", "db"]));
    waiter.step(&mut compose, output("no status flag here"));
    // The old occurrence alone is not enough.
    let a = waiter.step(&mut compose, output("starting...\nReady\n"));
    assert!(matches!(a, Action::Run(Request::AllLogs)));
    let a = waiter.step(&mut compose, output("all logs"));
    assert!(matches!(a, Action::ReadClock));
    let a = waiter.step(&mut compose, Event::Elapsed(100));
    assert!(matches!(a, Action::Run(Request::ServiceLogs(0))));
    assert_eq!(compose.logs_seen(0), 1);
    let a = waiter.step(&mut compose, output("starting...\nReady\nstarting...\nReady"));
    assert!(matches!(a, Action::Ready));
    assert_eq!(compose.logs_seen(0), 2);
}

#[test]
fn timeout_reports_missing_pattern_and_logs() {
    let mut compose = DockerCompose::new(&CATALOG, "compose.yaml", &manifest(vec![("db", "x")])).unwrap();
    let mut waiter = compose.wait_all();
    waiter.step(&mut compose, output("no status flag here"));
    let a = waiter.step(&mut compose, output("starting..."));
    assert!(matches!(a, Action::Run(Request::AllLogs)));
    let a = waiter.step(&mut compose, output("db | starting..."));
    assert!(matches!(a, Action::ReadClock));
    let a = waiter.step(&mut compose, Event::Elapsed(5001));
    assert!(matches!(a, Action::Run(Request::ServiceLogs(0))));
    assert_eq!(waiter.phase(), Phase::Reporting(0));
    match waiter.step(&mut compose, output("starting...")) {
        Action::TimedOut { timeout_ms, results, logs } => {
            assert_eq!(timeout_ms, 5000);
            assert_eq!(results, "*    Service db, searched for 'Ready$', was Missing\n");
            assert_eq!(logs, "db | starting...");
        }
        other => panic!("unexpected {other:?}"),
    }
    assert_eq!(compose.logs_seen(0), 0);
}

#[test]
fn timeout_report_says_found_when_pattern_seen_before() {
    let mut compose =
        DockerCompose::new(&LINE_CATALOG, "m.yaml", &manifest(vec![("db", "x")])).unwrap();
    let mut waiter = compose.wait_all();
    waiter.step(&mut compose, output(""));
    waiter.step(&mut compose, output("Ready"));
    let (_, mut waiter) = compose.start_service("db").unwrap();
    waiter.step(&mut compose, output(""));
    waiter.step(&mut compose, output("Ready"));
    waiter.step(&mut compose, output("Ready"));
    waiter.step(&mut compose, Event::Elapsed(9000));
    match waiter.step(&mut compose, output("Ready")) {
        Action::TimedOut { results, .. } => {
            assert_eq!(results, "*    Service db, searched for '(?m)Ready$', was Found\n");
        }
        other => panic!("unexpected {other:?}"),
    }
}

#[test]
fn failed_container_fails_before_timeout() {
    let mut compose = DockerCompose::new(&CATALOG, "compose.yaml", &manifest(vec![("db", "x")])).unwrap();
    let mut waiter = compose.wait_all();
    waiter.step(&mut compose, output("  --status string   Filter services by status\n"));
    waiter.step(&mut compose, output("starting..."));
    let a = waiter.step(&mut compose, output("db | boom"));
    assert!(matches!(a, Action::Run(Request::ContainersWithStatus(ContainerStatus::Exited))));
    let a = waiter.step(&mut compose, output("NAME   STATUS\n"));
    assert!(matches!(a, Action::Run(Request::ContainersWithStatus(ContainerStatus::Dead))));
    let a = waiter.step(&mut compose, output("NAME   STATUS\n"));
    assert!(matches!(a, Action::Run(Request::ContainersWithStatus(ContainerStatus::Removing))));
    let a = waiter.step(&mut compose, output("NAME   STATUS\n"));
    assert!(matches!(a, Action::ReadClock));
    let a = waiter.step(&mut compose, Event::Elapsed(10));
    assert!(matches!(a, Action::Run(Request::ServiceLogs(0))));
    waiter.step(&mut compose, output("starting..."));
    waiter.step(&mut compose, output("db | boom"));
    match waiter.step(&mut compose, output("NAME   STATUS\ndb-1   exited (1)\n")) {
        Action::ContainerFailed { containers, logs } => {
            assert_eq!(containers, "NAME   STATUS\ndb-1   exited (1)\n");
            assert_eq!(logs, "db | boom");
        }
        other => panic!("unexpected {other:?}"),
    }
    assert!(matches!(waiter.step(&mut compose, Event::Elapsed(20)), Action::OutOfOrder));
}

#[test]
fn every_service_must_be_ready_in_one_round() {
    let mut compose = DockerCompose::new(
        &CATALOG,
        "compose.yaml",
        &manifest(vec![("db", "x"), ("cache", "x")]),
    )
    .unwrap();
    let mut waiter = compose.wait_all();
    waiter.step(&mut compose, output(""));
    let a = waiter.step(&mut compose, output("Ready"));
    assert!(matches!(a, Action::Run(Request::ServiceLogs(1))));
    let a = waiter.step(&mut compose, output("starting"));
    assert!(matches!(a, Action::Run(Request::AllLogs)));
    assert_eq!(compose.logs_seen(0), 0);
    waiter.step(&mut compose, output("logs"));
    waiter.step(&mut compose, Event::Elapsed(1));
    waiter.step(&mut compose, output("Ready"));
    let a = waiter.step(&mut compose, output("Ready"));
    assert!(matches!(a, Action::Ready));
    assert_eq!(compose.logs_seen(0), 1);
    assert_eq!(compose.logs_seen(1), 1);
}

#[test]
fn no_services_is_ready_at_once() {
    let mut compose = DockerCompose::new(&CATALOG, "c.yaml", &manifest(vec![])).unwrap();
    let mut waiter = compose.wait_all();
    assert!(matches!(waiter.step(&mut compose, output("")), Action::Ready));
}

#[test]
fn event_of_the_wrong_kind_changes_nothing() {
    let mut compose = DockerCompose::new(&CATALOG, "c.yaml", &manifest(vec![("db", "x")])).unwrap();
    let mut waiter = compose.wait_all();
    assert!(matches!(waiter.step(&mut compose, Event::Elapsed(3)), Action::OutOfOrder));
    assert_eq!(waiter.phase(), Phase::Probing);
}

#[test]
fn timeout_is_the_largest_of_the_targets() {
    let catalog = [
        Image { name: "a", log_regex_to_wait_for: "up", timeout_ms: 700 },
        Image { name: "b", log_regex_to_wait_for: "up", timeout_ms: 3000 },
    ];
    let mut compose =
        DockerCompose::new(&catalog, "c.yaml", &manifest(vec![("one", "a"), ("two", "b")])).unwrap();
    let mut waiter = compose.wait_all();
    waiter.step(&mut compose, output(""));
    waiter.step(&mut compose, output(""));
    waiter.step(&mut compose, output(""));
    let a = waiter.step(&mut compose, Event::Elapsed(3000));
    assert!(matches!(a, Action::Run(Request::ServiceLogs(0))));
    assert_eq!(waiter.phase(), Phase::Checking(0));
    waiter.step(&mut compose, output(""));
    waiter.step(&mut compose, output(""));
    waiter.step(&mut compose, Event::Elapsed(3001));
    assert_eq!(waiter.phase(), Phase::Reporting(0));
}

#[test]
fn runtime_calls_for_requests() {
    let compose = DockerCompose::new(&CATALOG, "dir/c.yaml", &manifest(vec![("db", "x")])).unwrap();
    assert_eq!(
        compose.request_args(Request::StatusFlagHelp),
        strings(&["compose", "-f", "dir/c.yaml", "ps", "--help"])
    );
    assert_eq!(
        compose.request_args(Request::ServiceLogs(0)),
        strings(&["compose", "-f", "dir/c.yaml", "logs", "db"])
    );
    assert_eq!(compose.request_args(Request::AllLogs), strings(&["compose", "-f", "dir/c.yaml", "logs"]));
    assert_eq!(
        compose.request_args(Request::ContainersWithStatus(ContainerStatus::Removing)),
        strings(&["compose", "-f", "dir/c.yaml", "ps", "--status", "removing"])
    );
}
