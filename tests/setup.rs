use docker_compose_runner::{
    clean_up, service_images, DockerCompose, Image, ManifestError, Pattern, SetupError, Yaml,
};
use docker_compose_runner::text::{contains_text, count_newlines};

fn text(s: &str) -> Yaml {
    Yaml::Text(s.to_string())
}

fn manifest(services: Vec<(&str, &str)>) -> Yaml {
    let entries = services
        .into_iter()
        .map(|(name, image)| (text(name), Yaml::Mapping(vec![(text("image"), text(image))])))
        .collect();
    Yaml::Mapping(vec![(text("services"), Yaml::Mapping(entries))])
}

fn strings(v: &[&str]) -> Vec<String> {
    v.iter().map(|s| s.to_string()).collect()
}

const CATALOG: [Image; 2] = [
    Image { name: "x", log_regex_to_wait_for: "Ready$", timeout_ms: 5000 },
    Image { name: "x", log_regex_to_wait_for: "shadowed", timeout_ms: 1 },
];

#[test]
fn manifest_without_services_is_rejected() {
    let doc = Yaml::Mapping(vec![(text("version"), text("3"))]);
    assert_eq!(service_images(&doc), Err(ManifestError::MissingServices));
    assert!(matches!(
        DockerCompose::new(&CATALOG, "c.yaml", &doc),
        Err(SetupError::Manifest(ManifestError::MissingServices))
    ));
}

#[test]
fn manifest_shape_errors() {
    assert_eq!(service_images(&text("services")), Err(ManifestError::RootNotMapping));
    assert_eq!(
        service_images(&Yaml::Mapping(vec![(text("services"), Yaml::Other)])),
        Err(ManifestError::ServicesNotMapping)
    );
    let bad_name = Yaml::Mapping(vec![(
        text("services"),
        Yaml::Mapping(vec![(Yaml::Other, Yaml::Mapping(vec![]))]),
    )]);
    assert_eq!(service_images(&bad_name), Err(ManifestError::ServiceNameNotText));
    let not_map = Yaml::Mapping(vec![(text("services"), Yaml::Mapping(vec![(text("db"), text("x"))]))]);
    assert_eq!(
        service_images(&not_map),
        Err(ManifestError::ServiceNotMapping { service: "db".to_string() })
    );
    let no_image = Yaml::Mapping(vec![(
        text("services"),
        Yaml::Mapping(vec![(text("db"), Yaml::Mapping(vec![(text("ports"), Yaml::Other)]))]),
    )]);
    assert_eq!(
        service_images(&no_image),
        Err(ManifestError::MissingImage { service: "db".to_string() })
    );
    let image_not_text = Yaml::Mapping(vec![(
        text("services"),
        Yaml::Mapping(vec![(text("db"), Yaml::Mapping(vec![(text("image"), Yaml::Other)]))]),
    )]);
    assert_eq!(
        service_images(&image_not_text),
        Err(ManifestError::ImageNotText { service: "db".to_string() })
    );
}

#[test]
fn manifest_pairs_in_document_order() {
    let doc = Yaml::Mapping(vec![
        (text("version"), text("3")),
        (
            text("services"),
            Yaml::Mapping(vec![
                (text("web"), Yaml::Mapping(vec![(text("ports"), Yaml::Other), (text("image"), text("nginx"))])),
                (text("db"), Yaml::Mapping(vec![(text("image"), text("postgres:16"))])),
            ]),
        ),
    ]);
    assert_eq!(
        service_images(&doc),
        Ok(vec![
            ("web".to_string(), "nginx".to_string()),
            ("db".to_string(), "postgres:16".to_string()),
        ])
    );
}

#[test]
fn image_missing_from_catalog_is_rejected() {
    let r = DockerCompose::new(&CATALOG, "c.yaml", &manifest(vec![("db", "x"), ("cache", "y")]));
    assert!(matches!(r, Err(SetupError::UnknownImage { image }) if image == "y"));
}

#[test]
fn invalid_pattern_is_rejected() {
    let catalog = [Image { name: "x", log_regex_to_wait_for: "Ready(", timeout_ms: 5 }];
    let r = DockerCompose::new(&catalog, "c.yaml", &manifest(vec![("db", "x")]));
    assert!(matches!(
        r,
        Err(SetupError::InvalidPattern { image, pattern }) if image == "x" && pattern == "Ready("
    ));
}

#[test]
fn first_catalog_entry_of_an_image_is_used() {
    let compose = DockerCompose::new(&CATALOG, "c.yaml", &manifest(vec![("db", "x")])).unwrap();
    let service = &compose.services()[0];
    assert_eq!(service.name(), "db");
    assert_eq!(service.image(), "x");
    assert_eq!(service.pattern().source(), "Ready$");
    assert_eq!(service.timeout_ms(), 5000);
    assert_eq!(compose.file_path(), "c.yaml");
}

#[test]
fn distinct_images_to_build() {
    let compose = DockerCompose::new(
        &CATALOG,
        "c.yaml",
        &manifest(vec![("a", "x"), ("b", "x")]),
    )
    .unwrap();
    assert_eq!(compose.images(), strings(&["x"]));
}

#[test]
fn lifecycle_calls() {
    let compose = DockerCompose::new(&CATALOG, "c.yaml", &manifest(vec![("db", "x")])).unwrap();
    assert_eq!(compose.up(), strings(&["compose", "-f", "c.yaml", "up", "-d"]));
    assert_eq!(compose.stop_service("db"), strings(&["compose", "-f", "c.yaml", "stop", "db"]));
    assert_eq!(compose.kill_service("db"), strings(&["compose", "-f", "c.yaml", "kill", "db"]));
    assert!(compose.start_service("nope").is_none());
    assert_eq!(compose.find_service("db"), Some(0));
    let (kill, down) = clean_up("c.yaml");
    assert_eq!(kill, strings(&["compose", "-f", "c.yaml", "kill"]));
    assert_eq!(down, strings(&["compose", "-f", "c.yaml", "down", "-v"]));
}

#[test]
fn pattern_counts_non_overlapping_matches() {
    let p = Pattern::new("an").unwrap();
    assert_eq!(p.count_in("banana"), 2);
    assert_eq!(p.count_in("apple"), 0);
    let anchored = Pattern::new("Ready$").unwrap();
    assert_eq!(anchored.count_in("starting...\nReady"), 1);
    assert_eq!(anchored.count_in("Ready\nstarting..."), 0);
    assert!(Pattern::new("(").is_err());
}

#[test]
fn text_helpers() {
    assert!(contains_text("usage:\n  --status string", "--status"));
    assert!(!contains_text("usage:\n  --all", "--status"));
    assert_eq!(count_newlines("NAME\n"), 1);
    assert_eq!(count_newlines("NAME\ndb-1 exited\n"), 2);
    assert_eq!(count_newlines(""), 0);
}
