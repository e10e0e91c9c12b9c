use overpower::config::{check_threads, resolve_threads, BenchmarkConfig, ConfigError};
use overpower::duration::RunDuration;
use overpower::method::HttpMethods;
use overpower::schedule::Tick;

fn sample(threads: usize) -> Result<BenchmarkConfig, ConfigError> {
    BenchmarkConfig::new(
        HttpMethods::POST,
        "http://localhost:8080/items".to_string(),
        vec!["Accept: */*".to_string(), "X-Trace: a".to_string(), "X-Trace: a".to_string()],
        Some("{}".to_string()),
        RunDuration::from_secs(2),
        5,
        threads,
    )
}

#[test]
fn config_keeps_what_it_was_given() {
    let config = sample(4).unwrap();
    assert_eq!(config.method(), HttpMethods::POST);
    assert_eq!(config.url(), "http://localhost:8080/items");
    assert_eq!(config.headers(), &vec!["Accept: */*", "X-Trace: a", "X-Trace: a"]);
    assert_eq!(config.body(), Some("{}"));
    assert_eq!(config.duration(), RunDuration { secs: 2 });
    assert_eq!(config.rate(), 5);
    assert_eq!(config.threads(), 4);
}

#[test]
fn config_without_workers_is_refused() {
    assert_eq!(sample(0).err(), Some(ConfigError::NoWorkers));
    assert!(sample(1).is_ok());
}

#[test]
fn request_is_made_of_the_configured_parts() {
    let config = sample(1).unwrap();
    let request = config.request();
    assert_eq!(request.method, HttpMethods::POST);
    assert_eq!(request.url, "http://localhost:8080/items");
    assert_eq!(request.headers.len(), 3);
    assert_eq!(request.headers[0], "Accept: */*");
    assert_eq!(request.headers[2], "X-Trace: a");
    assert_eq!(request.body, Some("{}"));
}

#[test]
fn request_without_body() {
    let config = BenchmarkConfig::new(
        HttpMethods::GET,
        "http://localhost/".to_string(),
        Vec::new(),
        None,
        RunDuration::from_secs(5),
        0,
        1,
    )
    .unwrap();
    let request = config.request();
    assert_eq!(request.method, HttpMethods::GET);
    assert!(request.headers.is_empty());
    assert_eq!(request.body, None);
    assert_eq!(config.body(), None);
}

#[test]
fn scheduler_takes_duration_and_rate_from_the_config() {
    let config = sample(1).unwrap();
    let mut s = config.scheduler(1_000);
    assert_eq!(s.tick(1_000), Tick::Admit);
    assert_eq!(s.tick(1_000 + 200_000_000), Tick::Skip);
    assert_eq!(s.tick(1_000 + 200_000_001), Tick::Admit);
    assert_eq!(s.tick(1_000 + 2_000_000_000), Tick::Stop);
}

#[test]
fn worker_count_must_be_positive() {
    assert_eq!(check_threads(0), Err(ConfigError::NoWorkers));
    assert_eq!(check_threads(1), Ok(1));
    assert_eq!(check_threads(usize::MAX), Ok(usize::MAX));
}

#[test]
fn requested_worker_count_wins() {
    assert_eq!(resolve_threads(Some(3)), Ok(3));
    assert_eq!(resolve_threads(Some(0)), Err(ConfigError::NoWorkers));
}

#[test]
fn default_worker_count_is_the_cpu_count() {
    assert_eq!(resolve_threads(None), Ok(num_cpus::get()));
}

#[test]
fn method_names() {
    assert_eq!(HttpMethods::GET.name(), "GET");
    assert_eq!(HttpMethods::HEAD.name(), "HEAD");
    assert_eq!(HttpMethods::POST.name(), "POST");
    assert_eq!(HttpMethods::PUT.name(), "PUT");
    assert_eq!(HttpMethods::DELETE.name(), "DELETE");
}

#[test]
fn method_from_name_ignores_case() {
    assert_eq!(HttpMethods::from_name("GET"), Some(HttpMethods::GET));
    assert_eq!(HttpMethods::from_name("get"), Some(HttpMethods::GET));
    assert_eq!(HttpMethods::from_name("hEaD"), Some(HttpMethods::HEAD));
    assert_eq!(HttpMethods::from_name("Post"), Some(HttpMethods::POST));
    assert_eq!(HttpMethods::from_name("put"), Some(HttpMethods::PUT));
    assert_eq!(HttpMethods::from_name("delete"), Some(HttpMethods::DELETE));
}

#[test]
fn method_from_name_refuses_the_rest() {
    for name in ["", "PATCH", "GE", "GETS", " GET", "GET ", "G\u{212a}T", "OPTIONS", "p\u{fc}t"] {
        assert_eq!(HttpMethods::from_name(name), None, "{:?}", name);
    }
}

#[test]
fn every_method_is_found_by_its_own_name() {
    for method in [
        HttpMethods::GET,
        HttpMethods::HEAD,
        HttpMethods::POST,
        HttpMethods::PUT,
        HttpMethods::DELETE,
    ] {
        assert_eq!(HttpMethods::from_name(method.name()), Some(method));
        assert_eq!(HttpMethods::from_name(&method.name().to_lowercase()), Some(method));
    }
}
