use rust_short_url::auth::ApiKeyMiddleware;
use rust_short_url::constants::get_ip_url;
use rust_short_url::error::{build_configuration_error, HashServiceError};
use rust_short_url::settings::{
    check_mode_configuration, default_rate_limit, ApiServer, Coordinator, Mode, MongoConfig, Settings,
};
use rust_short_url::text::decimal_string;

fn setup_settings(mode: Mode) -> Settings {
    Settings {
        debug: true,
        apiserver: ApiServer {
            application_url: String::from("localhost"),
            hostname: String::from("localhost"),
            allow_origin: String::from("localhost"),
            api_key: None,
            google_application_credentials: None,
        },
        mongo_config: None,
        redis_config: None,
        firestore_config: None,
        ratelimit: None,
        mode,
        coordinator: None,
    }
}

#[test]
fn in_memory_needs_no_section() {
    assert_eq!(check_mode_configuration(&setup_settings(Mode::InMemory)), Ok(Mode::InMemory));
}

#[test]
fn missing_sections_are_reported() {
    assert_eq!(
        check_mode_configuration(&setup_settings(Mode::Mongo)),
        Err(build_configuration_error("Mongo", "mongo_config"))
    );
    assert_eq!(
        check_mode_configuration(&setup_settings(Mode::Coordinator)),
        Err(HashServiceError::MissingConfiguration {
            mode: String::from("Coordinator"),
            configuration: String::from("coordinator"),
        })
    );
    assert_eq!(
        check_mode_configuration(&setup_settings(Mode::Redis)),
        Err(build_configuration_error("Redis", "redis_config"))
    );
    assert_eq!(
        check_mode_configuration(&setup_settings(Mode::Firestore)),
        Err(build_configuration_error("Firestore", "firestore_config"))
    );
}

#[test]
fn present_sections_pass() {
    let mut s = setup_settings(Mode::Mongo);
    s.mongo_config = Some(MongoConfig {
        connection_string: String::from("mongodb://x"),
        database_name: String::from("d"),
        collection_name: String::from("c"),
    });
    assert_eq!(check_mode_configuration(&s), Ok(Mode::Mongo));
    let mut c = setup_settings(Mode::Coordinator);
    c.coordinator = Some(Coordinator { hostnames: vec![String::from("a:1")] });
    assert_eq!(check_mode_configuration(&c), Ok(Mode::Coordinator));
}

#[test]
fn mode_names_and_default() {
    assert_eq!(Mode::default(), Mode::InMemory);
    assert_eq!(Mode::Coordinator.name(), "Coordinator");
    assert_eq!(Mode::InMemory.name(), "InMemory");
}

#[test]
fn default_rate_limit_values() {
    let r = default_rate_limit();
    assert_eq!(r.capacity, 10);
    assert_eq!(r.fill_rate, 2);
}

#[test]
fn ip_lookup_address() {
    assert_eq!(get_ip_url(String::from("192.1.1.1")), "http://ip-api.com/json/192.1.1.1");
}

#[test]
fn decimal_values() {
    assert_eq!(decimal_string(0), "0");
    assert_eq!(decimal_string(65535), "65535");
    assert_eq!(decimal_string(u64::MAX), "18446744073709551615");
}

#[test]
fn api_key_gate() {
    let open = ApiKeyMiddleware::new(None);
    assert!(open.is_authorized(None));
    assert!(open.is_authorized(Some("anything")));
    let closed = ApiKeyMiddleware::new(Some(String::from("k3y")));
    assert!(!closed.is_authorized(None));
    assert!(!closed.is_authorized(Some("other")));
    assert!(closed.is_authorized(Some("k3y")));
    let wrapped = closed.wrap(5u8);
    assert_eq!(*wrapped.service(), 5);
    assert!(wrapped.is_authorized(Some("k3y")));
    assert!(!wrapped.is_authorized(Some("k3")));
}
