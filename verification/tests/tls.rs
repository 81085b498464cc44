use chaindexing::tls::{normalize_connection_string_for_tokio_postgres, PostgresTlsConfig, PostgresTlsMode};

#[test]
fn missing_sslmode_keeps_tls_disabled() {
    let config = PostgresTlsConfig::from_database_url("postgres://localhost/chaindexing");

    assert_eq!(config.mode(), PostgresTlsMode::Disable);
}

#[test]
fn require_sslmode_enables_required_tls() {
    let config =
        PostgresTlsConfig::from_database_url("postgres://localhost/chaindexing?sslmode=require");

    assert_eq!(config.mode(), PostgresTlsMode::Require);
}

#[test]
fn verify_full_sslmode_maps_to_required_tls() {
    let config =
        PostgresTlsConfig::from_database_url("postgres://localhost/chaindexing?sslmode=verify-full");

    assert_eq!(config.mode(), PostgresTlsMode::Require);
}

#[test]
fn unsupported_tokio_postgres_sslmodes_are_normalized_for_parsing() {
    assert_eq!(
        normalize_connection_string_for_tokio_postgres(
            "postgres://localhost/db?sslmode=verify-full&app=x"
        ),
        "postgres://localhost/db?sslmode=require&app=x"
    );
    assert_eq!(
        normalize_connection_string_for_tokio_postgres("host=localhost user=postgres sslmode=allow"),
        "host=localhost user=postgres sslmode=prefer"
    );
}

#[test]
fn sslmode_parser_requires_a_parameter_boundary() {
    let config = PostgresTlsConfig::from_database_url(
        "postgres://localhost/chaindexing?application_name=not_sslmode=require",
    );

    assert_eq!(config.mode(), PostgresTlsMode::Disable);
}

#[test]
fn keyword_sslmode_parser_allows_whitespace_around_equals() {
    let config = PostgresTlsConfig::from_database_url("host=localhost user=postgres sslmode = require");

    assert_eq!(config.mode(), PostgresTlsMode::Require);
}

#[test]
fn keyword_sslmode_normalization_allows_whitespace_around_equals() {
    assert_eq!(
        normalize_connection_string_for_tokio_postgres(
            "host=localhost user=postgres sslmode = verify-full"
        ),
        "host=localhost user=postgres sslmode=require"
    );
}

#[test]
fn sslrootcert_is_captured_and_removed_from_postgres_url() {
    let config = PostgresTlsConfig::from_database_url(
        "postgres://localhost/db?sslmode=require&sslrootcert=%2Ftmp%2Fca.pem&app=x",
    );

    assert_eq!(config.ca_cert_paths(), &vec!["/tmp/ca.pem".to_string()]);
    assert_eq!(
        normalize_connection_string_for_tokio_postgres(
            "postgres://localhost/db?sslmode=require&sslrootcert=%2Ftmp%2Fca.pem&app=x"
        ),
        "postgres://localhost/db?sslmode=require&app=x"
    );
}

#[test]
fn sslrootcert_is_captured_and_removed_from_keyword_connection_string() {
    let config = PostgresTlsConfig::from_database_url(
        "host=localhost sslrootcert = '/tmp/postgres ca.pem' sslmode = verify-full",
    );

    assert_eq!(config.ca_cert_paths(), &vec!["/tmp/postgres ca.pem".to_string()]);
    assert_eq!(
        normalize_connection_string_for_tokio_postgres(
            "host=localhost sslrootcert = '/tmp/postgres ca.pem' sslmode = verify-full"
        ),
        "host=localhost sslmode=require"
    );
}
