use chaindexing::state_migrations::{DefaultMigration, StateMigrations, STATE_VERSIONS_TABLE_PREFIX};

struct TestState;

impl StateMigrations for TestState {
    fn migrations(&self) -> &'static [&'static str] {
        &[
            "CREATE TABLE IF NOT EXISTS nft_states (
                      token_id INTEGER NOT NULL,
                      contract_address VARCHAR NOT NULL,
                      pool_contract_address VARCHAR NOT NULL,
                      owner_address VARCHAR NOT NULL
                  )",
            "UPDATE nft_states
                  SET owner_address = ''
                  WHERE owner_address IS NULL",
        ]
    }
}

struct TestStateWithPrimaryKey;

impl StateMigrations for TestStateWithPrimaryKey {
    fn migrations(&self) -> &'static [&'static str] {
        &["CREATE TABLE IF NOT EXISTS nft_states (
                      id SERIAL PRIMARY KEY,
                      token_id INTEGER NOT NULL,
                      contract_address VARCHAR NOT NULL,
                      owner_address VARCHAR NOT NULL
                  )"]
    }
}

struct TestStateWithJsonField;

impl StateMigrations for TestStateWithJsonField {
    fn migrations(&self) -> &'static [&'static str] {
        &["CREATE TABLE IF NOT EXISTS nft_states (
                      id SERIAL PRIMARY KEY,
                      token_id INTEGER NOT NULL,
                      json_field JSON DEFAULT '{}',
                  )"]
    }
}

fn assert_default_migration(migration: &str) {
    DefaultMigration::get_fields()
        .iter()
        .for_each(|field| assert!(migration.contains(field)));
}

#[test]
fn returns_two_more_migrations_for_create_state_migrations() {
    let contract_state = TestState;
    let migrations = contract_state.get_migrations().unwrap();

    assert!(migrations.len() > contract_state.migrations().len() + 2);

    let create_tables = migrations.iter().filter(|m| m.contains("CREATE TABLE")).count();
    assert_eq!(create_tables, 2);
}

#[test]
fn appends_default_migration_to_create_state_views_migrations() {
    let contract_state = TestState;
    let migrations = contract_state.get_migrations().unwrap();
    let create_state_views_migration = migrations
        .iter()
        .find(|m| m.contains("CREATE TABLE") && !m.contains(STATE_VERSIONS_TABLE_PREFIX))
        .unwrap();

    assert_ne!(
        create_state_views_migration,
        contract_state.migrations().first().unwrap()
    );

    assert_default_migration(create_state_views_migration);
}

#[test]
fn removes_repeating_default_migrations_in_create_state_views_migration() {
    let contract_state = TestState;
    let migrations = contract_state.get_migrations().unwrap();
    let create_state_views_migration = migrations
        .iter()
        .find(|m| m.contains("CREATE TABLE") && !m.contains(STATE_VERSIONS_TABLE_PREFIX))
        .unwrap();

    assert_eq!(
        create_state_views_migration.matches("contract_address").count(),
        2
    );
    assert_eq!(
        create_state_views_migration.matches("pool_contract_address").count(),
        1
    )
}

#[test]
fn creates_an_extra_migration_for_creating_state_versions() {
    let contract_state = TestState;
    let migrations = contract_state.get_migrations().unwrap();
    let create_state_versions_migration = migrations
        .iter()
        .find(|m| m.contains("CREATE TABLE") && m.contains(STATE_VERSIONS_TABLE_PREFIX))
        .unwrap();

    assert!(create_state_versions_migration.contains(STATE_VERSIONS_TABLE_PREFIX));
    assert_default_migration(create_state_versions_migration);
}

#[test]
fn normalizes_user_primary_key_column_before_creating_state_versions_migrations() {
    let contract_state = TestStateWithPrimaryKey;
    let migrations = contract_state.get_migrations().unwrap();
    let create_state_versions_migration = migrations
        .iter()
        .find(|m| m.contains("CREATE TABLE") && m.contains(STATE_VERSIONS_TABLE_PREFIX))
        .unwrap();

    assert_eq!(
        create_state_versions_migration.matches("PRIMARY KEY").count(),
        1
    );
    assert_eq!(
        create_state_versions_migration.matches("id SERIAL PRIMARY KEY").count(),
        0
    );
    assert_eq!(
        create_state_versions_migration.matches("id SERIAL").count(),
        1
    );
}

#[test]
fn returns_other_migrations_untouched() {
    let contract_state = TestState;
    let migrations = contract_state.get_migrations().unwrap();

    assert_eq!(
        contract_state.migrations().last().unwrap(),
        migrations.last().unwrap()
    );
}

#[test]
fn returns_unique_index_migrations_for_state_versions() {
    let contract_state = TestState;
    let migrations = contract_state.get_migrations().unwrap();

    let unique_index_migration =
        migrations.iter().find(|m| m.contains("CREATE UNIQUE INDEX IF NOT EXISTS"));

    assert!(unique_index_migration.is_some());
    assert!(unique_index_migration.unwrap().contains("CREATE UNIQUE INDEX IF NOT EXISTS"));
}

#[test]
fn ignores_json_field_in_unique_index_migration() {
    let contract_state = TestStateWithJsonField;
    let migrations = contract_state.get_migrations().unwrap();

    let unique_index_migration = migrations.iter().find(|m| m.contains("CREATE UNIQUE INDEX"));

    if let Some(migration) = unique_index_migration {
        assert!(!migration.contains("json_field"));
    }
}

#[test]
fn table_names_and_reset_migrations_follow_created_tables() {
    let contract_state = TestState;
    assert_eq!(contract_state.get_table_names(), vec!["nft_states".to_string()]);
    let resets = contract_state.get_reset_migrations().unwrap();
    assert_eq!(
        resets,
        vec![
            "DROP TABLE IF EXISTS nft_states".to_string(),
            format!("DROP TABLE IF EXISTS {STATE_VERSIONS_TABLE_PREFIX}nft_states"),
        ]
    );
}

#[test]
fn unique_index_covers_user_and_essential_fields() {
    let migrations = TestStateWithPrimaryKey.get_migrations().unwrap();
    let index = migrations.iter().find(|m| m.contains("CREATE UNIQUE INDEX")).unwrap();
    assert_eq!(
        index,
        &format!(
            "CREATE UNIQUE INDEX IF NOT EXISTS unique_{p}nft_states ON {p}nft_states(id,token_id,contract_address,owner_address,chain_id,block_number,transaction_hash,log_index)",
            p = STATE_VERSIONS_TABLE_PREFIX
        )
    );
    assert!(migrations.contains(&format!("DROP INDEX IF EXISTS unique_{STATE_VERSIONS_TABLE_PREFIX}nft_states")));
    assert!(migrations.contains(&"ALTER TABLE IF EXISTS nft_states ADD COLUMN IF NOT EXISTS log_index INTEGER NOT NULL".to_string()));
}
