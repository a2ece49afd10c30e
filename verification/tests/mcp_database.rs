use oxify::mcp_database::{
    is_mutation, row_window, DatabaseConfig, DatabaseType,
};

#[test]
fn database_test_database_config() {
    let config = DatabaseConfig::sqlite("sqlite:test.db")
        .with_max_connections(10)
        .with_read_only(true)
        .with_max_rows(500);

    assert_eq!(config.max_connections, 10);
    assert!(config.read_only);
    assert_eq!(config.max_rows, 500);
    assert_eq!(config.db_type, DatabaseType::Sqlite);
}

#[test]
fn database_test_is_mutation() {
    assert!(is_mutation("INSERT INTO users (name) VALUES ('test')"));
    assert!(is_mutation("UPDATE users SET name = 'test'"));
    assert!(is_mutation("DELETE FROM users WHERE id = 1"));
    assert!(is_mutation("DROP TABLE users"));
    assert!(is_mutation("CREATE TABLE users (id INT)"));
    assert!(is_mutation("ALTER TABLE users ADD COLUMN age INT"));
    assert!(is_mutation("TRUNCATE TABLE users"));

    assert!(!is_mutation("SELECT * FROM users"));
    assert!(!is_mutation("  SELECT id FROM users"));
}

#[test]
fn test_database_type_default() {
    let db_type = DatabaseType::default();
    assert_eq!(db_type, DatabaseType::Sqlite);
}

#[test]
fn database_mutation_ignores_case_and_leading_space() {
    assert!(is_mutation("  insert into t values (1)"));
    assert!(is_mutation("\tdelete from t"));
    assert!(!is_mutation("\n select 1"));
    // EXPLAIN and WITH queries read when they name no writing statement.
    assert!(!is_mutation("explain select 1"));
    assert!(is_mutation("explain delete from t"));
    assert!(is_mutation(""));
}

#[test]
fn database_row_window() {
    assert_eq!(row_window(10, 500), (10, false));
    assert_eq!(row_window(501, 500), (500, true));
    assert_eq!(row_window(500, 500), (500, false));
}

#[test]
fn database_postgres_defaults() {
    let config = DatabaseConfig::postgres("postgres://localhost/db");
    assert_eq!(config.db_type, DatabaseType::Postgres);
    assert_eq!(config.connection_string, "postgres://localhost/db");
    assert!(!config.read_only);
}

#[test]
fn test_database_config() {
    let config = DatabaseConfig::sqlite("sqlite:test.db")
        .with_max_connections(10)
        .with_read_only(true)
        .with_max_rows(500);

    assert_eq!(config.max_connections, 10);
    assert!(config.read_only);
    assert_eq!(config.max_rows, 500);
    assert_eq!(config.db_type, DatabaseType::Sqlite);
}

#[test]
fn test_is_mutation() {
    assert!(is_mutation("INSERT INTO users (name) VALUES ('test')"));
    assert!(is_mutation("UPDATE users SET name = 'test'"));
    assert!(!is_mutation("SELECT * FROM users"));
}

#[test]
fn database_read_only_refuses_anything_but_a_read() {
    assert!(is_mutation("REPLACE INTO users (id) VALUES (1)"));
    assert!(is_mutation("WITH old AS (SELECT id FROM users) DELETE FROM users"));
    assert!(!is_mutation("WITH named AS (SELECT id FROM users) SELECT * FROM named"));
    assert!(is_mutation("-- note\nDELETE FROM users"));
    assert!(is_mutation("SELECT 1; DELETE FROM users"));
    assert!(!is_mutation("select id from users;"));
    assert!(!is_mutation("SELECT name FROM users WHERE id = 1  "));
}
