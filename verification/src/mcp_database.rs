//! The database tool server: its configuration, and the decisions it takes
//! on a tool call before and after the database is reached.

use vstd::prelude::*;
use crate::mcp::{McpError, is_execution_error, is_invalid_argument, is_tool_not_found};
use crate::text::{contains_seq, contains_str, decimal, has_prefix, starts_with, str_eq, to_decimal, to_uppercase, trim, trim_spec, uppercase_spec};

verus! {

/// The kind of database behind the server.
#[derive(Clone, Copy, Debug, PartialEq, Eq, Structural)]
pub enum DatabaseType {
    /// PostgreSQL (not supported).
    Postgres,
    /// MySQL (not supported).
    Mysql,
    /// SQLite.
    Sqlite,
}

impl Default for DatabaseType {
    fn default() -> (r: Self)
        ensures
            r == DatabaseType::Sqlite,
    {
        DatabaseType::Sqlite
    }
}

/// The configuration of the database server.
#[derive(Clone, Debug)]
pub struct DatabaseConfig {
    /// Connection string.
    pub connection_string: String,
    /// Kind of database.
    pub db_type: DatabaseType,
    /// Most connections in the pool.
    pub max_connections: u32,
    /// Connection timeout, in seconds.
    pub timeout_secs: u64,
    /// Whether mutations are refused.
    pub read_only: bool,
    /// Most rows a query returns.
    pub max_rows: usize,
}

/// The default pool size.
pub fn default_max_connections() -> (r: u32)
    ensures
        r == 5,
{
    5
}

/// The default connection timeout, in seconds.
pub fn default_timeout() -> (r: u64)
    ensures
        r == 30,
{
    30
}

/// The default limit on returned rows.
pub fn default_max_rows() -> (r: usize)
    ensures
        r == 1000,
{
    1000
}

impl DatabaseConfig {
    /// A writable SQLite configuration with the default limits.
    pub fn sqlite(connection_string: &str) -> (c: Self)
        ensures
            c.connection_string@ == connection_string@,
            c.db_type == DatabaseType::Sqlite,
            c.max_connections == 5,
            c.timeout_secs == 30,
            !c.read_only,
            c.max_rows == 1000,
    {
        DatabaseConfig {
            connection_string: connection_string.to_owned(),
            db_type: DatabaseType::Sqlite,
            max_connections: default_max_connections(),
            timeout_secs: default_timeout(),
            read_only: false,
            max_rows: default_max_rows(),
        }
    }

    /// A writable PostgreSQL configuration with the default limits (the
    /// server refuses to start on it).
    pub fn postgres(connection_string: &str) -> (c: Self)
        ensures
            c.connection_string@ == connection_string@,
            c.db_type == DatabaseType::Postgres,
            c.max_connections == 5,
            c.timeout_secs == 30,
            !c.read_only,
            c.max_rows == 1000,
    {
        DatabaseConfig {
            connection_string: connection_string.to_owned(),
            db_type: DatabaseType::Postgres,
            max_connections: default_max_connections(),
            timeout_secs: default_timeout(),
            read_only: false,
            max_rows: default_max_rows(),
        }
    }

    /// The same configuration with another pool size.
    pub fn with_max_connections(self, max: u32) -> (c: Self)
        ensures
            c == (DatabaseConfig { max_connections: max, ..self }),
    {
        DatabaseConfig { max_connections: max, ..self }
    }

    /// The same configuration, read-only or not.
    pub fn with_read_only(self, read_only: bool) -> (c: Self)
        ensures
            c == (DatabaseConfig { read_only, ..self }),
    {
        DatabaseConfig { read_only, ..self }
    }

    /// The same configuration with another limit on returned rows.
    pub fn with_max_rows(self, max_rows: usize) -> (c: Self)
        ensures
            c == (DatabaseConfig { max_rows, ..self }),
    {
        DatabaseConfig { max_rows, ..self }
    }
}

/// The outcome of a command.
#[derive(Clone, Copy, Debug)]
pub struct ExecuteResult {
    /// Rows affected.
    pub rows_affected: u64,
}

/// The outcome of one statement of a transaction.
#[derive(Debug)]
pub struct StatementResult {
    /// Position of the statement (from 0).
    pub index: usize,
    /// Rows affected.
    pub rows_affected: u64,
    /// The failure, if the statement failed.
    pub error: Option<String>,
}

/// The outcome of a transaction.
#[derive(Debug)]
pub struct TransactionResult {
    /// One result per statement run.
    pub statement_results: Vec<StatementResult>,
    /// Whether the transaction was committed.
    pub committed: bool,
}

/// The text names a statement that writes: INSERT, UPDATE, DELETE or
/// REPLACE occurs in it.
pub open spec fn names_write(u: Seq<char>) -> bool {
    contains_seq(u, "INSERT"@) || contains_seq(u, "UPDATE"@) || contains_seq(u, "DELETE"@)
        || contains_seq(u, "REPLACE"@)
}

/// A plain read, once trimmed and in upper case: a single statement (no `;`
/// but a final one) that is a SELECT, or a WITH query or an EXPLAIN that
/// names no writing statement.
pub open spec fn is_plain_read_text(u: Seq<char>) -> bool {
    &&& forall|i: int| 0 <= i < u.len() - 1 ==> u[i] != ';'
    &&& (has_prefix(u, "SELECT"@) || ((has_prefix(u, "WITH"@) || has_prefix(u, "EXPLAIN"@))
        && !names_write(u)))
}

/// `sql` may change data or schema, which read-only mode refuses: it is
/// not a plain read. Every statement the prefix test of INSERT, UPDATE,
/// DELETE, DROP, CREATE, ALTER and TRUNCATE catches is refused, and so is
/// anything else that may write (a REPLACE, a WITH or EXPLAIN naming a
/// writing statement, a leading comment, a second statement), since
/// read-only mode disables mutations.
pub open spec fn is_mutation_spec(sql: Seq<char>) -> bool {
    !is_plain_read_text(uppercase_spec(trim_spec(sql)))
}

/// No `;` in `s` before its last character.
fn single_statement(s: &str) -> (b: bool)
    ensures
        b == (forall|i: int| 0 <= i < s@.len() - 1 ==> s@[i] != ';'),
{
    let n = s.unicode_len();
    let mut i: usize = 0;
    while i < n && i + 1 < n
        invariant
            n == s@.len(),
            i <= n,
            forall|k: int| 0 <= k < i ==> s@[k] != ';',
        decreases n - i,
    {
        if s.get_char(i) == ';' {
            return false;
        }
        i = i + 1;
    }
    true
}

/// Whether `sql` may change data or schema, which read-only mode refuses:
/// it does unless, once trimmed and in upper case, it is a single SELECT,
/// or a single WITH or EXPLAIN that names no writing statement.
pub fn is_mutation(sql: &str) -> (b: bool)
    ensures
        b == is_mutation_spec(sql@),
{
    let t = trim(sql);
    let u = to_uppercase(t);
    let s = u.as_str();
    let writes = contains_str(s, "INSERT") || contains_str(s, "UPDATE") || contains_str(s, "DELETE")
        || contains_str(s, "REPLACE");
    !(single_statement(s) && (starts_with(s, "SELECT") || ((starts_with(s, "WITH") || starts_with(
        s,
        "EXPLAIN",
    )) && !writes)))
}

/// Of `total` rows, how many a query returns under `max_rows`, and whether
/// some were left out.
pub fn row_window(total: usize, max_rows: usize) -> (r: (usize, bool))
    ensures
        r.0 == if total < max_rows {
            total
        } else {
            max_rows
        },
        r.1 == (total > max_rows),
{
    if total < max_rows {
        (total, false)
    } else {
        (max_rows, total > max_rows)
    }
}

/// Refuses the database kinds the server does not implement.
pub fn check_database_type(t: DatabaseType) -> (r: Result<(), McpError>)
    ensures
        t == DatabaseType::Sqlite ==> r is Ok,
        t == DatabaseType::Postgres ==> (r matches Err(e) && is_execution_error(
            e,
            "Postgres is not yet supported. Only SQLite is currently implemented."@,
        )),
        t == DatabaseType::Mysql ==> (r matches Err(e) && is_execution_error(
            e,
            "Mysql is not yet supported. Only SQLite is currently implemented."@,
        )),
{
    match t {
        DatabaseType::Sqlite => Ok(()),
        DatabaseType::Postgres => Err(
            McpError::ToolExecutionError(
                String::from_str("Postgres is not yet supported. Only SQLite is currently implemented."),
            ),
        ),
        DatabaseType::Mysql => Err(
            McpError::ToolExecutionError(
                String::from_str("Mysql is not yet supported. Only SQLite is currently implemented."),
            ),
        ),
    }
}

/// The arguments of a database tool call, as read from its JSON object.
pub struct DbToolArgs {
    /// `sql`, when it is a string.
    pub sql: Option<String>,
    /// `statements`, when it is an array: each one's `sql`, when that is a string.
    pub statements: Option<Vec<Option<String>>>,
    /// `table`, when it is a string.
    pub table: Option<String>,
}

/// What a database tool call asks of the database.
#[derive(Debug)]
pub enum DbToolRequest {
    /// Run a query.
    Query { sql: String },
    /// Run a command.
    Execute { sql: String },
    /// Run statements in one transaction.
    Transaction { statements: Vec<String> },
    /// Describe a table with the given pragma.
    Describe { table: String, pragma: String },
    /// List the tables.
    Tables,
}

/// The `sql` of a statement (empty when it has none).
pub open spec fn sql_of(o: Option<String>) -> Seq<char> {
    match o {
        Some(t) => t@,
        None => Seq::empty(),
    }
}

/// The first statement of `s` that has no `sql`.
pub open spec fn first_missing(s: Seq<Option<String>>) -> Option<int> {
    if exists|i: int| 0 <= i < s.len() && s[i] is None {
        Some(choose|i: int| 0 <= i < s.len() && s[i] is None && forall|j: int| 0 <= j < i ==> s[j] is Some)
    } else {
        None
    }
}

/// `r` is the plan of the tool call `name` with `args` under `config`.
pub open spec fn db_plan(r: Result<DbToolRequest, McpError>, name: Seq<char>, args: DbToolArgs, read_only: bool) -> bool {
    if name == "db_query"@ {
        match args.sql {
            None => r matches Err(e) && is_invalid_argument(e, "sql is required"@),
            Some(sql) => if read_only && is_mutation_spec(sql@) {
                r matches Err(e) && is_execution_error(
                    e,
                    "Mutation queries are not allowed in read-only mode"@,
                )
            } else {
                r matches Ok(DbToolRequest::Query { sql: q }) && q@ == sql@
            },
        }
    } else if name == "db_execute"@ {
        if read_only {
            r matches Err(e) && is_execution_error(e, "Execute commands are not allowed in read-only mode"@)
        } else {
            match args.sql {
                None => r matches Err(e) && is_invalid_argument(e, "sql is required"@),
                Some(sql) => r matches Ok(DbToolRequest::Execute { sql: q }) && q@ == sql@,
            }
        }
    } else if name == "db_transaction"@ {
        if read_only {
            r matches Err(e) && is_execution_error(e, "Transactions are not allowed in read-only mode"@)
        } else {
            match args.statements {
                None => r matches Err(e) && is_invalid_argument(
                    e,
                    "statements is required and must be an array"@,
                ),
                Some(stmts) => match first_missing(stmts@) {
                    Some(i) => r matches Err(e) && is_invalid_argument(
                        e,
                        "Statement "@ + decimal(i as nat) + " is missing sql field"@,
                    ),
                    None => r matches Ok(DbToolRequest::Transaction { statements: q }) && q@.len()
                        == stmts@.len() && forall|k: int|
                        0 <= k < q@.len() ==> #[trigger] q@[k]@ == sql_of(stmts@[k]),
                },
            }
        }
    } else if name == "db_describe"@ {
        match args.table {
            None => r matches Err(e) && is_invalid_argument(e, "table is required"@),
            Some(t) => r matches Ok(DbToolRequest::Describe { table: q, pragma: p }) && q@ == t@
                && p@ == "PRAGMA table_info("@ + t@ + ")"@,
        }
    } else if name == "db_tables"@ {
        r matches Ok(DbToolRequest::Tables)
    } else {
        r matches Err(e) && is_tool_not_found(e, name)
    }
}

fn collect_statements(stmts: &Vec<Option<String>>) -> (r: Result<Vec<String>, McpError>)
    ensures
        match first_missing(stmts@) {
            Some(i) => r matches Err(e) && is_invalid_argument(
                e,
                "Statement "@ + decimal(i as nat) + " is missing sql field"@,
            ),
            None => r matches Ok(q) && q@.len() == stmts@.len() && forall|k: int|
                0 <= k < q@.len() ==> #[trigger] q@[k]@ == sql_of(stmts@[k]),
        },
{
    let mut out: Vec<String> = Vec::new();
    let mut i: usize = 0;
    while i < stmts.len()
        invariant
            i <= stmts@.len(),
            out@.len() == i,
            forall|j: int| 0 <= j < i ==> stmts@[j] is Some,
            forall|k: int| 0 <= k < i ==> #[trigger] out@[k]@ == sql_of(stmts@[k]),
        decreases stmts@.len() - i,
    {
        match &stmts[i] {
            None => {
                assert(first_missing(stmts@) == Some(i as int)) by {
                    let c = choose|c: int| 0 <= c < stmts@.len() && stmts@[c] is None && forall|j: int|
                        0 <= j < c ==> stmts@[j] is Some;
                    assert(stmts@[i as int] is None);
                    if c < i {
                    } else if c > i {
                    }
                }
                let msg = String::from_str("Statement ").concat(to_decimal(i).as_str()).concat(
                    " is missing sql field",
                );
                return Err(McpError::InvalidArgument(msg));
            },
            Some(t) => {
                out.push(t.clone());
            },
        }
        i = i + 1;
    }
    assert(first_missing(stmts@) is None);
    Ok(out)
}

/// Decides what a database tool call asks of the database, or refuses it:
/// a missing argument, a mutation or a command in read-only mode, or an
/// unknown tool.
pub fn plan_db_tool(name: &str, args: &DbToolArgs, config: &DatabaseConfig) -> (r: Result<DbToolRequest, McpError>)
    ensures
        db_plan(r, name@, *args, config.read_only),
{
    if str_eq(name, "db_query") {
        match &args.sql {
            None => Err(McpError::InvalidArgument(String::from_str("sql is required"))),
            Some(sql) => {
                if config.read_only && is_mutation(sql.as_str()) {
                    Err(
                        McpError::ToolExecutionError(
                            String::from_str("Mutation queries are not allowed in read-only mode"),
                        ),
                    )
                } else {
                    Ok(DbToolRequest::Query { sql: sql.clone() })
                }
            },
        }
    } else if str_eq(name, "db_execute") {
        if config.read_only {
            return Err(
                McpError::ToolExecutionError(
                    String::from_str("Execute commands are not allowed in read-only mode"),
                ),
            );
        }
        match &args.sql {
            None => Err(McpError::InvalidArgument(String::from_str("sql is required"))),
            Some(sql) => Ok(DbToolRequest::Execute { sql: sql.clone() }),
        }
    } else if str_eq(name, "db_transaction") {
        if config.read_only {
            return Err(
                McpError::ToolExecutionError(
                    String::from_str("Transactions are not allowed in read-only mode"),
                ),
            );
        }
        match &args.statements {
            None => Err(
                McpError::InvalidArgument(
                    String::from_str("statements is required and must be an array"),
                ),
            ),
            Some(stmts) => match collect_statements(stmts) {
                Ok(q) => Ok(DbToolRequest::Transaction { statements: q }),
                Err(e) => Err(e),
            },
        }
    } else if str_eq(name, "db_describe") {
        match &args.table {
            None => Err(McpError::InvalidArgument(String::from_str("table is required"))),
            Some(t) => {
                let pragma = String::from_str("PRAGMA table_info(").concat(t.as_str()).concat(")");
                Ok(DbToolRequest::Describe { table: t.clone(), pragma })
            },
        }
    } else if str_eq(name, "db_tables") {
        Ok(DbToolRequest::Tables)
    } else {
        Err(McpError::ToolNotFound(name.to_owned()))
    }
}

/// The position of the first failed statement among `outcomes`.
pub open spec fn first_failure(outcomes: Seq<Result<u64, String>>) -> Option<int> {
    if exists|i: int| 0 <= i < outcomes.len() && outcomes[i] is Err {
        Some(choose|i: int| 0 <= i < outcomes.len() && outcomes[i] is Err && forall|j: int| 0 <= j < i ==> outcomes[j] is Ok)
    } else {
        None
    }
}

/// The result of a transaction whose statements ran with `outcomes`, in
/// order: statements after the first failure are not run, and the
/// transaction is committed only when none failed.
#[verifier::spinoff_prover]
pub fn transaction_result(outcomes: &Vec<Result<u64, String>>) -> (r: TransactionResult)
    ensures
        r.committed == (first_failure(outcomes@) is None),
        r.statement_results@.len() == match first_failure(outcomes@) {
            Some(i) => i + 1,
            None => outcomes@.len() as int,
        },
        forall|k: int|
            0 <= k < r.statement_results@.len() ==> #[trigger] r.statement_results@[k].index == k
                && match outcomes@[k] {
                Ok(n) => r.statement_results@[k].rows_affected == n && r.statement_results@[k].error is None,
                Err(m) => r.statement_results@[k].rows_affected == 0 && (r.statement_results@[k].error matches Some(x) && x@ == m@),
            },
{
    let mut results: Vec<StatementResult> = Vec::new();
    let mut i: usize = 0;
    while i < outcomes.len()
        invariant
            i <= outcomes@.len(),
            results@.len() == i,
            forall|j: int| 0 <= j < i ==> outcomes@[j] is Ok,
            forall|k: int|
                0 <= k < results@.len() ==> #[trigger] results@[k].index == k && match outcomes@[k] {
                    Ok(n) => results@[k].rows_affected == n && results@[k].error is None,
                    Err(m) => results@[k].rows_affected == 0 && (results@[k].error matches Some(x) && x@ == m@),
                },
        decreases outcomes@.len() - i,
    {
        match &outcomes[i] {
            Ok(n) => {
                results.push(StatementResult { index: i, rows_affected: *n, error: None });
            },
            Err(m) => {
                results.push(StatementResult { index: i, rows_affected: 0, error: Some(m.clone()) });
                assert(first_failure(outcomes@) == Some(i as int)) by {
                    let c = choose|c: int| 0 <= c < outcomes@.len() && outcomes@[c] is Err && forall|j: int|
                        0 <= j < c ==> outcomes@[j] is Ok;
                    assert(outcomes@[i as int] is Err);
                    if c < i {
                    } else if c > i {
                    }
                }
                return TransactionResult { statement_results: results, committed: false };
            },
        }
        i = i + 1;
    }
    assert(first_failure(outcomes@) is None);
    TransactionResult { statement_results: results, committed: true }
}

} // verus!
