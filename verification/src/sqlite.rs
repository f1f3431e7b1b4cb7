use vstd::prelude::*;

use diesel::Connection;
use diesel::RunQueryDsl;

verus! {

#[verifier::external_type_specification]
#[verifier::external_body]
pub struct ExSqliteConnection(diesel::SqliteConnection);

#[verifier::external_type_specification]
#[verifier::external_body]
pub struct ExDieselError(diesel::result::Error);

#[verifier::external_type_specification]
#[verifier::external_body]
pub struct ExConnectionError(diesel::ConnectionError);

/// The rows of the kv table as the connection's statements see them now:
/// inside an open transaction this includes that transaction's own
/// uncommitted writes.
pub uninterp spec fn table_of(conn: diesel::SqliteConnection) -> Map<Seq<char>, Seq<u8>>;

/// The rows of the kv table as last committed. Outside a transaction this
/// coincides with `table_of`.
pub uninterp spec fn committed_of(conn: diesel::SqliteConnection) -> Map<Seq<char>, Seq<u8>>;

/// Whether an explicit transaction is open on the connection.
pub uninterp spec fn conn_in_txn(conn: diesel::SqliteConnection) -> bool;

/// Relies on `diesel::Connection::establish` with sqlite's in-memory url: a
/// fresh, private database with no open transaction.
#[verifier::external_body]
pub(crate) fn establish_memory() -> (r: Result<diesel::SqliteConnection, diesel::ConnectionError>)
    ensures
        match r {
            Ok(conn) => !conn_in_txn(conn),
            Err(_) => true,
        },
{
    diesel::Connection::establish(":memory:")
}

/// Relies on `diesel::Connection::execute` running CREATE TABLE: the newly
/// created table is empty, and DDL run outside a transaction autocommits,
/// leaving no transaction open. A failed CREATE TABLE changes nothing.
#[verifier::external_body]
pub(crate) fn exec_create_table(conn: &mut diesel::SqliteConnection) -> (r: Result<
    usize,
    diesel::result::Error,
>)
    requires
        !conn_in_txn(*old(conn)),
    ensures
        match r {
            Ok(_) => !conn_in_txn(*final(conn)) && table_of(*final(conn)) == Map::<
                Seq<char>,
                Seq<u8>,
            >::empty() && committed_of(*final(conn)) == Map::<Seq<char>, Seq<u8>>::empty(),
            Err(_) => !conn_in_txn(*final(conn)) && table_of(*final(conn)) == table_of(*old(conn))
                && committed_of(*final(conn)) == committed_of(*old(conn)),
        },
{
    (&*conn).execute("CREATE TABLE kv_table (key TEXT PRIMARY KEY NOT NULL, value BLOB NOT NULL)")
}

/// Relies on `diesel::Connection::execute` running BEGIN IMMEDIATE: on
/// success a write-locking transaction is open and the visible rows are
/// unchanged; a failed BEGIN (for instance, the write lock is busy) leaves
/// no transaction open and changes nothing.
#[verifier::external_body]
pub(crate) fn exec_begin_immediate(conn: &mut diesel::SqliteConnection) -> (r: Result<
    usize,
    diesel::result::Error,
>)
    requires
        !conn_in_txn(*old(conn)),
    ensures
        table_of(*final(conn)) == table_of(*old(conn)),
        committed_of(*final(conn)) == committed_of(*old(conn)),
        match r {
            Ok(_) => conn_in_txn(*final(conn)),
            Err(_) => !conn_in_txn(*final(conn)),
        },
{
    (&*conn).execute("BEGIN IMMEDIATE")
}

/// Relies on `diesel::Connection::execute` running COMMIT: on success the
/// open transaction's rows become the committed rows and the transaction is
/// closed. A COMMIT that fails has not committed: the previously committed
/// rows are intact (sqlite either keeps the transaction open or rolls it
/// back on such an error, so nothing of it is promised here beyond that).
#[verifier::external_body]
pub(crate) fn exec_commit(conn: &mut diesel::SqliteConnection) -> (r: Result<
    usize,
    diesel::result::Error,
>)
    requires
        conn_in_txn(*old(conn)),
    ensures
        match r {
            Ok(_) => !conn_in_txn(*final(conn)) && committed_of(*final(conn)) == table_of(
                *old(conn),
            ) && table_of(*final(conn)) == table_of(*old(conn)),
            Err(_) => committed_of(*final(conn)) == committed_of(*old(conn)),
        },
{
    (&*conn).execute("COMMIT")
}

/// Relies on `diesel::Connection::execute` running ROLLBACK, with the result
/// ignored: if a transaction is open it is rolled back whole, restoring the
/// committed rows; if none is open (sqlite may already have rolled back a
/// failed transaction) the statement errors and changes nothing, and the
/// visible rows already are the committed rows. Either way no transaction
/// remains open and the committed rows are untouched.
#[verifier::external_body]
pub(crate) fn exec_rollback(conn: &mut diesel::SqliteConnection)
    ensures
        !conn_in_txn(*final(conn)),
        committed_of(*final(conn)) == committed_of(*old(conn)),
        table_of(*final(conn)) == committed_of(*final(conn)),
{
    let _ = (&*conn).execute("ROLLBACK");
}

/// Relies on `diesel::dsl::sql` with a bound key and `RunQueryDsl::load`:
/// SELECT of the value column for one key returns the bytes stored under
/// that key, and no row exactly when the key is absent (`key` is the
/// table's primary key, so at most one row matches). A SELECT changes no
/// rows.
#[verifier::external_body]
pub(crate) fn exec_select(conn: &diesel::SqliteConnection, key: &String) -> (r: Result<
    Option<Vec<u8>>,
    diesel::result::Error,
>)
    ensures
        match r {
            Ok(Some(v)) => table_of(*conn).contains_key(key@) && v@ == table_of(*conn)[key@],
            Ok(None) => !table_of(*conn).contains_key(key@),
            Err(_) => true,
        },
{
    let rows = diesel::dsl::sql::<diesel::sql_types::Binary>(
        "SELECT value FROM kv_table WHERE key = ",
    ).bind::<diesel::sql_types::Text, _>(key.as_str()).load::<Vec<u8>>(conn);
    rows.map(|items| items.into_iter().next())
}

/// Relies on `diesel::sql_query` with bound parameters and
/// `RunQueryDsl::execute`: INSERT OR REPLACE upserts exactly the given row
/// inside the open transaction; the committed rows stay what they were. A
/// failed statement has not committed anything either (sqlite rolls back
/// the statement, or the transaction, but never commits it).
#[verifier::external_body]
pub(crate) fn exec_replace(
    conn: &mut diesel::SqliteConnection,
    key: &String,
    value: &Vec<u8>,
) -> (r: Result<usize, diesel::result::Error>)
    requires
        conn_in_txn(*old(conn)),
    ensures
        committed_of(*final(conn)) == committed_of(*old(conn)),
        match r {
            Ok(_) => conn_in_txn(*final(conn)) && table_of(*final(conn)) == table_of(
                *old(conn),
            ).insert(key@, value@),
            Err(_) => true,
        },
{
    diesel::sql_query("INSERT OR REPLACE INTO kv_table (key, value) VALUES (?, ?)").bind::<
        diesel::sql_types::Text,
        _,
    >(key.as_str()).bind::<diesel::sql_types::Binary, _>(value.as_slice()).execute(&*conn)
}

/// Relies on `diesel::sql_query` with a bound key and
/// `RunQueryDsl::execute`: DELETE removes the row with the given key inside
/// the open transaction, and is a successful no-op when the key is absent;
/// the committed rows stay what they were. A failed statement has not
/// committed anything either.
#[verifier::external_body]
pub(crate) fn exec_delete(conn: &mut diesel::SqliteConnection, key: &String) -> (r: Result<
    usize,
    diesel::result::Error,
>)
    requires
        conn_in_txn(*old(conn)),
    ensures
        committed_of(*final(conn)) == committed_of(*old(conn)),
        match r {
            Ok(_) => conn_in_txn(*final(conn)) && table_of(*final(conn)) == table_of(
                *old(conn),
            ).remove(key@),
            Err(_) => true,
        },
{
    diesel::sql_query("DELETE FROM kv_table WHERE key = ?").bind::<diesel::sql_types::Text, _>(
        key.as_str(),
    ).execute(&*conn)
}

} // verus!
