use vstd::prelude::*;

use crate::codec::{entry_views, undecodable, KVCodec};
use crate::errors::KVError;
use crate::model::{key_views, lemma_contains_take_succ, matched_records, remove_all, upsert_all};
use crate::record::{record_views, KeyValue};
use crate::sqlite::{
    committed_of, conn_in_txn, establish_memory, exec_begin_immediate, exec_commit,
    exec_create_table, exec_delete, exec_replace, exec_rollback, exec_select, table_of,
};

verus! {

/// Whether some record among `ms` cannot be decoded as a `T` at all.
pub open spec fn some_record_undecodable<T: KVCodec>(ms: Seq<(Seq<char>, Seq<u8>)>) -> bool {
    exists|j: int| 0 <= j < ms.len() && undecodable::<T>((#[trigger] ms[j]).0, ms[j].1)
}

/// The raw record store bound to one open connection: key-addressed
/// statements against the kv table. Single statements run here; atomicity
/// comes from the write-locking transaction that `GridKVPersistence` opens
/// around them with `begin`, `commit` and `rollback`.
pub struct SqliteTransaction {
    conn: diesel::SqliteConnection,
}

impl SqliteTransaction {
    /// The rows its statements see now; inside an open transaction this
    /// includes the transaction's own uncommitted writes.
    pub closed spec fn pending(&self) -> Map<Seq<char>, Seq<u8>> {
        table_of(self.conn)
    }

    /// The rows as last committed.
    pub closed spec fn committed(&self) -> Map<Seq<char>, Seq<u8>> {
        committed_of(self.conn)
    }

    /// Whether an explicit transaction is open.
    pub closed spec fn in_transaction(&self) -> bool {
        conn_in_txn(self.conn)
    }

    /// Wraps an open connection.
    pub fn new(conn: diesel::SqliteConnection) -> (r: SqliteTransaction)
        ensures
            r.pending() == table_of(conn),
            r.committed() == committed_of(conn),
            r.in_transaction() == conn_in_txn(conn),
    {
        SqliteTransaction { conn }
    }

    /// Opens a write-locking (immediate) transaction: the write lock is
    /// taken now, before any statement runs, serializing concurrent writers.
    pub fn begin(&mut self) -> (r: Result<(), KVError>)
        requires
            !old(self).in_transaction(),
        ensures
            final(self).committed() == old(self).committed(),
            final(self).pending() == old(self).pending(),
            match r {
                Ok(()) => final(self).in_transaction(),
                Err(e) => !final(self).in_transaction() && e == KVError::Statement,
            },
    {
        match exec_begin_immediate(&mut self.conn) {
            Ok(_) => Ok(()),
            Err(_) => Err(KVError::Statement),
        }
    }

    /// Commits the open transaction: its rows become the committed rows. A
    /// failed commit has committed nothing.
    pub fn commit(&mut self) -> (r: Result<(), KVError>)
        requires
            old(self).in_transaction(),
        ensures
            match r {
                Ok(()) => !final(self).in_transaction() && final(self).committed() == old(
                    self,
                ).pending() && final(self).pending() == old(self).pending(),
                Err(e) => final(self).committed() == old(self).committed() && e
                    == KVError::Statement,
            },
    {
        match exec_commit(&mut self.conn) {
            Ok(_) => Ok(()),
            Err(_) => Err(KVError::Statement),
        }
    }

    /// Abandons the open transaction, if one is still open, restoring the
    /// committed rows untouched.
    pub fn rollback(&mut self)
        ensures
            !final(self).in_transaction(),
            final(self).committed() == old(self).committed(),
            final(self).pending() == final(self).committed(),
    {
        exec_rollback(&mut self.conn);
    }

    /// The record stored under `key`, if any.
    pub fn get_raw(&self, key: &String) -> (r: Result<Option<KeyValue>, KVError>)
        ensures
            match r {
                Ok(Some(kv)) => self.pending().contains_key(key@) && kv.key@ == key@ && kv.value@
                    == self.pending()[key@],
                Ok(None) => !self.pending().contains_key(key@),
                Err(e) => e == KVError::Statement,
            },
    {
        match exec_select(&self.conn, key) {
            Ok(Some(v)) => Ok(Some(KeyValue { key: key.clone(), value: v })),
            Ok(None) => Ok(None),
            Err(_) => Err(KVError::Statement),
        }
    }

    /// Upserts one record: inserted if absent, fully overwritten if present.
    pub fn set_raw(&mut self, item: &KeyValue) -> (r: Result<(), KVError>)
        requires
            old(self).in_transaction(),
        ensures
            final(self).committed() == old(self).committed(),
            match r {
                Ok(()) => final(self).in_transaction() && final(self).pending() == old(
                    self,
                ).pending().insert(item.key@, item.value@),
                Err(e) => e == KVError::Statement,
            },
    {
        match exec_replace(&mut self.conn, &item.key, &item.value) {
            Ok(_) => Ok(()),
            Err(_) => Err(KVError::Statement),
        }
    }

    /// Deletes the record under `key`; a no-op, not an error, if absent.
    pub fn remove_raw(&mut self, key: &String) -> (r: Result<(), KVError>)
        requires
            old(self).in_transaction(),
        ensures
            final(self).committed() == old(self).committed(),
            match r {
                Ok(()) => final(self).in_transaction() && final(self).pending() == old(
                    self,
                ).pending().remove(key@),
                Err(e) => e == KVError::Statement,
            },
    {
        match exec_delete(&mut self.conn, key) {
            Ok(_) => Ok(()),
            Err(_) => Err(KVError::Statement),
        }
    }

    /// The records for the given key set: each distinct key is fetched once,
    /// at its first occurrence; absent keys and repeated occurrences are
    /// silently omitted.
    pub fn batch_get_raw(&self, keys: &Vec<String>) -> (r: Result<Vec<KeyValue>, KVError>)
        ensures
            match r {
                Ok(items) => record_views(items@) == matched_records(
                    self.pending(),
                    key_views(keys@),
                ),
                Err(e) => e == KVError::Statement,
            },
    {
        let ghost kvs = key_views(keys@);
        let mut items: Vec<KeyValue> = Vec::new();
        proof {
            assert(record_views(items@) =~= matched_records(self.pending(), kvs.take(0)));
        }
        let mut i: usize = 0;
        while i < keys.len()
            invariant
                0 <= i <= keys@.len(),
                kvs == key_views(keys@),
                record_views(items@) == matched_records(self.pending(), kvs.take(i as int)),
            decreases keys@.len() - i,
        {
            let key = &keys[i];
            proof {
                assert(kvs.take(i as int + 1).drop_last() =~= kvs.take(i as int));
                assert(kvs.take(i as int + 1).last() == key@);
                assert(kvs[i as int] == key@);
                assert(!kvs.take(0).contains(kvs[i as int]));
            }
            let mut seen = false;
            let mut j: usize = 0;
            while j < i
                invariant
                    0 <= j <= i < keys@.len(),
                    kvs == key_views(keys@),
                    key@ == kvs[i as int],
                    seen == kvs.take(j as int).contains(kvs[i as int]),
                decreases i - j,
            {
                if keys[j].eq(key) {
                    seen = true;
                }
                proof {
                    assert(kvs[j as int] == keys@[j as int]@);
                    lemma_contains_take_succ(kvs, j as int, kvs[i as int]);
                }
                j = j + 1;
            }
            if seen {
                proof {
                    assert(record_views(items@) =~= matched_records(
                        self.pending(),
                        kvs.take(i as int + 1),
                    ));
                }
            } else {
                match exec_select(&self.conn, key) {
                    Ok(Some(v)) => {
                        items.push(KeyValue { key: key.clone(), value: v });
                        proof {
                            assert(record_views(items@) =~= matched_records(
                                self.pending(),
                                kvs.take(i as int + 1),
                            ));
                        }
                    },
                    Ok(None) => {
                        proof {
                            assert(record_views(items@) =~= matched_records(
                                self.pending(),
                                kvs.take(i as int + 1),
                            ));
                        }
                    },
                    Err(_) => {
                        return Err(KVError::Statement);
                    },
                }
            }
            i = i + 1;
        }
        proof {
            assert(kvs.take(keys@.len() as int) =~= kvs);
        }
        Ok(items)
    }

    /// Upserts all given records, in order; within one transaction the batch
    /// is all-or-nothing.
    pub fn batch_set_raw(&mut self, items: &Vec<KeyValue>) -> (r: Result<(), KVError>)
        requires
            old(self).in_transaction(),
        ensures
            final(self).committed() == old(self).committed(),
            match r {
                Ok(()) => final(self).in_transaction() && final(self).pending() == upsert_all(
                    old(self).pending(),
                    record_views(items@),
                ),
                Err(e) => e == KVError::Statement,
            },
    {
        let ghost entries = record_views(items@);
        let mut i: usize = 0;
        while i < items.len()
            invariant
                0 <= i <= items@.len(),
                entries == record_views(items@),
                self.in_transaction(),
                self.committed() == old(self).committed(),
                self.pending() == upsert_all(old(self).pending(), entries.take(i as int)),
            decreases items@.len() - i,
        {
            let item = &items[i];
            proof {
                assert(entries.take(i as int + 1).drop_last() =~= entries.take(i as int));
                assert(entries.take(i as int + 1).last() == item@);
            }
            match self.set_raw(item) {
                Ok(()) => {},
                Err(e) => {
                    return Err(e);
                },
            }
            i = i + 1;
        }
        proof {
            assert(entries.take(items@.len() as int) =~= entries);
        }
        Ok(())
    }

    /// Deletes all given keys, in order; within one transaction the batch is
    /// all-or-nothing, and absent keys are no-ops.
    pub fn batch_remove_raw(&mut self, keys: &Vec<String>) -> (r: Result<(), KVError>)
        requires
            old(self).in_transaction(),
        ensures
            final(self).committed() == old(self).committed(),
            match r {
                Ok(()) => final(self).in_transaction() && final(self).pending() == remove_all(
                    old(self).pending(),
                    key_views(keys@),
                ),
                Err(e) => e == KVError::Statement,
            },
    {
        let ghost kvs = key_views(keys@);
        let mut i: usize = 0;
        while i < keys.len()
            invariant
                0 <= i <= keys@.len(),
                kvs == key_views(keys@),
                self.in_transaction(),
                self.committed() == old(self).committed(),
                self.pending() == remove_all(old(self).pending(), kvs.take(i as int)),
            decreases keys@.len() - i,
        {
            let key = &keys[i];
            proof {
                assert(kvs.take(i as int + 1).drop_last() =~= kvs.take(i as int));
                assert(kvs.take(i as int + 1).last() == key@);
            }
            match self.remove_raw(key) {
                Ok(()) => {},
                Err(e) => {
                    return Err(e);
                },
            }
            i = i + 1;
        }
        proof {
            assert(kvs.take(keys@.len() as int) =~= kvs);
        }
        Ok(())
    }

    /// Fetches and decodes the record under `key`; absence is `Ok(None)`.
    pub fn get<T: KVCodec>(&self, key: &String) -> (r: Result<Option<T>, KVError>)
        ensures
            match r {
                Ok(None) => !self.pending().contains_key(key@),
                Ok(Some(t)) => self.pending().contains_key(key@) && T::decodes_to(
                    key@,
                    self.pending()[key@],
                    t,
                ),
                Err(e) => e == KVError::Statement || (e == KVError::Deserialize
                    && self.pending().contains_key(key@) && undecodable::<T>(
                    key@,
                    self.pending()[key@],
                )),
            },
    {
        match self.get_raw(key) {
            Ok(Some(kv)) => match kv.try_into_typed::<T>() {
                Ok(t) => Ok(Some(t)),
                Err(e) => Err(e),
            },
            Ok(None) => Ok(None),
            Err(e) => Err(e),
        }
    }

    /// Converts a value through its codec and upserts the record.
    pub fn set<T: KVCodec>(&mut self, value: &T) -> (r: Result<(), KVError>)
        requires
            old(self).in_transaction(),
        ensures
            final(self).committed() == old(self).committed(),
            match r {
                Ok(()) => final(self).in_transaction() && final(self).pending() == old(
                    self,
                ).pending().insert(value.key_spec(), value.encoded()),
                Err(e) => e == KVError::Statement,
            },
    {
        let item = KeyValue::from_typed(value);
        self.set_raw(&item)
    }

    /// Fetches the record of each distinct matching key once and decodes it;
    /// one undecodable record fails the whole call, with no partial results.
    pub fn batch_get<T: KVCodec>(&self, keys: &Vec<String>) -> (r: Result<Vec<T>, KVError>)
        ensures
            ({
                let ms = matched_records(self.pending(), key_views(keys@));
                match r {
                    Ok(vs) => vs@.len() == ms.len() && (forall|j: int|
                        0 <= j < ms.len() ==> T::decodes_to(
                            (#[trigger] ms[j]).0,
                            ms[j].1,
                            vs@[j],
                        )),
                    Err(e) => e == KVError::Statement || (e == KVError::Deserialize
                        && some_record_undecodable::<T>(ms)),
                }
            }),
    {
        let ghost ms = matched_records(self.pending(), key_views(keys@));
        let raw = match self.batch_get_raw(keys) {
            Ok(x) => x,
            Err(e) => {
                return Err(e);
            },
        };
        let mut vs: Vec<T> = Vec::new();
        let mut i: usize = 0;
        while i < raw.len()
            invariant
                0 <= i <= raw@.len(),
                ms == matched_records(self.pending(), key_views(keys@)),
                record_views(raw@) == ms,
                vs@.len() == i,
                forall|j: int|
                    0 <= j < i ==> T::decodes_to((#[trigger] ms[j]).0, ms[j].1, vs@[j]),
            decreases raw@.len() - i,
        {
            proof {
                assert(raw@[i as int]@ == ms[i as int]);
            }
            match raw[i].try_into_typed::<T>() {
                Ok(t) => {
                    vs.push(t);
                },
                Err(e) => {
                    proof {
                        assert(ms.len() == raw@.len());
                        assert(undecodable::<T>((ms[i as int]).0, ms[i as int].1));
                        assert(some_record_undecodable::<T>(ms));
                    }
                    return Err(e);
                },
            }
            i = i + 1;
        }
        Ok(vs)
    }

    /// Converts every value first, then upserts all records, in order.
    pub fn batch_set<T: KVCodec>(&mut self, values: &Vec<T>) -> (r: Result<(), KVError>)
        requires
            old(self).in_transaction(),
        ensures
            final(self).committed() == old(self).committed(),
            match r {
                Ok(()) => final(self).in_transaction() && final(self).pending() == upsert_all(
                    old(self).pending(),
                    entry_views::<T>(values@),
                ),
                Err(e) => e == KVError::Statement,
            },
    {
        let mut items: Vec<KeyValue> = Vec::new();
        let mut i: usize = 0;
        while i < values.len()
            invariant
                0 <= i <= values@.len(),
                items@.len() == i,
                forall|j: int|
                    0 <= j < i ==> (#[trigger] items@[j]).key@ == values@[j].key_spec()
                        && items@[j].value@ == values@[j].encoded(),
            decreases values@.len() - i,
        {
            items.push(KeyValue::from_typed(&values[i]));
            i = i + 1;
        }
        proof {
            assert(record_views(items@) =~= entry_views::<T>(values@));
        }
        self.batch_set_raw(&items)
    }
}

/// The transactional key-value interface of the store: single and batch
/// get/set/remove, generic over any type satisfying the codec contract.
/// Every call runs in its own transaction; between calls the handle is idle
/// (`inv`) and shows its committed contents (`store_map`).
pub trait KVTransaction: Sized {
    /// The committed contents visible between calls.
    spec fn store_map(&self) -> Map<Seq<char>, Seq<u8>>;

    /// The handle is idle: no transaction of its own is open.
    spec fn inv(&self) -> bool;

    /// Fetches the record for `key` and decodes it; absence is reported as
    /// `Ok(None)`, and stored bytes that do not match `T`'s layout as
    /// `Err(Deserialize)`.
    fn get<T: KVCodec>(&mut self, key: &String) -> (r: Result<Option<T>, KVError>)
        requires
            old(self).inv(),
        ensures
            final(self).inv(),
            final(self).store_map() == old(self).store_map(),
            match r {
                Ok(None) => !old(self).store_map().contains_key(key@),
                Ok(Some(t)) => old(self).store_map().contains_key(key@) && T::decodes_to(
                    key@,
                    old(self).store_map()[key@],
                    t,
                ),
                Err(e) => e == KVError::Statement || (e == KVError::Deserialize && old(
                    self,
                ).store_map().contains_key(key@) && undecodable::<T>(
                    key@,
                    old(self).store_map()[key@],
                )),
            },
    ;

    /// Upserts `value` under its own key: inserted if absent, fully replaced
    /// if present. Conversion is total and never fails; a failed call leaves
    /// the store unchanged.
    fn set<T: KVCodec>(&mut self, value: &T) -> (r: Result<(), KVError>)
        requires
            old(self).inv(),
        ensures
            final(self).inv(),
            match r {
                Ok(()) => final(self).store_map() == old(self).store_map().insert(
                    value.key_spec(),
                    value.encoded(),
                ),
                Err(e) => final(self).store_map() == old(self).store_map() && e
                    == KVError::Statement,
            },
    ;

    /// Deletes the record for `key`; removing an absent key succeeds as a
    /// no-op. A failed call leaves the store unchanged.
    fn remove(&mut self, key: &String) -> (r: Result<(), KVError>)
        requires
            old(self).inv(),
        ensures
            final(self).inv(),
            match r {
                Ok(()) => final(self).store_map() == old(self).store_map().remove(key@),
                Err(e) => final(self).store_map() == old(self).store_map() && e
                    == KVError::Statement,
            },
    ;

    /// Fetches the record of each distinct key of the given key set once, at
    /// its first occurrence, and decodes it; keys with no record are silently
    /// omitted, and one undecodable record fails the whole call with no
    /// partial results.
    fn batch_get<T: KVCodec>(&mut self, keys: &Vec<String>) -> (r: Result<Vec<T>, KVError>)
        requires
            old(self).inv(),
        ensures
            final(self).inv(),
            final(self).store_map() == old(self).store_map(),
            ({
                let ms = matched_records(old(self).store_map(), key_views(keys@));
                match r {
                    Ok(vs) => vs@.len() == ms.len() && (forall|j: int|
                        0 <= j < ms.len() ==> T::decodes_to(
                            (#[trigger] ms[j]).0,
                            ms[j].1,
                            vs@[j],
                        )),
                    Err(e) => e == KVError::Statement || (e == KVError::Deserialize
                        && some_record_undecodable::<T>(ms)),
                }
            }),
    ;

    /// Converts every value, then upserts all records within one
    /// transaction, in order; the batch is all-or-nothing: a failure at any
    /// point leaves the store unchanged.
    fn batch_set<T: KVCodec>(&mut self, values: &Vec<T>) -> (r: Result<(), KVError>)
        requires
            old(self).inv(),
        ensures
            final(self).inv(),
            match r {
                Ok(()) => final(self).store_map() == upsert_all(
                    old(self).store_map(),
                    entry_views::<T>(values@),
                ),
                Err(e) => final(self).store_map() == old(self).store_map() && e
                    == KVError::Statement,
            },
    ;

    /// Deletes all given keys within one transaction, in order; absent keys
    /// are no-ops, and the batch is all-or-nothing: a failure at any point
    /// leaves the store unchanged.
    fn batch_remove(&mut self, keys: &Vec<String>) -> (r: Result<(), KVError>)
        requires
            old(self).inv(),
        ensures
            final(self).inv(),
            match r {
                Ok(()) => final(self).store_map() == remove_all(
                    old(self).store_map(),
                    key_views(keys@),
                ),
                Err(e) => final(self).store_map() == old(self).store_map() && e
                    == KVError::Statement,
            },
    ;
}

/// The key-value store: the public API. Every operation, single or batch,
/// opens its own write-locking transaction, commits it on success, and rolls
/// it back whole on any failure, so a failed call leaves the committed rows
/// exactly as they were.
pub struct GridKVPersistence {
    txn: SqliteTransaction,
}

impl View for GridKVPersistence {
    type V = Map<Seq<char>, Seq<u8>>;

    /// A store is viewed as the committed contents of its table.
    closed spec fn view(&self) -> Map<Seq<char>, Seq<u8>> {
        self.txn.committed()
    }
}

impl GridKVPersistence {
    /// Between calls no transaction is open and the visible rows are the
    /// committed rows.
    pub closed spec fn wf(&self) -> bool {
        &&& !self.txn.in_transaction()
        &&& self.txn.pending() == self.txn.committed()
    }

    /// A store over an already-open connection to a database holding the kv
    /// table, with no transaction open on it. The store must own the
    /// database exclusively: the contracts treat the table as a function of
    /// this connection alone, which another writer to the same database (for
    /// instance through a shared file) would falsify.
    pub fn new(conn: diesel::SqliteConnection) -> (r: GridKVPersistence)
        requires
            !conn_in_txn(conn),
            table_of(conn) == committed_of(conn),
        ensures
            r.wf(),
            r@ == committed_of(conn),
    {
        GridKVPersistence { txn: SqliteTransaction::new(conn) }
    }

    /// Opens a fresh, private in-memory database, creates the kv table in
    /// it, and wraps it as a store; the store starts empty.
    pub fn open_in_memory() -> (r: Result<GridKVPersistence, KVError>)
        ensures
            match r {
                Ok(s) => s.wf() && s@ == Map::<Seq<char>, Seq<u8>>::empty(),
                Err(e) => e == KVError::Connection || e == KVError::Statement,
            },
    {
        let mut conn = match establish_memory() {
            Ok(c) => c,
            Err(_) => {
                return Err(KVError::Connection);
            },
        };
        match exec_create_table(&mut conn) {
            Ok(_) => {},
            Err(_) => {
                return Err(KVError::Statement);
            },
        }
        Ok(GridKVPersistence::new(conn))
    }

}

impl KVTransaction for GridKVPersistence {
    open spec fn store_map(&self) -> Map<Seq<char>, Seq<u8>> {
        self@
    }

    open spec fn inv(&self) -> bool {
        self.wf()
    }

    fn get<T: KVCodec>(&mut self, key: &String) -> (r: Result<Option<T>, KVError>) {
        match self.txn.begin() {
            Ok(()) => {},
            Err(e) => {
                return Err(e);
            },
        }
        let got = self.txn.get::<T>(key);
        match got {
            Ok(v) => match self.txn.commit() {
                Ok(()) => Ok(v),
                Err(e) => {
                    self.txn.rollback();
                    Err(e)
                },
            },
            Err(e) => {
                self.txn.rollback();
                Err(e)
            },
        }
    }

    fn set<T: KVCodec>(&mut self, value: &T) -> (r: Result<(), KVError>) {
        match self.txn.begin() {
            Ok(()) => {},
            Err(e) => {
                return Err(e);
            },
        }
        match self.txn.set(value) {
            Ok(()) => {},
            Err(e) => {
                self.txn.rollback();
                return Err(e);
            },
        }
        match self.txn.commit() {
            Ok(()) => Ok(()),
            Err(e) => {
                self.txn.rollback();
                Err(e)
            },
        }
    }

    fn remove(&mut self, key: &String) -> (r: Result<(), KVError>) {
        match self.txn.begin() {
            Ok(()) => {},
            Err(e) => {
                return Err(e);
            },
        }
        match self.txn.remove_raw(key) {
            Ok(()) => {},
            Err(e) => {
                self.txn.rollback();
                return Err(e);
            },
        }
        match self.txn.commit() {
            Ok(()) => Ok(()),
            Err(e) => {
                self.txn.rollback();
                Err(e)
            },
        }
    }

    fn batch_get<T: KVCodec>(&mut self, keys: &Vec<String>) -> (r: Result<Vec<T>, KVError>) {
        match self.txn.begin() {
            Ok(()) => {},
            Err(e) => {
                return Err(e);
            },
        }
        let got = self.txn.batch_get::<T>(keys);
        match got {
            Ok(vs) => match self.txn.commit() {
                Ok(()) => Ok(vs),
                Err(e) => {
                    self.txn.rollback();
                    Err(e)
                },
            },
            Err(e) => {
                self.txn.rollback();
                Err(e)
            },
        }
    }

    fn batch_set<T: KVCodec>(&mut self, values: &Vec<T>) -> (r: Result<(), KVError>) {
        match self.txn.begin() {
            Ok(()) => {},
            Err(e) => {
                return Err(e);
            },
        }
        match self.txn.batch_set(values) {
            Ok(()) => {},
            Err(e) => {
                self.txn.rollback();
                return Err(e);
            },
        }
        match self.txn.commit() {
            Ok(()) => Ok(()),
            Err(e) => {
                self.txn.rollback();
                Err(e)
            },
        }
    }

    fn batch_remove(&mut self, keys: &Vec<String>) -> (r: Result<(), KVError>) {
        match self.txn.begin() {
            Ok(()) => {},
            Err(e) => {
                return Err(e);
            },
        }
        match self.txn.batch_remove_raw(keys) {
            Ok(()) => {},
            Err(e) => {
                self.txn.rollback();
                return Err(e);
            },
        }
        match self.txn.commit() {
            Ok(()) => Ok(()),
            Err(e) => {
                self.txn.rollback();
                Err(e)
            },
        }
    }
}

} // verus!
