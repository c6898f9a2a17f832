//! Trusted boundary around the embedded transactional key-value store.
//!
//! Per topic the index holds two tables. The producer table maps each live
//! chunk number to the count of records written to that chunk; its highest
//! key is the tail chunk. The consumer table maps the three fixed keys
//! `FILE`, `OFFSET` and `BYTES_READ` to the consumer cursor: the head chunk
//! number, the records already consumed from it, and the byte offset at
//! which the next frame begins.
//!
//! A [`TopicTxn`] bundles one write transaction with the two table handles
//! of one topic. Its contents are named by the uninterpreted functions
//! [`producer_entries`] and [`cursor_entries`]; every trusted method states
//! its effect on those two maps, and everything else about the queue is
//! proved from these contracts.

use crate::QueueError;
use vstd::prelude::*;
use vstd::string::StringExecFns;

verus! {

/// Key of the consumer-table entry holding the head chunk number.
pub fn key_file() -> (r: &'static str)
    ensures
        r@ == "FILE"@,
{
    "FILE"
}

/// Key of the consumer-table entry holding the count of records already
/// consumed from the head chunk.
pub fn key_offset() -> (r: &'static str)
    ensures
        r@ == "OFFSET"@,
{
    "OFFSET"
}

/// Key of the consumer-table entry holding the byte offset of the next
/// frame in the head chunk file.
pub fn key_bytes_read() -> (r: &'static str)
    ensures
        r@ == "BYTES_READ"@,
{
    "BYTES_READ"
}

/// The three consumer-table keys are pairwise distinct.
pub proof fn lemma_keys_distinct()
    ensures
        "FILE"@ != "OFFSET"@,
        "FILE"@ != "BYTES_READ"@,
        "OFFSET"@ != "BYTES_READ"@,
{
    reveal_strlit("FILE");
    reveal_strlit("OFFSET");
    reveal_strlit("BYTES_READ");
    assert("FILE"@.len() == 4);
    assert("OFFSET"@.len() == 6);
    assert("BYTES_READ"@.len() == 10);
}

#[verifier::external_type_specification]
#[verifier::external_body]
/// The store's thread-local-storage marker for read transactions.
pub struct ExWithTls(heed3::WithTls);

#[verifier::external_type_specification]
#[verifier::external_body]
#[verifier::reject_recursive_types(T)]
/// An open store environment: the index database rooted at a directory.
pub struct ExEnv<T>(heed3::Env<T>);

#[verifier::external_type_specification]
#[verifier::external_body]
/// The store's error type; the library maps it to [`QueueError::Index`].
pub struct ExHeedError(heed3::Error);

/// One topic's pair of index tables inside an open environment.
#[verifier::external_body]
pub struct TopicHandle {
    env: heed3::Env,
    producer_db: heed3::Database<
        heed3::types::U64<heed3::byteorder::BE>,
        heed3::types::U64<heed3::byteorder::BE>,
    >,
    consumer_db: heed3::Database<heed3::types::Str, heed3::types::U64<heed3::byteorder::BE>>,
}

/// One write transaction over a topic's two index tables. All reads and
/// writes of the index go through the trusted methods below; dropping the
/// transaction without [`TopicTxn::commit`] discards every change. The two
/// tables are distinct (see [`TopicHandle::open`]), so an update of one
/// leaves the other untouched, which each method's contract states.
#[verifier::external_body]
pub struct TopicTxn<'e> {
    txn: heed3::RwTxn<'e>,
    producer_db: heed3::Database<
        heed3::types::U64<heed3::byteorder::BE>,
        heed3::types::U64<heed3::byteorder::BE>,
    >,
    consumer_db: heed3::Database<heed3::types::Str, heed3::types::U64<heed3::byteorder::BE>>,
}

/// The producer table of the transaction: chunk number to record count.
pub uninterp spec fn producer_entries(t: TopicTxn) -> Map<u64, u64>;

/// The consumer table of the transaction: cursor key to value.
pub uninterp spec fn cursor_entries(t: TopicTxn) -> Map<Seq<char>, u64>;

/// Lookup in a table as the store answers it.
pub open spec fn table_get<K>(m: Map<K, u64>, k: K) -> Option<u64> {
    if m.dom().contains(k) {
        Option::Some(m[k])
    } else {
        Option::None
    }
}

/// `k` is the greatest key of `m`: the tail chunk of a producer table.
pub open spec fn is_tail(m: Map<u64, u64>, k: u64) -> bool {
    &&& m.dom().contains(k)
    &&& forall|k2: u64| m.dom().contains(k2) ==> k2 <= k
}

/// The name of a topic's producer table.
pub fn producer_table_name(topic: &str) -> (r: String)
    ensures
        r@ == topic@ + "_producer"@,
{
    let mut s = topic.to_owned();
    s.append("_producer");
    s
}

/// The name of a topic's consumer table.
pub fn consumer_table_name(topic: &str) -> (r: String)
    ensures
        r@ == topic@ + "_consumer"@,
{
    let mut s = topic.to_owned();
    s.append("_consumer");
    s
}

impl TopicHandle {
    /// Opens (creating them if absent) the two index tables of a topic
    /// inside one committed write transaction.
    ///
    /// Relies on `heed3::Env::write_txn`, `heed3::Env::create_database`
    /// (once per table), and `heed3::RwTxn::commit`. The two names must
    /// differ: the store gives equal names the same table, which would
    /// break the per-table contracts below. Neither name may contain a NUL
    /// character: the store turns each name into a C string and panics on
    /// an interior NUL. Both tables are created within the same
    /// environment, so later per-table calls cannot be handed a foreign
    /// transaction.
    #[verifier::external_body]
    pub fn open(
        env: heed3::Env,
        producer_name: &str,
        consumer_name: &str,
    ) -> (r: Result<TopicHandle, heed3::Error>)
        requires
            producer_name@ != consumer_name@,
            forall|i: int| 0 <= i < producer_name@.len() ==> producer_name@[i] != '\u{0}',
            forall|i: int| 0 <= i < consumer_name@.len() ==> consumer_name@[i] != '\u{0}',
    {
        let mut wtxn = env.write_txn()?;
        let producer_db = env.create_database(&mut wtxn, Some(producer_name))?;
        let consumer_db = env.create_database(&mut wtxn, Some(consumer_name))?;
        wtxn.commit()?;
        Ok(TopicHandle { env, producer_db, consumer_db })
    }

    /// Begins one write transaction over the topic's tables. Nothing is
    /// known of the tables' contents: they hold whatever the last committed
    /// transaction left.
    ///
    /// Relies on `heed3::Env::write_txn`; the store serialises write
    /// transactions, so the call may block — and a thread that still holds
    /// an open transaction of this environment deadlocks if it begins
    /// another.
    #[verifier::external_body]
    pub fn begin(&self) -> (r: Result<TopicTxn<'_>, heed3::Error>) {
        let txn = self.env.write_txn()?;
        Ok(TopicTxn { txn, producer_db: self.producer_db, consumer_db: self.consumer_db })
    }
}

impl<'e> TopicTxn<'e> {
    /// Commits the transaction: every change becomes durable at once, or
    /// the error leaves the committed state untouched.
    ///
    /// Relies on `heed3::RwTxn::commit`.
    #[verifier::external_body]
    pub fn commit(self) -> (r: Result<(), heed3::Error>) {
        self.txn.commit()
    }

    /// Reads the record count of one chunk from the producer table.
    ///
    /// Relies on `heed3::Database::get`: returns the value stored under the
    /// key, or `None` when the key is absent.
    #[verifier::external_body]
    pub(crate) fn get_chunk_count(&self, chunk: u64) -> (r: Result<Option<u64>, heed3::Error>)
        ensures
            r matches Ok(v) ==> v == table_get(producer_entries(*self), chunk),
    {
        self.producer_db.get(&self.txn, &chunk)
    }

    /// Reads the last entry of the producer table: the tail chunk and its
    /// record count.
    ///
    /// Relies on `heed3::Database::last`. The table's keys are stored as
    /// big-endian 64-bit integers, so the store's lexicographic key order
    /// is the numeric order and the last entry has the greatest key.
    #[verifier::external_body]
    pub(crate) fn last_chunk(&self) -> (r: Result<Option<(u64, u64)>, heed3::Error>)
        ensures
            r matches Ok(Some(kv)) ==> is_tail(producer_entries(*self), kv.0)
                && producer_entries(*self)[kv.0] == kv.1,
            r matches Ok(None) ==> producer_entries(*self).dom() == Set::<u64>::empty(),
    {
        self.producer_db.last(&self.txn)
    }

    /// Inserts or overwrites one producer-table entry.
    ///
    /// Relies on `heed3::Database::put`; on failure the transaction's
    /// contents are unchanged and the caller abandons the transaction.
    #[verifier::external_body]
    pub(crate) fn put_chunk_count(&mut self, chunk: u64, count: u64) -> (r: Result<
        (),
        heed3::Error,
    >)
        ensures
            r is Ok ==> producer_entries(*final(self)) == producer_entries(*old(self)).insert(
                chunk,
                count,
            ),
            r is Err ==> producer_entries(*final(self)) == producer_entries(*old(self)),
            cursor_entries(*final(self)) == cursor_entries(*old(self)),
    {
        self.producer_db.put(&mut self.txn, &chunk, &count)
    }

    /// Inserts one producer-table entry only if the key is absent.
    ///
    /// Relies on `heed3::Database::put_with_flags` with `NO_OVERWRITE`:
    /// when the key is already present the store refuses the write and
    /// reports an error, leaving the tables unchanged.
    #[verifier::external_body]
    pub(crate) fn init_chunk_count(&mut self, chunk: u64, count: u64) -> (r: Result<
        (),
        heed3::Error,
    >)
        ensures
            producer_entries(*old(self)).dom().contains(chunk) ==> r is Err,
            r is Ok ==> !producer_entries(*old(self)).dom().contains(chunk)
                && producer_entries(*final(self)) == producer_entries(*old(self)).insert(
                chunk,
                count,
            ),
            r is Err ==> producer_entries(*final(self)) == producer_entries(*old(self)),
            cursor_entries(*final(self)) == cursor_entries(*old(self)),
    {
        self.producer_db.put_with_flags(&mut self.txn, heed3::PutFlags::NO_OVERWRITE, &chunk, &count)
    }

    /// Removes one producer-table entry, reporting whether it was present.
    ///
    /// Relies on `heed3::Database::delete`: returns `true` exactly when the
    /// key was present, and never fails merely because it is absent.
    #[verifier::external_body]
    pub(crate) fn remove_chunk(&mut self, chunk: u64) -> (r: Result<bool, heed3::Error>)
        ensures
            r matches Ok(b) ==> b == producer_entries(*old(self)).dom().contains(chunk)
                && producer_entries(*final(self)) == producer_entries(*old(self)).remove(chunk),
            r is Err ==> producer_entries(*final(self)) == producer_entries(*old(self)),
            cursor_entries(*final(self)) == cursor_entries(*old(self)),
    {
        self.producer_db.delete(&mut self.txn, &chunk)
    }

    /// Reads one consumer-table entry.
    ///
    /// Relies on `heed3::Database::get`: returns the value stored under the
    /// key, or `None` when the key is absent.
    #[verifier::external_body]
    pub(crate) fn get_cursor(&self, key: &str) -> (r: Result<Option<u64>, heed3::Error>)
        ensures
            r matches Ok(v) ==> v == table_get(cursor_entries(*self), key@),
    {
        self.consumer_db.get(&self.txn, key)
    }

    /// Inserts or overwrites one consumer-table entry.
    ///
    /// Relies on `heed3::Database::put`; on failure the transaction's
    /// contents are unchanged and the caller abandons the transaction.
    #[verifier::external_body]
    pub(crate) fn put_cursor(&mut self, key: &str, value: u64) -> (r: Result<(), heed3::Error>)
        ensures
            r is Ok ==> cursor_entries(*final(self)) == cursor_entries(*old(self)).insert(
                key@,
                value,
            ),
            r is Err ==> cursor_entries(*final(self)) == cursor_entries(*old(self)),
            producer_entries(*final(self)) == producer_entries(*old(self)),
    {
        self.consumer_db.put(&mut self.txn, key, &value)
    }

    /// Inserts one consumer-table entry only if the key is absent.
    ///
    /// Relies on `heed3::Database::put_with_flags` with `NO_OVERWRITE`:
    /// when the key is already present the store refuses the write and
    /// reports an error, leaving the tables unchanged.
    #[verifier::external_body]
    pub(crate) fn init_cursor(&mut self, key: &str, value: u64) -> (r: Result<(), heed3::Error>)
        ensures
            cursor_entries(*old(self)).dom().contains(key@) ==> r is Err,
            r is Ok ==> !cursor_entries(*old(self)).dom().contains(key@)
                && cursor_entries(*final(self)) == cursor_entries(*old(self)).insert(key@, value),
            r is Err ==> cursor_entries(*final(self)) == cursor_entries(*old(self)),
            producer_entries(*final(self)) == producer_entries(*old(self)),
    {
        self.consumer_db.put_with_flags(&mut self.txn, heed3::PutFlags::NO_OVERWRITE, key, &value)
    }
}

} // verus!
