//! The durable ledger store and the chain engine.
//!
//! Blocks are kept in a SQLite table keyed by index, with uniqueness of
//! index, hash and timestamp enforced by the storage engine itself. The
//! store's only mutating operation beyond initialization is append; the
//! chain engine reads the current tail, mines, constructs and commits. The
//! stored table is modelled as a map from index to block fields, and every
//! operation's contract is stated over that map.

use crate::block::genesis_view;
use crate::block::hash_reproducible;
use crate::block::now_rfc3339;
use crate::block::Block;
use crate::block::BlockView;
use crate::block::MiningConfig;
use crate::errors::LedgerError;
use crate::hashing::starts_with_zeros;
use vstd::prelude::*;

verus! {

broadcast use vstd::map::group_map_axioms, vstd::set::group_set_axioms;

#[verifier::external_type_specification]
#[verifier::external_body]
pub struct ExConnection(rusqlite::Connection);

/// The rows of the blocks table held by a connection, keyed by the index
/// column.
pub uninterp spec fn db_rows(conn: rusqlite::Connection) -> Map<int, BlockView>;

/// A candidate row collides with the stored rows when its index, hash or
/// timestamp equals that of a stored row — the three uniqueness constraints
/// the storage engine enforces.
pub open spec fn collides(rows: Map<int, BlockView>, b: BlockView) -> bool {
    ||| rows.dom().contains(b.index as int)
    ||| exists|k: int| #[trigger] rows.dom().contains(k) && rows[k].hash == b.hash
    ||| exists|k: int| #[trigger] rows.dom().contains(k) && rows[k].timestamp == b.timestamp
}

/// Relies on `rusqlite::Connection::open_in_memory`: a fresh in-memory
/// database holds no tables and no rows.
#[verifier::external_body]
fn open_memory_conn() -> (r: Result<rusqlite::Connection, LedgerError>)
    ensures
        match r {
            Ok(conn) => db_rows(conn) == Map::<int, BlockView>::empty(),
            Err(e) => e == LedgerError::StorageUnavailable,
        },
{
    match rusqlite::Connection::open_in_memory() {
        Ok(c) => Ok(c),
        Err(_) => Err(LedgerError::StorageUnavailable),
    }
}

/// Relies on `rusqlite::Connection::open`: opens the database file at
/// `path`, creating it if absent. Nothing is assumed about rows already on
/// disk.
#[verifier::external_body]
fn open_path_conn(path: &str) -> (r: Result<rusqlite::Connection, LedgerError>) {
    match rusqlite::Connection::open(path) {
        Ok(c) => Ok(c),
        Err(_) => Err(LedgerError::StorageUnavailable),
    }
}

/// Relies on `rusqlite::Connection::execute_batch` with `CREATE TABLE IF
/// NOT EXISTS` and `CREATE UNIQUE INDEX IF NOT EXISTS`: creating the schema
/// stores and removes no rows, whether or not the table already existed. On
/// success the unique indices guarantee that later inserts are refused on a
/// duplicate index, hash or timestamp, even over a table this module did
/// not create.
#[verifier::external_body]
fn create_schema(conn: &mut rusqlite::Connection) -> (r: Result<(), LedgerError>)
    ensures
        db_rows(*final(conn)) == db_rows(*old(conn)),
        r matches Err(e) ==> e == LedgerError::StorageUnavailable,
{
    let sql =
        "CREATE TABLE IF NOT EXISTS blocks (idx INTEGER PRIMARY KEY, timestamp TEXT UNIQUE NOT NULL, nonce INTEGER NOT NULL, hash TEXT UNIQUE NOT NULL, previous_hash TEXT NOT NULL, encoded_model TEXT NOT NULL); CREATE UNIQUE INDEX IF NOT EXISTS blocks_idx_unique ON blocks(idx); CREATE UNIQUE INDEX IF NOT EXISTS blocks_hash_unique ON blocks(hash); CREATE UNIQUE INDEX IF NOT EXISTS blocks_timestamp_unique ON blocks(timestamp);";
    match conn.execute_batch(sql) {
        Ok(_) => Ok(()),
        Err(_) => Err(LedgerError::StorageUnavailable),
    }
}

/// Relies on `rusqlite::Connection::query_row` with `SELECT COUNT(*)`: the
/// number of rows of the blocks table, which is finite.
#[verifier::external_body]
fn count_rows(conn: &rusqlite::Connection) -> (r: Result<u64, LedgerError>)
    ensures
        r matches Ok(n) ==> db_rows(*conn).dom().finite() && n as int == db_rows(*conn).len(),
        r matches Err(e) ==> e == LedgerError::StorageUnavailable,
{
    match conn.query_row("SELECT COUNT(*) FROM blocks", (), |row| row.get::<_, u64>(0)) {
        Ok(n) => Ok(n),
        Err(_) => Err(LedgerError::StorageUnavailable),
    }
}

/// Relies on `rusqlite::Connection::execute` with `INSERT`: on success the
/// row is stored exactly as given and no constraint was violated; SQLite's
/// PRIMARY KEY and UNIQUE constraints refuse a row whose index, hash or
/// timestamp collides with a stored one; a failed insert stores nothing.
#[verifier::external_body]
fn insert_row(conn: &mut rusqlite::Connection, b: &Block) -> (r: Result<(), LedgerError>)
    ensures
        r matches Ok(_) ==> !collides(db_rows(*old(conn)), b@) && db_rows(*final(conn))
            == db_rows(*old(conn)).insert(b.index as int, b@),
        !(r matches Ok(_)) ==> db_rows(*final(conn)) == db_rows(*old(conn)),
        collides(db_rows(*old(conn)), b@) ==> !(r matches Ok(_)),
        r matches Err(e) ==> e == LedgerError::ConstraintViolation || e
            == LedgerError::StorageUnavailable,
{
    let sql =
        "INSERT INTO blocks (idx, timestamp, nonce, hash, previous_hash, encoded_model) VALUES (?1, ?2, ?3, ?4, ?5, ?6)";
    let params = (b.index, &b.timestamp, b.nonce, &b.hash, &b.previous_hash, &b.encoded_model);
    match conn.execute(sql, params) {
        Ok(_) => Ok(()),
        Err(e) if e.sqlite_error_code() == Some(rusqlite::ErrorCode::ConstraintViolation) => {
            Err(LedgerError::ConstraintViolation)
        },
        Err(_) => Err(LedgerError::StorageUnavailable),
    }
}

/// Relies on `rusqlite::Connection::query_row` with `SELECT ... WHERE idx`:
/// returns the stored row whose index column equals `index` complete and
/// unchanged, or reports that no row matches.
#[verifier::external_body]
fn select_by_index(conn: &rusqlite::Connection, index: u64) -> (r: Result<
    Option<Block>,
    LedgerError,
>)
    ensures
        r matches Ok(Some(b)) ==> db_rows(*conn).dom().contains(index as int) && b@ == db_rows(
            *conn,
        )[index as int] && b.index == index,
        r matches Ok(None) ==> !db_rows(*conn).dom().contains(index as int),
        r matches Err(e) ==> e == LedgerError::StorageUnavailable,
{
    let sql =
        "SELECT idx, timestamp, nonce, hash, previous_hash, encoded_model FROM blocks WHERE idx = ?1";
    let r = conn.query_row(sql, (index,), |row| {
        Ok(Block {
            index: row.get(0)?, timestamp: row.get(1)?, nonce: row.get(2)?,
            hash: row.get(3)?, previous_hash: row.get(4)?, encoded_model: row.get(5)?,
        })
    });
    match r {
        Ok(b) => Ok(Some(b)),
        Err(rusqlite::Error::QueryReturnedNoRows) => Ok(None),
        Err(_) => Err(LedgerError::StorageUnavailable),
    }
}

/// Relies on `rusqlite::Connection::query_row` with `SELECT ... ORDER BY idx
/// DESC LIMIT 1`: returns the stored row with the maximum index complete and
/// unchanged, or reports that the table is empty.
#[verifier::external_body]
fn select_last(conn: &rusqlite::Connection) -> (r: Result<Option<Block>, LedgerError>)
    ensures
        r matches Ok(Some(b)) ==> db_rows(*conn).dom().contains(b.index as int) && b@ == db_rows(
            *conn,
        )[b.index as int] && (forall|k: int|
            db_rows(*conn).dom().contains(k) ==> k <= b.index as int),
        r matches Ok(None) ==> forall|k: int| !db_rows(*conn).dom().contains(k),
        r matches Err(e) ==> e == LedgerError::StorageUnavailable,
{
    let sql =
        "SELECT idx, timestamp, nonce, hash, previous_hash, encoded_model FROM blocks ORDER BY idx DESC LIMIT 1";
    let r = conn.query_row(sql, (), |row| {
        Ok(Block {
            index: row.get(0)?, timestamp: row.get(1)?, nonce: row.get(2)?,
            hash: row.get(3)?, previous_hash: row.get(4)?, encoded_model: row.get(5)?,
        })
    });
    match r {
        Ok(b) => Ok(Some(b)),
        Err(rusqlite::Error::QueryReturnedNoRows) => Ok(None),
        Err(_) => Err(LedgerError::StorageUnavailable),
    }
}

/// A well-formed ledger at difficulty `d`: indices are contiguous from zero,
/// every stored block reproduces its hash from its own fields, every
/// non-genesis block links to its predecessor's hash and meets the
/// difficulty, and the genesis block's previous hash is empty.
pub open spec fn chain_ok(rows: Map<int, BlockView>, d: nat) -> bool {
    &&& rows.dom().finite()
    &&& (forall|i: int| #[trigger] rows.dom().contains(i) <==> 0 <= i < rows.len())
    &&& (forall|i: int| 0 <= i < rows.len() ==> (#[trigger] rows[i]).index == i)
    &&& (forall|i: int| 0 <= i < rows.len() ==> hash_reproducible(#[trigger] rows[i]))
    &&& (rows.len() >= 1 ==> rows[0].previous_hash == Seq::<char>::empty())
    &&& (forall|i: int|
        1 <= i < rows.len() ==> (#[trigger] rows[i]).previous_hash == rows[i - 1].hash)
    &&& (forall|i: int| 1 <= i < rows.len() ==> starts_with_zeros((#[trigger] rows[i]).hash, d))
}

/// A single stored row is sound at index `i`: it is present, carries its own
/// index, reproduces its hash, and (past genesis) links to its predecessor.
pub open spec fn row_ok(rows: Map<int, BlockView>, i: int) -> bool {
    &&& rows.dom().contains(i)
    &&& rows[i].index == i
    &&& hash_reproducible(rows[i])
    &&& (i >= 1 ==> rows.dom().contains(i - 1) && rows[i].previous_hash == rows[i - 1].hash)
}

/// Chain linkage and monotonic indices are born with the genesis block: a
/// ledger holding exactly one genesis block is well formed at every
/// difficulty.
pub proof fn lemma_genesis_chain(ts: Seq<char>, d: nat)
    ensures
        chain_ok(Map::<int, BlockView>::empty().insert(0, genesis_view(ts)), d),
        Map::<int, BlockView>::empty().insert(0, genesis_view(ts)).len() == 1,
{
    let rows = Map::<int, BlockView>::empty().insert(0, genesis_view(ts));
    assert(rows.dom() =~= Set::<int>::empty().insert(0));
    assert(rows.dom().len() == 1);
    assert(rows[0] == genesis_view(ts));
}

/// Chain linkage, hash reproducibility, proof validity and monotonic,
/// contiguous indices are all preserved by appending: a block whose index is
/// the next free one, whose previous hash is the tail's hash, whose hash is
/// reproducible and meets the difficulty, extends a well-formed ledger to a
/// well-formed ledger one block longer. So a ledger produced purely through
/// appends to a genesis block satisfies all four properties at every length,
/// and serialized appends can never fork the chain.
pub proof fn lemma_append_extends_chain(rows: Map<int, BlockView>, b: BlockView, d: nat)
    requires
        chain_ok(rows, d),
        rows.len() >= 1,
        b.index as int == rows.len(),
        b.previous_hash == rows[rows.len() - 1].hash,
        hash_reproducible(b),
        starts_with_zeros(b.hash, d),
    ensures
        chain_ok(rows.insert(b.index as int, b), d),
        rows.insert(b.index as int, b).len() == rows.len() + 1,
{
    let n = rows.len() as int;
    let rows2 = rows.insert(n, b);
    assert(!rows.dom().contains(n));
    assert(rows2.dom() =~= rows.dom().insert(n));
    vstd::set::axiom_set_insert_len(rows.dom(), n);
    assert(rows2.len() == n + 1);
    assert forall|i: int| #[trigger] rows2.dom().contains(i) <==> 0 <= i < rows2.len() by {
        if rows2.dom().contains(i) {
            if i != n {
                assert(rows.dom().contains(i));
            }
        }
    }
    assert forall|i: int| 0 <= i < rows2.len() implies (#[trigger] rows2[i]).index == i
        && hash_reproducible(rows2[i]) by {
        if i < n {
            assert(rows.dom().contains(i));
            assert(rows2[i] == rows[i]);
        } else {
            assert(rows2[i] == b);
        }
    }
    assert(rows2[0].previous_hash == Seq::<char>::empty());
    assert forall|i: int| 1 <= i < rows2.len() implies (#[trigger] rows2[i]).previous_hash
        == rows2[i - 1].hash && starts_with_zeros(rows2[i].hash, d) by {
        if i < n {
            assert(rows2[i] == rows[i]);
            assert(rows2[i - 1] == rows[i - 1]);
        } else {
            assert(rows2[i] == b);
            assert(rows2[i - 1] == rows[n - 1]);
        }
    }
}

/// No fork: when every stored hash is distinct — which the storage engine's
/// uniqueness constraint guarantees of every committed append — no two
/// distinct non-genesis blocks of a well-formed ledger claim the same
/// parent. Serialized appends therefore produce a single chain, never two
/// branches from one block.
pub proof fn lemma_no_fork(rows: Map<int, BlockView>, d: nat)
    requires
        chain_ok(rows, d),
        forall|i: int, j: int|
            0 <= i < rows.len() && 0 <= j < rows.len() && i != j ==> (#[trigger] rows[i]).hash != (
            #[trigger] rows[j]).hash,
    ensures
        forall|i: int, j: int|
            1 <= i < rows.len() && 1 <= j < rows.len() && i != j ==> (
            #[trigger] rows[i]).previous_hash != (#[trigger] rows[j]).previous_hash,
{
    assert forall|i: int, j: int|
        1 <= i < rows.len() && 1 <= j < rows.len() && i != j implies (
    #[trigger] rows[i]).previous_hash != (#[trigger] rows[j]).previous_hash by {
        assert(rows[i].previous_hash == rows[i - 1].hash);
        assert(rows[j].previous_hash == rows[j - 1].hash);
        assert(rows[i - 1].hash != rows[j - 1].hash);
    }
}

/// The outcome reported by `verify_chain`: either the full ledger is
/// internally consistent, or the first offending index is identified.
#[derive(Clone, Copy, Debug, PartialEq, Eq, Structural)]
pub enum ChainStatus {
    /// Every stored block reproduces its hash and links to its predecessor.
    Valid,
    /// The smallest index at which presence, hash reproducibility or linkage
    /// fails. Reported as a result, never as an error: remediation is left
    /// to the caller.
    MismatchAt(u64),
}

/// A durable, ordered collection of blocks keyed by index. The only
/// mutating operations are initialization (which commits the single genesis
/// block) and append; blocks are never updated or deleted.
pub struct BlockChain {
    connection: rusqlite::Connection,
}

impl BlockChain {
    /// The stored blocks, keyed by the index column.
    pub closed spec fn rows(&self) -> Map<int, BlockView> {
        db_rows(self.connection)
    }

    /// Opens a fresh, independent in-memory store and initializes it, so the
    /// new ledger holds exactly one genesis block and is well formed at
    /// every difficulty.
    pub fn new() -> (r: Result<BlockChain, LedgerError>)
        ensures
            r matches Ok(c) ==> exists|ts: Seq<char>|
                c.rows() == Map::<int, BlockView>::empty().insert(0, genesis_view(ts)),
            r matches Ok(c) ==> c.rows().len() == 1 && forall|d: nat| chain_ok(c.rows(), d),
    {
        let conn = match open_memory_conn() {
            Ok(c) => c,
            Err(e) => {
                return Err(e);
            },
        };
        let mut chain = BlockChain { connection: conn };
        match chain.initialize() {
            Ok(_) => {},
            Err(e) => {
                return Err(e);
            },
        }
        proof {
            let ts = choose|ts: Seq<char>|
                chain.rows() == Map::<int, BlockView>::empty().insert(0, genesis_view(ts));
            assert forall|d: nat| chain_ok(chain.rows(), d) by {
                lemma_genesis_chain(ts, d);
            }
        }
        Ok(chain)
    }

    /// Opens (or creates) a durable store at `path` and initializes it.
    /// Rows already on disk are kept exactly as they are.
    pub fn open(path: &str) -> (r: Result<BlockChain, LedgerError>)
        ensures
            r matches Ok(c) ==> c.rows().dom().finite() && c.rows().len() >= 1,
    {
        let conn = match open_path_conn(path) {
            Ok(c) => c,
            Err(e) => {
                return Err(e);
            },
        };
        let mut chain = BlockChain { connection: conn };
        match chain.initialize() {
            Ok(_) => {},
            Err(e) => {
                return Err(e);
            },
        }
        Ok(chain)
    }

    /// Creates the schema if absent and, when the store holds no blocks,
    /// commits exactly one genesis block. Idempotent across repeated calls:
    /// a store that already holds blocks is left exactly as it was, so no
    /// second genesis block can ever appear.
    pub fn initialize(&mut self) -> (r: Result<(), LedgerError>)
        ensures
            !(r matches Ok(_)) ==> final(self).rows() == old(self).rows(),
            r matches Ok(_) ==> {
                &&& final(self).rows().dom().finite()
                &&& final(self).rows().len() >= 1
                &&& (old(self).rows().dom().finite() && old(self).rows().len() == 0 ==> exists|
                    ts: Seq<char>,
                |
                    final(self).rows() == Map::<int, BlockView>::empty().insert(
                        0,
                        genesis_view(ts),
                    ))
                &&& (old(self).rows().dom().finite() && old(self).rows().len() >= 1
                    ==> final(self).rows() == old(self).rows())
            },
    {
        match create_schema(&mut self.connection) {
            Ok(_) => {},
            Err(e) => {
                return Err(e);
            },
        }
        let n = match count_rows(&self.connection) {
            Ok(n) => n,
            Err(e) => {
                return Err(e);
            },
        };
        if n == 0 {
            proof {
                self.rows().dom().lemma_len0_is_empty();
                assert(self.rows() =~= Map::<int, BlockView>::empty());
            }
            let g = Block::genesis(now_rfc3339());
            match insert_row(&mut self.connection, &g) {
                Ok(_) => {},
                Err(e) => {
                    return Err(e);
                },
            }
            proof {
                assert(final(self).rows().dom() =~= Set::<int>::empty().insert(0));
                assert(final(self).rows().len() == 1);
            }
            Ok(())
        } else {
            Ok(())
        }
    }

    /// Persists `block` as a new row. Fails with `ConstraintViolation`
    /// whenever the block's index, hash or timestamp collides with a stored
    /// row — uniqueness is enforced by the storage engine, not re-derived —
    /// and a failed append stores nothing.
    pub fn save_block(&mut self, block: &Block) -> (r: Result<(), LedgerError>)
        ensures
            r matches Ok(_) ==> !collides(old(self).rows(), block@) && final(self).rows() == old(
                self,
            ).rows().insert(block.index as int, block@),
            !(r matches Ok(_)) ==> final(self).rows() == old(self).rows(),
            collides(old(self).rows(), block@) ==> !(r matches Ok(_)),
    {
        insert_row(&mut self.connection, block)
    }

    /// Point lookup by index. Absence is a result, not an error.
    pub fn get_block_by_index(&self, index: u64) -> (r: Result<Option<Block>, LedgerError>)
        ensures
            r matches Ok(Some(b)) ==> self.rows().dom().contains(index as int) && b@
                == self.rows()[index as int] && b.index == index,
            r matches Ok(None) ==> !self.rows().dom().contains(index as int),
    {
        select_by_index(&self.connection, index)
    }

    /// Returns the block with the maximum index, or absence only when the
    /// store holds no blocks at all.
    pub fn get_last_block(&self) -> (r: Result<Option<Block>, LedgerError>)
        ensures
            r matches Ok(Some(b)) ==> self.rows().dom().contains(b.index as int) && b@
                == self.rows()[b.index as int] && (forall|k: int|
                self.rows().dom().contains(k) ==> k <= b.index as int),
            r matches Ok(None) ==> forall|k: int| !self.rows().dom().contains(k),
    {
        select_last(&self.connection)
    }

    /// The chain engine's single mutating entry point: reads the current
    /// tail, mines a nonce for the next index against the tail's hash over
    /// one fixed timestamp, constructs the block and commits it. Every
    /// failure leaves the ledger exactly as it was; appending to a
    /// well-formed ledger yields a well-formed ledger one block longer.
    pub fn append_entry(&mut self, encoded_model: String, config: MiningConfig) -> (r: Result<
        Block,
        LedgerError,
    >)
        ensures
            !(r matches Ok(_)) ==> final(self).rows() == old(self).rows(),
            r matches Err(LedgerError::EmptyChain) ==> forall|k: int|
                !old(self).rows().dom().contains(k),
            r matches Ok(b) ==> {
                &&& b@.encoded_model == encoded_model@
                &&& hash_reproducible(b@)
                &&& starts_with_zeros(b@.hash, config.difficulty as nat)
                &&& !collides(old(self).rows(), b@)
                &&& final(self).rows() == old(self).rows().insert(b.index as int, b@)
                &&& exists|li: int|
                    {
                        &&& #[trigger] old(self).rows().dom().contains(li)
                        &&& (forall|k: int| old(self).rows().dom().contains(k) ==> k <= li)
                        &&& b@.index == li + 1
                        &&& b@.previous_hash == old(self).rows()[li].hash
                    }
            },
            r matches Ok(b) ==> (chain_ok(old(self).rows(), config.difficulty as nat) ==> {
                &&& chain_ok(final(self).rows(), config.difficulty as nat)
                &&& final(self).rows().len() == old(self).rows().len() + 1
                &&& b@.index == old(self).rows().len()
            }),
    {
        let last = match select_last(&self.connection) {
            Ok(Some(b)) => b,
            Ok(None) => {
                return Err(LedgerError::EmptyChain);
            },
            Err(e) => {
                return Err(e);
            },
        };
        if last.index == u64::MAX {
            return Err(LedgerError::ConstraintViolation);
        }
        let ghost li: int = last.index as int;
        let index = last.index + 1;
        let timestamp = now_rfc3339();
        let block = match Block::new(index, timestamp, last.hash, encoded_model, config) {
            Ok(b) => b,
            Err(e) => {
                return Err(e);
            },
        };
        match insert_row(&mut self.connection, &block) {
            Ok(_) => {},
            Err(e) => {
                return Err(e);
            },
        }
        proof {
            let rows0 = old(self).rows();
            let d = config.difficulty as nat;
            assert(rows0.dom().contains(li) && block@.index == li + 1 && block@.previous_hash
                == rows0[li].hash);
            if chain_ok(rows0, d) {
                assert(rows0.len() >= 1);
                assert(rows0.dom().contains(rows0.len() - 1));
                assert(rows0.len() - 1 <= li);
                assert(li == rows0.len() - 1);
                lemma_append_extends_chain(rows0, block@, d);
            }
        }
        Ok(block)
    }

    /// Walks the ledger from genesis to tail and checks, for every stored
    /// block, that its hash is reproducible from its own stored fields and
    /// that it links to its predecessor's hash. Reports the first index at
    /// which a check fails, or confirms full integrity.
    pub fn verify_chain(&self) -> (r: Result<ChainStatus, LedgerError>)
        ensures
            r matches Ok(ChainStatus::Valid) ==> self.rows().dom().finite() && (forall|i: int|
                0 <= i < self.rows().len() ==> row_ok(self.rows(), i)),
            r matches Ok(ChainStatus::MismatchAt(k)) ==> {
                &&& (k as int) < self.rows().len()
                &&& !row_ok(self.rows(), k as int)
                &&& (forall|j: int| 0 <= j < k ==> row_ok(self.rows(), j))
            },
    {
        let n = match count_rows(&self.connection) {
            Ok(n) => n,
            Err(e) => {
                return Err(e);
            },
        };
        let mut i: u64 = 0;
        let mut prev_hash = String::new();
        while i < n
            invariant
                i <= n,
                n as int == self.rows().len(),
                self.rows().dom().finite(),
                forall|j: int| 0 <= j < i ==> row_ok(self.rows(), j),
                i >= 1 ==> prev_hash@ == self.rows()[i as int - 1].hash,
            decreases n - i,
        {
            let b = match select_by_index(&self.connection, i) {
                Ok(Some(b)) => b,
                Ok(None) => {
                    return Ok(ChainStatus::MismatchAt(i));
                },
                Err(e) => {
                    return Err(e);
                },
            };
            let recomputed = Block::calculate_hash(
                b.index,
                b.timestamp.as_str(),
                b.nonce,
                b.previous_hash.as_str(),
                b.encoded_model.as_str(),
            );
            if recomputed != b.hash {
                return Ok(ChainStatus::MismatchAt(i));
            }
            if i > 0 && b.previous_hash != prev_hash {
                return Ok(ChainStatus::MismatchAt(i));
            }
            proof {
                if i >= 1 {
                    assert(row_ok(self.rows(), i as int - 1));
                }
                assert(self.rows()[i as int] == b@);
                assert(row_ok(self.rows(), i as int));
            }
            prev_hash = b.hash;
            i = i + 1;
        }
        Ok(ChainStatus::Valid)
    }
}

} // verus!
