use vstd::prelude::*;
use crate::bytes::{bytes_equal, copy_bytes};

verus! {

/// Name of a column family: a logical namespace inside one store.
pub type ColumnFamilyName = &'static str;

/// One operation of a write batch.
#[derive(Debug)]
pub enum WriteOp {
    Value(Vec<u8>),
    Deletion,
}

/// Ordered operations on one namespace, applied all together or not at all.
#[derive(Debug)]
pub struct WriteBatch {
    pub rows: Vec<(Vec<u8>, WriteOp)>,
}

/// Failure of a storage operation.
#[derive(Debug, PartialEq, Eq, Structural)]
pub enum StorageError {
    /// A key to write was empty; stores refuse empty keys.
    EmptyKey,
    /// The backend could not complete the operation.
    Backend,
    /// Bytes could not be encoded or decoded as the expected type.
    Codec,
}

/// The contents of one namespace: key bytes to value bytes.
pub type ColumnView = Map<Seq<u8>, Seq<u8>>;

pub open spec fn op_view(op: WriteOp) -> Option<Seq<u8>> {
    match op {
        WriteOp::Value(v) => Some(v@),
        WriteOp::Deletion => None,
    }
}

pub open spec fn opt_bytes(o: Option<Vec<u8>>) -> Option<Seq<u8>> {
    match o {
        Some(v) => Some(v@),
        None => None,
    }
}

/// A batch as a sequence of (key, `Some(value)` to write or `None` to delete).
pub open spec fn batch_view(b: WriteBatch) -> Seq<(Seq<u8>, Option<Seq<u8>>)> {
    b.rows@.map_values(|r: (Vec<u8>, WriteOp)| (r.0@, op_view(r.1)))
}

/// A batch is valid when none of its keys is empty.
pub open spec fn batch_valid(ops: Seq<(Seq<u8>, Option<Seq<u8>>)>) -> bool {
    forall|i: int| 0 <= i < ops.len() ==> (#[trigger] ops[i]).0.len() > 0
}

/// The namespace contents after applying `ops` in order to `m`.
pub open spec fn apply_ops(m: ColumnView, ops: Seq<(Seq<u8>, Option<Seq<u8>>)>) -> ColumnView
    decreases ops.len(),
{
    if ops.len() == 0 {
        m
    } else {
        let prev = apply_ops(m, ops.drop_last());
        let last = ops.last();
        match last.1 {
            Some(v) => prev.insert(last.0, v),
            None => prev.remove(last.0),
        }
    }
}

/// Whether `rows` holds exactly the map `m`, each key once.
pub open spec fn rows_hold(rows: Seq<(Vec<u8>, Vec<u8>)>, m: ColumnView) -> bool {
    &&& forall|i: int, j: int|
        0 <= i < rows.len() && 0 <= j < rows.len() && i != j ==> (#[trigger] rows[i]).0@ != (#[trigger] rows[j]).0@
    &&& forall|i: int|
        0 <= i < rows.len() ==> m.contains_key((#[trigger] rows[i]).0@) && m[rows[i].0@] == rows[i].1@
    &&& forall|k: Seq<u8>| #[trigger] m.contains_key(k) ==> exists|i: int| 0 <= i < rows.len() && (#[trigger] rows[i]).0@ == k
}

pub open spec fn row_keys(rows: Seq<(Vec<u8>, Vec<u8>)>) -> Seq<Seq<u8>> {
    rows.map_values(|r: (Vec<u8>, Vec<u8>)| r.0@)
}

/// Rows of one namespace of a memory store.
pub struct Column {
    name: String,
    rows: Vec<(Vec<u8>, Vec<u8>)>,
}

/// A store held in memory, partitioned into namespaces.
pub struct MemoryStorage {
    columns: Vec<Column>,
    model: Ghost<Map<Seq<char>, ColumnView>>,
}

pub open spec fn key_seq(ks: Seq<Vec<u8>>) -> Seq<Seq<u8>> {
    ks.map_values(|k: Vec<u8>| k@)
}

/// `ks` lists the keys of `m`, each exactly once.
pub open spec fn keys_listed(ks: Seq<Vec<u8>>, m: ColumnView) -> bool {
    &&& key_seq(ks).no_duplicates()
    &&& key_seq(ks).to_set() == m.dom()
}

/// Whether every key of `batch` is non-empty.
pub fn check_batch(batch: &WriteBatch) -> (r: bool)
    ensures
        r == batch_valid(batch_view(*batch)),
{
    let mut i: usize = 0;
    while i < batch.rows.len()
        invariant
            i <= batch.rows@.len(),
            forall|j: int| 0 <= j < i ==> (#[trigger] batch.rows@[j]).0@.len() > 0,
        decreases batch.rows@.len() - i,
    {
        if batch.rows[i].0.len() == 0 {
            assert(batch_view(*batch)[i as int].0.len() == 0);
            return false;
        }
        i = i + 1;
    }
    assert forall|j: int| 0 <= j < batch_view(*batch).len() implies (#[trigger] batch_view(*batch)[j]).0.len() > 0 by {
        assert(batch.rows@[j].0@.len() > 0);
    }
    true
}

/// Finds the row of `key`.
fn find_row(rows: &Vec<(Vec<u8>, Vec<u8>)>, key: &[u8]) -> (r: Option<usize>)
    ensures
        r matches Some(i) ==> i < rows@.len() && rows@[i as int].0@ == key@,
        r is None ==> forall|i: int| 0 <= i < rows@.len() ==> (#[trigger] rows@[i]).0@ != key@,
{
    let mut i: usize = 0;
    while i < rows.len()
        invariant
            i <= rows@.len(),
            forall|j: int| 0 <= j < i ==> (#[trigger] rows@[j]).0@ != key@,
        decreases rows@.len() - i,
    {
        if bytes_equal(rows[i].0.as_slice(), key) {
            return Some(i);
        }
        i = i + 1;
    }
    None
}

/// Writes `value` under `key` in `rows`.
fn rows_put(rows: &mut Vec<(Vec<u8>, Vec<u8>)>, Ghost(m): Ghost<ColumnView>, key: Vec<u8>, value: Vec<u8>)
    requires
        rows_hold(old(rows)@, m),
    ensures
        rows_hold(final(rows)@, m.insert(key@, value@)),
{
    let ghost k = key@;
    let ghost v = value@;
    match find_row(rows, key.as_slice()) {
        Some(i) => {
            rows.set(i, (key, value));
            let ghost m2 = m.insert(k, v);
            assert forall|kk: Seq<u8>| #[trigger] m2.contains_key(kk) implies exists|j: int|
                0 <= j < rows@.len() && (#[trigger] rows@[j]).0@ == kk by {
                if kk == k {
                    assert(rows@[i as int].0@ == kk);
                } else {
                    let j = choose|j: int| 0 <= j < old(rows)@.len() && (#[trigger] old(rows)@[j]).0@ == kk;
                    assert(rows@[j].0@ == kk);
                }
            }
        }
        None => {
            rows.push((key, value));
            let ghost m2 = m.insert(k, v);
            let ghost n = rows@.len() - 1;
            assert forall|kk: Seq<u8>| #[trigger] m2.contains_key(kk) implies exists|j: int|
                0 <= j < rows@.len() && (#[trigger] rows@[j]).0@ == kk by {
                if kk == k {
                    assert(rows@[n].0@ == kk);
                } else {
                    let j = choose|j: int| 0 <= j < old(rows)@.len() && (#[trigger] old(rows)@[j]).0@ == kk;
                    assert(rows@[j].0@ == kk);
                }
            }
        }
    }
}

/// Removes the row of `key` from `rows`, if any.
fn rows_delete(rows: &mut Vec<(Vec<u8>, Vec<u8>)>, Ghost(m): Ghost<ColumnView>, key: &[u8])
    requires
        rows_hold(old(rows)@, m),
    ensures
        rows_hold(final(rows)@, m.remove(key@)),
{
    match find_row(rows, key) {
        Some(i) => {
            let ghost old_rows = rows@;
            let _ = rows.remove(i);
            let ghost m2 = m.remove(key@);
            assert forall|j: int| 0 <= j < rows@.len() implies #[trigger] rows@[j] == old_rows[if j < i { j } else { j + 1 }] by {}
            assert forall|a: int, b: int|
                0 <= a < rows@.len() && 0 <= b < rows@.len() && a != b implies (#[trigger] rows@[a]).0@ != (#[trigger] rows@[b]).0@ by {
                let oa = if a < i { a } else { a + 1 };
                let ob = if b < i { b } else { b + 1 };
                assert(old_rows[oa].0@ != old_rows[ob].0@);
            }
            assert forall|a: int| 0 <= a < rows@.len() implies m2.contains_key((#[trigger] rows@[a]).0@) && m2[rows@[a].0@] == rows@[a].1@ by {
                let oa = if a < i { a } else { a + 1 };
                assert(old_rows[oa].0@ != old_rows[i as int].0@);
            }
            assert forall|kk: Seq<u8>| #[trigger] m2.contains_key(kk) implies exists|j: int|
                0 <= j < rows@.len() && (#[trigger] rows@[j]).0@ == kk by {
                let oj = choose|j: int| 0 <= j < old_rows.len() && (#[trigger] old_rows[j]).0@ == kk;
                assert(oj != i);
                let j = if oj < i { oj } else { oj - 1 };
                assert(rows@[j].0@ == kk);
            }
        }
        None => {
            assert(m.remove(key@) =~= m);
        }
    }
}

/// Replacing the rows of one column keeps the store well formed and the other namespaces as they were.
proof fn lemma_replaced_column(before: MemoryStorage, after: MemoryStorage, c: int, cf: Seq<char>)
    requires
        before.wf(),
        0 <= c < before.columns@.len(),
        before.columns@[c].name@ == cf,
        after.columns@ == before.columns@.update(c, after.columns@[c]),
        after.columns@[c].name@ == cf,
        after.model@.contains_key(cf),
        after.model@ == before.model@.insert(cf, after.model@[cf]),
        rows_hold(after.columns@[c].rows@, after.model@[cf]),
    ensures
        after.wf(),
        after.column(cf) == after.model@[cf],
        forall|x: Seq<char>| x != cf ==> #[trigger] after.column(x) == before.column(x),
{
    let cols = after.columns@;
    assert forall|i: int, j: int|
        0 <= i < cols.len() && 0 <= j < cols.len() && i != j implies (#[trigger] cols[i]).name@ != (#[trigger] cols[j]).name@ by {
        assert(before.columns@[i].name@ == cols[i].name@);
        assert(before.columns@[j].name@ == cols[j].name@);
    }
    assert forall|i: int| 0 <= i < cols.len() implies after.model@.contains_key((#[trigger] cols[i]).name@)
        && rows_hold(cols[i].rows@, after.model@[cols[i].name@]) by {
        if i != c {
            assert(cols[i] == before.columns@[i]);
            assert(before.columns@[i].name@ != before.columns@[c].name@);
        }
    }
    assert forall|x: Seq<char>| #[trigger] after.model@.contains_key(x) implies exists|i: int|
        0 <= i < cols.len() && (#[trigger] cols[i]).name@ == x by {
        if x == cf {
            assert(cols[c].name@ == x);
        } else {
            let i = choose|i: int| 0 <= i < before.columns@.len() && (#[trigger] before.columns@[i]).name@ == x;
            assert(cols[i].name@ == before.columns@[i].name@);
        }
    }
}

impl MemoryStorage {
    pub closed spec fn wf(&self) -> bool {
        let cols = self.columns@;
        let model = self.model@;
        &&& forall|i: int, j: int|
            0 <= i < cols.len() && 0 <= j < cols.len() && i != j ==> (#[trigger] cols[i]).name@ != (#[trigger] cols[j]).name@
        &&& forall|i: int|
            0 <= i < cols.len() ==> model.contains_key((#[trigger] cols[i]).name@) && rows_hold(cols[i].rows@, model[cols[i].name@])
        &&& forall|cf: Seq<char>| #[trigger] model.contains_key(cf) ==> exists|i: int| 0 <= i < cols.len() && (#[trigger] cols[i]).name@ == cf
    }

    /// The contents of namespace `cf`; a namespace never written is empty.
    pub closed spec fn column(&self, cf: Seq<char>) -> ColumnView {
        if self.model@.contains_key(cf) {
            self.model@[cf]
        } else {
            Map::empty()
        }
    }

    /// An empty store.
    pub fn new() -> (r: MemoryStorage)
        ensures
            r.wf(),
            forall|cf: Seq<char>| #[trigger] r.column(cf) == Map::<Seq<u8>, Seq<u8>>::empty(),
    {
        MemoryStorage { columns: Vec::new(), model: Ghost(Map::empty()) }
    }

    fn find_column(&self, name: &String) -> (r: Option<usize>)
        requires
            self.wf(),
        ensures
            r matches Some(i) ==> i < self.columns@.len() && self.columns@[i as int].name@ == name@,
            r is None ==> !self.model@.contains_key(name@),
    {
        let mut i: usize = 0;
        while i < self.columns.len()
            invariant
                i <= self.columns@.len(),
                forall|j: int| 0 <= j < i ==> (#[trigger] self.columns@[j]).name@ != name@,
            decreases self.columns@.len() - i,
        {
            if self.columns[i].name == *name {
                return Some(i);
            }
            i = i + 1;
        }
        None
    }

    /// The value stored under `key` in namespace `cf`.
    pub fn read(&self, cf: &str, key: &[u8]) -> (r: Option<Vec<u8>>)
        requires
            self.wf(),
        ensures
            opt_bytes(r) == self.column(cf@).get(key@),
    {
        let name = cf.to_owned();
        match self.find_column(&name) {
            None => None,
            Some(c) => {
                let rows = &self.columns[c].rows;
                proof {
                    assert(rows_hold(rows@, self.model@[cf@]));
                }
                match find_row(rows, key) {
                    None => {
                        assert(!self.column(cf@).contains_key(key@));
                        None
                    }
                    Some(i) => Some(copy_bytes(rows[i].1.as_slice())),
                }
            }
        }
    }

    /// Index of the column of `cf`, created empty when missing.
    fn column_index(&mut self, cf: &str) -> (c: usize)
        requires
            old(self).wf(),
        ensures
            final(self).wf(),
            c < final(self).columns@.len(),
            final(self).columns@[c as int].name@ == cf@,
            final(self).model@.contains_key(cf@),
            forall|x: Seq<char>| #[trigger] final(self).column(x) == old(self).column(x),
    {
        let name = cf.to_owned();
        match self.find_column(&name) {
            Some(c) => c,
            None => {
                let ghost old_model = self.model@;
                self.columns.push(Column { name, rows: Vec::new() });
                self.model = Ghost(self.model@.insert(cf@, Map::empty()));
                let c = (self.columns.len() - 1) as usize;
                proof {
                    let cols = self.columns@;
                    assert forall|i: int| 0 <= i < cols.len() implies self.model@.contains_key((#[trigger] cols[i]).name@)
                        && rows_hold(cols[i].rows@, self.model@[cols[i].name@]) by {
                        if i < c {
                            assert(old(self).columns@[i] == cols[i]);
                            assert(cols[i].name@ != cf@);
                        } else {
                            assert(cols[i].rows@ =~= Seq::<(Vec<u8>, Vec<u8>)>::empty());
                        }
                    }
                    assert forall|x: Seq<char>| #[trigger] self.model@.contains_key(x) implies exists|i: int|
                        0 <= i < cols.len() && (#[trigger] cols[i]).name@ == x by {
                        if x == cf@ {
                            assert(cols[c as int].name@ == x);
                        } else {
                            let i = choose|i: int| 0 <= i < old(self).columns@.len() && (#[trigger] old(self).columns@[i]).name@ == x;
                            assert(cols[i] == old(self).columns@[i]);
                        }
                    }
                    assert forall|x: Seq<char>| #[trigger] self.column(x) == old(self).column(x) by {
                        if x == cf@ {
                            assert(self.column(x) =~= old(self).column(x));
                        }
                    }
                }
                c
            }
        }
    }

    /// Writes `value` under `key` in namespace `cf`.
    pub fn insert(&mut self, cf: &str, key: Vec<u8>, value: Vec<u8>)
        requires
            old(self).wf(),
        ensures
            final(self).wf(),
            final(self).column(cf@) == old(self).column(cf@).insert(key@, value@),
            forall|x: Seq<char>| x != cf@ ==> #[trigger] final(self).column(x) == old(self).column(x),
    {
        let ghost k = key@;
        let ghost v = value@;
        let c = self.column_index(cf);
        let ghost m = self.model@[cf@];
        let ghost before = *self;
        assert(before.column(cf@) == m);
        let mut col = self.columns.remove(c);
        rows_put(&mut col.rows, Ghost(m), key, value);
        self.columns.insert(c, col);
        self.model = Ghost(self.model@.insert(cf@, m.insert(k, v)));
        proof {
            assert(self.columns@ =~= before.columns@.update(c as int, self.columns@[c as int]));
            lemma_replaced_column(before, *self, c as int, cf@);
        }
    }

    /// Removes `key` from namespace `cf`.
    pub fn delete(&mut self, cf: &str, key: &[u8])
        requires
            old(self).wf(),
        ensures
            final(self).wf(),
            final(self).column(cf@) == old(self).column(cf@).remove(key@),
            forall|x: Seq<char>| x != cf@ ==> #[trigger] final(self).column(x) == old(self).column(x),
    {
        let c = self.column_index(cf);
        let ghost m = self.model@[cf@];
        let ghost before = *self;
        assert(before.column(cf@) == m);
        let mut col = self.columns.remove(c);
        rows_delete(&mut col.rows, Ghost(m), key);
        self.columns.insert(c, col);
        self.model = Ghost(self.model@.insert(cf@, m.remove(key@)));
        proof {
            assert(self.columns@ =~= before.columns@.update(c as int, self.columns@[c as int]));
            lemma_replaced_column(before, *self, c as int, cf@);
        }
    }

    /// Whether namespace `cf` holds `key`.
    pub fn has(&self, cf: &str, key: &[u8]) -> (r: bool)
        requires
            self.wf(),
        ensures
            r == self.column(cf@).contains_key(key@),
    {
        match self.read(cf, key) {
            Some(_) => true,
            None => false,
        }
    }

    /// The keys of namespace `cf`, each once.
    pub fn key_list(&self, cf: &str) -> (r: Vec<Vec<u8>>)
        requires
            self.wf(),
        ensures
            keys_listed(r@, self.column(cf@)),
    {
        let name = cf.to_owned();
        let mut out: Vec<Vec<u8>> = Vec::new();
        match self.find_column(&name) {
            None => {
                assert(self.column(cf@) =~= Map::empty());
                assert(key_seq(out@) =~= Seq::<Seq<u8>>::empty());
                assert(self.column(cf@).dom() =~= key_seq(out@).to_set());
            }
            Some(c) => {
                let rows = &self.columns[c].rows;
                let ghost m = self.model@[cf@];
                assert(rows_hold(rows@, m));
                let mut i: usize = 0;
                while i < rows.len()
                    invariant
                        i <= rows@.len(),
                        rows_hold(rows@, m),
                        out@.len() == i,
                        forall|j: int| 0 <= j < i ==> (#[trigger] out@[j])@ == rows@[j].0@,
                    decreases rows@.len() - i,
                {
                    out.push(copy_bytes(rows[i].0.as_slice()));
                    i = i + 1;
                }
                let ghost ks = key_seq(out@);
                assert forall|a: int, b: int| 0 <= a < ks.len() && 0 <= b < ks.len() && a != b implies ks[a] != ks[b] by {
                    assert(ks[a] == rows@[a].0@);
                    assert(ks[b] == rows@[b].0@);
                }
                assert forall|k: Seq<u8>| m.dom().contains(k) <==> ks.to_set().contains(k) by {
                    if m.contains_key(k) {
                        let j = choose|j: int| 0 <= j < rows@.len() && (#[trigger] rows@[j]).0@ == k;
                        assert(ks[j] == k);
                    }
                    if ks.to_set().contains(k) {
                        let j = choose|j: int| 0 <= j < ks.len() && ks[j] == k;
                        assert(rows@[j].0@ == k);
                    }
                }
                assert(m.dom() =~= ks.to_set());
            }
        }
        out
    }

    /// Number of keys in namespace `cf`.
    pub fn count(&self, cf: &str) -> (r: u64)
        requires
            self.wf(),
        ensures
            r == self.column(cf@).dom().len(),
    {
        let keys = self.key_list(cf);
        proof {
            key_seq(keys@).unique_seq_to_set();
        }
        keys.len() as u64
    }

    /// Applies `batch` to namespace `cf` in order; a batch with an empty key changes nothing.
    pub fn apply_batch(&mut self, cf: &str, batch: &WriteBatch) -> (r: Result<(), StorageError>)
        requires
            old(self).wf(),
        ensures
            final(self).wf(),
            r is Ok <==> batch_valid(batch_view(*batch)),
            r is Ok ==> final(self).column(cf@) == apply_ops(old(self).column(cf@), batch_view(*batch)),
            r is Err ==> r == Err::<(), StorageError>(StorageError::EmptyKey) && forall|x: Seq<char>| #[trigger] final(self).column(x) == old(self).column(x),
            forall|x: Seq<char>| x != cf@ ==> #[trigger] final(self).column(x) == old(self).column(x),
    {
        if !check_batch(batch) {
            return Err(StorageError::EmptyKey);
        }
        let ghost ops = batch_view(*batch);
        let mut i: usize = 0;
        while i < batch.rows.len()
            invariant
                i <= batch.rows@.len(),
                ops == batch_view(*batch),
                self.wf(),
                self.column(cf@) == apply_ops(old(self).column(cf@), ops.subrange(0, i as int)),
                forall|x: Seq<char>| x != cf@ ==> #[trigger] self.column(x) == old(self).column(x),
            decreases batch.rows@.len() - i,
        {
            let key = &batch.rows[i].0;
            match &batch.rows[i].1 {
                WriteOp::Value(v) => {
                    self.insert(cf, copy_bytes(key.as_slice()), copy_bytes(v.as_slice()));
                }
                WriteOp::Deletion => {
                    self.delete(cf, key.as_slice());
                }
            }
            assert(ops.subrange(0, i + 1).drop_last() =~= ops.subrange(0, i as int));
            i = i + 1;
        }
        assert(ops.subrange(0, ops.len() as int) =~= ops);
        Ok(())
    }
}


/// A backend that stores namespaces of key-value pairs, such as a database on disk.
///
/// Every operation may fail; a failed write leaves the backend as it was.
pub trait InnerStore: Sized {
    spec fn well_formed(&self) -> bool;

    /// The contents of namespace `cf`.
    spec fn cf_view(&self, cf: Seq<char>) -> ColumnView;

    fn get(&self, prefix_name: &str, key: Vec<u8>) -> (r: Result<Option<Vec<u8>>, StorageError>)
        requires
            self.well_formed(),
        ensures
            r matches Ok(v) ==> opt_bytes(v) == self.cf_view(prefix_name@).get(key@),
            r matches Err(e) ==> e == StorageError::Backend,
    ;

    fn put(&mut self, prefix_name: &str, key: Vec<u8>, value: Vec<u8>) -> (r: Result<(), StorageError>)
        requires
            old(self).well_formed(),
        ensures
            final(self).well_formed(),
            r is Ok ==> final(self).cf_view(prefix_name@) == old(self).cf_view(prefix_name@).insert(key@, value@),
            r is Err ==> final(self).cf_view(prefix_name@) == old(self).cf_view(prefix_name@),
            forall|x: Seq<char>| x != prefix_name@ ==> #[trigger] final(self).cf_view(x) == old(self).cf_view(x),
    ;

    fn contains_key(&self, prefix_name: &str, key: Vec<u8>) -> (r: Result<bool, StorageError>)
        requires
            self.well_formed(),
        ensures
            r matches Ok(b) ==> b == self.cf_view(prefix_name@).contains_key(key@),
    ;

    fn remove(&mut self, prefix_name: &str, key: Vec<u8>) -> (r: Result<(), StorageError>)
        requires
            old(self).well_formed(),
        ensures
            final(self).well_formed(),
            r is Ok ==> final(self).cf_view(prefix_name@) == old(self).cf_view(prefix_name@).remove(key@),
            r is Err ==> final(self).cf_view(prefix_name@) == old(self).cf_view(prefix_name@),
            forall|x: Seq<char>| x != prefix_name@ ==> #[trigger] final(self).cf_view(x) == old(self).cf_view(x),
    ;

    /// Applies all of `batch` to namespace `prefix_name`, or none of it.
    fn write_batch(&mut self, prefix_name: &str, batch: &WriteBatch) -> (r: Result<(), StorageError>)
        requires
            old(self).well_formed(),
        ensures
            final(self).well_formed(),
            r is Ok ==> final(self).cf_view(prefix_name@) == apply_ops(old(self).cf_view(prefix_name@), batch_view(*batch)),
            r is Err ==> final(self).cf_view(prefix_name@) == old(self).cf_view(prefix_name@),
            forall|x: Seq<char>| x != prefix_name@ ==> #[trigger] final(self).cf_view(x) == old(self).cf_view(x),
    ;

    fn get_len(&self, prefix_name: &str) -> (r: Result<u64, StorageError>)
        requires
            self.well_formed(),
        ensures
            r matches Ok(n) ==> n == self.cf_view(prefix_name@).dom().len(),
    ;

    fn keys(&self, prefix_name: &str) -> (r: Result<Vec<Vec<u8>>, StorageError>)
        requires
            self.well_formed(),
        ensures
            r matches Ok(ks) ==> keys_listed(ks@, self.cf_view(prefix_name@)),
    ;
}

impl InnerStore for MemoryStorage {
    open spec fn well_formed(&self) -> bool {
        self.wf()
    }

    open spec fn cf_view(&self, cf: Seq<char>) -> ColumnView {
        self.column(cf)
    }

    fn get(&self, prefix_name: &str, key: Vec<u8>) -> (r: Result<Option<Vec<u8>>, StorageError>) {
        Ok(self.read(prefix_name, key.as_slice()))
    }

    fn put(&mut self, prefix_name: &str, key: Vec<u8>, value: Vec<u8>) -> (r: Result<(), StorageError>) {
        if key.len() == 0 {
            return Err(StorageError::EmptyKey);
        }
        self.insert(prefix_name, key, value);
        Ok(())
    }

    fn contains_key(&self, prefix_name: &str, key: Vec<u8>) -> (r: Result<bool, StorageError>) {
        Ok(self.has(prefix_name, key.as_slice()))
    }

    fn remove(&mut self, prefix_name: &str, key: Vec<u8>) -> (r: Result<(), StorageError>) {
        self.delete(prefix_name, key.as_slice());
        Ok(())
    }

    fn write_batch(&mut self, prefix_name: &str, batch: &WriteBatch) -> (r: Result<(), StorageError>) {
        self.apply_batch(prefix_name, batch)
    }

    fn get_len(&self, prefix_name: &str) -> (r: Result<u64, StorageError>) {
        Ok(self.count(prefix_name))
    }

    fn keys(&self, prefix_name: &str) -> (r: Result<Vec<Vec<u8>>, StorageError>) {
        Ok(self.key_list(prefix_name))
    }
}


/// The volatile tier of a tiered store.
pub type CacheStorage = MemoryStorage;

/// Applying the same operations to a map and to a map that contains it keeps the containment.
proof fn lemma_apply_ops_submap(a: ColumnView, b: ColumnView, ops: Seq<(Seq<u8>, Option<Seq<u8>>)>)
    requires
        a.submap_of(b),
    ensures
        apply_ops(a, ops).submap_of(apply_ops(b, ops)),
    decreases ops.len(),
{
    if ops.len() > 0 {
        lemma_apply_ops_submap(a, b, ops.drop_last());
    }
}

/// The cache tier holds a part of the durable tier, in every namespace.
pub open spec fn coherent<D: InnerStore>(cache: CacheStorage, db: D) -> bool {
    forall|cf: Seq<char>| #[trigger] cache.column(cf).submap_of(db.cf_view(cf))
}

/// Coherence survives a change to one namespace that keeps that namespace coherent.
proof fn lemma_coherent_after<D: InnerStore>(c0: CacheStorage, d0: D, c1: CacheStorage, d1: D, p: Seq<char>)
    requires
        coherent(c0, d0),
        forall|x: Seq<char>| x != p ==> #[trigger] c1.column(x) == c0.column(x),
        forall|x: Seq<char>| x != p ==> #[trigger] d1.cf_view(x) == d0.cf_view(x),
        c1.column(p).submap_of(d1.cf_view(p)),
    ensures
        coherent(c1, d1),
{
    assert forall|cf: Seq<char>| #[trigger] c1.column(cf).submap_of(d1.cf_view(cf)) by {
        if cf != p {
            assert(c0.column(cf).submap_of(d0.cf_view(cf)));
        }
    }
}

/// Which backends hold a store, and how operations are routed between them.
pub enum StorageInstance<D: InnerStore> {
    /// The cache tier alone.
    CACHE { cache: CacheStorage },
    /// The durable tier alone.
    DB { db: D },
    /// Both tiers: the durable one is written first and is authoritative; the cache holds a
    /// part of it and answers reads first.
    CacheAndDb { cache: CacheStorage, db: D },
}

impl<D: InnerStore> StorageInstance<D> {
    pub open spec fn wf(&self) -> bool {
        match self {
            StorageInstance::CACHE { cache } => cache.wf(),
            StorageInstance::DB { db } => db.well_formed(),
            StorageInstance::CacheAndDb { cache, db } => {
                &&& cache.wf()
                &&& db.well_formed()
                &&& coherent(*cache, *db)
            },
        }
    }

    /// What reads of namespace `cf` return: the durable tier wherever there is one.
    pub open spec fn view_cf(&self, cf: Seq<char>) -> ColumnView {
        match self {
            StorageInstance::CACHE { cache } => cache.column(cf),
            StorageInstance::DB { db } => db.cf_view(cf),
            StorageInstance::CacheAndDb { cache, db } => db.cf_view(cf),
        }
    }

    /// What counting and listing enumerate: the cache tier wherever there is one.
    pub open spec fn listed_cf(&self, cf: Seq<char>) -> ColumnView {
        match self {
            StorageInstance::CACHE { cache } => cache.column(cf),
            StorageInstance::DB { db } => db.cf_view(cf),
            StorageInstance::CacheAndDb { cache, db } => cache.column(cf),
        }
    }

    pub open spec fn has_cache(&self) -> bool {
        !(self is DB)
    }

    pub fn new_cache_instance(cache: CacheStorage) -> (r: Self)
        requires
            cache.wf(),
        ensures
            r.wf(),
            r == (StorageInstance::<D>::CACHE { cache }),
    {
        StorageInstance::CACHE { cache }
    }

    pub fn new_db_instance(db: D) -> (r: Self)
        requires
            db.well_formed(),
        ensures
            r.wf(),
            r == (StorageInstance::<D>::DB { db }),
    {
        StorageInstance::DB { db }
    }

    /// Both tiers; the cache must hold nothing that the durable tier does not.
    pub fn new_cache_and_db_instance(cache: CacheStorage, db: D) -> (r: Self)
        requires
            cache.wf(),
            db.well_formed(),
            forall|cf: Seq<char>| #[trigger] cache.column(cf).submap_of(db.cf_view(cf)),
        ensures
            r.wf(),
            r == (StorageInstance::CacheAndDb { cache, db }),
    {
        StorageInstance::CacheAndDb { cache, db }
    }

    /// Reads `key`; with both tiers the cache answers first and a miss falls through to the
    /// durable tier.
    pub fn get(&self, prefix_name: &str, key: Vec<u8>) -> (r: Result<Option<Vec<u8>>, StorageError>)
        requires
            self.wf(),
        ensures
            r matches Ok(v) ==> opt_bytes(v) == self.view_cf(prefix_name@).get(key@),
            r matches Err(e) ==> e == StorageError::Backend,
            *self is CACHE ==> r is Ok,
            *self is CacheAndDb && self.listed_cf(prefix_name@).contains_key(key@) ==> r is Ok,
    {
        match self {
            StorageInstance::CACHE { cache } => Ok(cache.read(prefix_name, key.as_slice())),
            StorageInstance::DB { db } => db.get(prefix_name, key),
            StorageInstance::CacheAndDb { cache, db } => {
                match cache.read(prefix_name, key.as_slice()) {
                    Some(v) => {
                        assert(cache.column(prefix_name@).submap_of(db.cf_view(prefix_name@)));
                        Ok(Some(v))
                    }
                    None => db.get(prefix_name, key),
                }
            }
        }
    }

    /// Writes `key`; with both tiers the durable write comes first, and the cache is written
    /// only once it succeeded. An empty key is refused before any tier is touched, as it is in
    /// a batch.
    pub fn put(&mut self, prefix_name: &str, key: Vec<u8>, value: Vec<u8>) -> (r: Result<(), StorageError>)
        requires
            old(self).wf(),
        ensures
            final(self).wf(),
            (*final(self) is CACHE) == (*old(self) is CACHE),
            (*final(self) is DB) == (*old(self) is DB),
            r is Ok ==> final(self).view_cf(prefix_name@) == old(self).view_cf(prefix_name@).insert(key@, value@)
                && final(self).listed_cf(prefix_name@) == old(self).listed_cf(prefix_name@).insert(key@, value@),
            r is Err ==> final(self).view_cf(prefix_name@) == old(self).view_cf(prefix_name@)
                && final(self).listed_cf(prefix_name@) == old(self).listed_cf(prefix_name@),
            forall|x: Seq<char>| x != prefix_name@ ==> #[trigger] final(self).view_cf(x) == old(self).view_cf(x)
                && final(self).listed_cf(x) == old(self).listed_cf(x),
            key@.len() == 0 ==> r == Err::<(), StorageError>(StorageError::EmptyKey),
            *old(self) is CACHE && key@.len() > 0 ==> r is Ok,
    {
        if key.len() == 0 {
            return Err(StorageError::EmptyKey);
        }
        match self {
            StorageInstance::CACHE { cache } => {
                cache.insert(prefix_name, key, value);
                Ok(())
            }
            StorageInstance::DB { db } => db.put(prefix_name, key, value),
            StorageInstance::CacheAndDb { cache, db } => {
                let ghost c0 = *cache;
                let ghost d0 = *db;
                let k2 = copy_bytes(key.as_slice());
                let v2 = copy_bytes(value.as_slice());
                match db.put(prefix_name, key, value) {
                    Ok(()) => {
                        cache.insert(prefix_name, k2, v2);
                        assert forall|cf: Seq<char>| #[trigger] cache.column(cf).submap_of(db.cf_view(cf)) by {
                            assert(c0.column(cf).submap_of(d0.cf_view(cf)));
                            if cf == prefix_name@ {
                                assert forall|k: Seq<u8>| #[trigger] cache.column(cf).contains_key(k) implies db.cf_view(cf).contains_key(k)
                                    && cache.column(cf)[k] == db.cf_view(cf)[k] by {
                                    if k != k2@ {
                                        assert(c0.column(cf).contains_key(k));
                                    }
                                }
                            }
                        }
                        Ok(())
                    }
                    Err(e) => {
                        assert forall|cf: Seq<char>| #[trigger] cache.column(cf).submap_of(db.cf_view(cf)) by {
                            assert(c0.column(cf).submap_of(d0.cf_view(cf)));
                        }
                        Err(e)
                    }
                }
            }
        }
    }

    /// Whether `key` is present. With both tiers the cache answers, as it can always answer;
    /// the durable tier is asked only where there is no cache.
    pub fn contains_key(&self, prefix_name: &str, key: Vec<u8>) -> (r: Result<bool, StorageError>)
        requires
            self.wf(),
        ensures
            r matches Ok(b) ==> b == self.listed_cf(prefix_name@).contains_key(key@),
            self.has_cache() ==> r is Ok,
    {
        match self {
            StorageInstance::CACHE { cache } => Ok(cache.has(prefix_name, key.as_slice())),
            StorageInstance::DB { db } => db.contains_key(prefix_name, key),
            StorageInstance::CacheAndDb { cache, db } => Ok(cache.has(prefix_name, key.as_slice())),
        }
    }

    /// Removes `key`; with both tiers the durable removal comes first, and the cache is left
    /// as it was when that fails.
    pub fn remove(&mut self, prefix_name: &str, key: Vec<u8>) -> (r: Result<(), StorageError>)
        requires
            old(self).wf(),
        ensures
            final(self).wf(),
            (*final(self) is CACHE) == (*old(self) is CACHE),
            (*final(self) is DB) == (*old(self) is DB),
            r is Ok ==> final(self).view_cf(prefix_name@) == old(self).view_cf(prefix_name@).remove(key@)
                && final(self).listed_cf(prefix_name@) == old(self).listed_cf(prefix_name@).remove(key@),
            r is Err ==> final(self).view_cf(prefix_name@) == old(self).view_cf(prefix_name@)
                && final(self).listed_cf(prefix_name@) == old(self).listed_cf(prefix_name@),
            forall|x: Seq<char>| x != prefix_name@ ==> #[trigger] final(self).view_cf(x) == old(self).view_cf(x)
                && final(self).listed_cf(x) == old(self).listed_cf(x),
            *old(self) is CACHE ==> r is Ok,
    {
        match self {
            StorageInstance::CACHE { cache } => {
                cache.delete(prefix_name, key.as_slice());
                Ok(())
            }
            StorageInstance::DB { db } => db.remove(prefix_name, key),
            StorageInstance::CacheAndDb { cache, db } => {
                let ghost c0 = *cache;
                let ghost d0 = *db;
                let k2 = copy_bytes(key.as_slice());
                match db.remove(prefix_name, key) {
                    Ok(()) => {
                        cache.delete(prefix_name, k2.as_slice());
                        proof {
                            assert(c0.column(prefix_name@).submap_of(d0.cf_view(prefix_name@)));
                            lemma_coherent_after(c0, d0, *cache, *db, prefix_name@);
                        }
                        Ok(())
                    }
                    Err(e) => {
                        proof {
                            assert(c0.column(prefix_name@).submap_of(d0.cf_view(prefix_name@)));
                            lemma_coherent_after(c0, d0, *cache, *db, prefix_name@);
                        }
                        Err(e)
                    }
                }
            }
        }
    }

    /// Applies all of `batch` to namespace `prefix_name`, or none of it. A batch with an empty
    /// key is refused before any tier is touched; with both tiers the durable tier is written
    /// first, and the cache only once that succeeded.
    pub fn write_batch(&mut self, prefix_name: &str, batch: &WriteBatch) -> (r: Result<(), StorageError>)
        requires
            old(self).wf(),
        ensures
            final(self).wf(),
            (*final(self) is CACHE) == (*old(self) is CACHE),
            (*final(self) is DB) == (*old(self) is DB),
            !batch_valid(batch_view(*batch)) ==> r == Err::<(), StorageError>(StorageError::EmptyKey),
            r is Ok ==> batch_valid(batch_view(*batch))
                && final(self).view_cf(prefix_name@) == apply_ops(old(self).view_cf(prefix_name@), batch_view(*batch))
                && final(self).listed_cf(prefix_name@) == apply_ops(old(self).listed_cf(prefix_name@), batch_view(*batch)),
            r is Err ==> final(self).view_cf(prefix_name@) == old(self).view_cf(prefix_name@)
                && final(self).listed_cf(prefix_name@) == old(self).listed_cf(prefix_name@),
            forall|x: Seq<char>| x != prefix_name@ ==> #[trigger] final(self).view_cf(x) == old(self).view_cf(x)
                && final(self).listed_cf(x) == old(self).listed_cf(x),
            *old(self) is CACHE && batch_valid(batch_view(*batch)) ==> r is Ok,
    {
        if !check_batch(batch) {
            return Err(StorageError::EmptyKey);
        }
        match self {
            StorageInstance::CACHE { cache } => cache.apply_batch(prefix_name, batch),
            StorageInstance::DB { db } => db.write_batch(prefix_name, batch),
            StorageInstance::CacheAndDb { cache, db } => {
                let ghost c0 = *cache;
                let ghost d0 = *db;
                match db.write_batch(prefix_name, batch) {
                    Ok(()) => {
                        let _ = cache.apply_batch(prefix_name, batch);
                        proof {
                            assert(c0.column(prefix_name@).submap_of(d0.cf_view(prefix_name@)));
                            lemma_apply_ops_submap(c0.column(prefix_name@), d0.cf_view(prefix_name@), batch_view(*batch));
                            lemma_coherent_after(c0, d0, *cache, *db, prefix_name@);
                        }
                        Ok(())
                    }
                    Err(e) => {
                        proof {
                            assert(c0.column(prefix_name@).submap_of(d0.cf_view(prefix_name@)));
                            lemma_coherent_after(c0, d0, *cache, *db, prefix_name@);
                        }
                        Err(e)
                    }
                }
            }
        }
    }

    /// Number of keys in namespace `prefix_name`, counted in the cache tier wherever there is
    /// one.
    pub fn get_len(&self, prefix_name: &str) -> (r: Result<u64, StorageError>)
        requires
            self.wf(),
        ensures
            r matches Ok(n) ==> n == self.listed_cf(prefix_name@).dom().len(),
            self.has_cache() ==> r is Ok,
    {
        match self {
            StorageInstance::CACHE { cache } => Ok(cache.count(prefix_name)),
            StorageInstance::DB { db } => db.get_len(prefix_name),
            StorageInstance::CacheAndDb { cache, db } => Ok(cache.count(prefix_name)),
        }
    }

    /// The keys of namespace `prefix_name`, listed from the cache tier wherever there is one.
    pub fn keys(&self, prefix_name: &str) -> (r: Result<Vec<Vec<u8>>, StorageError>)
        requires
            self.wf(),
        ensures
            r matches Ok(ks) ==> keys_listed(ks@, self.listed_cf(prefix_name@)),
            self.has_cache() ==> r is Ok,
    {
        match self {
            StorageInstance::CACHE { cache } => Ok(cache.key_list(prefix_name)),
            StorageInstance::DB { db } => db.keys(prefix_name),
            StorageInstance::CacheAndDb { cache, db } => Ok(cache.key_list(prefix_name)),
        }
    }

    /// Drops `key` from the cache tier of a store with both tiers, as after an eviction or a
    /// failed cache write; reads still see the durable tier.
    pub fn invalidate_cache(&mut self, prefix_name: &str, key: &[u8])
        requires
            old(self).wf(),
        ensures
            final(self).wf(),
            (*final(self) is CACHE) == (*old(self) is CACHE),
            (*final(self) is DB) == (*old(self) is DB),
            forall|x: Seq<char>| #[trigger] final(self).view_cf(x) == old(self).view_cf(x),
            *old(self) is CacheAndDb ==> final(self).listed_cf(prefix_name@) == old(self).listed_cf(prefix_name@).remove(key@),
            forall|x: Seq<char>| x != prefix_name@ ==> #[trigger] final(self).listed_cf(x) == old(self).listed_cf(x),
    {
        match self {
            StorageInstance::CacheAndDb { cache, db } => {
                let ghost c0 = *cache;
                cache.delete(prefix_name, key);
                proof {
                    assert(c0.column(prefix_name@).submap_of(db.cf_view(prefix_name@)));
                    lemma_coherent_after(c0, *db, *cache, *db, prefix_name@);
                }
            }
            _ => {}
        }
    }
}


/// A key-value store bound to one namespace.
pub trait KVStore: Sized {
    spec fn kv_wf(&self) -> bool;

    /// Whether a cache tier answers counting, listing, presence and cached reads.
    spec fn kv_has_cache(&self) -> bool;

    /// What reads return.
    spec fn kv_view(&self) -> ColumnView;

    /// What counting and listing enumerate.
    spec fn kv_listed(&self) -> ColumnView;

    fn get(&self, key: &[u8]) -> (r: Result<Option<Vec<u8>>, StorageError>)
        requires
            self.kv_wf(),
        ensures
            r matches Ok(v) ==> opt_bytes(v) == self.kv_view().get(key@),
            r matches Err(e) ==> e == StorageError::Backend,
            self.kv_has_cache() && self.kv_listed().contains_key(key@) ==> r is Ok,
    ;

    /// Writes `key`; an empty key is refused.
    fn put(&mut self, key: Vec<u8>, value: Vec<u8>) -> (r: Result<(), StorageError>)
        requires
            old(self).kv_wf(),
        ensures
            final(self).kv_wf(),
            key@.len() == 0 ==> r == Err::<(), StorageError>(StorageError::EmptyKey),
            r is Ok ==> final(self).kv_view() == old(self).kv_view().insert(key@, value@)
                && final(self).kv_listed() == old(self).kv_listed().insert(key@, value@),
            r is Err ==> final(self).kv_view() == old(self).kv_view() && final(self).kv_listed() == old(self).kv_listed(),
    ;

    /// Whether `key` is present, answered by the cache tier wherever there is one.
    fn contains_key(&self, key: Vec<u8>) -> (r: Result<bool, StorageError>)
        requires
            self.kv_wf(),
        ensures
            r matches Ok(b) ==> b == self.kv_listed().contains_key(key@),
            self.kv_has_cache() ==> r is Ok,
    ;

    fn remove(&mut self, key: Vec<u8>) -> (r: Result<(), StorageError>)
        requires
            old(self).kv_wf(),
        ensures
            final(self).kv_wf(),
            r is Ok ==> final(self).kv_view() == old(self).kv_view().remove(key@)
                && final(self).kv_listed() == old(self).kv_listed().remove(key@),
            r is Err ==> final(self).kv_view() == old(self).kv_view() && final(self).kv_listed() == old(self).kv_listed(),
    ;

    /// Applies all of `batch`, or none of it; a batch with an empty key is refused.
    fn write_batch(&mut self, batch: WriteBatch) -> (r: Result<(), StorageError>)
        requires
            old(self).kv_wf(),
        ensures
            final(self).kv_wf(),
            !batch_valid(batch_view(batch)) ==> r == Err::<(), StorageError>(StorageError::EmptyKey),
            r is Ok ==> final(self).kv_view() == apply_ops(old(self).kv_view(), batch_view(batch))
                && final(self).kv_listed() == apply_ops(old(self).kv_listed(), batch_view(batch)),
            r is Err ==> final(self).kv_view() == old(self).kv_view() && final(self).kv_listed() == old(self).kv_listed(),
    ;

    fn get_len(&self) -> (r: Result<u64, StorageError>)
        requires
            self.kv_wf(),
        ensures
            r matches Ok(n) ==> n == self.kv_listed().dom().len(),
            self.kv_has_cache() ==> r is Ok,
    ;

    fn keys(&self) -> (r: Result<Vec<Vec<u8>>, StorageError>)
        requires
            self.kv_wf(),
        ensures
            r matches Ok(ks) ==> keys_listed(ks@, self.kv_listed()),
            self.kv_has_cache() ==> r is Ok,
    ;
}

/// A store instance bound to one namespace.
pub struct InnerStorage<D: InnerStore> {
    pub prefix_name: ColumnFamilyName,
    instance: StorageInstance<D>,
}

impl<D: InnerStore> InnerStorage<D> {
    pub closed spec fn spec_instance(&self) -> StorageInstance<D> {
        self.instance
    }

    pub closed spec fn spec_prefix(&self) -> Seq<char> {
        self.prefix_name@
    }

    pub fn new(instance: StorageInstance<D>, prefix_name: ColumnFamilyName) -> (r: Self)
        requires
            instance.wf(),
        ensures
            r.kv_wf(),
            r.spec_instance() == instance,
            r.spec_prefix() == prefix_name@,
            r.kv_view() == instance.view_cf(prefix_name@),
            r.kv_listed() == instance.listed_cf(prefix_name@),
    {
        InnerStorage { instance, prefix_name }
    }

    /// The store instance underneath.
    pub fn instance(&self) -> (r: &StorageInstance<D>)
        ensures
            *r == self.spec_instance(),
    {
        &self.instance
    }

    /// Drops `key` from the cache tier, if there is one; reads still see the durable tier.
    pub fn invalidate_cache(&mut self, key: &[u8])
        requires
            old(self).kv_wf(),
        ensures
            final(self).kv_wf(),
            final(self).spec_prefix() == old(self).spec_prefix(),
            final(self).kv_view() == old(self).kv_view(),
            old(self).spec_instance() is CacheAndDb ==> final(self).kv_listed() == old(self).kv_listed().remove(key@),
    {
        self.instance.invalidate_cache(self.prefix_name, key);
    }
}

impl<D: InnerStore> KVStore for InnerStorage<D> {
    closed spec fn kv_wf(&self) -> bool {
        self.instance.wf()
    }

    closed spec fn kv_has_cache(&self) -> bool {
        self.instance.has_cache()
    }

    closed spec fn kv_view(&self) -> ColumnView {
        self.instance.view_cf(self.prefix_name@)
    }

    closed spec fn kv_listed(&self) -> ColumnView {
        self.instance.listed_cf(self.prefix_name@)
    }

    fn get(&self, key: &[u8]) -> (r: Result<Option<Vec<u8>>, StorageError>) {
        self.instance.get(self.prefix_name, copy_bytes(key))
    }

    fn put(&mut self, key: Vec<u8>, value: Vec<u8>) -> (r: Result<(), StorageError>) {
        self.instance.put(self.prefix_name, key, value)
    }

    fn contains_key(&self, key: Vec<u8>) -> (r: Result<bool, StorageError>) {
        self.instance.contains_key(self.prefix_name, key)
    }

    fn remove(&mut self, key: Vec<u8>) -> (r: Result<(), StorageError>) {
        self.instance.remove(self.prefix_name, key)
    }

    fn write_batch(&mut self, batch: WriteBatch) -> (r: Result<(), StorageError>) {
        self.instance.write_batch(self.prefix_name, &batch)
    }

    fn get_len(&self) -> (r: Result<u64, StorageError>) {
        self.instance.get_len(self.prefix_name)
    }

    fn keys(&self) -> (r: Result<Vec<Vec<u8>>, StorageError>) {
        self.instance.keys(self.prefix_name)
    }
}


/// A namespace over a cache tier and a durable tier, routed as `StorageInstance::CacheAndDb`.
pub struct Storage<D: InnerStore> {
    inner: InnerStorage<D>,
}

impl<D: InnerStore> Storage<D> {
    pub closed spec fn spec_inner(&self) -> InnerStorage<D> {
        self.inner
    }

    /// Both tiers; the cache must hold nothing that the durable tier does not.
    pub fn new(cache: CacheStorage, db: D, prefix_name: ColumnFamilyName) -> (r: Self)
        requires
            cache.wf(),
            db.well_formed(),
            coherent(cache, db),
        ensures
            r.kv_wf(),
            r.kv_view() == db.cf_view(prefix_name@),
            r.kv_listed() == cache.column(prefix_name@),
            r.spec_inner().spec_instance() == (StorageInstance::CacheAndDb { cache, db }),
    {
        let instance = StorageInstance::new_cache_and_db_instance(cache, db);
        Storage { inner: InnerStorage::new(instance, prefix_name) }
    }

    /// The namespace underneath.
    pub fn inner(&self) -> (r: &InnerStorage<D>)
        ensures
            *r == self.spec_inner(),
    {
        &self.inner
    }

    /// Drops `key` from the cache tier; reads still see the durable tier.
    pub fn invalidate_cache(&mut self, key: &[u8])
        requires
            old(self).kv_wf(),
        ensures
            final(self).kv_wf(),
            final(self).kv_view() == old(self).kv_view(),
            final(self).kv_listed() == old(self).kv_listed().remove(key@),
    {
        self.inner.instance.invalidate_cache(self.inner.prefix_name, key);
    }
}

impl<D: InnerStore> KVStore for Storage<D> {
    closed spec fn kv_wf(&self) -> bool {
        &&& self.inner.kv_wf()
        &&& self.inner.spec_instance() is CacheAndDb
    }

    closed spec fn kv_has_cache(&self) -> bool {
        true
    }

    closed spec fn kv_view(&self) -> ColumnView {
        self.inner.kv_view()
    }

    closed spec fn kv_listed(&self) -> ColumnView {
        self.inner.kv_listed()
    }

    fn get(&self, key: &[u8]) -> (r: Result<Option<Vec<u8>>, StorageError>) {
        self.inner.instance.get(self.inner.prefix_name, copy_bytes(key))
    }

    fn put(&mut self, key: Vec<u8>, value: Vec<u8>) -> (r: Result<(), StorageError>) {
        self.inner.instance.put(self.inner.prefix_name, key, value)
    }

    fn contains_key(&self, key: Vec<u8>) -> (r: Result<bool, StorageError>) {
        self.inner.instance.contains_key(self.inner.prefix_name, key)
    }

    fn remove(&mut self, key: Vec<u8>) -> (r: Result<(), StorageError>) {
        self.inner.instance.remove(self.inner.prefix_name, key)
    }

    fn write_batch(&mut self, batch: WriteBatch) -> (r: Result<(), StorageError>) {
        self.inner.instance.write_batch(self.inner.prefix_name, &batch)
    }

    fn get_len(&self) -> (r: Result<u64, StorageError>) {
        self.inner.instance.get_len(self.inner.prefix_name)
    }

    fn keys(&self) -> (r: Result<Vec<Vec<u8>>, StorageError>) {
        self.inner.instance.keys(self.inner.prefix_name)
    }
}


/// In a store with both tiers, after `put(k, v)` succeeded the cache holds `k`, so a read is
/// answered without the durable tier and gives `v`; once the cache loses `k`, a read still
/// gives `v` from the durable tier.
pub proof fn lemma_get_after_put<D: InnerStore>(
    before: StorageInstance<D>,
    after_put: StorageInstance<D>,
    after_loss: StorageInstance<D>,
    cf: Seq<char>,
    k: Seq<u8>,
    v: Seq<u8>,
)
    requires
        before.wf(),
        before is CacheAndDb,
        after_put.wf(),
        after_put is CacheAndDb,
        after_put.view_cf(cf) == before.view_cf(cf).insert(k, v),
        after_put.listed_cf(cf) == before.listed_cf(cf).insert(k, v),
        after_loss.wf(),
        forall|x: Seq<char>| #[trigger] after_loss.view_cf(x) == after_put.view_cf(x),
    ensures
        after_put.listed_cf(cf).contains_key(k),
        after_put.view_cf(cf).get(k) == Some(v),
        after_loss.view_cf(cf).get(k) == Some(v),
{
    assert(after_loss.view_cf(cf) == after_put.view_cf(cf));
}

} // verus!
