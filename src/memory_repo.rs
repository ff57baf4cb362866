//! A store that keeps its rows in memory, verified against the save protocol.

use vstd::prelude::*;

use crate::url_repo::{
    lookup_effect, lookup_of, plan_save, resolve_retrieved, save_effect, save_outcome_of,
    save_result_allowed, row_under, SavePlan, SaveUrlError, ShortUrl, UrlRecord, UrlRepository, UrlRow,
};
use crate::wrappers::now_unix_nanos;

verus! {

/// `rows` holds exactly the entries of `table`, one row per identifier.
pub closed spec fn rows_match(rows: Seq<UrlRow>, table: Map<Seq<char>, UrlRecord>) -> bool {
    &&& forall|i: int|
        0 <= i < rows.len() ==> {
            &&& table.contains_key(#[trigger] rows[i]@.id)
            &&& table[rows[i]@.id] == rows[i]@
        }
    &&& forall|k: Seq<char>|
        #[trigger] table.contains_key(k) ==> exists|i: int| 0 <= i < rows.len() && #[trigger] rows[i]@.id == k
    &&& forall|k: Seq<char>| #[trigger] table.contains_key(k) ==> table[k].id == k
    &&& forall|i: int, j: int|
        0 <= i < rows.len() && 0 <= j < rows.len() && #[trigger] rows[i]@.id == #[trigger] rows[j]@.id
            ==> i == j
}

/// A store of rows held in memory, one per identifier.
pub struct MemoryUrlRepository {
    rows: Vec<UrlRow>,
    table: Ghost<Map<Seq<char>, UrlRecord>>,
}

impl MemoryUrlRepository {
    /// The rows are those of the table, one per identifier.
    #[verifier::type_invariant]
    closed spec fn inv(self) -> bool {
        rows_match(self.rows@, self.table@)
    }

    /// An empty store.
    pub fn new() -> (r: MemoryUrlRepository)
        ensures
            r.table() == Map::<Seq<char>, UrlRecord>::empty(),
    {
        MemoryUrlRepository { rows: Vec::new(), table: Ghost(Map::empty()) }
    }

    /// Where the row under `id` sits.
    fn position(&self, id: &str) -> (r: Option<usize>)
        ensures
            match r {
                Some(i) => {
                    &&& i < self.rows.len()
                    &&& self.table().contains_key(id@)
                    &&& self.table()[id@] == self.rows@[i as int]@
                },
                None => !self.table().contains_key(id@),
            },
    {
        proof {
            use_type_invariant(self);
        }
        let key = id.to_owned();
        let mut i: usize = 0;
        while i < self.rows.len()
            invariant
                i <= self.rows.len(),
                key@ == id@,
                forall|j: int| 0 <= j < i ==> self.rows@[j]@.id != id@,
            decreases self.rows.len() - i,
        {
            if self.rows[i].id == key {
                proof {
                    use_type_invariant(self);
                }
                assert(self.rows@[i as int]@.id == id@);
                return Some(i);
            }
            i = i + 1;
        }
        None
    }

    /// The row stored under `id`, expired or not.
    pub fn row(&self, id: &str) -> (r: Option<UrlRow>)
        ensures
            match r {
                Some(row) => row_under(self.table(), id@) == Some(row@),
                None => row_under(self.table(), id@) is None,
            },
    {
        match self.position(id) {
            Some(i) => Some(self.rows[i].clone()),
            None => None,
        }
    }

    /// Writes `row` under its identifier, in place of any row already there.
    pub fn put_row(&mut self, row: UrlRow)
        ensures
            final(self).table() == old(self).table().insert(row@.id, row@),
    {
        proof {
            use_type_invariant(&*self);
        }
        let found = self.position(row.id.as_str());
        let mut taken = MemoryUrlRepository::new();
        std::mem::swap(self, &mut taken);
        proof {
            use_type_invariant(&taken);
        }
        let MemoryUrlRepository { mut rows, table } = taken;
        let ghost old_rows = rows@;
        let ghost new_table = table@.insert(row@.id, row@);
        match found {
            Some(i) => {
                assert(old_rows[i as int]@.id == row@.id);
                rows.set(i, row);
                assert forall|j: int| 0 <= j < rows.len() implies {
                    &&& new_table.contains_key(#[trigger] rows@[j]@.id)
                    &&& new_table[rows@[j]@.id] == rows@[j]@
                } by {
                    if j != i {
                        assert(old_rows[j]@.id != old_rows[i as int]@.id);
                    }
                }
                assert forall|j: int, l: int|
                    0 <= j < rows.len() && 0 <= l < rows.len() && #[trigger] rows@[j]@.id
                        == #[trigger] rows@[l]@.id implies j == l by {
                    assert(old_rows[j]@.id == rows@[j]@.id);
                    assert(old_rows[l]@.id == rows@[l]@.id);
                }
                assert forall|k: Seq<char>| #[trigger] new_table.contains_key(k) implies exists|j: int|
                    0 <= j < rows.len() && #[trigger] rows@[j]@.id == k by {
                    if k != rows@[i as int]@.id {
                        let j = choose|j: int| 0 <= j < old_rows.len() && #[trigger] old_rows[j]@.id == k;
                        assert(rows@[j]@.id == k);
                    }
                }
            },
            None => {
                rows.push(row);
                assert forall|j: int| 0 <= j < rows.len() implies {
                    &&& new_table.contains_key(#[trigger] rows@[j]@.id)
                    &&& new_table[rows@[j]@.id] == rows@[j]@
                } by {
                    if j < old_rows.len() {
                        assert(table@.contains_key(old_rows[j]@.id));
                        assert(old_rows[j]@.id != row@.id);
                    }
                }
                assert forall|j: int, l: int|
                    0 <= j < rows.len() && 0 <= l < rows.len() && #[trigger] rows@[j]@.id
                        == #[trigger] rows@[l]@.id implies j == l by {
                    if j < old_rows.len() {
                        assert(table@.contains_key(old_rows[j]@.id));
                    }
                    if l < old_rows.len() {
                        assert(table@.contains_key(old_rows[l]@.id));
                    }
                }
                assert forall|k: Seq<char>| #[trigger] new_table.contains_key(k) implies exists|j: int|
                    0 <= j < rows.len() && #[trigger] rows@[j]@.id == k by {
                    if k != rows@[old_rows.len() as int]@.id {
                        let j = choose|j: int| 0 <= j < old_rows.len() && #[trigger] old_rows[j]@.id == k;
                        assert(rows@[j]@.id == k);
                    }
                }
            },
        }
        assert(rows_match(rows@, new_table));
        *self = MemoryUrlRepository { rows, table: Ghost(new_table) };
    }

    /// Looks up the live entry under `id` at `now`.
    pub fn retrieve_url_at(&self, id: &str, now: i128) -> (r: Result<Option<ShortUrl>, String>)
        ensures
            lookup_of(r) == lookup_effect(row_under(self.table(), id@), now as int),
            r matches Ok(Some(found)) ==> found@.id == id@,
    {
        proof {
            use_type_invariant(self);
        }
        let row = self.row(id);
        resolve_retrieved(row, now)
    }

    /// Runs the save protocol at `now`.
    pub fn save_url_at(&mut self, url: ShortUrl, now: i128) -> (r: Result<ShortUrl, SaveUrlError>)
        ensures
            (final(self).table(), save_outcome_of(r)) == save_effect(old(self).table(), url@, now as int),
            save_result_allowed(url@, r),
    {
        proof {
            use_type_invariant(&*self);
        }
        let existing = self.row(url.short_id.as_str());
        match plan_save(existing, now) {
            SavePlan::Insert | SavePlan::ReplaceExpired => {
                self.put_row(url.to_row());
                Ok(url)
            },
            SavePlan::Conflict(stored) => Err(SaveUrlError::ItemAlreadyExists(stored)),
            SavePlan::Fail(cause) => Err(SaveUrlError::Internal(cause)),
        }
    }
}

impl UrlRepository for MemoryUrlRepository {
    open spec fn modeled(&self) -> bool {
        true
    }

    closed spec fn table(&self) -> Map<Seq<char>, UrlRecord> {
        self.table@
    }

    fn retrieve_url(&self, id: &str) -> (r: Result<Option<ShortUrl>, String>)
        ensures
            exists|now: i128|
                lookup_of(r) == lookup_effect(row_under(self.table(), id@), now as int),
    {
        let now = now_unix_nanos();
        self.retrieve_url_at(id, now)
    }

    fn save_url(&mut self, url: ShortUrl) -> (r: Result<ShortUrl, SaveUrlError>)
        ensures
            exists|now: i128|
                (final(self).table(), save_outcome_of(r)) == save_effect(
                    old(self).table(),
                    url@,
                    now as int,
                ),
    {
        let now = now_unix_nanos();
        self.save_url_at(url, now)
    }
}

} // verus!
