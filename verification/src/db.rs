//! The one thing the API owns: its clients' keys. Everything else it serves is
//! read live from upstream.
//!
//! [`Db`] is the table of keys: which rows there are, and what each operation
//! does to them. A store on disk loads the rows with [`KeyRow::from_columns`],
//! applies an operation here, and writes the row back.

use crate::auth::keys::{in_order, scopes_named, Scope, ScopeSet};
use crate::clock::{minute_ago, minute_before, stamp, stamp_text, unix_nanos};
use crate::error::{outcome, Error, ErrorView, Result};
use crate::text::{before, before_is_a_strict_order, is_before, pieces, same};
use vstd::prelude::*;

verus! {

#[derive(Debug)]
pub struct KeyRow {
    pub id: String,
    pub name: String,
    pub secret_sha256: String,
    pub scopes: Vec<Scope>,
    pub created_at: String,
    pub last_used_at: Option<String>,
    pub revoked_at: Option<String>,
}

#[verifier::ext_equal]
pub struct KeyRowView {
    pub id: Seq<char>,
    pub name: Seq<char>,
    pub secret_sha256: Seq<char>,
    pub scopes: Seq<Scope>,
    pub created_at: Seq<char>,
    pub last_used_at: Option<Seq<char>>,
    pub revoked_at: Option<Seq<char>>,
}

impl View for KeyRow {
    type V = KeyRowView;

    open spec fn view(&self) -> KeyRowView {
        KeyRowView {
            id: self.id@,
            name: self.name@,
            secret_sha256: self.secret_sha256@,
            scopes: self.scopes@,
            created_at: self.created_at@,
            last_used_at: self.last_used_at.deep_view(),
            revoked_at: self.revoked_at.deep_view(),
        }
    }
}

impl DeepView for KeyRow {
    type V = KeyRowView;

    open spec fn deep_view(&self) -> KeyRowView {
        self@
    }
}

impl Clone for KeyRow {
    fn clone(&self) -> (r: KeyRow)
        ensures
            r@ == self@,
    {
        KeyRow {
            id: self.id.clone(),
            name: self.name.clone(),
            secret_sha256: self.secret_sha256.clone(),
            scopes: copy_scopes(self.scopes.as_slice()),
            created_at: self.created_at.clone(),
            last_used_at: copy_text(&self.last_used_at),
            revoked_at: copy_text(&self.revoked_at),
        }
    }
}

/// The same text, or the same lack of one.
pub fn copy_text(text: &Option<String>) -> (r: Option<String>)
    ensures
        r.deep_view() == text.deep_view(),
{
    match text {
        Some(text) => Some(text.clone()),
        None => None,
    }
}

/// The same scopes.
pub fn copy_scopes(scopes: &[Scope]) -> (r: Vec<Scope>)
    ensures
        r@ == scopes@,
{
    let mut out: Vec<Scope> = Vec::new();
    let n: usize = scopes.len();
    for i in 0..n
        invariant
            n == scopes@.len(),
            out@ == scopes@.take(i as int),
    {
        out.push(scopes[i]);
        assert(out@ =~= scopes@.take(i + 1));
    }
    assert(out@ =~= scopes@);
    out
}

/// The scopes of a stored list: none, where the list does not read.
pub open spec fn stored_scopes(list: Seq<char>) -> Seq<Scope> {
    match scopes_named(pieces(list, ',')) {
        Ok(scopes) => in_order(scopes),
        Err(_) => Seq::empty(),
    }
}

impl KeyRow {
    pub fn scope_set(&self) -> (r: ScopeSet)
        ensures
            r@ == self@.scopes.to_set(),
    {
        ScopeSet::from_scopes(self.scopes.as_slice())
    }

    /// A row from its columns, as they are stored.
    pub fn from_columns(
        id: String,
        name: String,
        secret_sha256: String,
        scopes: &str,
        created_at: String,
        last_used_at: Option<String>,
        revoked_at: Option<String>,
    ) -> (r: KeyRow)
        ensures
            r@ == (KeyRowView {
                id: id@,
                name: name@,
                secret_sha256: secret_sha256@,
                scopes: stored_scopes(scopes@),
                created_at: created_at@,
                last_used_at: last_used_at.deep_view(),
                revoked_at: revoked_at.deep_view(),
            }),
    {
        let scopes = match Scope::parse_list(scopes) {
            Ok(scopes) => scopes,
            Err(_) => Vec::new(),
        };
        KeyRow { id, name, secret_sha256, scopes, created_at, last_used_at, revoked_at }
    }
}

/// What is kept of a row that is inserted: its scopes in order, and neither a
/// last use nor a revocation.
pub open spec fn inserted(row: KeyRowView) -> KeyRowView {
    KeyRowView {
        scopes: in_order(row.scopes.to_set()),
        last_used_at: None,
        revoked_at: None,
        ..row
    }
}

/// The older row stands first; of two equally old ones, the smaller id.
pub open spec fn row_before(a: KeyRowView, b: KeyRowView) -> bool {
    before(a.created_at, b.created_at) || a.created_at == b.created_at && before(a.id, b.id)
}

/// The rows are those of the table, oldest first.
pub open spec fn lists(rows: Seq<KeyRowView>, table: Map<Seq<char>, KeyRowView>) -> bool {
    &&& forall|i: int|
        0 <= i < rows.len() ==> table.contains_key((#[trigger] rows[i]).id) && table[rows[i].id]
            == rows[i]
    &&& forall|id: Seq<char>| #[trigger]
        table.contains_key(id) ==> exists|i: int| 0 <= i < rows.len() && rows[i].id == id
    &&& forall|i: int, j: int|
        0 <= i < j < rows.len() ==> row_before(#[trigger] rows[i], #[trigger] rows[j])
}

/// A row that has not been revoked yet is revoked; any other stays.
pub open spec fn revoked(
    table: Map<Seq<char>, KeyRowView>,
    id: Seq<char>,
    at: Seq<char>,
) -> Map<Seq<char>, KeyRowView> {
    if table.contains_key(id) && table[id].revoked_at is None {
        table.insert(id, KeyRowView { revoked_at: Some(at), ..table[id] })
    } else {
        table
    }
}

/// The last use of a key is recorded where none is, or where the one recorded
/// is more than a minute old.
pub open spec fn touched(
    table: Map<Seq<char>, KeyRowView>,
    id: Seq<char>,
    nanos: i128,
) -> Map<Seq<char>, KeyRowView> {
    if table.contains_key(id) && (match table[id].last_used_at {
        Some(last) => before(last, stamp_text(minute_before(nanos))),
        None => true,
    }) {
        table.insert(id, KeyRowView { last_used_at: Some(stamp_text(nanos)), ..table[id] })
    } else {
        table
    }
}

/// The table of keys, each under its id.
pub struct Db {
    rows: Vec<KeyRow>,
}

impl View for Db {
    type V = Map<Seq<char>, KeyRowView>;

    closed spec fn view(&self) -> Map<Seq<char>, KeyRowView> {
        Map::new(
            |id: Seq<char>| exists|i: int| self.row_at(id, i),
            |id: Seq<char>| self.rows@[choose|i: int| self.row_at(id, i)]@,
        )
    }
}

impl Db {
    spec fn row_at(self, id: Seq<char>, i: int) -> bool {
        0 <= i < self.rows@.len() && self.rows@[i].id@ == id
    }

    /// No id stands twice.
    pub closed spec fn wf(self) -> bool {
        forall|i: int, j: int|
            0 <= i < self.rows@.len() && 0 <= j < self.rows@.len() && i != j
                ==> (#[trigger] self.rows@[i]).id@ != (#[trigger] self.rows@[j]).id@
    }

    proof fn row_is_in(self, i: int)
        requires
            self.wf(),
            0 <= i < self.rows@.len(),
        ensures
            self@.contains_key(self.rows@[i].id@),
            self@[self.rows@[i].id@] == self.rows@[i]@,
    {
        let id = self.rows@[i].id@;
        assert(self.row_at(id, i));
        let k = choose|k: int| self.row_at(id, k);
        assert(self.row_at(id, k));
        assert(k == i);
    }

    proof fn row_is_absent(self, id: Seq<char>)
        requires
            forall|i: int| 0 <= i < self.rows@.len() ==> (#[trigger] self.rows@[i]).id@ != id,
        ensures
            !self@.contains_key(id),
    {
        if self@.contains_key(id) {
            let i = choose|i: int| self.row_at(id, i);
            assert(self.row_at(id, i));
        }
    }

    /// A row stands under its own id.
    pub proof fn rows_stand_under_their_ids(self, id: Seq<char>)
        requires
            self.wf(),
            self@.contains_key(id),
        ensures
            self@[id].id == id,
    {
        let i = choose|i: int| self.row_at(id, i);
        assert(self.row_at(id, i));
        self.row_is_in(i);
    }

    /// A table without rows.
    pub fn in_memory() -> (r: Result<Db>)
        ensures
            r matches Ok(db) && db.wf() && db@ == Map::<Seq<char>, KeyRowView>::empty(),
    {
        let db = Db { rows: Vec::new() };
        assert forall|id: Seq<char>| !db@.contains_key(id) by {
            db.row_is_absent(id);
        }
        assert(db@ =~= Map::<Seq<char>, KeyRowView>::empty());
        Ok(db)
    }

    fn find(&self, id: &str) -> (r: Option<usize>)
        requires
            self.wf(),
        ensures
            match r {
                Some(i) => i < self.rows@.len() && self.rows@[i as int].id@ == id@
                    && self@.contains_key(id@) && self@[id@] == self.rows@[i as int]@,
                None => !self@.contains_key(id@) && forall|i: int|
                    0 <= i < self.rows@.len() ==> (#[trigger] self.rows@[i]).id@ != id@,
            },
    {
        let n: usize = self.rows.len();
        for i in 0..n
            invariant
                n == self.rows@.len(),
                self.wf(),
                forall|k: int| 0 <= k < i ==> (#[trigger] self.rows@[k]).id@ != id@,
        {
            if same(self.rows[i].id.as_str(), id) {
                proof {
                    self.row_is_in(i as int);
                }
                return Some(i);
            }
        }
        proof {
            self.row_is_absent(id@);
        }
        None
    }

    /// Takes in a row as it was stored, unless its id is there already.
    pub fn load(&mut self, row: KeyRow) -> (r: bool)
        requires
            old(self).wf(),
        ensures
            final(self).wf(),
            r == !old(self)@.contains_key(row@.id),
            final(self)@ == if r {
                old(self)@.insert(row@.id, row@)
            } else {
                old(self)@
            },
    {
        if self.find(row.id.as_str()).is_some() {
            return false;
        }
        let ghost was = *self;
        self.rows.push(row);
        proof {
            self.holds_one_more(was, row);
        }
        true
    }

    proof fn holds_one_more(self, was: Db, row: KeyRow)
        requires
            was.wf(),
            !was@.contains_key(row@.id),
            self.rows@ == was.rows@.push(row),
        ensures
            self.wf(),
            self@ == was@.insert(row@.id, row@),
    {
        assert forall|i: int| 0 <= i < was.rows@.len() implies (#[trigger] was.rows@[i]).id@
            != row@.id by {
            was.row_is_in(i);
        }
        assert(self.wf()) by {
            assert forall|i: int, j: int|
                0 <= i < self.rows@.len() && 0 <= j < self.rows@.len() && i != j implies (
            #[trigger] self.rows@[i]).id@ != (#[trigger] self.rows@[j]).id@ by {
                if i < was.rows@.len() && j < was.rows@.len() {
                    assert(was.rows@[i].id@ != was.rows@[j].id@);
                } else if i < was.rows@.len() {
                    assert(was.rows@[i].id@ != row@.id);
                } else {
                    assert(was.rows@[j].id@ != row@.id);
                }
            }
        }
        let want = was@.insert(row@.id, row@);
        assert forall|id: Seq<char>| #[trigger] self@.contains_key(id) implies want.contains_key(id)
            && self@[id] == want[id] by {
            let i = choose|i: int| self.row_at(id, i);
            assert(self.row_at(id, i));
            self.row_is_in(i);
            if i < was.rows@.len() {
                was.row_is_in(i);
            }
        }
        assert forall|id: Seq<char>| #[trigger] want.contains_key(id) implies self@.contains_key(
            id,
        ) by {
            if id == row@.id {
                assert(self.row_at(id, was.rows@.len() as int));
            } else {
                let i = choose|i: int| was.row_at(id, i);
                assert(was.row_at(id, i));
                assert(self.row_at(id, i));
            }
        }
        assert(self@ =~= want);
    }

    proof fn holds_changed(self, was: Db, i: int, row: KeyRow)
        requires
            was.wf(),
            0 <= i < was.rows@.len(),
            row@.id == was.rows@[i]@.id,
            self.rows@ == was.rows@.update(i, row),
        ensures
            self.wf(),
            self@ == was@.insert(row@.id, row@),
    {
        assert forall|k: int| 0 <= k < self.rows@.len() implies (#[trigger] self.rows@[k]).id@
            == was.rows@[k].id@ by {}
        assert(self.wf());
        let want = was@.insert(row@.id, row@);
        assert forall|id: Seq<char>| #[trigger] self@.contains_key(id) implies want.contains_key(id)
            && self@[id] == want[id] by {
            let k = choose|k: int| self.row_at(id, k);
            assert(self.row_at(id, k));
            self.row_is_in(k);
            was.row_is_in(k);
            if k != i {
                assert(was.rows@[k].id@ != was.rows@[i].id@);
            }
        }
        assert forall|id: Seq<char>| #[trigger] want.contains_key(id) implies self@.contains_key(
            id,
        ) by {
            if id == row@.id {
                assert(self.row_at(id, i));
            } else {
                let k = choose|k: int| was.row_at(id, k);
                assert(was.row_at(id, k));
                assert(self.row_at(id, k));
            }
        }
        assert(self@ =~= want);
    }

    /// A new row; an error if its id is taken.
    pub fn insert_key(&mut self, row: &KeyRow) -> (r: Result<()>)
        requires
            old(self).wf(),
        ensures
            final(self).wf(),
            if old(self)@.contains_key(row@.id) {
                outcome(r) == Err::<(), ErrorView>(
                    ErrorView::Db("UNIQUE constraint failed: api_keys.id"@),
                ) && final(self)@ == old(self)@
            } else {
                r is Ok && final(self)@ == old(self)@.insert(row@.id, inserted(row@))
            },
    {
        let kept = KeyRow {
            id: row.id.clone(),
            name: row.name.clone(),
            secret_sha256: row.secret_sha256.clone(),
            scopes: row.scope_set().iter(),
            created_at: row.created_at.clone(),
            last_used_at: None,
            revoked_at: None,
        };
        assert(kept@ == inserted(row@));
        if self.load(kept) {
            Ok(())
        } else {
            Err(Error::Db("UNIQUE constraint failed: api_keys.id".to_owned()))
        }
    }

    /// The row of that id.
    pub fn key(&self, id: &str) -> (r: Result<Option<KeyRow>>)
        requires
            self.wf(),
        ensures
            outcome(r) == Ok::<Option<KeyRowView>, ErrorView>(
                if self@.contains_key(id@) {
                    Some(self@[id@])
                } else {
                    None
                },
            ),
    {
        match self.find(id) {
            Some(i) => Ok(Some(self.rows[i].clone())),
            None => Ok(None),
        }
    }

    /// Every row, oldest first.
    pub fn keys(&self) -> (r: Result<Vec<KeyRow>>)
        requires
            self.wf(),
        ensures
            r matches Ok(rows) && lists(rows.deep_view(), self@),
    {
        let mut out: Vec<KeyRow> = Vec::new();
        let n: usize = self.rows.len();
        for i in 0..n
            invariant
                n == self.rows@.len(),
                self.wf(),
                rows_sorted(out.deep_view()),
                rows_from(out.deep_view(), self.rows@.take(i as int)),
        {
            proof {
                assert forall|k: int| 0 <= k < out@.len() implies (#[trigger] out.deep_view()[k]).id
                    != self.rows@[i as int].id@ by {
                    let j = choose|j: int|
                        0 <= j < i && self.rows@.take(i as int)[j]@ == out.deep_view()[k];
                    assert(self.rows@[j].id@ != self.rows@[i as int].id@);
                }
            }
            let ghost was = out.deep_view();
            insert_sorted(&mut out, self.rows[i].clone());
            proof {
                one_more_row_from(was, out.deep_view(), self.rows@, i as int);
            }
        }
        proof {
            assert(self.rows@.take(n as int) =~= self.rows@);
            let rows = out.deep_view();
            assert forall|k: int| 0 <= k < rows.len() implies self@.contains_key(
                (#[trigger] rows[k]).id,
            ) && self@[rows[k].id] == rows[k] by {
                let j = choose|j: int| 0 <= j < self.rows@.len() && self.rows@[j]@ == rows[k];
                self.row_is_in(j);
            }
            assert forall|id: Seq<char>| #[trigger] self@.contains_key(id) implies exists|k: int|
                0 <= k < rows.len() && rows[k].id == id by {
                let j = choose|j: int| self.row_at(id, j);
                assert(self.row_at(id, j));
                let k = choose|k: int| 0 <= k < rows.len() && rows[k] == self.rows@[j]@;
                assert(rows[k].id == id);
            }
        }
        Ok(out)
    }

    /// Revoke now; `Ok(false)` if there is no such key or it was already
    /// revoked.
    pub fn revoke_key(&mut self, id: &str) -> (r: Result<bool>)
        requires
            old(self).wf(),
        ensures
            final(self).wf(),
            exists|nanos: i128|
                #![trigger stamp_text(nanos)]
                r == Ok::<bool, Error>(
                    old(self)@.contains_key(id@) && old(self)@[id@].revoked_at is None,
                ) && final(self)@ == revoked(old(self)@, id@, stamp_text(nanos)),
    {
        let nanos: i128 = unix_nanos();
        let at = stamp(nanos);
        self.revoke_key_at(id, at.as_str())
    }

    /// The same, with the text of the moment.
    pub fn revoke_key_at(&mut self, id: &str, at: &str) -> (r: Result<bool>)
        requires
            old(self).wf(),
        ensures
            final(self).wf(),
            r == Ok::<bool, Error>(
                old(self)@.contains_key(id@) && old(self)@[id@].revoked_at is None,
            ),
            final(self)@ == revoked(old(self)@, id@, at@),
    {
        let i: usize = match self.find(id) {
            Some(i) => i,
            None => {
                return Ok(false);
            },
        };
        if self.rows[i].revoked_at.is_some() {
            return Ok(false);
        }
        let ghost was = *self;
        let mut row = self.rows[i].clone();
        row.revoked_at = Some(at.to_owned());
        assert(row@ == KeyRowView { revoked_at: Some(at@), ..was.rows@[i as int]@ });
        self.rows.set(i, row);
        proof {
            self.holds_changed(was, i as int, row);
        }
        Ok(true)
    }

    /// Best-effort, coarse: one write per key per minute at most, so a busy
    /// headset doesn't turn every request into a disk write.
    pub fn touch_key(&mut self, id: &str) -> (r: Result<()>)
        requires
            old(self).wf(),
        ensures
            final(self).wf(),
            r is Ok,
            exists|nanos: i128| final(self)@ == #[trigger] touched(old(self)@, id@, nanos),
    {
        let nanos: i128 = unix_nanos();
        self.touch_key_at(id, nanos)
    }

    /// The same, at the moment `nanos`.
    pub fn touch_key_at(&mut self, id: &str, nanos: i128) -> (r: Result<()>)
        requires
            old(self).wf(),
        ensures
            final(self).wf(),
            r is Ok,
            final(self)@ == touched(old(self)@, id@, nanos),
    {
        let i: usize = match self.find(id) {
            Some(i) => i,
            None => {
                return Ok(());
            },
        };
        let due = match &self.rows[i].last_used_at {
            Some(last) => {
                let mark = stamp(minute_ago(nanos));
                is_before(last.as_str(), mark.as_str())
            },
            None => true,
        };
        if !due {
            return Ok(());
        }
        let ghost was = *self;
        let mut row = self.rows[i].clone();
        row.last_used_at = Some(stamp(nanos));
        assert(row@ == KeyRowView {
            last_used_at: Some(stamp_text(nanos)),
            ..was.rows@[i as int]@
        });
        self.rows.set(i, row);
        proof {
            self.holds_changed(was, i as int, row);
        }
        Ok(())
    }
}

spec fn rows_sorted(rows: Seq<KeyRowView>) -> bool {
    forall|i: int, j: int|
        0 <= i < j < rows.len() ==> row_before(#[trigger] rows[i], #[trigger] rows[j])
}

/// The row is that of one of these.
spec fn is_one_of(row: KeyRowView, from: Seq<KeyRow>) -> bool {
    exists|j: int| 0 <= j < from.len() && (#[trigger] from[j])@ == row
}

/// The same rows, in any order.
spec fn rows_from(rows: Seq<KeyRowView>, from: Seq<KeyRow>) -> bool {
    &&& forall|k: int| 0 <= k < rows.len() ==> is_one_of(#[trigger] rows[k], from)
    &&& forall|j: int| 0 <= j < from.len() ==> rows.contains((#[trigger] from[j])@)
}

proof fn one_more_row_from(
    was: Seq<KeyRowView>,
    rows: Seq<KeyRowView>,
    from: Seq<KeyRow>,
    i: int,
)
    requires
        0 <= i < from.len(),
        rows_from(was, from.take(i)),
        exists|at: int| 0 <= at <= was.len() && rows == #[trigger] was.insert(at, from[i]@),
    ensures
        rows_from(rows, from.take(i + 1)),
{
    let at = choose|at: int| 0 <= at <= was.len() && rows == #[trigger] was.insert(at, from[i]@);
    let more = from.take(i + 1);
    assert forall|k: int| 0 <= k < rows.len() implies is_one_of(#[trigger] rows[k], more) by {
        if k == at {
            assert(more[i]@ == rows[k]);
        } else {
            let old_k = if k < at {
                k
            } else {
                k - 1
            };
            assert(rows[k] == was[old_k]);
            assert(is_one_of(was[old_k], from.take(i)));
            let j = choose|j: int| 0 <= j < i && (#[trigger] from.take(i)[j])@ == was[old_k];
            assert(more[j]@ == rows[k]);
        }
    }
    assert forall|j: int| 0 <= j < more.len() implies rows.contains((#[trigger] more[j])@) by {
        if j == i {
            assert(rows[at] == more[j]@);
        } else {
            assert(from.take(i)[j] == more[j]);
            assert(was.contains(from.take(i)[j]@));
            let k = was.index_of(from.take(i)[j]@);
            assert(rows[if k < at {
                k
            } else {
                k + 1
            }] == more[j]@);
        }
    }
}

proof fn row_before_is_a_strict_order(a: KeyRowView, b: KeyRowView, c: KeyRowView)
    ensures
        row_before(a, b) && row_before(b, c) ==> row_before(a, c),
        a.id != b.id ==> row_before(a, b) || row_before(b, a),
{
    before_is_a_strict_order(a.created_at, b.created_at, c.created_at);
    before_is_a_strict_order(a.id, b.id, c.id);
}

fn is_row_before(a: &KeyRow, b: &KeyRow) -> (r: bool)
    ensures
        r == row_before(a@, b@),
{
    is_before(a.created_at.as_str(), b.created_at.as_str()) || (same(
        a.created_at.as_str(),
        b.created_at.as_str(),
    ) && is_before(a.id.as_str(), b.id.as_str()))
}

/// Puts the row in its place.
fn insert_sorted(rows: &mut Vec<KeyRow>, row: KeyRow)
    requires
        rows_sorted(old(rows).deep_view()),
        forall|k: int|
            0 <= k < old(rows)@.len() ==> (#[trigger] old(rows).deep_view()[k]).id != row@.id,
    ensures
        rows_sorted(final(rows).deep_view()),
        exists|at: int|
            0 <= at <= old(rows)@.len() && final(rows).deep_view() == #[trigger] old(
                rows,
            ).deep_view().insert(at, row@),
{
    let ghost was = rows.deep_view();
    let mut at: usize = 0;
    while at < rows.len() && is_row_before(&rows[at], &row)
        invariant
            at <= rows@.len(),
            rows.deep_view() == was,
            forall|k: int| 0 <= k < at ==> row_before(#[trigger] was[k], row@),
        decreases rows@.len() - at,
    {
        assert(was[at as int] == rows@[at as int]@);
        at = at + 1;
    }
    let ghost stop = at < rows@.len() ==> !row_before(was[at as int], row@);
    assert(stop) by {
        if at < rows@.len() {
            assert(was[at as int] == rows@[at as int]@);
        }
    }
    rows.insert(at, row);
    proof {
        let now = rows.deep_view();
        assert(now =~= was.insert(at as int, row@));
        assert forall|i: int, j: int| 0 <= i < j < now.len() implies row_before(
            #[trigger] now[i],
            #[trigger] now[j],
        ) by {
            if j == at {
                assert(now[i] == was[i]);
            } else if i == at {
                assert(now[j] == was[j - 1]);
                row_before_is_a_strict_order(row@, was[at as int], was[j - 1]);
                assert(was[at as int].id != row@.id);
                if j - 1 > at {
                    assert(row_before(was[at as int], was[j - 1]));
                }
            } else {
                let i0 = if i < at {
                    i
                } else {
                    i - 1
                };
                let j0 = if j < at {
                    j
                } else {
                    j - 1
                };
                assert(now[i] == was[i0]);
                assert(now[j] == was[j0]);
            }
        }
    }
}

// ---- laws -------------------------------------------------------------------

/// Revoking a key a second time does nothing: it keeps the moment of the first.
pub proof fn second_revocation_is_a_no_op(
    table: Map<Seq<char>, KeyRowView>,
    id: Seq<char>,
    first: Seq<char>,
    second: Seq<char>,
)
    ensures
        revoked(revoked(table, id, first), id, second) == revoked(table, id, first),
        table.contains_key(id) ==> revoked(table, id, first)[id].revoked_at is Some,
{
}

/// A key that was revoked stays so, whatever is done to the table afterwards.
pub proof fn revocation_is_final(
    table: Map<Seq<char>, KeyRowView>,
    id: Seq<char>,
    other: Seq<char>,
    at: Seq<char>,
    nanos: i128,
    row: KeyRowView,
)
    requires
        table.contains_key(id),
        table[id].revoked_at is Some,
    ensures
        revoked(table, other, at).contains_key(id),
        revoked(table, other, at)[id].revoked_at == table[id].revoked_at,
        touched(table, other, nanos).contains_key(id),
        touched(table, other, nanos)[id].revoked_at == table[id].revoked_at,
        !table.contains_key(row.id) ==> table.insert(row.id, inserted(row))[id] == table[id],
{
}

/// A use that is recorded less than a minute ago, as the texts of the two
/// moments have it, is not written again.
pub proof fn recent_use_is_not_written_again(
    table: Map<Seq<char>, KeyRowView>,
    id: Seq<char>,
    first: i128,
    second: i128,
)
    requires
        table.contains_key(id),
        table[id].last_used_at is None,
        !before(stamp_text(first), stamp_text(minute_before(second))),
    ensures
        touched(touched(table, id, first), id, second) == touched(table, id, first),
        touched(table, id, first)[id].last_used_at == Some(stamp_text(first)),
{
}

/// Revoking a key or recording its use leaves every other row as it was.
pub proof fn other_rows_stay(
    table: Map<Seq<char>, KeyRowView>,
    id: Seq<char>,
    other: Seq<char>,
    at: Seq<char>,
    nanos: i128,
)
    requires
        id != other,
    ensures
        revoked(table, id, at).contains_key(other) == table.contains_key(other),
        touched(table, id, nanos).contains_key(other) == table.contains_key(other),
        table.contains_key(other) ==> revoked(table, id, at)[other] == table[other] && touched(
            table,
            id,
            nanos,
        )[other] == table[other],
{
}

/// A row is kept as it is given, with its scopes each once and in order; it is new,
/// so it is neither used nor revoked.
pub proof fn a_row_is_kept_as_given(row: KeyRowView)
    ensures
        inserted(row).id == row.id,
        inserted(row).name == row.name,
        inserted(row).secret_sha256 == row.secret_sha256,
        inserted(row).created_at == row.created_at,
        inserted(row).last_used_at is None,
        inserted(row).revoked_at is None,
        inserted(row).scopes.no_duplicates(),
        forall|s: Scope| #[trigger] inserted(row).scopes.contains(s) <==> row.scopes.contains(s),
{
    crate::auth::keys::scopes_are_listed_in_order(row.scopes);
}

/// Scopes read back from how they are stored; a list that names anything else gives
/// none.
pub proof fn stored_scopes_read_back(scopes: Seq<Scope>, list: Seq<char>)
    ensures
        stored_scopes(crate::text::joined(crate::auth::keys::scope_names(scopes), ","@)) == in_order(
            scopes.to_set(),
        ),
        scopes_named(pieces(list, ',')) is Err ==> stored_scopes(list).len() == 0,
        scopes_named(pieces(list, ',')) matches Ok(named) ==> forall|s: Scope| #[trigger]
            stored_scopes(list).contains(s) <==> named.contains(s),
{
    crate::auth::keys::listed_scopes_read_back(scopes);
    if let Ok(named) = scopes_named(pieces(list, ',')) {
        crate::auth::keys::every_set_is_listed(named);
        assert forall|s: Scope| #[trigger] stored_scopes(list).contains(s) <==> named.contains(
            s,
        ) by {
            assert(stored_scopes(list).to_set().contains(s) == named.contains(s));
        }
    }
}

/// A revocation says when, and changes nothing else: a row that stood has that moment,
/// one that was revoked before keeps its own, and none is added or lost.
pub proof fn a_revocation_says_when(
    table: Map<Seq<char>, KeyRowView>,
    id: Seq<char>,
    at: Seq<char>,
    other: Seq<char>,
)
    ensures
        revoked(table, id, at).dom() == table.dom(),
        table.contains_key(id) && table[id].revoked_at is None ==> revoked(table, id, at)[id] == (
        KeyRowView { revoked_at: Some(at), ..table[id] }),
        table.contains_key(id) && table[id].revoked_at is Some ==> revoked(table, id, at)[id]
            == table[id],
        table.contains_key(other) && other != id ==> revoked(table, id, at)[other] == table[other],
{
    assert(revoked(table, id, at).dom() =~= table.dom());
}

/// A use is written down where none is, and where the one that is lies more than a
/// minute back; any other stays as it is, and so does the rest of the row and of the
/// table.
pub proof fn a_use_is_written_once_a_minute(
    table: Map<Seq<char>, KeyRowView>,
    id: Seq<char>,
    nanos: i128,
    other: Seq<char>,
)
    requires
        nanos >= 0,
    ensures
        touched(table, id, nanos).dom() == table.dom(),
        table.contains_key(id) ==> {
            let after = touched(table, id, nanos)[id];
            let minute_back = stamp_text((nanos - 60_000_000_000) as i128);
            &&& after == KeyRowView { last_used_at: after.last_used_at, ..table[id] }
            &&& table[id].last_used_at is None ==> after.last_used_at == Some(stamp_text(nanos))
            &&& table[id].last_used_at matches Some(last) ==> before(last, minute_back)
                ==> after.last_used_at == Some(stamp_text(nanos))
            &&& table[id].last_used_at matches Some(last) ==> !before(last, minute_back)
                ==> after.last_used_at == Some(last)
        },
        table.contains_key(other) && other != id ==> touched(table, id, nanos)[other]
            == table[other],
{
    assert(touched(table, id, nanos).dom() =~= table.dom());
}

/// A list of the table has each row once, the older first and of equally old ones the
/// smaller id first.
pub proof fn a_list_has_each_row_once(
    rows: Seq<KeyRowView>,
    table: Map<Seq<char>, KeyRowView>,
    i: int,
    j: int,
)
    requires
        lists(rows, table),
    ensures
        forall|id: Seq<char>| #[trigger]
            table.contains_key(id) ==> exists|k: int| 0 <= k < rows.len() && rows[k] == table[id],
        0 <= i < rows.len() ==> table.contains_key(rows[i].id) && table[rows[i].id] == rows[i],
        0 <= i < j < rows.len() ==> rows[i].id != rows[j].id,
        0 <= i < j < rows.len() ==> !before(rows[j].created_at, rows[i].created_at),
        0 <= i < j < rows.len() && rows[i].created_at == rows[j].created_at ==> before(
            rows[i].id,
            rows[j].id,
        ),
{
    assert forall|id: Seq<char>| #[trigger] table.contains_key(id) implies exists|k: int|
        0 <= k < rows.len() && rows[k] == table[id] by {
        let k = choose|k: int| 0 <= k < rows.len() && rows[k].id == id;
        assert(table[rows[k].id] == rows[k]);
        assert(rows[k] == table[id]);
    }
    if 0 <= i < j < rows.len() {
        assert(row_before(rows[i], rows[j]));
        before_is_a_strict_order(rows[i].created_at, rows[j].created_at, rows[i].created_at);
        before_is_a_strict_order(rows[i].created_at, rows[i].created_at, rows[i].created_at);
        before_is_a_strict_order(rows[i].id, rows[i].id, rows[i].id);
        if rows[i].id == rows[j].id {
            assert(table[rows[i].id] == rows[i]);
            assert(table[rows[j].id] == rows[j]);
        }
    }
}

} // verus!
