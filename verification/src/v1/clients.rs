//! `/v1/clients`: which devices have used the API, and when. Names and times only:
//! a client key's id, secret and scopes never leave `/v1/keys` (admin-only).
//! Several keys can share a name (a headset re-pairing mints a new `quest-3` and
//! revokes the old), so each name appears once, with the latest use among its live
//! keys. Revoked keys don't count.

use crate::db::{copy_text, lists, Db, KeyRow, KeyRowView};
use crate::error::Result;
use crate::json::{field, has_just, items_field, text_field, text_or_null, Json, JsonView, Object};
use crate::text::{before, before_is_a_strict_order, is_before, same};
use vstd::prelude::*;

verus! {

pub struct Client {
    /// The key's human name: `mac`, `quest-3`, `web`, `win-rig`.
    pub name: String,
    /// Last authenticated request (RFC 3339; recorded at most about once a
    /// minute). None if no live key of this name has ever been used.
    pub last_seen_at: Option<String>,
    /// When the newest live key of this name was minted (or paired).
    pub since: String,
}

#[verifier::ext_equal]
pub struct ClientView {
    pub name: Seq<char>,
    pub last_seen_at: Option<Seq<char>>,
    pub since: Seq<char>,
}

impl View for Client {
    type V = ClientView;

    open spec fn view(&self) -> ClientView {
        ClientView {
            name: self.name@,
            last_seen_at: self.last_seen_at.deep_view(),
            since: self.since@,
        }
    }
}

impl DeepView for Client {
    type V = ClientView;

    open spec fn deep_view(&self) -> ClientView {
        self@
    }
}

pub struct Clients {
    pub data: Vec<Client>,
}

/// A key that counts: of that name, and not revoked.
pub open spec fn live(row: KeyRowView, name: Seq<char>) -> bool {
    row.name == name && row.revoked_at is None
}

/// The first use is no later than the second, as texts. A key that was never used
/// comes before all others.
pub open spec fn no_later(a: Option<Seq<char>>, b: Option<Seq<char>>) -> bool {
    match (a, b) {
        (None, _) => true,
        (Some(_), None) => false,
        (Some(a), Some(b)) => !before(b, a),
    }
}

/// The client sums up the live keys of its name among the rows: the newest of
/// them, and their latest use.
pub open spec fn sums_up(c: ClientView, rows: Seq<KeyRowView>) -> bool {
    &&& exists|i: int|
        0 <= i < rows.len() && live(#[trigger] rows[i], c.name) && rows[i].created_at == c.since
    &&& forall|i: int|
        0 <= i < rows.len() && live(#[trigger] rows[i], c.name) ==> !before(
            c.since,
            rows[i].created_at,
        ) && no_later(rows[i].last_used_at, c.last_seen_at)
    &&& c.last_seen_at is Some ==> exists|i: int|
        0 <= i < rows.len() && live(#[trigger] rows[i], c.name) && rows[i].last_used_at
            == c.last_seen_at
}

/// The names stand in order: each once.
pub open spec fn by_name(clients: Seq<ClientView>) -> bool {
    forall|i: int, j: int|
        0 <= i < j < clients.len() ==> before(
            (#[trigger] clients[i]).name,
            (#[trigger] clients[j]).name,
        )
}

/// The clients sum up the rows: one for each name that has a live key.
pub open spec fn summary(clients: Seq<ClientView>, rows: Seq<KeyRowView>) -> bool {
    &&& by_name(clients)
    &&& forall|k: int| 0 <= k < clients.len() ==> sums_up(#[trigger] clients[k], rows)
    &&& forall|i: int|
        0 <= i < rows.len() && (#[trigger] rows[i]).revoked_at is None ==> named_in(
            clients,
            rows[i].name,
        )
}

/// One of the clients has that name.
pub open spec fn named_in(clients: Seq<ClientView>, name: Seq<char>) -> bool {
    exists|k: int| 0 <= k < clients.len() && (#[trigger] clients[k]).name == name
}

/// The clients sum up the table.
pub open spec fn sum_up_table(
    clients: Seq<ClientView>,
    table: Map<Seq<char>, KeyRowView>,
) -> bool {
    exists|rows: Seq<KeyRowView>| lists(rows, table) && #[trigger] summary(clients, rows)
}

/// `GET /clients`: the clients by name.
pub fn list(db: &Db) -> (r: Result<Clients>)
    requires
        db.wf(),
    ensures
        r matches Ok(clients) && sum_up_table(clients.data.deep_view(), db@),
{
    let rows = match db.keys() {
        Ok(rows) => rows,
        Err(e) => {
            return Err(e);
        },
    };
    let data = clients_of(&rows);
    assert(summary(data.deep_view(), rows.deep_view()));
    Ok(Clients { data })
}

/// The clients that sum up the rows.
pub fn clients_of(rows: &Vec<KeyRow>) -> (r: Vec<Client>)
    ensures
        summary(r.deep_view(), rows.deep_view()),
{
    let mut out: Vec<Client> = Vec::new();
    let n: usize = rows.len();
    let ghost all = rows.deep_view();
    for i in 0..n
        invariant
            n == rows@.len(),
            all == rows.deep_view(),
            summary(out.deep_view(), all.take(i as int)),
    {
        let row = &rows[i];
        assert(all[i as int] == row@);
        assert(all.take(i + 1) =~= all.take(i as int).push(row@));
        let ghost was = out.deep_view();
        let ghost seen = all.take(i as int);
        if row.revoked_at.is_none() {
            add_row(&mut out, row, Ghost(seen));
        } else {
            proof {
                assert forall|k: int| 0 <= k < was.len() implies sums_up(
                    #[trigger] was[k],
                    seen.push(row@),
                ) by {
                    keeps_summing_up(was[k], seen, row@);
                }
                assert forall|j: int|
                    0 <= j < seen.push(row@).len() && (#[trigger] seen.push(row@)[j]).revoked_at
                        is None implies named_in(was, seen.push(row@)[j].name) by {
                    assert(seen.push(row@)[j] == seen[j]);
                }
            }
        }
    }
    assert(all.take(n as int) =~= all);
    out
}

/// A row that is not of the client's live keys changes nothing for it.
proof fn keeps_summing_up(c: ClientView, rows: Seq<KeyRowView>, row: KeyRowView)
    requires
        sums_up(c, rows),
        !live(row, c.name),
    ensures
        sums_up(c, rows.push(row)),
{
    let more = rows.push(row);
    let i = choose|i: int|
        0 <= i < rows.len() && live(#[trigger] rows[i], c.name) && rows[i].created_at == c.since;
    assert(more[i] == rows[i]);
    if c.last_seen_at is Some {
        let j = choose|j: int|
            0 <= j < rows.len() && live(#[trigger] rows[j], c.name) && rows[j].last_used_at
                == c.last_seen_at;
        assert(more[j] == rows[j]);
    }
    assert forall|k: int| 0 <= k < more.len() && live(#[trigger] more[k], c.name) implies !before(
        c.since,
        more[k].created_at,
    ) && no_later(more[k].last_used_at, c.last_seen_at) by {
        assert(k < rows.len());
        assert(more[k] == rows[k]);
    }
}

/// Takes in another live row.
fn add_row(out: &mut Vec<Client>, row: &KeyRow, Ghost(seen): Ghost<Seq<KeyRowView>>)
    requires
        summary(old(out).deep_view(), seen),
        row@.revoked_at is None,
    ensures
        summary(final(out).deep_view(), seen.push(row@)),
{
    let ghost was = out.deep_view();
    let mut at: usize = 0;
    while at < out.len() && is_before(out[at].name.as_str(), row.name.as_str())
        invariant
            at <= out@.len(),
            out.deep_view() == was,
            forall|k: int| 0 <= k < at ==> before((#[trigger] was[k]).name, row@.name),
        decreases out@.len() - at,
    {
        assert(was[at as int] == out@[at as int]@);
        at = at + 1;
    }
    proof {
        if at < out@.len() {
            assert(was[at as int] == out@[at as int]@);
        }
    }
    if at < out.len() && same(out[at].name.as_str(), row.name.as_str()) {
        let since = if is_before(out[at].since.as_str(), row.created_at.as_str()) {
            row.created_at.clone()
        } else {
            out[at].since.clone()
        };
        let last_seen_at = later_use(&row.last_used_at, &out[at].last_seen_at);
        let c = Client { name: row.name.clone(), last_seen_at, since };
        let ghost client = c@;
        out.set(at, c);
        proof {
            assert(out.deep_view() =~= was.update(at as int, client));
            row_is_taken_in(was[at as int], client, seen, row@);
            replaced_summary(was, at as int, client, seen, row@);
        }
    } else {
        let c = Client {
            name: row.name.clone(),
            last_seen_at: copy_text(&row.last_used_at),
            since: row.created_at.clone(),
        };
        let ghost client = c@;
        out.insert(at, c);
        proof {
            assert(out.deep_view() =~= was.insert(at as int, client));
            inserted_summary(was, at as int, client, seen, row@);
        }
    }
}

/// The later of two uses, as texts.
fn later_use(a: &Option<String>, b: &Option<String>) -> (r: Option<String>)
    ensures
        r.deep_view() == a.deep_view() || r.deep_view() == b.deep_view(),
        no_later(a.deep_view(), r.deep_view()),
        no_later(b.deep_view(), r.deep_view()),
{
    match (a, b) {
        (Some(x), Some(y)) => {
            proof {
                before_is_a_strict_order(x@, y@, x@);
                before_is_a_strict_order(x@, x@, x@);
                before_is_a_strict_order(y@, y@, y@);
            }
            if is_before(y.as_str(), x.as_str()) {
                Some(x.clone())
            } else {
                Some(y.clone())
            }
        },
        (Some(x), None) => {
            proof {
                before_is_a_strict_order(x@, x@, x@);
            }
            Some(x.clone())
        },
        (None, Some(y)) => {
            proof {
                before_is_a_strict_order(y@, y@, y@);
            }
            Some(y.clone())
        },
        (None, None) => None,
    }
}

proof fn later_is_later(a: Option<Seq<char>>, b: Option<Seq<char>>, c: Option<Seq<char>>)
    requires
        no_later(a, b),
        no_later(b, c),
    ensures
        no_later(a, c),
{
    if let (Some(x), Some(y), Some(z)) = (a, b, c) {
        if before(z, x) {
            before_is_a_strict_order(z, x, y);
            before_is_a_strict_order(y, z, x);
            before_is_a_strict_order(x, y, z);
        }
    }
}

/// The client of the row's name, brought up to date, sums up one row more.
proof fn row_is_taken_in(
    was: ClientView,
    now: ClientView,
    seen: Seq<KeyRowView>,
    row: KeyRowView,
)
    requires
        sums_up(was, seen),
        live(row, was.name),
        now.name == was.name,
        now.since == if before(was.since, row.created_at) {
            row.created_at
        } else {
            was.since
        },
        now.last_seen_at == row.last_used_at || now.last_seen_at == was.last_seen_at,
        no_later(row.last_used_at, now.last_seen_at),
        no_later(was.last_seen_at, now.last_seen_at),
    ensures
        sums_up(now, seen.push(row)),
{
    let more = seen.push(row);
    assert(more[seen.len() as int] == row);
    let i = choose|i: int|
        0 <= i < seen.len() && live(#[trigger] seen[i], was.name) && seen[i].created_at
            == was.since;
    assert(more[i] == seen[i]);
    if was.last_seen_at is Some {
        let j = choose|j: int|
            0 <= j < seen.len() && live(#[trigger] seen[j], was.name) && seen[j].last_used_at
                == was.last_seen_at;
        assert(more[j] == seen[j]);
    }
    assert forall|k: int| 0 <= k < more.len() && live(#[trigger] more[k], now.name) implies !before(
        now.since,
        more[k].created_at,
    ) && no_later(more[k].last_used_at, now.last_seen_at) by {
        before_is_a_strict_order(row.created_at, row.created_at, row.created_at);
        if k < seen.len() {
            assert(more[k] == seen[k]);
            before_is_a_strict_order(was.since, row.created_at, seen[k].created_at);
            later_is_later(seen[k].last_used_at, was.last_seen_at, now.last_seen_at);
        }
    }
}

proof fn replaced_summary(
    was: Seq<ClientView>,
    at: int,
    client: ClientView,
    seen: Seq<KeyRowView>,
    row: KeyRowView,
)
    requires
        summary(was, seen),
        0 <= at < was.len(),
        was[at].name == row.name,
        client.name == row.name,
        sums_up(client, seen.push(row)),
    ensures
        summary(was.update(at, client), seen.push(row)),
{
    let now = was.update(at, client);
    let more = seen.push(row);
    assert forall|i: int, j: int| 0 <= i < j < now.len() implies before(
        (#[trigger] now[i]).name,
        (#[trigger] now[j]).name,
    ) by {
        assert(before(was[i].name, was[j].name));
    }
    assert forall|k: int| 0 <= k < now.len() implies sums_up(#[trigger] now[k], more) by {
        if k != at {
            names_are_distinct(was, k, at);
            keeps_summing_up(was[k], seen, row);
        }
    }
    assert forall|i: int| 0 <= i < more.len() && (#[trigger] more[i]).revoked_at is None implies named_in(
        now,
        more[i].name,
    ) by {
        if i < seen.len() {
            assert(more[i] == seen[i]);
            let k = choose|k: int| 0 <= k < was.len() && (#[trigger] was[k]).name == seen[i].name;
            assert(now[k].name == seen[i].name);
        } else {
            assert(now[at].name == row.name);
        }
    }
}

proof fn names_are_distinct(clients: Seq<ClientView>, i: int, j: int)
    requires
        by_name(clients),
        0 <= i < clients.len(),
        0 <= j < clients.len(),
        i != j,
    ensures
        clients[i].name != clients[j].name,
{
    let (a, b) = if i < j {
        (i, j)
    } else {
        (j, i)
    };
    assert(before(clients[a].name, clients[b].name));
    before_is_a_strict_order(clients[a].name, clients[a].name, clients[a].name);
}

proof fn inserted_summary(
    was: Seq<ClientView>,
    at: int,
    client: ClientView,
    seen: Seq<KeyRowView>,
    row: KeyRowView,
)
    requires
        summary(was, seen),
        0 <= at <= was.len(),
        forall|k: int| 0 <= k < at ==> before((#[trigger] was[k]).name, row.name),
        at < was.len() ==> !before(was[at].name, row.name) && was[at].name != row.name,
        row.revoked_at is None,
        client == (ClientView {
            name: row.name,
            last_seen_at: row.last_used_at,
            since: row.created_at,
        }),
    ensures
        summary(was.insert(at, client), seen.push(row)),
{
    let now = was.insert(at, client);
    let more = seen.push(row);
    assert forall|k: int| at <= k < was.len() implies before(row.name, (#[trigger] was[k]).name) by {
        before_is_a_strict_order(row.name, was[at].name, was[k].name);
        if k > at {
            assert(before(was[at].name, was[k].name));
        }
    }
    assert forall|k: int| 0 <= k < was.len() implies (#[trigger] was[k]).name != row.name by {
        before_is_a_strict_order(row.name, row.name, row.name);
        if k < at {
            assert(before(was[k].name, row.name));
        } else {
            assert(before(row.name, was[k].name));
        }
    }
    assert forall|i: int, j: int| 0 <= i < j < now.len() implies before(
        (#[trigger] now[i]).name,
        (#[trigger] now[j]).name,
    ) by {
        let a = if i < at {
            i
        } else {
            i - 1
        };
        let b = if j < at {
            j
        } else {
            j - 1
        };
        if i == at {
            assert(now[j] == was[b]);
        } else if j == at {
            assert(now[i] == was[a]);
        } else {
            assert(now[i] == was[a]);
            assert(now[j] == was[b]);
            assert(before(was[a].name, was[b].name));
        }
    }
    assert(sums_up(client, more)) by {
        assert(more[seen.len() as int] == row);
        before_is_a_strict_order(row.created_at, row.created_at, row.created_at);
        if row.last_used_at is Some {
            before_is_a_strict_order(
                row.last_used_at->0,
                row.last_used_at->0,
                row.last_used_at->0,
            );
        }
        assert forall|k: int| 0 <= k < more.len() && live(#[trigger] more[k], client.name) implies k
            == seen.len() by {
            if k < seen.len() {
                assert(more[k] == seen[k]);
                assert(named_in(was, seen[k].name));
            }
        }
    }
    assert forall|k: int| 0 <= k < now.len() implies sums_up(#[trigger] now[k], more) by {
        if k != at {
            let old_k = if k < at {
                k
            } else {
                k - 1
            };
            assert(now[k] == was[old_k]);
            keeps_summing_up(was[old_k], seen, row);
        }
    }
    assert forall|i: int| 0 <= i < more.len() && (#[trigger] more[i]).revoked_at is None implies named_in(
        now,
        more[i].name,
    ) by {
        if i < seen.len() {
            assert(more[i] == seen[i]);
            let k = choose|k: int| 0 <= k < was.len() && (#[trigger] was[k]).name == seen[i].name;
            assert(now[if k < at {
                k
            } else {
                k + 1
            }].name == seen[i].name);
        } else {
            assert(now[at].name == row.name);
        }
    }
}

/// A client on the wire.
pub open spec fn client_document(c: ClientView) -> JsonView {
    JsonView::Object(
        map![
            "name"@ => JsonView::Text(c.name),
            "last_seen_at"@ => text_or_null(c.last_seen_at),
            "since"@ => JsonView::Text(c.since),
        ],
    )
}

impl Client {
    pub fn to_json(&self) -> (r: Json)
        ensures
            r@ == client_document(self@),
    {
        let mut o = Object::new();
        o.put_text("name", self.name.as_str());
        match &self.last_seen_at {
            Some(at) => o.put_text("last_seen_at", at.as_str()),
            None => o.put("last_seen_at", Json::Null),
        }
        o.put_text("since", self.since.as_str());
        assert(o@ =~= client_document(self@)->Object_0);
        Json::Object(o)
    }
}

/// The clients on the wire.
pub open spec fn clients_document(clients: Seq<ClientView>) -> JsonView {
    JsonView::Object(
        map![
            "data"@ => JsonView::Array(clients.map_values(|c: ClientView| client_document(c))),
        ],
    )
}

impl Clients {
    pub fn to_json(&self) -> (r: Json)
        ensures
            r@ == clients_document(self.data.deep_view()),
    {
        let mut items: Vec<Json> = Vec::new();
        let n: usize = self.data.len();
        for i in 0..n
            invariant
                n == self.data@.len(),
                items@.len() == i,
                forall|k: int|
                    0 <= k < i ==> (#[trigger] items@[k])@ == client_document(self.data@[k]@),
        {
            items.push(self.data[i].to_json());
        }
        let ghost want = self.data.deep_view().map_values(|c: ClientView| client_document(c));
        assert(items.deep_view() =~= want);
        let mut o = Object::new();
        o.put("data", Json::array(items));
        assert(o@ =~= map!["data"@ => JsonView::Array(want)]);
        Json::Object(o)
    }
}

// ---- laws ---------------------------------------------------------------------------

/// A name is listed exactly where it has a live key, and once.
pub proof fn a_name_is_listed_once_where_it_is_live(
    clients: Seq<ClientView>,
    rows: Seq<KeyRowView>,
    name: Seq<char>,
    i: int,
    j: int,
)
    requires
        summary(clients, rows),
    ensures
        named_in(clients, name) <==> exists|k: int|
            0 <= k < rows.len() && live(#[trigger] rows[k], name),
        0 <= i < clients.len() && 0 <= j < clients.len() && clients[i].name == clients[j].name
            ==> i == j,
{
    if named_in(clients, name) {
        let k = choose|k: int| 0 <= k < clients.len() && (#[trigger] clients[k]).name == name;
        assert(sums_up(clients[k], rows));
    }
    if 0 <= i < clients.len() && 0 <= j < clients.len() && i != j {
        names_are_distinct(clients, i, j);
    }
}

/// Two rows that tell the same of a client: the same but for the key's id, its
/// secret and its scopes.
pub open spec fn same_client(a: KeyRowView, b: KeyRowView) -> bool {
    &&& a.name == b.name
    &&& a.created_at == b.created_at
    &&& a.last_used_at == b.last_used_at
    &&& a.revoked_at == b.revoked_at
}

/// Names and times only: what is listed does not depend on a key's id, its secret
/// or its scopes.
pub proof fn a_listing_tells_names_and_times_only(
    clients: Seq<ClientView>,
    rows: Seq<KeyRowView>,
    others: Seq<KeyRowView>,
)
    requires
        summary(clients, rows),
        rows.len() == others.len(),
        forall|i: int| 0 <= i < rows.len() ==> same_client(#[trigger] rows[i], others[i]),
    ensures
        summary(clients, others),
{
    assert forall|k: int| 0 <= k < clients.len() implies sums_up(
        #[trigger] clients[k],
        others,
    ) by {
        let c = clients[k];
        assert(sums_up(c, rows));
        let i = choose|i: int|
            0 <= i < rows.len() && live(#[trigger] rows[i], c.name) && rows[i].created_at
                == c.since;
        assert(same_client(rows[i], others[i]));
        assert(live(others[i], c.name));
        if c.last_seen_at is Some {
            let j = choose|j: int|
                0 <= j < rows.len() && live(#[trigger] rows[j], c.name) && rows[j].last_used_at
                    == c.last_seen_at;
            assert(same_client(rows[j], others[j]));
            assert(live(others[j], c.name));
        }
        assert forall|i: int|
            0 <= i < others.len() && live(#[trigger] others[i], c.name) implies !before(
            c.since,
            others[i].created_at,
        ) && no_later(others[i].last_used_at, c.last_seen_at) by {
            assert(same_client(rows[i], others[i]));
            assert(live(rows[i], c.name));
        }
    }
    assert forall|i: int|
        0 <= i < others.len() && (#[trigger] others[i]).revoked_at is None implies named_in(
        clients,
        others[i].name,
    ) by {
        assert(same_client(rows[i], others[i]));
    }
}

/// A client is shown with its name, when it was last seen and since when it is known,
/// each under its name, and no more; one that was never seen is shown so.
pub proof fn a_client_is_shown_as_it_is(c: ClientView)
    ensures
        text_field(client_document(c), "name"@) == Some(c.name),
        text_field(client_document(c), "last_seen_at"@) == c.last_seen_at,
        c.last_seen_at is None ==> field(client_document(c), "last_seen_at"@) == Some(
            JsonView::Null,
        ),
        text_field(client_document(c), "since"@) == Some(c.since),
        has_just(client_document(c), set!["name"@, "last_seen_at"@, "since"@]),
{
    reveal_strlit("name");
    reveal_strlit("last_seen_at");
    reveal_strlit("since");
    assert("name"@.len() == 4 && "last_seen_at"@.len() == 12 && "since"@.len() == 5);
    assert(client_document(c)->Object_0.dom() =~= set!["name"@, "last_seen_at"@, "since"@]);
}

/// Every client is shown, in its place.
pub proof fn every_client_is_shown(clients: Seq<ClientView>)
    ensures
        has_just(clients_document(clients), set!["data"@]),
        items_field(clients_document(clients), "data"@).len() == clients.len(),
        forall|i: int|
            0 <= i < clients.len() ==> #[trigger] items_field(
                clients_document(clients),
                "data"@,
            )[i] == client_document(clients[i]),
{
    assert(clients_document(clients)->Object_0.dom() =~= set!["data"@]);
}

/// No key of a client that stands is newer than since when it is known, and none was
/// used later than it was last seen; it is known since one of these keys was made,
/// and seen when one of them was used. Keys that are revoked do not count.
pub proof fn a_client_is_as_its_latest_keys(
    clients: Seq<ClientView>,
    rows: Seq<KeyRowView>,
    k: int,
    i: int,
)
    requires
        summary(clients, rows),
        0 <= k < clients.len(),
        0 <= i < rows.len(),
        rows[i].name == clients[k].name,
        rows[i].revoked_at is None,
    ensures
        !before(clients[k].since, rows[i].created_at),
        rows[i].last_used_at matches Some(used) ==> (clients[k].last_seen_at matches Some(seen)
            && !before(seen, used)),
        exists|j: int|
            0 <= j < rows.len() && (#[trigger] rows[j]).name == clients[k].name
                && rows[j].revoked_at is None && rows[j].created_at == clients[k].since,
        clients[k].last_seen_at is Some ==> exists|j: int|
            0 <= j < rows.len() && (#[trigger] rows[j]).name == clients[k].name
                && rows[j].revoked_at is None && rows[j].last_used_at == clients[k].last_seen_at,
{
    let c = clients[k];
    assert(sums_up(c, rows));
    assert(live(rows[i], c.name));
    let j = choose|j: int|
        0 <= j < rows.len() && live(#[trigger] rows[j], c.name) && rows[j].created_at == c.since;
    assert(rows[j].name == c.name);
    if c.last_seen_at is Some {
        let j = choose|j: int|
            0 <= j < rows.len() && live(#[trigger] rows[j], c.name) && rows[j].last_used_at
                == c.last_seen_at;
        assert(rows[j].name == c.name);
    }
}

/// Clients stand in the order of their names.
pub proof fn clients_stand_by_name(clients: Seq<ClientView>, rows: Seq<KeyRowView>, i: int, j: int)
    requires
        summary(clients, rows),
        0 <= i < j < clients.len(),
    ensures
        before(clients[i].name, clients[j].name),
{
}

} // verus!
