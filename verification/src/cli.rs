//! The `keys` command: client keys managed on the host, the only way to mint a
//! `keys:admin` key. A command comes to the lines that it prints, or to an error.

use crate::auth::keys::{scope_names, scopes_named, Scope};
use crate::clock::stamp_text;
use crate::db::{lists, revoked, Db, KeyRow, KeyRowView};
use crate::error::{outcome, Error, ErrorView, Result};
use crate::text::{cat2, cat5, joined, pad, padded, pieces};
use crate::v1::keys::{create_key, drawn_key_created, key_fault, CreatedKey, CreatedKeyView};
use crate::v1::sessions::bad;
use vstd::prelude::*;

verus! {

/// What is done to the keys.
pub enum KeysAction {
    /// Mint a key and print it once. This is the only path that may grant
    /// `keys:admin`.
    Create {
        /// Who holds it: "mac", "quest-3", "jarvis-ios".
        name: String,
        /// Comma-separated.
        scopes: String,
    },
    /// List keys (never shows secrets).
    List,
    /// Revoke a key by its public id.
    Revoke {
        id: String,
    },
}

/// What is printed of a new key.
pub open spec fn created_lines(created: CreatedKeyView) -> Seq<Seq<char>> {
    seq![
        "id:      "@ + created.id,
        "name:    "@ + created.name,
        "scopes:  "@ + joined(scope_names(created.scopes), ","@),
        "key:     "@ + created.key,
        "(shown once — it is stored only as a hash)"@,
    ]
}

/// A key in one line: id, name, scopes, and when it was created, used and revoked.
pub open spec fn row_line(row: KeyRowView) -> Seq<char> {
    row.id + "  "@ + padded(row.name, 16) + " "@ + padded(
        joined(scope_names(row.scopes), ","@),
        60,
    ) + (" created "@ + row.created_at + "  last used "@ + match row.last_used_at {
        Some(at) => at,
        None => "never"@,
    } + ("  "@ + if row.revoked_at is Some {
        "REVOKED"@
    } else {
        Seq::empty()
    }))
}

/// The list prints every key of the table, oldest first.
pub open spec fn prints_table(
    lines: Seq<Seq<char>>,
    table: Map<Seq<char>, KeyRowView>,
) -> bool {
    exists|rows: Seq<KeyRowView>| #[trigger]
        lists(rows, table) && lines == rows.map_values(|row: KeyRowView| row_line(row))
}

/// A key was made, and its lines are printed.
pub open spec fn prints_created(
    before: Map<Seq<char>, KeyRowView>,
    after: Map<Seq<char>, KeyRowView>,
    name: Seq<char>,
    scopes: Seq<Scope>,
    r: std::result::Result<Seq<Seq<char>>, ErrorView>,
) -> bool {
    exists|made: std::result::Result<CreatedKeyView, ErrorView>|
        {
            &&& #[trigger] drawn_key_created(before, after, name, scopes, made)
            &&& match made {
                Ok(created) => r == Ok::<Seq<Seq<char>>, ErrorView>(created_lines(created)),
                Err(e) => r == Err::<Seq<Seq<char>>, ErrorView>(e),
            }
        }
}

/// What a command does to the table and what it prints.
pub open spec fn commanded(
    before: Map<Seq<char>, KeyRowView>,
    after: Map<Seq<char>, KeyRowView>,
    action: KeysAction,
    r: std::result::Result<Seq<Seq<char>>, ErrorView>,
) -> bool {
    match action {
        KeysAction::Create { name, scopes } => match scopes_named(pieces(scopes@, ',')) {
            Err(unknown) => {
                &&& r == bad::<Seq<Seq<char>>>("unknown scope `"@ + unknown + "`"@)
                &&& after == before
            },
            Ok(named) => {
                let list = crate::auth::keys::in_order(named);
                ||| prints_created(before, after, name@, list, r)
                ||| r == Err::<Seq<Seq<char>>, ErrorView>(ErrorView::Config("os randomness"@))
                    && after == before && key_fault(name@, list) is None
            },
        },
        KeysAction::List => {
            &&& r matches Ok(lines) && prints_table(lines, before)
            &&& after == before
        },
        KeysAction::Revoke { id } => if before.contains_key(id@) && before[id@].revoked_at is None {
            &&& r == Ok::<Seq<Seq<char>>, ErrorView>(seq!["revoked "@ + id@])
            &&& exists|nanos: i128| after == revoked(before, id@, #[trigger] stamp_text(nanos))
        } else {
            &&& r == Err::<Seq<Seq<char>>, ErrorView>(ErrorView::NotFound)
            &&& after == before
        },
    }
}

/// Does what the command says; the lines are what it prints.
pub fn keys_command(db: &mut Db, action: KeysAction) -> (r: Result<Vec<String>>)
    requires
        old(db).wf(),
    ensures
        final(db).wf(),
        commanded(old(db)@, final(db)@, action, outcome(r)),
{
    match action {
        KeysAction::Create { name, scopes } => {
            let list = match Scope::parse_list(scopes.as_str()) {
                Ok(list) => list,
                Err(text) => {
                    return Err(Error::InvalidRequest(text));
                },
            };
            let made = create_key(db, name.as_str(), list.as_slice());
            let ghost outcome_of_making = outcome(made);
            match made {
                Ok(created) => {
                    let lines = lines_of_created(&created);
                    let r: Result<Vec<String>> = Ok(lines);
                    proof {
                        assert(drawn_key_created(
                            old(db)@,
                            db@,
                            name@,
                            list@,
                            outcome_of_making,
                        ));
                        assert(prints_created(old(db)@, db@, name@, list@, outcome(r)));
                    }
                    r
                },
                Err(e) => {
                    let r: Result<Vec<String>> = Err(e);
                    proof {
                        if drawn_key_created(old(db)@, db@, name@, list@, outcome_of_making) {
                            assert(prints_created(old(db)@, db@, name@, list@, outcome(r)));
                        }
                    }
                    r
                },
            }
        },
        KeysAction::List => {
            let rows = match db.keys() {
                Ok(rows) => rows,
                Err(e) => {
                    return Err(e);
                },
            };
            let lines = lines_of_rows(&rows);
            assert(lists(rows.deep_view(), db@));
            Ok(lines)
        },
        KeysAction::Revoke { id } => match db.revoke_key(id.as_str()) {
            Ok(true) => {
                let mut lines: Vec<String> = Vec::new();
                lines.push(cat2("revoked ", id.as_str()));
                assert(lines.deep_view() =~= seq!["revoked "@ + id@]);
                Ok(lines)
            },
            Ok(false) => Err(Error::NotFound),
            Err(e) => Err(e),
        },
    }
}

fn lines_of_created(created: &CreatedKey) -> (r: Vec<String>)
    ensures
        r.deep_view() == created_lines(created@),
{
    let scopes = Scope::join(created.scopes.as_slice());
    let mut lines: Vec<String> = Vec::new();
    lines.push(cat2("id:      ", created.id.as_str()));
    lines.push(cat2("name:    ", created.name.as_str()));
    lines.push(cat2("scopes:  ", scopes.as_str()));
    lines.push(cat2("key:     ", created.key.as_str()));
    lines.push("(shown once — it is stored only as a hash)".to_owned());
    assert(lines.deep_view() =~= created_lines(created@));
    lines
}

fn line_of_row(row: &KeyRow) -> (r: String)
    ensures
        r@ == row_line(row@),
{
    proof {
        reveal_strlit("");
        assert(""@ =~= Seq::empty());
    }
    let last = match &row.last_used_at {
        Some(at) => at.as_str(),
        None => "never",
    };
    let mark = if row.revoked_at.is_some() {
        "REVOKED"
    } else {
        ""
    };
    let name = pad(row.name.as_str(), 16);
    let scopes = pad(Scope::join(row.scopes.as_slice()).as_str(), 60);
    let head = cat5(row.id.as_str(), "  ", name.as_str(), " ", scopes.as_str());
    let end = cat2("  ", mark);
    let tail = cat5(" created ", row.created_at.as_str(), "  last used ", last, end.as_str());
    cat2(head.as_str(), tail.as_str())
}

fn lines_of_rows(rows: &Vec<KeyRow>) -> (r: Vec<String>)
    ensures
        r.deep_view() == rows.deep_view().map_values(|row: KeyRowView| row_line(row)),
{
    let mut lines: Vec<String> = Vec::new();
    let n: usize = rows.len();
    for i in 0..n
        invariant
            n == rows@.len(),
            lines@.len() == i,
            forall|k: int| 0 <= k < i ==> (#[trigger] lines@[k])@ == row_line(rows@[k]@),
    {
        lines.push(line_of_row(&rows[i]));
    }
    assert(lines.deep_view() =~= rows.deep_view().map_values(|row: KeyRowView| row_line(row)));
    lines
}

// ---- laws ---------------------------------------------------------------------------

/// A listing never shows a hash, and so never a secret.
pub proof fn a_line_never_shows_a_hash(row: KeyRowView, hash: Seq<char>)
    ensures
        row_line(KeyRowView { secret_sha256: hash, ..row }) == row_line(row),
{
}

/// What is printed of a new key: five lines, its id, its name, its scopes, the key
/// and a reminder, in this order.
pub proof fn a_new_key_is_printed_in_full(created: CreatedKeyView)
    ensures
        created_lines(created).len() == 5,
        created_lines(created)[0] == "id:      "@ + created.id,
        created_lines(created)[1] == "name:    "@ + created.name,
        created_lines(created)[2] == "scopes:  "@ + joined(scope_names(created.scopes), ","@),
        created_lines(created)[3] == "key:     "@ + created.key,
        created_lines(created)[4] == "(shown once — it is stored only as a hash)"@,
{
}

/// A row's line begins with its id and then its name, in a column of sixteen.
pub proof fn a_line_begins_with_who_it_is(row: KeyRowView)
    ensures
        crate::text::begins_with(row_line(row), row.id + "  "@ + padded(row.name, 16) + " "@),
{
    let head = row.id + "  "@ + padded(row.name, 16) + " "@;
    assert(row_line(row).take(head.len() as int) =~= head);
}

/// The text ends so.
pub open spec fn ends_with(text: Seq<char>, end: Seq<char>) -> bool {
    end.len() <= text.len() && text.skip(text.len() - end.len()) == end
}

/// A row's line ends with when it was created and when it was last used, or that it
/// never was; and with `REVOKED` where it is.
pub proof fn a_line_ends_with_what_became_of_it(row: KeyRowView)
    ensures
        ({
            let used = match row.last_used_at {
                Some(at) => at,
                None => "never"@,
            };
            let told = " created "@ + row.created_at + "  last used "@ + used + "  "@;
            &&& row.revoked_at is Some ==> ends_with(row_line(row), told + "REVOKED"@)
            &&& row.revoked_at is None ==> ends_with(row_line(row), told)
        }),
{
    let used = match row.last_used_at {
        Some(at) => at,
        None => "never"@,
    };
    let told = " created "@ + row.created_at + "  last used "@ + used + "  "@;
    let line = row_line(row);
    let end = if row.revoked_at is Some {
        told + "REVOKED"@
    } else {
        told
    };
    assert(line.skip(line.len() - end.len()) =~= end);
}

/// Between its name and its dates a row's line tells its scopes, by their names with
/// commas between them, in a column of sixty.
pub proof fn a_line_tells_the_scopes(row: KeyRowView)
    ensures
        ({
            let from = (row.id + "  "@ + padded(row.name, 16) + " "@).len() as int;
            let scopes = padded(joined(scope_names(row.scopes), ","@), 60);
            from + scopes.len() <= row_line(row).len() && row_line(row).subrange(
                from,
                from + scopes.len(),
            ) == scopes
        }),
{
    let from = (row.id + "  "@ + padded(row.name, 16) + " "@).len() as int;
    let scopes = padded(joined(scope_names(row.scopes), ","@), 60);
    assert(row_line(row).subrange(from, from + scopes.len()) =~= scopes);
}

/// A list prints a line for each row of the table, and each row in its line.
pub proof fn a_list_prints_every_row(
    before: Map<Seq<char>, KeyRowView>,
    after: Map<Seq<char>, KeyRowView>,
    r: std::result::Result<Seq<Seq<char>>, ErrorView>,
)
    requires
        commanded(before, after, KeysAction::List, r),
    ensures
        after == before,
        r matches Ok(lines) && exists|rows: Seq<KeyRowView>| #[trigger]
            lists(rows, before) && lines.len() == rows.len() && forall|i: int|
                0 <= i < rows.len() ==> #[trigger] lines[i] == row_line(rows[i]),
{
}

/// A key is revoked once: one that is there and stands is, and that is printed; any
/// other id is not found, and nothing changes.
pub proof fn a_key_is_revoked_once(
    before: Map<Seq<char>, KeyRowView>,
    after: Map<Seq<char>, KeyRowView>,
    id: String,
    r: std::result::Result<Seq<Seq<char>>, ErrorView>,
)
    requires
        commanded(before, after, KeysAction::Revoke { id }, r),
    ensures
        r is Ok <==> before.contains_key(id@) && before[id@].revoked_at is None,
        r matches Ok(lines) ==> lines.len() == 1 && lines[0] == "revoked "@ + id@,
        r matches Ok(_) ==> after.contains_key(id@) && after[id@].revoked_at is Some,
        r matches Ok(_) ==> after.remove(id@) == before.remove(id@),
        r matches Err(e) ==> e == ErrorView::NotFound && after == before,
{
    if r is Ok {
        assert(after.remove(id@) =~= before.remove(id@));
    }
}

/// A key is made with the scopes that the list names; a name that is none is told,
/// and then nothing is made.
pub proof fn a_key_is_made_with_the_scopes_named(
    before: Map<Seq<char>, KeyRowView>,
    after: Map<Seq<char>, KeyRowView>,
    name: String,
    scopes: String,
    r: std::result::Result<Seq<Seq<char>>, ErrorView>,
)
    requires
        commanded(before, after, KeysAction::Create { name, scopes }, r),
    ensures
        scopes_named(pieces(scopes@, ',')) matches Err(unknown) ==> r == Err::<
            Seq<Seq<char>>,
            ErrorView,
        >(ErrorView::InvalidRequest("unknown scope `"@ + unknown + "`"@)) && after == before,
        r is Err ==> after == before,
        r matches Ok(lines) ==> exists|created: CreatedKeyView|
            #![trigger created_lines(created)]
            {
                &&& lines == created_lines(created)
                &&& !before.contains_key(created.id)
                &&& after.contains_key(created.id)
                &&& after.remove(created.id) == before
                &&& after[created.id].scopes == created.scopes
                &&& created.name == crate::text::trimmed(name@)
                &&& forall|s: Scope| #[trigger]
                    created.scopes.contains(s) <==> exists|i: int|
                        0 <= i < pieces(scopes@, ',').len() && crate::text::trimmed(
                            #[trigger] pieces(scopes@, ',')[i],
                        ) == crate::auth::keys::scope_name(s)
            },
{
    if let Ok(lines) = r {
        let named = scopes_named(pieces(scopes@, ','))->Ok_0;
        let list = crate::auth::keys::in_order(named);
        let made = choose|made: std::result::Result<CreatedKeyView, ErrorView>|
            {
                &&& #[trigger] drawn_key_created(before, after, name@, list, made)
                &&& match made {
                    Ok(created) => r == Ok::<Seq<Seq<char>>, ErrorView>(created_lines(created)),
                    Err(e) => r == Err::<Seq<Seq<char>>, ErrorView>(e),
                }
            };
        let created = made->Ok_0;
        crate::auth::keys::a_list_has_the_scopes_it_names(pieces(scopes@, ','));
        crate::auth::keys::every_set_is_listed(named);
        crate::auth::keys::every_set_is_listed(list.to_set());
        assert forall|s: Scope| #[trigger] created.scopes.contains(s) <==> named.contains(s) by {
            assert(created.scopes.to_set().contains(s) == named.contains(s));
        }
        assert(lines == created_lines(created));
        assert(after.remove(created.id) =~= before);
    }
}

} // verus!
