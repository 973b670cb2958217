//! What the store's statements achieve together, on a database where each of them
//! does what it says.
//!
//! A table is a sequence of rows in the order of their creation. Each statement is
//! given its meaning on its table by its text, over the parameters that the query
//! binds; a text that is not among those read here has no meaning. The laws then
//! relate the queries of [`crate::store::Store`] to what is read back.

use vstd::prelude::*;
use crate::id::{spelled_in, ALPHABET};
use crate::query::{QueryModel, Value};
use crate::store::{
    all_hooks_query, backfill_queries, count_in, count_query, create_hook_query, create_note_query,
    delete_hook_query, delete_plan, get_by_public_id_query, get_hook_query, get_note_query,
    hits_of, hook_of_row, is_backfill, is_ident, list_query, note_of_row, open_steps,
    public_id_query, read_all, read_first, read_note, schema, search_candidates, search_query,
    set_session_query, sweep_query, swept_in, without_public_id_query, Hook, HookRow, Note,
    NoteHitRow, NoteRow, OpenStep, CREATE_PERSISTENT_NOTE, CREATE_TEMPORARY_NOTE, PUBLIC_ID_LEN,
    SEARCH_SCOPE,
};
use crate::text::{decimal, find, is_ascii_letter, is_digit, lemma_find, lemma_found};

verus! {

/// A row of the `hook` table.
pub type Row = HookRow<Seq<char>>;

/// The row that a `CREATE hook SET` statement adds.
pub open spec fn row_of(q: QueryModel<()>) -> Row {
    HookRow {
        hid: q.text_of("hid"@),
        public_id: Some(q.text_of("public_id"@)),
        name: q.text_of("name"@),
        owner: q.text_of("owner"@),
        room_id: q.text_of("room_id"@),
        sender: q.text_of("sender"@),
        device_id: q.text_of("device_id"@),
        access_token: q.text_of("access_token"@),
    }
}

/// Whether a row has this private id.
pub open spec fn holds(rows: Seq<Row>, id: Seq<char>) -> bool {
    exists|i: int| 0 <= i < rows.len() && (#[trigger] rows[i]).hid == id
}

/// Whether a row has this public id.
pub open spec fn holds_public(rows: Seq<Row>, public_id: Seq<char>) -> bool {
    exists|i: int| 0 <= i < rows.len() && (#[trigger] rows[i]).public_id == Some(public_id)
}

/// What `CREATE hook SET …` leads to: the table with the new row, or an error where
/// the unique index on one of the two ids refuses it.
pub open spec fn create(rows: Seq<Row>, q: QueryModel<()>) -> Result<Seq<Row>, ()> {
    if q.text
        != "CREATE hook SET hid = $hid, public_id = $public_id, name = $name,\n    owner = $owner, room_id = $room_id, sender = $sender,\n    device_id = $device_id, access_token = $access_token,\n    created_at = time::now()"@ {
        arbitrary()
    } else if holds(rows, q.text_of("hid"@)) || holds_public(rows, q.text_of("public_id"@)) {
        Err(())
    } else {
        Ok(rows.push(row_of(q)))
    }
}

/// The table after a statement: as before, where it ended in an error.
pub open spec fn table_after<A>(rows: Seq<A>, outcome: Result<Seq<A>, ()>) -> Seq<A> {
    match outcome {
        Ok(now) => now,
        Err(_) => rows,
    }
}

/// `SELECT … WHERE hid = $hid`.
pub open spec fn with_hid(rows: Seq<Row>, q: QueryModel<()>) -> Seq<Row> {
    if q.text
        == "SELECT hid, public_id, name, owner, room_id, sender, device_id, access_token\n    FROM hook WHERE hid = $hid LIMIT 1"@ {
        rows.filter(|r: Row| r.hid == q.text_of("hid"@))
    } else {
        arbitrary()
    }
}

/// `SELECT … WHERE public_id = $public_id`.
pub open spec fn with_public_id(rows: Seq<Row>, q: QueryModel<()>) -> Seq<Row> {
    if q.text
        == "SELECT hid, public_id, name, owner, room_id, sender, device_id, access_token\n    FROM hook WHERE public_id = $public_id LIMIT 1"@ {
        rows.filter(|r: Row| r.public_id == Some(q.text_of("public_id"@)))
    } else {
        arbitrary()
    }
}

/// `SELECT … WHERE owner = $owner ORDER BY created_at`.
pub open spec fn with_owner(rows: Seq<Row>, q: QueryModel<()>) -> Seq<Row> {
    if q.text
        == "SELECT hid, public_id, name, owner, room_id, sender, device_id, access_token, created_at\n    FROM hook WHERE owner = $owner ORDER BY created_at"@ {
        rows.filter(|r: Row| r.owner == q.text_of("owner"@))
    } else {
        arbitrary()
    }
}

/// `SELECT … FROM hook ORDER BY created_at`.
pub open spec fn every_row(rows: Seq<Row>, q: QueryModel<()>) -> Seq<Row> {
    if q.text
        == "SELECT hid, public_id, name, owner, room_id, sender, device_id, access_token, created_at\n    FROM hook ORDER BY created_at"@ {
        rows
    } else {
        arbitrary()
    }
}

/// `SELECT … WHERE public_id = NONE`.
pub open spec fn without_public_id(rows: Seq<Row>) -> Seq<Row> {
    if without_public_id_query().text == "SELECT hid FROM hook WHERE public_id = NONE"@ {
        rows.filter(|r: Row| r.public_id is None)
    } else {
        arbitrary()
    }
}

/// `DELETE hook WHERE hid = $hid AND owner = $owner`.
pub open spec fn after_delete(rows: Seq<Row>, q: QueryModel<()>) -> Seq<Row> {
    if q.text == "DELETE hook WHERE hid = $hid AND owner = $owner"@ {
        rows.filter(|r: Row| !(r.hid == q.text_of("hid"@) && r.owner == q.text_of("owner"@)))
    } else {
        arbitrary()
    }
}

/// `UPDATE hook SET device_id = $device_id, access_token = $access_token WHERE hid =
/// $hid`.
pub open spec fn after_set_session(rows: Seq<Row>, q: QueryModel<()>) -> Seq<Row> {
    if q.text
        == "UPDATE hook SET device_id = $device_id, access_token = $access_token WHERE hid = $hid"@ {
        rows.map_values(
            |r: Row|
                if r.hid == q.text_of("hid"@) {
                    HookRow {
                        device_id: q.text_of("device_id"@),
                        access_token: q.text_of("access_token"@),
                        ..r
                    }
                } else {
                    r
                },
        )
    } else {
        arbitrary()
    }
}

/// The rows with a public id set.
pub open spec fn with_public_id_set(rows: Seq<Row>, id: Seq<char>, public_id: Seq<char>) -> Seq<
    Row,
> {
    rows.map_values(
        |r: Row|
            if r.hid == id {
                HookRow { public_id: Some(public_id), ..r }
            } else {
                r
            },
    )
}

/// What `UPDATE hook SET public_id = $public_id WHERE hid = $hid` leads to: the table
/// with the id set, or an error where the unique index refuses it.
pub open spec fn set_public_id(rows: Seq<Row>, q: QueryModel<()>) -> Result<Seq<Row>, ()> {
    let now = with_public_id_set(rows, q.text_of("hid"@), q.text_of("public_id"@));
    if q.text != "UPDATE hook SET public_id = $public_id WHERE hid = $hid"@ {
        arbitrary()
    } else if unique_public_ids(now) {
        Ok(now)
    } else {
        Err(())
    }
}

/// What looking up a private id returns.
pub open spec fn got(rows: Seq<Row>, id: Seq<char>) -> Option<Hook<Seq<char>>> {
    read_first(with_hid(rows, get_hook_query(id)))
}

/// What looking up a public id returns.
pub open spec fn got_by_public_id(rows: Seq<Row>, public_id: Seq<char>) -> Option<Hook<Seq<char>>> {
    read_first(with_public_id(rows, get_by_public_id_query(public_id)))
}

/// What listing the hooks of an owner returns.
pub open spec fn listed(rows: Seq<Row>, owner: Seq<char>) -> Seq<Hook<Seq<char>>> {
    read_all(with_owner(rows, list_query(owner)))
}

/// The table after a session was replaced.
pub open spec fn with_session(
    rows: Seq<Row>,
    id: Seq<char>,
    device_id: Seq<char>,
    access_token: Seq<char>,
) -> Seq<Row> {
    after_set_session(rows, set_session_query(id, device_id, access_token))
}

/// No two rows share a private id, as the unique index of the table enforces.
pub open spec fn unique_ids(rows: Seq<Row>) -> bool {
    forall|i: int, j: int|
        0 <= i < j < rows.len() ==> #[trigger] rows[i].hid != #[trigger] rows[j].hid
}

/// No two rows share a public id; rows may be without one.
pub open spec fn unique_public_ids(rows: Seq<Row>) -> bool {
    forall|i: int, j: int|
        0 <= i < j < rows.len() && (#[trigger] rows[i]).public_id is Some ==> rows[i].public_id != (
        #[trigger] rows[j]).public_id
}

proof fn lemma_names()
    ensures
        "hid"@ != "public_id"@ && "hid"@ != "name"@ && "hid"@ != "owner"@ && "hid"@ != "room_id"@,
        "hid"@ != "sender"@ && "hid"@ != "device_id"@ && "hid"@ != "access_token"@,
        "public_id"@ != "name"@ && "public_id"@ != "owner"@ && "public_id"@ != "room_id"@,
        "public_id"@ != "sender"@ && "public_id"@ != "device_id"@ && "public_id"@
            != "access_token"@,
        "name"@ != "owner"@ && "name"@ != "room_id"@ && "name"@ != "sender"@ && "name"@
            != "device_id"@ && "name"@ != "access_token"@,
        "owner"@ != "room_id"@ && "owner"@ != "sender"@ && "owner"@ != "device_id"@ && "owner"@
            != "access_token"@,
        "room_id"@ != "sender"@ && "room_id"@ != "device_id"@ && "room_id"@ != "access_token"@,
        "sender"@ != "device_id"@ && "sender"@ != "access_token"@,
        "device_id"@ != "access_token"@,
{
    reveal_strlit("hid");
    reveal_strlit("public_id");
    reveal_strlit("name");
    reveal_strlit("owner");
    reveal_strlit("room_id");
    reveal_strlit("sender");
    reveal_strlit("device_id");
    reveal_strlit("access_token");
    assert("hid"@[0] == 'h' && "public_id"@[0] == 'p' && "name"@[0] == 'n' && "owner"@[0] == 'o');
    assert("room_id"@[0] == 'r' && "sender"@[0] == 's' && "device_id"@[0] == 'd'
        && "access_token"@[0] == 'a');
}

/// What the parameters of each query are bound to.
proof fn lemma_bindings(h: Hook<Seq<char>>, id: Seq<char>, a: Seq<char>, b: Seq<char>)
    ensures
        hook_of_row(row_of(create_hook_query(h))) == h,
        row_of(create_hook_query(h)).public_id == Some(h.public_id),
        create_hook_query(h).text_of("hid"@) == h.id,
        create_hook_query(h).text_of("public_id"@) == h.public_id,
        get_hook_query(id).text_of("hid"@) == id,
        get_by_public_id_query(id).text_of("public_id"@) == id,
        list_query(id).text_of("owner"@) == id,
        delete_hook_query(id, a).text_of("hid"@) == id,
        delete_hook_query(id, a).text_of("owner"@) == a,
        public_id_query(id, a).text_of("hid"@) == id,
        public_id_query(id, a).text_of("public_id"@) == a,
        ({
            let q = set_session_query(id, a, b);
            q.text_of("hid"@) == id && q.text_of("device_id"@) == a && q.text_of("access_token"@)
                == b
        }),
{
    lemma_names();
    let create = create_hook_query(h);
    let one = get_hook_query(id);
    let two = get_by_public_id_query(id);
    let three = list_query(id);
    let del = delete_hook_query(id, a);
    let public = public_id_query(id, a);
    let session = set_session_query(id, a, b);
    lemma_skips(create);
    lemma_skips(one);
    lemma_skips(two);
    lemma_skips(three);
    lemma_skips(del);
    lemma_skips(public);
    lemma_skips(session);
    reveal_with_fuel(QueryModel::value_of, 9);
}

proof fn lemma_skips<E>(q: QueryModel<E>)
    ensures
        q.binds.skip(0) == q.binds,
        forall|n: int|
            0 <= n < q.binds.len() ==> (#[trigger] q.binds.skip(n)).drop_first() == q.binds.skip(
                n + 1,
            ),
{
    assert(q.binds.skip(0) =~= q.binds);
    assert forall|n: int| 0 <= n < q.binds.len() implies (#[trigger] q.binds.skip(n)).drop_first()
        == q.binds.skip(n + 1) by {
        assert(q.binds.skip(n).drop_first() =~= q.binds.skip(n + 1));
    }
}

/// A filter keeps nothing where nothing qualifies.
proof fn lemma_filter_none<A>(rows: Seq<A>, keep: spec_fn(A) -> bool)
    requires
        forall|i: int| 0 <= i < rows.len() ==> !keep(#[trigger] rows[i]),
    ensures
        rows.filter(keep) == Seq::<A>::empty(),
    decreases rows.len(),
{
    reveal(Seq::filter);
    if rows.len() > 0 {
        lemma_filter_none(rows.drop_last(), keep);
    }
}

/// A hook that was created is read back, by its private id and by its public id,
/// and is the last of its owner's hooks; what belongs to others is as before.
pub proof fn law_created_hook_is_read_back(rows: Seq<Row>, h: Hook<Seq<char>>, other: Seq<char>)
    requires
        !holds(rows, h.id),
        !holds_public(rows, h.public_id),
    ensures
        create(rows, create_hook_query(h)) is Ok,
        ({
            let now = create(rows, create_hook_query(h))->Ok_0;
            &&& got(now, h.id) == Some(h)
            &&& got_by_public_id(now, h.public_id) == Some(h)
            &&& listed(now, h.owner) == listed(rows, h.owner).push(h)
            &&& other != h.owner ==> listed(now, other) == listed(rows, other)
        }),
{
    let now = rows.push(row_of(create_hook_query(h)));
    let row = row_of(create_hook_query(h));
    lemma_bindings(h, h.id, h.owner, h.owner);
    lemma_bindings(h, h.public_id, h.owner, h.owner);
    lemma_bindings(h, h.owner, h.owner, h.owner);
    lemma_bindings(h, other, h.owner, h.owner);
    let q = get_hook_query(h.id);
    let keep = |r: Row| r.hid == q.text_of("hid"@);
    lemma_filter_none(rows, keep);
    rows.lemma_filter_push(row, keep);
    let p = get_by_public_id_query(h.public_id);
    let public = |r: Row| r.public_id == Some(p.text_of("public_id"@));
    lemma_filter_none(rows, public);
    rows.lemma_filter_push(row, public);
    let mine = list_query(h.owner);
    rows.lemma_filter_push(row, |r: Row| r.owner == mine.text_of("owner"@));
    assert(listed(now, h.owner) =~= listed(rows, h.owner).push(h));
    let theirs = list_query(other);
    rows.lemma_filter_push(row, |r: Row| r.owner == theirs.text_of("owner"@));
}

/// A hook whose private id or public id is held already is refused, and changes
/// nothing; any other is stored.
pub proof fn law_held_ids_are_refused(rows: Seq<Row>, h: Hook<Seq<char>>)
    ensures
        create(rows, create_hook_query(h)) is Err <==> holds(rows, h.id) || holds_public(
            rows,
            h.public_id,
        ),
        holds(rows, h.id) || holds_public(rows, h.public_id) ==> table_after(
            rows,
            create(rows, create_hook_query(h)),
        ) == rows,
{
    lemma_bindings(h, h.id, h.owner, h.owner);
}

/// A change to the stored hooks, by one of the store's queries.
pub enum Change {
    Create(Hook<Seq<char>>),
    SetSession { id: Seq<char>, device_id: Seq<char>, access_token: Seq<char> },
    SetPublicId { id: Seq<char>, public_id: Seq<char> },
    Delete { id: Seq<char>, owner: Seq<char> },
}

/// The table after a change, refused or not.
pub open spec fn changed(rows: Seq<Row>, change: Change) -> Seq<Row> {
    match change {
        Change::Create(h) => table_after(rows, create(rows, create_hook_query(h))),
        Change::SetSession { id, device_id, access_token } => with_session(
            rows,
            id,
            device_id,
            access_token,
        ),
        Change::SetPublicId { id, public_id } => table_after(
            rows,
            set_public_id(rows, public_id_query(id, public_id)),
        ),
        Change::Delete { id, owner } => after_delete(rows, delete_hook_query(id, owner)),
    }
}

/// The table after several changes, one after the other.
pub open spec fn after_changes(rows: Seq<Row>, changes: Seq<Change>) -> Seq<Row>
    decreases changes.len(),
{
    if changes.len() == 0 {
        rows
    } else {
        changed(after_changes(rows, changes.drop_last()), changes.last())
    }
}

/// Whatever is done to the stored hooks, no two of them ever share a private id, and
/// no two share a public id.
pub proof fn law_ids_stay_unique(rows: Seq<Row>, changes: Seq<Change>)
    requires
        unique_ids(rows),
        unique_public_ids(rows),
    ensures
        unique_ids(after_changes(rows, changes)),
        unique_public_ids(after_changes(rows, changes)),
        unique_ids(Seq::empty()) && unique_public_ids(Seq::empty()),
    decreases changes.len(),
{
    if changes.len() > 0 {
        law_ids_stay_unique(rows, changes.drop_last());
        lemma_change_keeps_unique(after_changes(rows, changes.drop_last()), changes.last());
    }
}

proof fn lemma_change_keeps_unique(rows: Seq<Row>, change: Change)
    requires
        unique_ids(rows),
        unique_public_ids(rows),
    ensures
        unique_ids(changed(rows, change)),
        unique_public_ids(changed(rows, change)),
{
    let now = changed(rows, change);
    match change {
        Change::Create(h) => {
            lemma_bindings(h, h.id, h.owner, h.owner);
            if !(holds(rows, h.id) || holds_public(rows, h.public_id)) {
                assert(now == rows.push(row_of(create_hook_query(h))));
                assert(forall|i: int|
                    0 <= i < rows.len() ==> (#[trigger] rows[i]).hid != h.id && rows[i].public_id
                        != Some(h.public_id));
            }
        },
        Change::SetSession { id, device_id, access_token } => {
            assert forall|i: int| 0 <= i < rows.len() implies (#[trigger] now[i]).hid == rows[i].hid
                && now[i].public_id == rows[i].public_id by {}
        },
        Change::SetPublicId { id, public_id } => {
            assert forall|i: int| 0 <= i < rows.len() implies (#[trigger] now[i]).hid
                == rows[i].hid by {}
        },
        Change::Delete { id, owner } => {
            let d = delete_hook_query(id, owner);
            let left = |r: Row| !(r.hid == d.text_of("hid"@) && r.owner == d.text_of("owner"@));
            lemma_filter_unique(rows, left);
        },
    }
}

/// What is unique stays unique under a filter.
proof fn lemma_filter_unique(rows: Seq<Row>, keep: spec_fn(Row) -> bool)
    requires
        unique_ids(rows),
        unique_public_ids(rows),
    ensures
        unique_ids(rows.filter(keep)),
        unique_public_ids(rows.filter(keep)),
    decreases rows.len(),
{
    reveal(Seq::filter);
    if rows.len() > 0 {
        let first = rows.drop_last();
        let last = rows.last();
        lemma_filter_unique(first, keep);
        let kept = first.filter(keep);
        assert forall|i: int| 0 <= i < kept.len() implies (#[trigger] kept[i]).hid != last.hid && (
        kept[i].public_id is Some ==> kept[i].public_id != last.public_id) by {
            assert(kept.contains(kept[i]));
            first.lemma_filter_contains_rev(keep, kept[i]);
            let j = choose|j: int| 0 <= j < first.len() && first[j] == kept[i];
            assert(rows[j] == kept[i]);
            assert(rows[j].hid != rows[rows.len() - 1].hid);
        }
    }
}

/// Replacing what a filter does not look at commutes with the filter.
proof fn lemma_filter_map(rows: Seq<Row>, change: spec_fn(Row) -> Row, keep: spec_fn(Row) -> bool)
    requires
        forall|r: Row| keep(#[trigger] change(r)) == keep(r),
    ensures
        rows.map_values(change).filter(keep) == rows.filter(keep).map_values(change),
    decreases rows.len(),
{
    reveal(Seq::filter);
    let changed = rows.map_values(change);
    if rows.len() == 0 {
        assert(changed.filter(keep) =~= rows.filter(keep).map_values(change));
    } else {
        lemma_filter_map(rows.drop_last(), change, keep);
        assert(changed.drop_last() =~= rows.drop_last().map_values(change));
        assert(changed.last() == change(rows.last()));
        assert(changed.filter(keep) =~= rows.filter(keep).map_values(change));
    }
}

/// A session that was replaced is the one that is read back; nothing else of the
/// hook changes, and no other hook does.
pub proof fn law_session_is_replaced(
    rows: Seq<Row>,
    id: Seq<char>,
    device_id: Seq<char>,
    access_token: Seq<char>,
    other: Seq<char>,
)
    ensures
        ({
            let now = with_session(rows, id, device_id, access_token);
            &&& got(now, id) == (match got(rows, id) {
                Some(h) => Some(Hook { device_id, access_token, ..h }),
                None => None,
            })
            &&& other != id ==> got(now, other) == got(rows, other)
        }),
{
    let h = arbitrary();
    lemma_bindings(h, id, device_id, access_token);
    let change = |r: Row|
        if r.hid == id {
            HookRow { device_id, access_token, ..r }
        } else {
            r
        };
    let now = with_session(rows, id, device_id, access_token);
    assert(now =~= rows.map_values(change));
    lemma_bindings(h, id, device_id, access_token);
    lemma_bindings(h, other, device_id, access_token);
    let q = get_hook_query(id);
    let keep = |r: Row| r.hid == q.text_of("hid"@);
    lemma_filter_map(rows, change, keep);
    if rows.filter(keep).len() > 0 {
        rows.lemma_filter_pred(keep, 0);
    }
    let o = get_hook_query(other);
    let keep_other = |r: Row| r.hid == o.text_of("hid"@);
    lemma_filter_map(rows, change, keep_other);
    if rows.filter(keep_other).len() > 0 {
        rows.lemma_filter_pred(keep_other, 0);
    }
}

/// A filter that only drops what another filter drops anyway makes no difference
/// to that one.
proof fn lemma_filter_twice<A>(rows: Seq<A>, first: spec_fn(A) -> bool, second: spec_fn(A) -> bool)
    requires
        forall|r: A| #[trigger] second(r) ==> first(r),
    ensures
        rows.filter(first).filter(second) == rows.filter(second),
    decreases rows.len(),
{
    reveal(Seq::filter);
    if rows.len() > 0 {
        lemma_filter_twice(rows.drop_last(), first, second);
        if first(rows.last()) {
            rows.drop_last().filter(first).lemma_filter_push(rows.last(), second);
        }
    }
}

/// A hook that its owner deleted is gone, and no other hook is.
pub proof fn law_deleted_hook_is_gone(
    rows: Seq<Row>,
    id: Seq<char>,
    owner: Seq<char>,
    other: Seq<char>,
)
    requires
        unique_ids(rows),
        got(rows, id) matches Some(h) && h.owner == owner,
    ensures
        ({
            let now = after_delete(rows, delete_hook_query(id, owner));
            &&& got(now, id) is None
            &&& other != id ==> got(now, other) == got(rows, other)
        }),
{
    let h = arbitrary();
    lemma_bindings(h, id, owner, owner);
    lemma_bindings(h, other, owner, owner);
    let d = delete_hook_query(id, owner);
    let now = after_delete(rows, d);
    let left = |r: Row| !(r.hid == d.text_of("hid"@) && r.owner == d.text_of("owner"@));
    let q = get_hook_query(id);
    let keep = |r: Row| r.hid == q.text_of("hid"@);
    // The row that was found is the only one with this id.
    rows.lemma_filter_pred(keep, 0);
    let found = rows.filter(keep)[0];
    assert(rows.filter(keep).contains(found));
    rows.lemma_filter_contains_rev(keep, found);
    let at = choose|i: int| 0 <= i < rows.len() && rows[i] == found;
    assert forall|i: int| 0 <= i < now.len() implies !keep(#[trigger] now[i]) by {
        rows.lemma_filter_pred(left, i);
        assert(now.contains(now[i]));
        rows.lemma_filter_contains_rev(left, now[i]);
        let j = choose|j: int| 0 <= j < rows.len() && rows[j] == now[i];
        if rows[j].hid == id {
            assert(rows[at].hid == id);
            assert(j == at);
        }
    }
    lemma_filter_none(now, keep);
    if other != id {
        let o = get_hook_query(other);
        lemma_filter_twice(rows, left, |r: Row| r.hid == o.text_of("hid"@));
    }
}

/// A filter that everything passes keeps all.
proof fn lemma_filter_all<A>(rows: Seq<A>, keep: spec_fn(A) -> bool)
    requires
        forall|i: int| 0 <= i < rows.len() ==> keep(#[trigger] rows[i]),
    ensures
        rows.filter(keep) == rows,
    decreases rows.len(),
{
    reveal(Seq::filter);
    if rows.len() > 0 {
        lemma_filter_all(rows.drop_last(), keep);
        assert(keep(rows[rows.len() - 1]));
        assert(rows.drop_last().push(rows.last()) =~= rows);
    } else {
        assert(rows.filter(keep) =~= rows);
    }
}

/// Nobody deletes the hook of someone else: even where the deletion runs, it
/// changes nothing if the hook is missing or has another owner.
pub proof fn law_strangers_delete_nothing(rows: Seq<Row>, id: Seq<char>, owner: Seq<char>)
    requires
        unique_ids(rows),
        !(got(rows, id) matches Some(h) && h.owner == owner),
    ensures
        after_delete(rows, delete_hook_query(id, owner)) == rows,
{
    lemma_bindings(arbitrary(), id, owner, owner);
    let d = delete_hook_query(id, owner);
    let left = |r: Row| !(r.hid == d.text_of("hid"@) && r.owner == d.text_of("owner"@));
    let q = get_hook_query(id);
    let keep = |r: Row| r.hid == q.text_of("hid"@);
    assert forall|i: int| 0 <= i < rows.len() implies left(#[trigger] rows[i]) by {
        if rows[i].hid == id {
            rows.lemma_filter_contains(keep, i);
            let found = rows.filter(keep)[0];
            rows.lemma_filter_pred(keep, 0);
            assert(rows.filter(keep).contains(found));
            rows.lemma_filter_contains_rev(keep, found);
            let at = choose|j: int| 0 <= j < rows.len() && rows[j] == found;
            assert(rows[at].hid == rows[i].hid);
            assert(at == i);
        }
    }
    lemma_filter_all(rows, left);
}

/// What setting several public ids leads to, one after the other: an error where
/// one of them is refused.
pub open spec fn set_all(rows: Seq<Row>, queries: Seq<QueryModel<()>>) -> Result<Seq<Row>, ()>
    decreases queries.len(),
{
    if queries.len() == 0 {
        Ok(rows)
    } else {
        match set_all(rows, queries.drop_last()) {
            Ok(now) => set_public_id(now, queries.last()),
            Err(_) => Err(()),
        }
    }
}

/// Whether the queries are the backfill of a table: one for each row without a
/// public id, in order.
pub open spec fn backfills(rows: Seq<Row>, queries: Seq<QueryModel<()>>) -> bool {
    backfill_queries(queries, without_public_id(rows).map_values(|r: Row| r.hid))
}

proof fn lemma_set_all(rows: Seq<Row>, queries: Seq<QueryModel<()>>, hids: Seq<Seq<char>>)
    requires
        set_all(rows, queries) is Ok,
        queries.len() == hids.len(),
        forall|i: int| 0 <= i < queries.len() ==> is_backfill(#[trigger] queries[i], hids[i]),
    ensures
        set_all(rows, queries)->Ok_0.len() == rows.len(),
        forall|i: int|
            0 <= i < rows.len() ==> {
                let now = #[trigger] set_all(rows, queries)->Ok_0[i];
                &&& hids.contains(rows[i].hid) ==> now.public_id is Some && now.public_id->0.len()
                    > 0 && now == (HookRow { public_id: now.public_id, ..rows[i] })
                &&& !hids.contains(rows[i].hid) ==> now == rows[i]
            },
    decreases queries.len(),
{
    if queries.len() > 0 {
        let n = queries.len() - 1;
        let before = hids.drop_last();
        assert forall|i: int| 0 <= i < n implies is_backfill(
            #[trigger] queries.drop_last()[i],
            before[i],
        ) by {
            assert(is_backfill(queries[i], hids[i]));
        }
        lemma_set_all(rows, queries.drop_last(), before);
        assert(is_backfill(queries[n], hids[n]));
        let p = choose|p: Seq<char>|
            queries[n] == #[trigger] public_id_query(hids[n], p) && p.len() == PUBLIC_ID_LEN
                && spelled_in(ALPHABET@, p);
        lemma_bindings(arbitrary(), hids[n], p, p);
        let earlier = set_all(rows, queries.drop_last())->Ok_0;
        assert forall|i: int| 0 <= i < rows.len() implies {
            let now = #[trigger] set_all(rows, queries)->Ok_0[i];
            &&& hids.contains(rows[i].hid) ==> now.public_id is Some && now.public_id->0.len() > 0
                && now == (HookRow { public_id: now.public_id, ..rows[i] })
            &&& !hids.contains(rows[i].hid) ==> now == rows[i]
        } by {
            let id = rows[i].hid;
            assert(earlier[i].hid == id);
            if hids.contains(id) && id != hids[n] {
                let k = choose|k: int| 0 <= k < hids.len() && hids[k] == id;
                assert(before[k] == id);
            }
            if before.contains(id) {
                let k = choose|k: int| 0 <= k < before.len() && before[k] == id;
                assert(hids[k] == id);
            }
            assert(hids[n] == hids.last());
        }
    }
}

/// A backfill of which nothing is refused gives every hook a public id that is not
/// empty, and leaves those that had one as they were; after it there is nothing left
/// to backfill.
pub proof fn law_backfill_is_complete(rows: Seq<Row>, queries: Seq<QueryModel<()>>, i: int)
    requires
        unique_ids(rows),
        backfills(rows, queries),
        set_all(rows, queries) is Ok,
        0 <= i < rows.len(),
    ensures
        ({
            let now = set_all(rows, queries)->Ok_0;
            &&& without_public_id(now).len() == 0
            &&& now.len() == rows.len()
            &&& rows[i].public_id is Some ==> now[i] == rows[i]
            &&& rows[i].public_id is None ==> now[i].public_id is Some && now[i].public_id->0.len()
                > 0 && now[i] == (HookRow { public_id: now[i].public_id, ..rows[i] })
        }),
{
    let bare_rows = without_public_id(rows);
    let none = |r: Row| r.public_id is None;
    let hids = bare_rows.map_values(|r: Row| r.hid);
    lemma_set_all(rows, queries, hids);
    let now = set_all(rows, queries)->Ok_0;
    assert forall|j: int| 0 <= j < rows.len() implies hids.contains(#[trigger] rows[j].hid)
        == rows[j].public_id is None by {
        if rows[j].public_id is None {
            rows.lemma_filter_contains(none, j);
            let k = choose|k: int| 0 <= k < bare_rows.len() && bare_rows[k] == rows[j];
            assert(hids[k] == rows[j].hid);
        }
        if hids.contains(rows[j].hid) {
            let k = choose|k: int| 0 <= k < hids.len() && hids[k] == rows[j].hid;
            rows.lemma_filter_pred(none, k);
            assert(bare_rows.contains(bare_rows[k]));
            rows.lemma_filter_contains_rev(none, bare_rows[k]);
            let m = choose|m: int| 0 <= m < rows.len() && rows[m] == bare_rows[k];
            assert(rows[m].hid == rows[j].hid);
            assert(m == j);
        }
    }
    assert forall|j: int| 0 <= j < now.len() implies !none(#[trigger] now[j]) by {
        assert(hids.contains(rows[j].hid) == rows[j].public_id is None);
    }
    lemma_filter_none(now, none);
    assert(hids.contains(rows[i].hid) == rows[i].public_id is None);
}

/// A row of the `note` table, with its expiry in seconds; a persistent note has
/// none.
pub struct StoredNote<E> {
    pub row: NoteRow<E, Seq<char>>,
    pub expires_at: Option<int>,
}

impl<E> StoredNote<E> {
    /// `expires_at IS NONE OR expires_at > time::now()`.
    pub open spec fn live(self, now: int) -> bool {
        self.expires_at matches Some(t) ==> t > now
    }
}

/// The row that a `CREATE note SET` statement adds at a time.
pub open spec fn note_row_of<E>(q: QueryModel<E>, now: int) -> StoredNote<E> {
    StoredNote {
        row: NoteRow {
            nid: q.text_of("nid"@),
            hook_id: q.text_of("hook_id"@),
            content: q.text_of("content"@),
            embedding: match q.value_of("embedding"@) {
                Some(Value::Embedding(e)) => e,
                _ => None,
            },
        },
        expires_at: if q.text
            == "CREATE note SET nid = $nid, hook_id = $hook_id, content = $content,\n    embedding = $embedding, expires_at = time::now() + duration::from_secs($ttl_secs),\n    created_at = time::now()"@ {
            match q.value_of("ttl_secs"@) {
                Some(Value::Number(secs)) => Some(now + secs),
                _ => arbitrary(),
            }
        } else if q.text
            == "CREATE note SET nid = $nid, hook_id = $hook_id, content = $content,\n    embedding = $embedding, expires_at = NONE, created_at = time::now()"@ {
            None
        } else {
            arbitrary()
        },
    }
}

/// Whether a row has this note id; an expired note holds its id until it is swept.
pub open spec fn holds_note<E>(notes: Seq<StoredNote<E>>, id: Seq<char>) -> bool {
    exists|i: int| 0 <= i < notes.len() && (#[trigger] notes[i]).row.nid == id
}

/// What `CREATE note SET …` leads to at a time: the table with the new row, or an
/// error where the unique index on the ids refuses it.
pub open spec fn create_note_in<E>(
    notes: Seq<StoredNote<E>>,
    q: QueryModel<E>,
    now: int,
) -> Result<Seq<StoredNote<E>>, ()> {
    if holds_note(notes, q.text_of("nid"@)) {
        Err(())
    } else {
        Ok(notes.push(note_row_of(q, now)))
    }
}

/// No two notes share an id, as the unique index of the table enforces.
pub open spec fn unique_note_ids<E>(notes: Seq<StoredNote<E>>) -> bool {
    forall|i: int, j: int|
        0 <= i < j < notes.len() ==> (#[trigger] notes[i]).row.nid != (#[trigger] notes[j]).row.nid
}

/// What looking up a note returns, at a time.
pub open spec fn note_got<E>(notes: Seq<StoredNote<E>>, id: Seq<char>, now: int) -> Option<
    Note<E, Seq<char>>,
> {
    let q = get_note_query(id);
    let found = notes.filter(|n: StoredNote<E>| n.row.nid == q.text_of("nid"@) && n.live(now));
    if q.text
        != "SELECT nid, hook_id, content, embedding FROM note\n    WHERE nid = $nid AND (expires_at IS NONE OR expires_at > time::now())\n    LIMIT 1"@ {
        arbitrary()
    } else {
        read_note(found.map_values(|n: StoredNote<E>| n.row))
    }
}

/// `DELETE note WHERE expires_at IS NOT NONE AND expires_at < time::now()`.
pub open spec fn after_sweep<E>(notes: Seq<StoredNote<E>>, now: int) -> Seq<StoredNote<E>> {
    if sweep_query().text
        == "DELETE note WHERE expires_at IS NOT NONE AND expires_at < time::now() RETURN BEFORE"@ {
        notes.filter(|n: StoredNote<E>| !(n.expires_at matches Some(t) && t < now))
    } else {
        arbitrary()
    }
}

proof fn lemma_note_bindings<E>(note: Note<E, Seq<char>>, ttl_secs: Option<u64>)
    ensures
        ({
            let q = create_note_query(note, ttl_secs);
            &&& q.text_of("nid"@) == note.id
            &&& q.text_of("hook_id"@) == note.hook_id
            &&& q.text_of("content"@) == note.content
            &&& q.value_of("embedding"@) == Some(Value::<E, Seq<char>>::Embedding(note.embedding))
            &&& q.value_of("ttl_secs"@) == (match ttl_secs {
                Some(t) => Some(Value::<E, Seq<char>>::Number(t)),
                None => None,
            })
        }),
        get_note_query(note.id).text_of("nid"@) == note.id,
        forall|now: int|
            (#[trigger] note_row_of(create_note_query(note, ttl_secs), now)).expires_at == (
            match ttl_secs {
                Some(t) => Some(now + t),
                None => None,
            }),
{
    reveal_strlit(
        "CREATE note SET nid = $nid, hook_id = $hook_id, content = $content,\n    embedding = $embedding, expires_at = time::now() + duration::from_secs($ttl_secs),\n    created_at = time::now()",
    );
    reveal_strlit(
        "CREATE note SET nid = $nid, hook_id = $hook_id, content = $content,\n    embedding = $embedding, expires_at = NONE, created_at = time::now()",
    );
    assert(CREATE_TEMPORARY_NOTE@.len() != CREATE_PERSISTENT_NOTE@.len());
    let q = create_note_query(note, ttl_secs);
    assert(q.text == (if ttl_secs is Some {
        CREATE_TEMPORARY_NOTE@
    } else {
        CREATE_PERSISTENT_NOTE@
    }));
    reveal_strlit("nid");
    reveal_strlit("hook_id");
    reveal_strlit("content");
    reveal_strlit("embedding");
    reveal_strlit("ttl_secs");
    assert("nid"@[0] == 'n' && "hook_id"@[0] == 'h' && "content"@[0] == 'c' && "embedding"@[0]
        == 'e' && "ttl_secs"@[0] == 't');
    lemma_skips(create_note_query(note, ttl_secs));
    lemma_skips(get_note_query(note.id));
    reveal_with_fuel(QueryModel::value_of, 6);
}

/// A note that was created is read back by its id alone, by anyone: for ever if it
/// is persistent, and until its time is up if it is temporary.
pub proof fn law_created_note_lives<E>(
    notes: Seq<StoredNote<E>>,
    note: Note<E, Seq<char>>,
    ttl_secs: Option<u64>,
    now: int,
    later: int,
)
    requires
        !holds_note(notes, note.id),
    ensures
        create_note_in(notes, create_note_query(note, ttl_secs), now) is Ok,
        note_got(
            create_note_in(notes, create_note_query(note, ttl_secs), now)->Ok_0,
            note.id,
            later,
        ) == (if ttl_secs matches Some(t) && now + t <= later {
            None
        } else {
            Some(note)
        }),
{
    lemma_note_bindings(note, ttl_secs);
    let q = get_note_query(note.id);
    let keep = |n: StoredNote<E>| n.row.nid == q.text_of("nid"@) && n.live(later);
    lemma_filter_none(notes, keep);
    notes.lemma_filter_push(note_row_of(create_note_query(note, ttl_secs), now), keep);
}

/// A note whose id is held already, be it by an expired note, is refused, and changes
/// nothing; any other is stored.
pub proof fn law_held_note_ids_are_refused<E>(
    notes: Seq<StoredNote<E>>,
    note: Note<E, Seq<char>>,
    ttl_secs: Option<u64>,
    now: int,
)
    ensures
        ({
            let outcome = create_note_in(notes, create_note_query(note, ttl_secs), now);
            &&& outcome is Err <==> holds_note(notes, note.id)
            &&& holds_note(notes, note.id) ==> table_after(notes, outcome) == notes
        }),
{
    lemma_note_bindings(note, ttl_secs);
}

/// A change to the stored notes, by one of the store's queries, at a time.
pub enum NoteChange<E> {
    Create { note: Note<E, Seq<char>>, ttl_secs: Option<u64>, now: int },
    Sweep { now: int },
}

/// The notes after a change, refused or not.
pub open spec fn note_changed<E>(notes: Seq<StoredNote<E>>, change: NoteChange<E>) -> Seq<
    StoredNote<E>,
> {
    match change {
        NoteChange::Create { note, ttl_secs, now } => table_after(
            notes,
            create_note_in(notes, create_note_query(note, ttl_secs), now),
        ),
        NoteChange::Sweep { now } => after_sweep(notes, now),
    }
}

/// The notes after several changes, one after the other.
pub open spec fn after_note_changes<E>(
    notes: Seq<StoredNote<E>>,
    changes: Seq<NoteChange<E>>,
) -> Seq<StoredNote<E>>
    decreases changes.len(),
{
    if changes.len() == 0 {
        notes
    } else {
        note_changed(after_note_changes(notes, changes.drop_last()), changes.last())
    }
}

/// Whatever is done to the stored notes, no two of them ever share an id.
pub proof fn law_note_ids_stay_unique<E>(notes: Seq<StoredNote<E>>, changes: Seq<NoteChange<E>>)
    requires
        unique_note_ids(notes),
    ensures
        unique_note_ids(after_note_changes(notes, changes)),
        unique_note_ids(Seq::<StoredNote<E>>::empty()),
    decreases changes.len(),
{
    if changes.len() > 0 {
        law_note_ids_stay_unique(notes, changes.drop_last());
        let before = after_note_changes(notes, changes.drop_last());
        match changes.last() {
            NoteChange::Create { note, ttl_secs, now } => {
                lemma_note_bindings(note, ttl_secs);
                if !holds_note(before, note.id) {
                    assert(forall|i: int|
                        0 <= i < before.len() ==> (#[trigger] before[i]).row.nid != note.id);
                }
            },
            NoteChange::Sweep { now } => {
                lemma_filter_unique_notes(
                    before,
                    |n: StoredNote<E>| !(n.expires_at matches Some(t) && t < now),
                );
            },
        }
    }
}

/// Ids of notes that are unique stay unique under a filter.
proof fn lemma_filter_unique_notes<E>(
    notes: Seq<StoredNote<E>>,
    keep: spec_fn(StoredNote<E>) -> bool,
)
    requires
        unique_note_ids(notes),
    ensures
        unique_note_ids(notes.filter(keep)),
    decreases notes.len(),
{
    reveal(Seq::filter);
    if notes.len() > 0 {
        let first = notes.drop_last();
        lemma_filter_unique_notes(first, keep);
        let kept = first.filter(keep);
        assert forall|i: int| 0 <= i < kept.len() implies (#[trigger] kept[i]).row.nid
            != notes.last().row.nid by {
            assert(kept.contains(kept[i]));
            first.lemma_filter_contains_rev(keep, kept[i]);
            let j = choose|j: int| 0 <= j < first.len() && first[j] == kept[i];
            assert(notes[j] == kept[i]);
        }
    }
}

/// The rows that a sweep returns: the notes that it deletes.
pub open spec fn swept_rows<E>(notes: Seq<StoredNote<E>>, now: int) -> Seq<StoredNote<E>> {
    if sweep_query().text
        == "DELETE note WHERE expires_at IS NOT NONE AND expires_at < time::now() RETURN BEFORE"@ {
        notes.filter(|n: StoredNote<E>| n.expires_at matches Some(t) && t < now)
    } else {
        arbitrary()
    }
}

/// How many notes of a hook are live.
pub open spec fn live_notes<E>(notes: Seq<StoredNote<E>>, hook_id: Seq<char>, now: int) -> nat {
    let q = count_query(hook_id);
    if q.text
        == "SELECT count() FROM note\n    WHERE hook_id = $hook_id AND (expires_at IS NONE OR expires_at > time::now())\n    GROUP ALL"@ {
        notes.filter(|n: StoredNote<E>| n.row.hook_id == q.text_of("hook_id"@) && n.live(now)).len()
    } else {
        arbitrary()
    }
}

/// Whether `counts` are the rows that counting `n` notes returns: the number, and no
/// row at all where there is nothing to count.
pub open spec fn counts_for(counts: Seq<usize>, n: nat) -> bool {
    if n == 0 {
        counts.len() == 0
    } else {
        counts.len() == 1 && counts[0] == n
    }
}

/// What is read from the rows of a count is the number of the hook's live notes,
/// zero where there are none.
pub proof fn law_live_notes_are_counted<E>(
    notes: Seq<StoredNote<E>>,
    hook_id: Seq<char>,
    now: int,
    counts: Seq<usize>,
)
    requires
        counts_for(counts, live_notes(notes, hook_id, now)),
    ensures
        count_in(counts) == notes.filter(
            |n: StoredNote<E>| n.row.hook_id == hook_id && n.live(now),
        ).len(),
{
    lemma_count_binding(hook_id);
    let q = count_query(hook_id);
    let a = |n: StoredNote<E>| n.row.hook_id == hook_id && n.live(now);
    let b = |n: StoredNote<E>| n.row.hook_id == q.text_of("hook_id"@) && n.live(now);
    assert(a =~= b);
}

proof fn lemma_count_binding(hook_id: Seq<char>)
    ensures
        count_query(hook_id).text_of("hook_id"@) == hook_id,
{
    lemma_skips(count_query(hook_id));
    reveal_with_fuel(QueryModel::value_of, 2);
}

/// A note that is stored raises the count of its hook's live notes by one, for ever
/// if it is persistent and until its time is up if it is temporary, and leaves the
/// count of every other hook alone.
pub proof fn law_created_note_counts<E>(
    notes: Seq<StoredNote<E>>,
    note: Note<E, Seq<char>>,
    ttl_secs: Option<u64>,
    now: int,
    later: int,
    hook_id: Seq<char>,
)
    requires
        !holds_note(notes, note.id),
    ensures
        create_note_in(notes, create_note_query(note, ttl_secs), now) is Ok,
        ({
            let all = create_note_in(notes, create_note_query(note, ttl_secs), now)->Ok_0;
            let counts = hook_id == note.hook_id && !(ttl_secs matches Some(t) && now + t <= later);
            live_notes(all, hook_id, later) == live_notes(notes, hook_id, later) + (if counts {
                1nat
            } else {
                0
            })
        }),
{
    lemma_note_bindings(note, ttl_secs);
    lemma_count_binding(hook_id);
    let q = count_query(hook_id);
    notes.lemma_filter_push(
        note_row_of(create_note_query(note, ttl_secs), now),
        |n: StoredNote<E>| n.row.hook_id == q.text_of("hook_id"@) && n.live(later),
    );
}

/// What passes a filter and what does not are all there is.
proof fn lemma_filter_parts<A>(rows: Seq<A>, keep: spec_fn(A) -> bool, drop: spec_fn(A) -> bool)
    requires
        forall|a: A| #[trigger] keep(a) == !drop(a),
    ensures
        rows.filter(keep).len() + rows.filter(drop).len() == rows.len(),
    decreases rows.len(),
{
    reveal(Seq::filter);
    if rows.len() > 0 {
        lemma_filter_parts(rows.drop_last(), keep, drop);
        assert(keep(rows.last()) == !drop(rows.last()));
    }
}

/// A sweep deletes exactly the notes whose time has passed, and reports how many
/// they were.
pub proof fn law_sweep_is_exact<E>(notes: Seq<StoredNote<E>>, now: int, note: StoredNote<E>)
    ensures
        swept_in(swept_rows(notes, now)) == notes.len() - after_sweep(notes, now).len(),
        after_sweep(notes, now).contains(note) <==> notes.contains(note) && !(
        note.expires_at matches Some(t) && t < now),
{
    let stays = |n: StoredNote<E>| !(n.expires_at matches Some(t) && t < now);
    let goes = |n: StoredNote<E>| n.expires_at matches Some(t) && t < now;
    lemma_filter_parts(notes, stays, goes);
    if notes.contains(note) && stays(note) {
        let i = choose|i: int| 0 <= i < notes.len() && notes[i] == note;
        notes.lemma_filter_contains(stays, i);
    }
    if after_sweep(notes, now).contains(note) {
        let i = choose|i: int|
            0 <= i < after_sweep(notes, now).len() && after_sweep(notes, now)[i] == note;
        notes.lemma_filter_pred(stays, i);
        notes.lemma_filter_contains_rev(stays, note);
    }
}

/// A sweep of the expired notes changes no read and no count of live notes, then or
/// later.
pub proof fn law_note_sweep_is_invisible<E>(
    notes: Seq<StoredNote<E>>,
    swept: int,
    id: Seq<char>,
    hook_id: Seq<char>,
    later: int,
)
    requires
        swept <= later,
    ensures
        note_got(after_sweep(notes, swept), id, later) == note_got(notes, id, later),
        live_notes(after_sweep(notes, swept), hook_id, later) == live_notes(notes, hook_id, later),
{
    let c = count_query(hook_id);
    lemma_filter_twice(
        notes,
        |n: StoredNote<E>| !(n.expires_at matches Some(t) && t < swept),
        |n: StoredNote<E>| n.row.hook_id == c.text_of("hook_id"@) && n.live(later),
    );
    let q = get_note_query(id);
    lemma_filter_twice(
        notes,
        |n: StoredNote<E>| !(n.expires_at matches Some(t) && t < swept),
        |n: StoredNote<E>| n.row.nid == q.text_of("nid"@) && n.live(later),
    );
}

/// What every search starts with: the notes that have not expired and have an
/// embedding, with their similarity to what is searched for.
pub open spec fn search_head() -> Seq<char> {
    "SELECT nid, hook_id, content, embedding,\n    vector::similarity::cosine(embedding, $q) AS score\n    FROM note\n    WHERE (expires_at IS NONE OR expires_at > time::now())\n    AND embedding IS NOT NONE"@
}

/// The condition that restricts a search to one hook.
pub open spec fn scope_condition() -> Seq<char> {
    " AND hook_id = $scope"@
}

/// The hook that a search is restricted to, if it is: the one that its parameter names,
/// where the statement goes on with the condition on the hook.
pub open spec fn scope_of<E>(q: QueryModel<E>) -> Option<Seq<char>> {
    if scope_condition().is_prefix_of(q.text.skip(search_head().len() as int)) {
        Some(q.text_of("scope"@))
    } else {
        None
    }
}

/// Whether a search may find a note: `(expires_at IS NONE OR expires_at >
/// time::now()) AND embedding IS NOT NONE`, and `hook_id = $scope` where the statement
/// says so.
pub open spec fn searchable<E>(n: StoredNote<E>, q: QueryModel<E>, now: int) -> bool {
    if search_head().is_prefix_of(q.text) {
        &&& n.live(now)
        &&& n.row.embedding is Some
        &&& scope_of(q) matches Some(s) ==> n.row.hook_id == s
    } else {
        arbitrary()
    }
}

/// Whether a row of a search shows a note, column by column.
pub open spec fn shows<E, R>(row: NoteHitRow<E, R>, n: StoredNote<E>) -> bool {
    &&& row.nid@ == n.row.nid
    &&& row.hook_id@ == n.row.hook_id
    &&& row.content@ == n.row.content
    &&& row.embedding == n.row.embedding
}

/// Whether `rows` answer a search for `k` notes: there are at most so many, and each
/// is the note at its place in `at`, no note twice. Which of the notes they are, in
/// what order and with what score is for the database to say.
pub open spec fn answers_search<E, R>(
    notes: Seq<StoredNote<E>>,
    q: QueryModel<E>,
    k: usize,
    now: int,
    rows: Seq<NoteHitRow<E, R>>,
    at: Seq<int>,
) -> bool {
    &&& rows.len() <= k
    &&& at.len() == rows.len()
    &&& at.no_duplicates()
    &&& forall|i: int|
        0 <= i < rows.len() ==> 0 <= #[trigger] at[i] < notes.len() && searchable(
            notes[at[i]],
            q,
            now,
        ) && shows(rows[i], notes[at[i]])
}

proof fn lemma_scope<E>(embedding: E, k: usize, scope: Option<Seq<char>>)
    ensures
        search_head().is_prefix_of(search_query(embedding, k, scope).text),
        scope_of(search_query(embedding, k, scope)) == scope,
{
    let q = search_query(embedding, k, scope);
    let head = search_head();
    let rest = q.text.skip(head.len() as int);
    reveal_strlit("q");
    reveal_strlit("scope");
    reveal_strlit(" AND hook_id = $scope");
    reveal_strlit(" AND embedding <|");
    assert("q"@.len() != "scope"@.len());
    assert(head =~= q.text.subrange(0, head.len() as int));
    if scope is Some {
        assert(scope_condition() =~= rest.subrange(0, scope_condition().len() as int));
    } else {
        assert(rest[5] == 'e');
        if scope_condition().is_prefix_of(rest) {
            assert(scope_condition()[5] == rest.subrange(0, scope_condition().len() as int)[5]);
        }
    }
    lemma_skips(q);
    reveal_with_fuel(QueryModel::value_of, 3);
}

/// A search says in its statement what it is restricted to: the condition on the hook is
/// in the text if and only if there is a scope, which is when its parameter is bound, and
/// bound to that scope. Apart from that condition, a search with a scope is the search
/// without, for any number of notes.
pub proof fn law_search_states_its_scope<E>(embedding: E, k: usize, scope: Option<Seq<char>>)
    ensures
        ({
            let q = search_query(embedding, k, scope);
            let open = search_query(embedding, k, None);
            let n = search_head().len() as int;
            &&& find(q.text, SEARCH_SCOPE@) is Some <==> scope is Some
            &&& find(q.text, " AND hook_id = $scope"@) is Some <==> scope is Some
            &&& q.value_of("scope"@) == (match scope {
                Some(s) => Some(Value::<E, Seq<char>>::Text(s)),
                None => None,
            })
            &&& q.value_of("q"@) == Some(Value::<E, Seq<char>>::Embedding(Some(embedding)))
            &&& scope is Some ==> q.text == open.text.take(n) + scope_condition() + open.text.skip(n)
        }),
{
    let q = search_query(embedding, k, scope);
    let open = search_query(embedding, k, None);
    let head = search_head();
    let n = head.len() as int;
    reveal_strlit("q");
    reveal_strlit("scope");
    assert("q"@.len() != "scope"@.len());
    lemma_skips(q);
    reveal_with_fuel(QueryModel::value_of, 3);
    assert(open.text.take(n) =~= head);
    if scope is Some {
        assert(q.text =~= head + scope_condition() + open.text.skip(n));
        assert(q.text.subrange(n, n + scope_condition().len()) =~= scope_condition());
        lemma_found(q.text, scope_condition(), n as nat);
    } else {
        lemma_no_scope(embedding, k);
    }
}

/// A search without a scope nowhere names the parameter of one.
proof fn lemma_no_scope<E>(embedding: E, k: usize)
    ensures
        find(search_query(embedding, k, None).text, " AND hook_id = $scope"@) is None,
{
    let text = search_query(embedding, k, None).text;
    let scope = " AND hook_id = $scope"@;
    let a = search_head();
    let b = " AND embedding <|"@;
    let c = decimal(k as nat);
    let d = ","@;
    let e = decimal(search_candidates(k));
    let f = "|> $q ORDER BY score DESC"@;
    lemma_head_parameters();
    reveal_strlit(" AND hook_id = $scope");
    reveal_strlit(" AND embedding <|");
    reveal_strlit(",");
    reveal_strlit("|> $q ORDER BY score DESC");
    lemma_digits(k as nat);
    lemma_digits(search_candidates(k));
    assert(text == a + b + c + d + e + f);
    let ab = (a + b).len() as int;
    let abc = (a + b + c).len() as int;
    let abcd = (a + b + c + d).len() as int;
    let abcde = (a + b + c + d + e).len() as int;
    assert forall|i: int| 0 <= i < text.len() - 1 && #[trigger] text[i] == '$' implies text[i + 1]
        != 's' by {
        if i < a.len() {
            assert(text[i] == a[i]);
            assert(text[i + 1] == a[i + 1]);
        } else if i < ab {
            assert(text[i] == b[i - a.len()]);
        } else if i < abc {
            assert(text[i] == c[i - ab]);
        } else if i < abcd {
            assert(text[i] == d[i - abc]);
        } else if i < abcde {
            assert(text[i] == e[i - abcd]);
        } else {
            assert(text[i] == f[i - abcde]);
            assert(text[i + 1] == f[i + 1 - abcde]);
        }
    }
    lemma_find(text, scope);
    if let Some(m) = find(text, scope) {
        let at = m as int;
        assert forall|i: int| 0 <= i < scope.len() implies scope[i] == #[trigger] text[at + i] by {
            assert(scope[i] == text.skip(at).subrange(0, scope.len() as int)[i]);
        }
        assert(scope[15] == '$' && scope[16] == 's');
        assert(text[at + 15] == '$');
        assert(text[at + 16] == 's');
    }
}

/// The start of a search names one parameter only, what is searched for.
proof fn lemma_head_parameters()
    ensures
        search_head().len() > 0,
        forall|i: int|
            0 <= i < search_head().len() && #[trigger] search_head()[i] == '$' ==> i + 1
                < search_head().len() && search_head()[i + 1] == 'q',
{
    reveal_strlit(
        "SELECT nid, hook_id, content, embedding,\n    vector::similarity::cosine(embedding, $q) AS score\n    FROM note\n    WHERE (expires_at IS NONE OR expires_at > time::now())\n    AND embedding IS NOT NONE",
    );
}

/// Decimal numbers are spelled in digits.
proof fn lemma_digits(n: nat)
    ensures
        decimal(n).len() > 0,
        forall|i: int| 0 <= i < decimal(n).len() ==> '0' <= #[trigger] decimal(n)[i] <= '9',
    decreases n,
{
    if n >= 10 {
        lemma_digits(n / 10);
    }
}

/// A search asks for exactly `k` notes and considers four times as many, and 64 at the
/// least: both numbers stand in its statement, which ends with the best notes first.
pub proof fn law_search_asks_for_k<E>(embedding: E, k: usize, scope: Option<Seq<char>>)
    ensures
        search_candidates(k) >= 64 && search_candidates(k) >= 4 * k,
        search_candidates(k) == 64 || search_candidates(k) == 4 * k,
        (" AND embedding <|"@ + decimal(k as nat) + ","@ + decimal(search_candidates(k))
            + "|> $q ORDER BY score DESC"@).is_suffix_of(search_query(embedding, k, scope).text),
{
    let tail = " AND embedding <|"@ + decimal(k as nat) + ","@ + decimal(search_candidates(k))
        + "|> $q ORDER BY score DESC"@;
    let text = search_query(embedding, k, scope).text;
    assert(tail =~= text.skip(text.len() - tail.len()));
}

/// What a search finds are stored notes, with the contents that they were stored
/// with, in the order and with the scores that the database gave: none that has
/// expired, none without an embedding, none of another hook where the search is
/// restricted to one, none twice, and not more than were asked for.
pub proof fn law_search_finds_eligible_notes<E, R>(
    notes: Seq<StoredNote<E>>,
    embedding: E,
    k: usize,
    scope: Option<Seq<char>>,
    now: int,
    rows: Seq<NoteHitRow<E, R>>,
    at: Seq<int>,
)
    requires
        unique_note_ids(notes),
        answers_search(notes, search_query(embedding, k, scope), k, now, rows, at),
    ensures
        ({
            let hits = hits_of(rows);
            &&& hits.len() == rows.len() <= k
            &&& forall|i: int|
                0 <= i < hits.len() ==> {
                    let note = (#[trigger] hits[i]).note@;
                    &&& hits[i].score == rows[i].score
                    &&& note.embedding is Some
                    &&& scope matches Some(s) ==> note.hook_id == s
                    &&& notes[at[i]].live(now)
                    &&& note.id == notes[at[i]].row.nid && note.hook_id == notes[at[i]].row.hook_id
                    &&& note.content == notes[at[i]].row.content
                    &&& note.embedding == notes[at[i]].row.embedding
                    &&& note_got(notes, note.id, now) == Some(note)
                }
            &&& forall|i: int, j: int|
                0 <= i < j < hits.len() ==> (#[trigger] hits[i]).note.id@ != (#[trigger] hits[j]).note.id@
        }),
{
    lemma_scope(embedding, k, scope);
    let hits = hits_of(rows);
    assert forall|i: int| 0 <= i < hits.len() implies note_got(
        notes,
        (#[trigger] hits[i]).note@.id,
        now,
    ) == Some(hits[i].note@) by {
        let n = at[i];
        lemma_live_note_is_got(notes, n, now);
    }
    assert forall|i: int, j: int| 0 <= i < j < hits.len() implies (#[trigger] hits[i]).note.id@ != (
    #[trigger] hits[j]).note.id@ by {
        assert(at[i] != at[j]);
        assert(hits[i].note@.id == notes[at[i]].row.nid);
        assert(hits[j].note@.id == notes[at[j]].row.nid);
    }
}

/// A live note is the one that is read under its id.
proof fn lemma_live_note_is_got<E>(notes: Seq<StoredNote<E>>, n: int, now: int)
    requires
        unique_note_ids(notes),
        0 <= n < notes.len(),
        notes[n].live(now),
    ensures
        note_got(notes, notes[n].row.nid, now) == Some(note_of_row(notes[n].row)),
{
    let id = notes[n].row.nid;
    let q = get_note_query(id);
    lemma_note_bindings(note_of_row(notes[n].row), None);
    let keep = |m: StoredNote<E>| m.row.nid == q.text_of("nid"@) && m.live(now);
    notes.lemma_filter_contains(keep, n);
    let found = notes.filter(keep)[0];
    notes.lemma_filter_pred(keep, 0);
    assert(notes.filter(keep).contains(found));
    notes.lemma_filter_contains_rev(keep, found);
    let m = choose|m: int| 0 <= m < notes.len() && notes[m] == found;
    assert(m == n);
}

/// Every hook is read back, in the order in which they were created.
pub proof fn law_all_hooks_are_read(rows: Seq<Row>, i: int)
    requires
        0 <= i < rows.len(),
    ensures
        read_all(every_row(rows, all_hooks_query())).len() == rows.len(),
        read_all(every_row(rows, all_hooks_query()))[i] == hook_of_row(rows[i]),
{
}

/// A row reads as the hook that it holds, field by field; a public id that is missing
/// reads as the empty text.
pub proof fn law_rows_read_as_hooks(row: Row)
    ensures
        ({
            let h = hook_of_row(row);
            &&& h.id == row.hid && h.name == row.name && h.owner == row.owner
            &&& h.room_id == row.room_id && h.sender == row.sender
            &&& h.device_id == row.device_id && h.access_token == row.access_token
            &&& row.public_id is Some ==> h.public_id == row.public_id->0
            &&& row.public_id is None ==> h.public_id.len() == 0
        }),
{
}

/// A deletion that is planned from what looking the hook up returned removes the hook
/// if and only if it is there and belongs to the one who asks: then it is gone and every
/// other hook is as before, and otherwise there is nothing to run.
pub proof fn law_deletion_plan(rows: Seq<Row>, id: Seq<char>, owner: Seq<char>, other: Seq<char>)
    requires
        unique_ids(rows),
        other != id,
    ensures
        ({
            let plan = delete_plan(id, owner, got(rows, id));
            let mine = got(rows, id) matches Some(h) && h.owner == owner;
            &&& plan is Some <==> mine
            &&& plan is Some ==> got(after_delete(rows, plan->0), id) is None
            &&& plan is Some ==> got(after_delete(rows, plan->0), other) == got(rows, other)
        }),
{
    if got(rows, id) matches Some(h) && h.owner == owner {
        law_deleted_hook_is_gone(rows, id, owner, other);
    }
}

/// A store is opened in a fixed order: connect, sign in where there are credentials,
/// define and select the namespace, define and select the database, define the schema.
pub proof fn law_stores_open_in_order(
    url: Seq<char>,
    namespace: Seq<char>,
    database: Seq<char>,
    auth: Option<(Seq<char>, Seq<char>)>,
    vector_dim: usize,
)
    ensures
        ({
            let steps = open_steps(url, namespace, database, auth, vector_dim);
            let a: int = if auth is Some {
                1
            } else {
                0
            };
            &&& steps.len() == 6 + a
            &&& steps[0] == OpenStep::Connect(url)
            &&& auth matches Some((user, pass)) ==> steps[1] == OpenStep::SignIn(user, pass)
            &&& steps[1 + a] == OpenStep::Run("DEFINE NAMESPACE IF NOT EXISTS "@ + namespace)
            &&& steps[2 + a] == OpenStep::UseNamespace(namespace)
            &&& steps[3 + a] == OpenStep::Run("DEFINE DATABASE IF NOT EXISTS "@ + database)
            &&& steps[4 + a] == OpenStep::UseDatabase(database)
            &&& steps[5 + a] == OpenStep::Run(schema(vector_dim))
        }),
{
}

/// The schema defines the two tables with all their fields, the unique indexes on the
/// ids that [`create`], [`set_public_id`] and [`create_note_in`] rest on, and the vector
/// index; it differs from store to store in the dimension of the vectors only.
pub proof fn law_schema(vector_dim: usize)
    ensures
        schema(vector_dim)
            == "DEFINE TABLE IF NOT EXISTS hook SCHEMAFULL;\nDEFINE FIELD IF NOT EXISTS hid ON hook TYPE string;\nDEFINE FIELD IF NOT EXISTS public_id ON hook TYPE option<string>;\nDEFINE FIELD IF NOT EXISTS name ON hook TYPE string;\nDEFINE FIELD IF NOT EXISTS owner ON hook TYPE string;\nDEFINE FIELD IF NOT EXISTS room_id ON hook TYPE string;\nDEFINE FIELD IF NOT EXISTS sender ON hook TYPE string;\nDEFINE FIELD IF NOT EXISTS device_id ON hook TYPE string;\nDEFINE FIELD IF NOT EXISTS access_token ON hook TYPE string;\nDEFINE FIELD IF NOT EXISTS created_at ON hook TYPE datetime;\nDEFINE INDEX IF NOT EXISTS hook_hid ON hook COLUMNS hid UNIQUE;\nDEFINE INDEX IF NOT EXISTS hook_public_id ON hook COLUMNS public_id UNIQUE;\nDEFINE INDEX IF NOT EXISTS hook_owner ON hook COLUMNS owner;\nDEFINE TABLE IF NOT EXISTS note SCHEMAFULL;\nDEFINE FIELD IF NOT EXISTS nid ON note TYPE string;\nDEFINE FIELD IF NOT EXISTS hook_id ON note TYPE string;\nDEFINE FIELD IF NOT EXISTS content ON note TYPE string;\nDEFINE FIELD IF NOT EXISTS embedding ON note TYPE option<array<float>>;\nDEFINE FIELD IF NOT EXISTS expires_at ON note TYPE option<datetime>;\nDEFINE FIELD IF NOT EXISTS created_at ON note TYPE datetime;\nDEFINE INDEX IF NOT EXISTS note_nid ON note COLUMNS nid UNIQUE;\nDEFINE INDEX IF NOT EXISTS note_hook ON note COLUMNS hook_id;\nDEFINE INDEX IF NOT EXISTS note_vec ON note FIELDS embedding\n    HNSW DIMENSION "@
            + decimal(vector_dim as nat) + " DIST COSINE;"@,
{
}

/// The characters that a plain identifier is made of.
pub open spec fn ident_chars() -> Seq<char> {
    "ABCDEFGHIJKLMNOPQRSTUVWXYZabcdefghijklmnopqrstuvwxyz_0123456789"@
}

/// A plain identifier is a text of letters, digits and underscores that does not start
/// with a digit, and every such text is one.
pub proof fn law_identifiers(s: Seq<char>)
    ensures
        is_ident(s) <==> s.len() > 0 && ident_chars().take(53).contains(s[0]) && forall|i: int|
            0 <= i < s.len() ==> ident_chars().contains(#[trigger] s[i]),
{
    reveal_strlit("ABCDEFGHIJKLMNOPQRSTUVWXYZabcdefghijklmnopqrstuvwxyz_0123456789");
    assert forall|c: char| #[trigger] ident_chars().contains(c) == (is_ascii_letter(c) || is_digit(c)
        || c == '_') by {
        lemma_ident_char(c);
    }
    if s.len() > 0 {
        lemma_ident_char(s[0]);
    }
}

proof fn lemma_ident_char(c: char)
    ensures
        ident_chars().contains(c) == (is_ascii_letter(c) || is_digit(c) || c == '_'),
        ident_chars().take(53).contains(c) == (is_ascii_letter(c) || c == '_'),
{
    reveal_strlit("ABCDEFGHIJKLMNOPQRSTUVWXYZabcdefghijklmnopqrstuvwxyz_0123456789");
    let all = ident_chars();
    let at: int = if 'A' <= c <= 'Z' {
        c as int - 'A' as int
    } else if 'a' <= c <= 'z' {
        26 + (c as int - 'a' as int)
    } else if c == '_' {
        52
    } else {
        53 + (c as int - '0' as int)
    };
    if is_ascii_letter(c) || c == '_' {
        assert(all[at] == c);
        assert(all.take(53)[at] == c);
    } else if is_digit(c) {
        assert(all[at] == c);
    }
}

/// No text that a user or a caller supplies becomes part of a statement: the
/// statements for different input differ in their parameters only.
pub proof fn law_input_stays_out_of_statements<E>(
    a: Hook<Seq<char>>,
    b: Hook<Seq<char>>,
    note_a: Note<E, Seq<char>>,
    note_b: Note<E, Seq<char>>,
    ttl_a: u64,
    ttl_b: u64,
    k: usize,
)
    ensures
        create_hook_query(a).text == create_hook_query(b).text,
        delete_hook_query(a.id, a.owner).text == delete_hook_query(b.id, b.owner).text,
        public_id_query(a.id, a.public_id).text == public_id_query(b.id, b.public_id).text,
        create_note_query(note_a, Some(ttl_a)).text == create_note_query(note_b, Some(ttl_b)).text,
        create_note_query(note_a, None).text == create_note_query(note_b, None).text,
        note_a.embedding is Some && note_b.embedding is Some ==> search_query(
            note_a.embedding->0,
            k,
            Some(a.id),
        ).text == search_query(note_b.embedding->0, k, Some(b.id)).text,
{
}

} // verus!
