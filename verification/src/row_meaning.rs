//! What the stores' inserts and lookups mean: a reading of an insert as the
//! value it gives each column and of a lookup as the column it compares, with
//! the laws that saved rows are found again by the lookups that read them.
use vstd::prelude::*;
use crate::credentials::{password_id, CredsView};
use crate::pat::PersonalAccessTokenView;
use crate::session::SessionView;
use crate::sql::{collection_upsert, creds_row, credentials_upsert, id_arg, ArgView, Dialect, PartView};
use crate::statements::{
    collection_by_id_query, credentials_for_account_query, session_by_id_query, session_insert,
    token_by_hash_query, token_insert,
};

verus! {

/// The column names, separated by commas.
pub open spec fn column_list(cols: Seq<Seq<char>>) -> Seq<char>
    decreases cols.len(),
{
    if cols.len() == 0 {
        Seq::empty()
    } else if cols.len() == 1 {
        cols[0]
    } else {
        column_list(cols.drop_last()) + ", "@ + cols.last()
    }
}

/// The bound values, separated by commas.
pub open spec fn value_list(vals: Seq<ArgView>) -> Seq<PartView>
    decreases vals.len(),
{
    if vals.len() == 0 {
        Seq::empty()
    } else if vals.len() == 1 {
        seq![PartView::Bind(vals[0])]
    } else {
        value_list(vals.drop_last()) + seq![PartView::Sql(", "@), PartView::Bind(vals.last())]
    }
}

/// `q` inserts into `table` one row that gives each column `cols[i]` the
/// value `vals[i]` (whatever follows the row, such as an `on conflict` clause).
pub open spec fn inserts_row(q: Seq<PartView>, table: Seq<char>, cols: Seq<Seq<char>>, vals: Seq<ArgView>) -> bool {
    &&& cols.len() == vals.len()
    &&& exists|tail: Seq<char>|
        q == seq![PartView::Sql("insert into "@ + table + " ("@ + column_list(cols) + ") values ("@)] + value_list(vals)
            + seq![PartView::Sql(")"@ + tail)]
}

/// `q` reads the rows of `table` whose column `col` equals the bound value
/// `v` (and whatever further conditions follow).
pub open spec fn selects_where(q: Seq<PartView>, table: Seq<char>, col: Seq<char>, v: ArgView) -> bool {
    &&& q.len() >= 2
    &&& q[1] == PartView::Bind(v)
    &&& exists|shown: Seq<char>| q[0] == PartView::Sql("select "@ + shown + " from "@ + table + " where "@ + col + " = "@)
}

/// A saved session is found by its identifier: the insert puts the
/// session's identifier in the `id` column, its account in `account_id` and
/// its expiry in `expires_at`, and the lookup by identifier reads the
/// sessions whose `id` column equals that identifier and that have not
/// expired at the time of the lookup.
pub proof fn law_saved_session_is_found_by_its_id(d: Dialect, s: SessionView, now: i128)
    ensures
        inserts_row(
            session_insert(d, s),
            "sessions"@,
            seq!["id"@, "account_id"@, "expires_at"@],
            seq![id_arg(d, s.id), id_arg(d, s.account_id), ArgView::Timestamp(s.expires_at)],
        ),
        selects_where(session_by_id_query(d, s.id, now), "sessions"@, "id"@, id_arg(d, s.id)),
        session_by_id_query(d, s.id, now).subrange(2, 4)
            == seq![PartView::Sql(" and expires_at >= "@), PartView::Bind(ArgView::Timestamp(now))],
{
    reveal_strlit("insert into ");
    reveal_strlit("sessions");
    reveal_strlit(" (");
    reveal_strlit(") values (");
    reveal_strlit("id");
    reveal_strlit("account_id");
    reveal_strlit("expires_at");
    reveal_strlit(", ");
    reveal_strlit(")");
    reveal_strlit("insert into sessions (id, account_id, expires_at) values (");
    reveal_strlit("select ");
    reveal_strlit(" from ");
    reveal_strlit(" where ");
    reveal_strlit(" = ");
    reveal_strlit("id, account_id, expires_at");
    reveal_strlit("select id, account_id, expires_at from sessions where id = ");
    reveal_with_fuel(column_list, 3);
    reveal_with_fuel(value_list, 3);
    let cols = seq!["id"@, "account_id"@, "expires_at"@];
    let vals = seq![id_arg(d, s.id), id_arg(d, s.account_id), ArgView::Timestamp(s.expires_at)];
    assert(cols.drop_last().drop_last() =~= seq!["id"@]);
    assert(cols.drop_last() =~= seq!["id"@, "account_id"@]);
    assert(column_list(cols) =~= "id, account_id, expires_at"@);
    assert("insert into "@ + "sessions"@ + " ("@ + column_list(cols) + ") values ("@
        =~= "insert into sessions (id, account_id, expires_at) values ("@);
    assert(vals.drop_last().drop_last() =~= seq![id_arg(d, s.id)]);
    assert(vals.drop_last() =~= seq![id_arg(d, s.id), id_arg(d, s.account_id)]);
    assert(")"@ + Seq::<char>::empty() =~= ")"@);
    assert(session_insert(d, s) =~= seq![PartView::Sql("insert into "@ + "sessions"@ + " ("@ + column_list(cols) + ") values ("@)]
        + value_list(vals) + seq![PartView::Sql(")"@ + Seq::<char>::empty())]);
    assert("select "@ + "id, account_id, expires_at"@ + " from "@ + "sessions"@ + " where "@ + "id"@ + " = "@
        =~= "select id, account_id, expires_at from sessions where id = "@);
    assert(session_by_id_query(d, s.id, now).subrange(2, 4)
        =~= seq![PartView::Sql(" and expires_at >= "@), PartView::Bind(ArgView::Timestamp(now))]);
}

/// The credentials of an account are read by its identifier: each row the
/// upsert stores gives the `account_id` column the account's identifier
/// (beside the credential's own `id`, its kind and its data), and the query
/// for an account's credentials reads the rows whose `account_id` column
/// equals that identifier; so credentials saved for an account are the ones
/// loaded for it.
pub proof fn law_saved_credentials_are_read_by_account(d: Dialect, account_id: u128, id: Seq<char>, hash: Seq<char>)
    ensures
        ({
            let cols = seq!["id"@, "account_id"@, "kind"@, "data"@];
            let vals = seq![ArgView::Text(id), id_arg(d, account_id), ArgView::Text(password_id()), ArgView::JsonString(hash)];
            &&& credentials_upsert(d, account_id, seq![])[0]
                == PartView::Sql("insert into "@ + "account_credentials"@ + " ("@ + column_list(cols) + ") values "@)
            &&& creds_row(d, account_id, id, CredsView::Password(hash))
                == seq![PartView::Sql("("@)] + value_list(vals) + seq![PartView::Sql(")"@)]
            &&& cols[1] == "account_id"@ && vals[1] == id_arg(d, account_id)
        }),
        selects_where(credentials_for_account_query(d, account_id), "account_credentials"@, "account_id"@, id_arg(d, account_id)),
{
    reveal_strlit("insert into ");
    reveal_strlit("account_credentials");
    reveal_strlit(" (");
    reveal_strlit(") values ");
    reveal_strlit("id");
    reveal_strlit("account_id");
    reveal_strlit("kind");
    reveal_strlit("data");
    reveal_strlit(", ");
    reveal_strlit("insert into account_credentials (id, account_id, kind, data) values ");
    reveal_strlit("id, account_id, kind, data");
    reveal_strlit("select ");
    reveal_strlit(" from ");
    reveal_strlit(" where ");
    reveal_strlit(" = ");
    reveal_strlit("id, kind, data");
    reveal_strlit("select id, kind, data from account_credentials where account_id = ");
    reveal_with_fuel(column_list, 4);
    reveal_with_fuel(value_list, 4);
    let cols = seq!["id"@, "account_id"@, "kind"@, "data"@];
    let vals = seq![ArgView::Text(id), id_arg(d, account_id), ArgView::Text(password_id()), ArgView::JsonString(hash)];
    assert(cols.drop_last().drop_last().drop_last() =~= seq!["id"@]);
    assert(cols.drop_last().drop_last() =~= seq!["id"@, "account_id"@]);
    assert(cols.drop_last() =~= seq!["id"@, "account_id"@, "kind"@]);
    assert(column_list(cols) =~= "id, account_id, kind, data"@);
    assert("insert into "@ + "account_credentials"@ + " ("@ + column_list(cols) + ") values "@
        =~= "insert into account_credentials (id, account_id, kind, data) values "@);
    assert(vals.drop_last().drop_last().drop_last() =~= seq![ArgView::Text(id)]);
    assert(vals.drop_last().drop_last() =~= seq![ArgView::Text(id), id_arg(d, account_id)]);
    assert(vals.drop_last() =~= seq![ArgView::Text(id), id_arg(d, account_id), ArgView::Text(password_id())]);
    assert(creds_row(d, account_id, id, CredsView::Password(hash))
        =~= seq![PartView::Sql("("@)] + value_list(vals) + seq![PartView::Sql(")"@)]);
    assert("select "@ + "id, kind, data"@ + " from "@ + "account_credentials"@ + " where "@ + "account_id"@ + " = "@
        =~= "select id, kind, data from account_credentials where account_id = "@);
}

/// A stored token keeps its expiration date: the insert gives the
/// `expires_at` column the record's own expiration (or `null` when it has
/// none), beside its identifier, hash and account; and the lookup by hash
/// reads the records with that hash whose `expires_at` is `null` or after
/// the time of the lookup, so an expired token is not found.
pub proof fn law_stored_token_keeps_its_expiry(d: Dialect, p: PersonalAccessTokenView, hash: Seq<u8>, now: i128)
    ensures
        inserts_row(
            token_insert(d, p),
            "personal_access_tokens"@,
            seq!["id"@, "token_hash"@, "account_id"@, "expires_at"@],
            seq![id_arg(d, p.id), ArgView::Bytes(p.token_hash), id_arg(d, p.account_id), ArgView::OptTimestamp(p.expires_at)],
        ),
        selects_where(token_by_hash_query(hash, now), "personal_access_tokens"@, "token_hash"@, ArgView::Bytes(hash)),
        token_by_hash_query(hash, now).subrange(2, 4)
            == seq![PartView::Sql(" and (expires_at is null or expires_at > "@), PartView::Bind(ArgView::Timestamp(now))],
{
    reveal_strlit("insert into ");
    reveal_strlit("personal_access_tokens");
    reveal_strlit(" (");
    reveal_strlit(") values (");
    reveal_strlit("id");
    reveal_strlit("token_hash");
    reveal_strlit("account_id");
    reveal_strlit("expires_at");
    reveal_strlit(", ");
    reveal_strlit(")");
    reveal_strlit("insert into personal_access_tokens (id, token_hash, account_id, expires_at) values (");
    reveal_strlit("id, token_hash, account_id, expires_at");
    reveal_strlit("select ");
    reveal_strlit(" from ");
    reveal_strlit(" where ");
    reveal_strlit(" = ");
    reveal_strlit("select id, token_hash, account_id, expires_at from personal_access_tokens where token_hash = ");
    reveal_with_fuel(column_list, 4);
    reveal_with_fuel(value_list, 4);
    let cols = seq!["id"@, "token_hash"@, "account_id"@, "expires_at"@];
    let vals = seq![id_arg(d, p.id), ArgView::Bytes(p.token_hash), id_arg(d, p.account_id), ArgView::OptTimestamp(p.expires_at)];
    assert(cols.drop_last().drop_last().drop_last() =~= seq!["id"@]);
    assert(cols.drop_last().drop_last() =~= seq!["id"@, "token_hash"@]);
    assert(cols.drop_last() =~= seq!["id"@, "token_hash"@, "account_id"@]);
    assert(column_list(cols) =~= "id, token_hash, account_id, expires_at"@);
    assert("insert into "@ + "personal_access_tokens"@ + " ("@ + column_list(cols) + ") values ("@
        =~= "insert into personal_access_tokens (id, token_hash, account_id, expires_at) values ("@);
    assert(vals.drop_last().drop_last().drop_last() =~= seq![id_arg(d, p.id)]);
    assert(vals.drop_last().drop_last() =~= seq![id_arg(d, p.id), ArgView::Bytes(p.token_hash)]);
    assert(vals.drop_last() =~= seq![id_arg(d, p.id), ArgView::Bytes(p.token_hash), id_arg(d, p.account_id)]);
    assert(")"@ + Seq::<char>::empty() =~= ")"@);
    assert(token_insert(d, p) =~= seq![PartView::Sql("insert into "@ + "personal_access_tokens"@ + " ("@ + column_list(cols) + ") values ("@)]
        + value_list(vals) + seq![PartView::Sql(")"@ + Seq::<char>::empty())]);
    assert("select "@ + "id, token_hash, account_id, expires_at"@ + " from "@ + "personal_access_tokens"@ + " where "@ + "token_hash"@ + " = "@
        =~= "select id, token_hash, account_id, expires_at from personal_access_tokens where token_hash = "@);
    assert(token_by_hash_query(hash, now).subrange(2, 4)
        =~= seq![PartView::Sql(" and (expires_at is null or expires_at > "@), PartView::Bind(ArgView::Timestamp(now))]);
}

/// A saved collection is found by its identifier: the upsert gives the `id`
/// column the collection's identifier (beside its owner, name and filter),
/// and the lookup by identifier reads the collections whose `id` column
/// equals that identifier.
pub proof fn law_saved_collection_is_read_by_its_id(d: Dialect, id: u128, owner_id: u128, name: Seq<char>, filter_text: Seq<char>)
    ensures
        inserts_row(
            collection_upsert(d, id, owner_id, name, filter_text),
            "collections"@,
            seq!["id"@, "owner_id"@, "name"@, "filter"@],
            seq![id_arg(d, id), id_arg(d, owner_id), ArgView::Text(name), ArgView::Text(filter_text)],
        ),
        selects_where(collection_by_id_query(d, id), "collections"@, "id"@, id_arg(d, id)),
{
    reveal_strlit("insert into ");
    reveal_strlit("collections");
    reveal_strlit(" (");
    reveal_strlit(") values (");
    reveal_strlit("id");
    reveal_strlit("owner_id");
    reveal_strlit("name");
    reveal_strlit("filter");
    reveal_strlit(", ");
    reveal_strlit(")");
    reveal_strlit("insert into collections (id, owner_id, name, filter) values (");
    reveal_strlit("id, owner_id, name, filter");
    reveal_strlit(" on conflict (id) do update set name = excluded.name, filter = excluded.filter");
    reveal_strlit(") on conflict (id) do update set name = excluded.name, filter = excluded.filter");
    reveal_strlit("select ");
    reveal_strlit(" from ");
    reveal_strlit(" where ");
    reveal_strlit(" = ");
    reveal_strlit("select id, owner_id, name, filter from collections where id = ");
    reveal_with_fuel(column_list, 4);
    reveal_with_fuel(value_list, 4);
    let cols = seq!["id"@, "owner_id"@, "name"@, "filter"@];
    let vals = seq![id_arg(d, id), id_arg(d, owner_id), ArgView::Text(name), ArgView::Text(filter_text)];
    let tail = " on conflict (id) do update set name = excluded.name, filter = excluded.filter"@;
    assert(cols.drop_last().drop_last().drop_last() =~= seq!["id"@]);
    assert(cols.drop_last().drop_last() =~= seq!["id"@, "owner_id"@]);
    assert(cols.drop_last() =~= seq!["id"@, "owner_id"@, "name"@]);
    assert(column_list(cols) =~= "id, owner_id, name, filter"@);
    assert("insert into "@ + "collections"@ + " ("@ + column_list(cols) + ") values ("@
        =~= "insert into collections (id, owner_id, name, filter) values ("@);
    assert(vals.drop_last().drop_last().drop_last() =~= seq![id_arg(d, id)]);
    assert(vals.drop_last().drop_last() =~= seq![id_arg(d, id), id_arg(d, owner_id)]);
    assert(vals.drop_last() =~= seq![id_arg(d, id), id_arg(d, owner_id), ArgView::Text(name)]);
    assert(")"@ + tail =~= ") on conflict (id) do update set name = excluded.name, filter = excluded.filter"@);
    assert(collection_upsert(d, id, owner_id, name, filter_text) =~= seq![PartView::Sql("insert into "@ + "collections"@ + " ("@ + column_list(cols) + ") values ("@)]
        + value_list(vals) + seq![PartView::Sql(")"@ + tail)]);
    assert("select "@ + "id, owner_id, name, filter"@ + " from "@ + "collections"@ + " where "@ + "id"@ + " = "@
        =~= "select id, owner_id, name, filter from collections where id = "@);
}

} // verus!
