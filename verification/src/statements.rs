//! The statements of the account, session, token and file stores.
use vstd::prelude::*;
use crate::account::{Account, AccountView};
use crate::file::{File, FileView};
use crate::file_store::opt_text;
use crate::ids::{uuid_text, uuid_to_text, AccountId, CollectionId, FileId, SessionId};
use crate::paginate::{cursor_text, is_forward, page_limit, Paginate};
use crate::text::{concat, string_of};
use crate::pat::{spec_blake3, PersonalAccessToken, PersonalAccessTokenView, Token};
use crate::session::{Session, SessionView};
use crate::sql::{
    id_arg, id_bind, pairs_view, parts_view, push_part, search_query, push_search_query, sql,
    text_arg, ArgView, Dialect, PartView, QueryPart, SqlArg,
};
use crate::tags::{pairs_map, Filter, FilterView};

verus! {

/// The query that counts the accounts.
pub open spec fn accounts_count_query() -> Seq<PartView> {
    seq![PartView::Sql("select count(id) as count from accounts"@)]
}

/// The query for the account with identifier `id`.
pub open spec fn account_by_id_query(d: Dialect, id: u128) -> Seq<PartView> {
    seq![PartView::Sql("select a.id, a.username from accounts a where id = "@), PartView::Bind(id_arg(d, id))]
}

/// The query for the account named `username`.
pub open spec fn account_by_username_query(username: Seq<char>) -> Seq<PartView> {
    seq![PartView::Sql("select a.id, a.username from accounts a where username = "@), PartView::Bind(ArgView::Text(username))]
}

/// The statement that stores an account, or renames the one with its identifier.
pub open spec fn account_upsert(d: Dialect, a: AccountView) -> Seq<PartView> {
    seq![
        PartView::Sql("insert into accounts (id, username) values ("@),
        PartView::Bind(id_arg(d, a.id)),
        PartView::Sql(", "@),
        PartView::Bind(ArgView::Text(a.username)),
        PartView::Sql(") on conflict(id) do update set username = excluded.username"@),
    ]
}

pub fn accounts_count_statement() -> (q: Vec<QueryPart>)
    ensures
        parts_view(q@) == accounts_count_query(),
{
    let mut q: Vec<QueryPart> = Vec::new();
    push_part(&mut q, sql("select count(id) as count from accounts"));
    assert(parts_view(q@) =~= accounts_count_query());
    q
}

pub fn account_by_id_statement(dialect: Dialect, id: AccountId) -> (q: Vec<QueryPart>)
    ensures
        parts_view(q@) == account_by_id_query(dialect, id@),
{
    let mut q: Vec<QueryPart> = Vec::new();
    push_part(&mut q, sql("select a.id, a.username from accounts a where id = "));
    push_part(&mut q, id_bind(dialect, id.as_u128()));
    assert(parts_view(q@) =~= account_by_id_query(dialect, id@));
    q
}

pub fn account_by_username_statement(username: &str) -> (q: Vec<QueryPart>)
    ensures
        parts_view(q@) == account_by_username_query(username@),
{
    let mut q: Vec<QueryPart> = Vec::new();
    push_part(&mut q, sql("select a.id, a.username from accounts a where username = "));
    push_part(&mut q, text_arg(username));
    assert(parts_view(q@) =~= account_by_username_query(username@));
    q
}

pub fn account_upsert_statement(dialect: Dialect, account: &Account) -> (q: Vec<QueryPart>)
    ensures
        parts_view(q@) == account_upsert(dialect, account@),
{
    let mut q: Vec<QueryPart> = Vec::new();
    push_part(&mut q, sql("insert into accounts (id, username) values ("));
    push_part(&mut q, id_bind(dialect, account.id.as_u128()));
    push_part(&mut q, sql(", "));
    push_part(&mut q, text_arg(account.username.as_str()));
    push_part(&mut q, sql(") on conflict(id) do update set username = excluded.username"));
    assert(parts_view(q@) =~= account_upsert(dialect, account@));
    q
}

/// The query for the session `id`, unless it expired before `now`.
pub open spec fn session_by_id_query(d: Dialect, id: u128, now: i128) -> Seq<PartView> {
    seq![
        PartView::Sql("select id, account_id, expires_at from sessions where id = "@),
        PartView::Bind(id_arg(d, id)),
        PartView::Sql(" and expires_at >= "@),
        PartView::Bind(ArgView::Timestamp(now)),
    ]
}

/// The statement that stores a new session.
pub open spec fn session_insert(d: Dialect, s: SessionView) -> Seq<PartView> {
    seq![
        PartView::Sql("insert into sessions (id, account_id, expires_at) values ("@),
        PartView::Bind(id_arg(d, s.id)),
        PartView::Sql(", "@),
        PartView::Bind(id_arg(d, s.account_id)),
        PartView::Sql(", "@),
        PartView::Bind(ArgView::Timestamp(s.expires_at)),
        PartView::Sql(")"@),
    ]
}

/// The statement that deletes the session `id`.
pub open spec fn session_delete(d: Dialect, id: u128) -> Seq<PartView> {
    seq![PartView::Sql("delete from sessions where id = "@), PartView::Bind(id_arg(d, id))]
}

/// The statement that deletes the sessions that expired before `now`, and
/// returns them.
pub open spec fn sessions_delete_expired(now: i128) -> Seq<PartView> {
    seq![
        PartView::Sql("delete from sessions where expires_at < "@),
        PartView::Bind(ArgView::Timestamp(now)),
        PartView::Sql(" returning id, account_id, expires_at"@),
    ]
}

pub fn session_by_id_statement(dialect: Dialect, id: SessionId, now: i128) -> (q: Vec<QueryPart>)
    ensures
        parts_view(q@) == session_by_id_query(dialect, id@, now),
{
    let mut q: Vec<QueryPart> = Vec::new();
    push_part(&mut q, sql("select id, account_id, expires_at from sessions where id = "));
    push_part(&mut q, id_bind(dialect, id.as_u128()));
    push_part(&mut q, sql(" and expires_at >= "));
    push_part(&mut q, QueryPart::Bind(SqlArg::Timestamp(now)));
    assert(parts_view(q@) =~= session_by_id_query(dialect, id@, now));
    q
}

pub fn session_insert_statement(dialect: Dialect, session: &Session) -> (q: Vec<QueryPart>)
    ensures
        parts_view(q@) == session_insert(dialect, session@),
{
    let mut q: Vec<QueryPart> = Vec::new();
    push_part(&mut q, sql("insert into sessions (id, account_id, expires_at) values ("));
    push_part(&mut q, id_bind(dialect, session.id.as_u128()));
    push_part(&mut q, sql(", "));
    push_part(&mut q, id_bind(dialect, session.account_id.as_u128()));
    push_part(&mut q, sql(", "));
    push_part(&mut q, QueryPart::Bind(SqlArg::Timestamp(session.expires_at)));
    push_part(&mut q, sql(")"));
    assert(parts_view(q@) =~= session_insert(dialect, session@));
    q
}

pub fn session_delete_statement(dialect: Dialect, id: SessionId) -> (q: Vec<QueryPart>)
    ensures
        parts_view(q@) == session_delete(dialect, id@),
{
    let mut q: Vec<QueryPart> = Vec::new();
    push_part(&mut q, sql("delete from sessions where id = "));
    push_part(&mut q, id_bind(dialect, id.as_u128()));
    assert(parts_view(q@) =~= session_delete(dialect, id@));
    q
}

pub fn sessions_delete_expired_statement(now: i128) -> (q: Vec<QueryPart>)
    ensures
        parts_view(q@) == sessions_delete_expired(now),
{
    let mut q: Vec<QueryPart> = Vec::new();
    push_part(&mut q, sql("delete from sessions where expires_at < "));
    push_part(&mut q, QueryPart::Bind(SqlArg::Timestamp(now)));
    push_part(&mut q, sql(" returning id, account_id, expires_at"));
    assert(parts_view(q@) =~= sessions_delete_expired(now));
    q
}

/// The query for the live record of a token: its stored hash is `hash` and it
/// has no expiration date or one after `now`.
pub open spec fn token_by_hash_query(hash: Seq<u8>, now: i128) -> Seq<PartView> {
    seq![
        PartView::Sql("select id, token_hash, account_id, expires_at from personal_access_tokens where token_hash = "@),
        PartView::Bind(ArgView::Bytes(hash)),
        PartView::Sql(" and (expires_at is null or expires_at > "@),
        PartView::Bind(ArgView::Timestamp(now)),
        PartView::Sql(")"@),
    ]
}

/// The statement that stores a token record.
pub open spec fn token_insert(d: Dialect, p: PersonalAccessTokenView) -> Seq<PartView> {
    seq![
        PartView::Sql("insert into personal_access_tokens (id, token_hash, account_id, expires_at) values ("@),
        PartView::Bind(id_arg(d, p.id)),
        PartView::Sql(", "@),
        PartView::Bind(ArgView::Bytes(p.token_hash)),
        PartView::Sql(", "@),
        PartView::Bind(id_arg(d, p.account_id)),
        PartView::Sql(", "@),
        PartView::Bind(ArgView::OptTimestamp(p.expires_at)),
        PartView::Sql(")"@),
    ]
}

fn bytes_vec(b: &[u8; 32]) -> (v: Vec<u8>)
    ensures
        v@ == b@,
{
    let mut v: Vec<u8> = Vec::new();
    let mut i: usize = 0;
    while i < 32
        invariant
            i <= 32,
            b@.len() == 32,
            v@ == b@.take(i as int),
        decreases 32 - i,
    {
        v.push(b[i]);
        i = i + 1;
        assert(v@ =~= b@.take(i as int));
    }
    assert(b@.take(32) =~= b@);
    v
}

/// The query for the live record of `token`, looked up by its hash.
pub fn token_by_token_statement(token: &Token, now: i128) -> (q: Vec<QueryPart>)
    ensures
        parts_view(q@) == token_by_hash_query(spec_blake3(token@), now),
{
    let hash = token.hashed();
    let mut q: Vec<QueryPart> = Vec::new();
    push_part(&mut q, sql("select id, token_hash, account_id, expires_at from personal_access_tokens where token_hash = "));
    push_part(&mut q, QueryPart::Bind(SqlArg::Bytes(bytes_vec(&hash))));
    push_part(&mut q, sql(" and (expires_at is null or expires_at > "));
    push_part(&mut q, QueryPart::Bind(SqlArg::Timestamp(now)));
    push_part(&mut q, sql(")"));
    assert(parts_view(q@) =~= token_by_hash_query(spec_blake3(token@), now));
    q
}

pub fn token_insert_statement(dialect: Dialect, pat: &PersonalAccessToken) -> (q: Vec<QueryPart>)
    ensures
        parts_view(q@) == token_insert(dialect, pat@),
{
    let mut q: Vec<QueryPart> = Vec::new();
    push_part(&mut q, sql("insert into personal_access_tokens (id, token_hash, account_id, expires_at) values ("));
    push_part(&mut q, id_bind(dialect, pat.id.as_u128()));
    push_part(&mut q, sql(", "));
    push_part(&mut q, QueryPart::Bind(SqlArg::Bytes(bytes_vec(&pat.token_hash))));
    push_part(&mut q, sql(", "));
    push_part(&mut q, id_bind(dialect, pat.account_id.as_u128()));
    push_part(&mut q, sql(", "));
    push_part(&mut q, QueryPart::Bind(SqlArg::OptTimestamp(pat.expires_at)));
    push_part(&mut q, sql(")"));
    assert(parts_view(q@) =~= token_insert(dialect, pat@));
    q
}

/// The columns of a file, as selected.
pub open spec fn file_select(d: Dialect) -> Seq<char> {
    match d {
        Dialect::Postgres => "select id, owner_id, name, content_type, size, tags from files where owner_id = "@,
        Dialect::Sqlite => "select distinct id, owner_id, name, content_type, size, tags from files where owner_id = "@,
    }
}

/// The query for the file `id` of `owner`.
pub open spec fn file_by_id_query(d: Dialect, owner: u128, id: u128) -> Seq<PartView> {
    seq![
        PartView::Sql(file_select(d)),
        PartView::Bind(id_arg(d, owner)),
        PartView::Sql(" and id = "@),
        PartView::Bind(id_arg(d, id)),
    ]
}

/// The query for the file named `name` of `owner`.
pub open spec fn file_by_name_query(d: Dialect, owner: u128, name: Seq<char>) -> Seq<PartView> {
    seq![
        PartView::Sql(file_select(d)),
        PartView::Bind(id_arg(d, owner)),
        PartView::Sql(" and name = "@),
        PartView::Bind(ArgView::Text(name)),
    ]
}

/// The identifier as text, which cursors are compared with.
pub open spec fn id_text_column(d: Dialect) -> Seq<char> {
    match d {
        Dialect::Postgres => "id::text"@,
        Dialect::Sqlite => "id"@,
    }
}

/// The page limit as a bound integer (the largest `i64` for larger limits).
pub open spec fn limit_arg(p: Paginate) -> i64 {
    if page_limit(p) <= i64::MAX {
        page_limit(p) as i64
    } else {
        i64::MAX
    }
}

/// The clauses that select one page: going forward, the rows whose identifier
/// text lies after the cursor, in increasing order of the sort key `order`;
/// going backward, the rows before it, in decreasing order; at most the page
/// limit of them.
pub open spec fn page_clause(d: Dialect, p: Paginate, order: Seq<char>) -> Seq<PartView> {
    if is_forward(p) {
        seq![
            PartView::Sql(" and "@ + id_text_column(d) + " > "@),
            PartView::Bind(ArgView::Text(cursor_text(p))),
            PartView::Sql(" order by "@ + order + " asc limit "@),
            PartView::Bind(ArgView::Int(limit_arg(p))),
        ]
    } else {
        seq![
            PartView::Sql(" and "@ + id_text_column(d) + " < "@),
            PartView::Bind(ArgView::Text(cursor_text(p))),
            PartView::Sql(" order by "@ + order + " desc limit "@),
            PartView::Bind(ArgView::Int(limit_arg(p))),
        ]
    }
}

/// Appends the clauses that select the page `paginate` asks for, sorted by `order`.
pub fn push_page_clause(out: &mut Vec<QueryPart>, dialect: Dialect, paginate: &Paginate, order: &str)
    ensures
        parts_view(final(out)@) == parts_view(old(out)@) + page_clause(dialect, *paginate, order@),
{
    let ghost before = parts_view(out@);
    let (cursor, limit, forward) = paginate.cursor();
    let column = match dialect {
        Dialect::Postgres => "id::text",
        Dialect::Sqlite => "id",
    };
    let head = concat(" and ", column);
    let by = concat(" order by ", order);
    let wide: u64 = limit as u64;
    let bound: i64 = if wide <= 9_223_372_036_854_775_807u64 { wide as i64 } else { 9_223_372_036_854_775_807i64 };
    if forward {
        push_part(out, QueryPart::Sql(concat(head.as_str(), " > ")));
        push_part(out, QueryPart::Bind(SqlArg::Text(string_of(&cursor, 0, cursor.len()))));
        push_part(out, QueryPart::Sql(concat(by.as_str(), " asc limit ")));
    } else {
        push_part(out, QueryPart::Sql(concat(head.as_str(), " < ")));
        push_part(out, QueryPart::Bind(SqlArg::Text(string_of(&cursor, 0, cursor.len()))));
        push_part(out, QueryPart::Sql(concat(by.as_str(), " desc limit ")));
    }
    push_part(out, QueryPart::Bind(SqlArg::Int(bound)));
    assert(cursor@.subrange(0, cursor@.len() as int) =~= cursor@);
    assert(parts_view(out@) =~= before + page_clause(dialect, *paginate, order@));
}

/// The rows of a page in the order the page presents them: as fetched going
/// forward; reversed going backward, so that both directions list the rows in
/// increasing order of the sort key.
pub fn in_page_order<T>(rows: Vec<T>, paginate: &Paginate) -> (r: Vec<T>)
    ensures
        r@ == (if is_forward(*paginate) { rows@ } else { rows@.reverse() }),
{
    match paginate {
        Paginate::Forward { .. } => rows,
        Paginate::Backward { .. } => {
            let mut rows = rows;
            let ghost fetched = rows@;
            let mut out: Vec<T> = Vec::new();
            while rows.len() > 0
                invariant
                    fetched.len() == rows@.len() + out@.len(),
                    rows@ == fetched.take(rows@.len() as int),
                    out@ == fetched.skip(rows@.len() as int).reverse(),
                decreases rows.len(),
            {
                let ghost n = rows@.len() as int;
                let x = rows.pop().unwrap();
                proof {
                    assert(fetched.skip(n - 1) =~= seq![x] + fetched.skip(n));
                    assert(fetched.skip(n - 1).reverse() =~= fetched.skip(n).reverse().push(x));
                    assert(rows@ =~= fetched.take(n - 1));
                }
                out.push(x);
            }
            assert(fetched.skip(0) =~= fetched);
            out
        },
    }
}

/// The cursors of a page whose rows, in page order, have the identifiers
/// `ids`: going forward, the next page starts after the last row; going
/// backward, the previous page ends before the first row.
pub open spec fn row_cursors(ids: Seq<u128>, forward: bool) -> (Option<Seq<char>>, Option<Seq<char>>) {
    if ids.len() == 0 {
        (None, None)
    } else if forward {
        (Some(uuid_text(ids.last())), None)
    } else {
        (None, Some(uuid_text(ids[0])))
    }
}

/// The next and previous cursors of a page of rows with identifiers `ids`, in page order.
pub fn page_cursors_of(ids: &Vec<u128>, paginate: &Paginate) -> (r: (Option<String>, Option<String>))
    ensures
        (opt_text(r.0), opt_text(r.1)) == row_cursors(ids@, is_forward(*paginate)),
{
    if ids.len() == 0 {
        return (None, None);
    }
    match paginate {
        Paginate::Forward { .. } => (Some(uuid_to_text(ids[ids.len() - 1])), None),
        Paginate::Backward { .. } => (None, Some(uuid_to_text(ids[0]))),
    }
}

/// How files are sorted in a page: by their name, ignoring case.
pub open spec fn file_order() -> Seq<char> {
    "lower(name)"@
}

/// How collections are sorted in a page: by identifier.
pub open spec fn collection_order() -> Seq<char> {
    "id"@
}

/// The query for a page of the files of `owner` that `filter` accepts.
pub open spec fn file_search_query(d: Dialect, owner: u128, filter: FilterView, p: Paginate) -> Seq<PartView> {
    seq![PartView::Sql(file_select(d)), PartView::Bind(id_arg(d, owner))] + search_query(d, filter) + page_clause(d, p, file_order())
}

/// How the tags of a file are bound: as an `hstore` by Postgres, as a JSON
/// object by SQLite.
pub open spec fn tags_arg(d: Dialect, pairs: Seq<(Seq<char>, Option<Seq<char>>)>) -> ArgView {
    match d {
        Dialect::Postgres => ArgView::Hstore(pairs),
        Dialect::Sqlite => ArgView::JsonTags(pairs),
    }
}

/// The statement that stores a file's metadata, or updates the one with its
/// identifier.
pub open spec fn file_upsert(d: Dialect, f: FileView, pairs: Seq<(Seq<char>, Option<Seq<char>>)>) -> Seq<PartView> {
    seq![
        PartView::Sql("insert into files (id, owner_id, name, content_type, size, tags) values ("@),
        PartView::Bind(id_arg(d, f.id)),
        PartView::Sql(", "@),
        PartView::Bind(id_arg(d, f.owner_id)),
        PartView::Sql(", "@),
        PartView::Bind(ArgView::Text(f.name)),
        PartView::Sql(", "@),
        PartView::Bind(ArgView::Text(f.content_type)),
        PartView::Sql(", "@),
        PartView::Bind(ArgView::Int(f.size as i64)),
        PartView::Sql(", "@),
        PartView::Bind(tags_arg(d, pairs)),
        PartView::Sql(") on conflict (id) do update set name = excluded.name, content_type = excluded.content_type, size = excluded.size, tags = excluded.tags"@),
    ]
}

pub fn file_by_id_statement(dialect: Dialect, owner_id: AccountId, id: FileId) -> (q: Vec<QueryPart>)
    ensures
        parts_view(q@) == file_by_id_query(dialect, owner_id@, id@),
{
    let mut q: Vec<QueryPart> = Vec::new();
    push_part(&mut q, file_select_part(dialect));
    push_part(&mut q, id_bind(dialect, owner_id.as_u128()));
    push_part(&mut q, sql(" and id = "));
    push_part(&mut q, id_bind(dialect, id.as_u128()));
    assert(parts_view(q@) =~= file_by_id_query(dialect, owner_id@, id@));
    q
}

pub fn file_by_name_statement(dialect: Dialect, owner_id: AccountId, name: &str) -> (q: Vec<QueryPart>)
    ensures
        parts_view(q@) == file_by_name_query(dialect, owner_id@, name@),
{
    let mut q: Vec<QueryPart> = Vec::new();
    push_part(&mut q, file_select_part(dialect));
    push_part(&mut q, id_bind(dialect, owner_id.as_u128()));
    push_part(&mut q, sql(" and name = "));
    push_part(&mut q, text_arg(name));
    assert(parts_view(q@) =~= file_by_name_query(dialect, owner_id@, name@));
    q
}

pub fn file_search_statement(dialect: Dialect, owner_id: AccountId, filter: Filter, paginate: &Paginate) -> (q: Vec<QueryPart>)
    ensures
        parts_view(q@) == file_search_query(dialect, owner_id@, filter@, *paginate),
{
    let ghost fv = filter@;
    let mut q: Vec<QueryPart> = Vec::new();
    push_part(&mut q, file_select_part(dialect));
    push_part(&mut q, id_bind(dialect, owner_id.as_u128()));
    push_search_query(&mut q, dialect, filter);
    let order = "lower(name)";
    push_page_clause(&mut q, dialect, paginate, order);
    assert(parts_view(q@) =~= file_search_query(dialect, owner_id@, fv, *paginate));
    q
}

fn file_select_part(d: Dialect) -> (p: QueryPart)
    ensures
        p@ == PartView::Sql(file_select(d)),
{
    match d {
        Dialect::Postgres => sql("select id, owner_id, name, content_type, size, tags from files where owner_id = "),
        Dialect::Sqlite => sql("select distinct id, owner_id, name, content_type, size, tags from files where owner_id = "),
    }
}

/// The statement that saves `file`; its tags are taken in some order, one
/// (key, value) pair per key.
pub fn file_upsert_statement(dialect: Dialect, file: &File) -> (q: Vec<QueryPart>)
    ensures
        exists|pairs: Seq<(String, Option<String>)>|
            #![trigger pairs_map(pairs)]
            pairs_map(pairs) == file@.tags
            && (forall|a: int, b: int| 0 <= a < pairs.len() && 0 <= b < pairs.len() && a != b ==> pairs[a].0@ != pairs[b].0@)
            && parts_view(q@) == file_upsert(dialect, file@, pairs_view(pairs)),
{
    let pairs = file.tags.pairs();
    let ghost pv = pairs@;
    let tags = match dialect {
        Dialect::Postgres => SqlArg::Hstore(pairs),
        Dialect::Sqlite => SqlArg::JsonTags(pairs),
    };
    let mut q: Vec<QueryPart> = Vec::new();
    push_part(&mut q, sql("insert into files (id, owner_id, name, content_type, size, tags) values ("));
    push_part(&mut q, id_bind(dialect, file.id.as_u128()));
    push_part(&mut q, sql(", "));
    push_part(&mut q, id_bind(dialect, file.owner_id.as_u128()));
    push_part(&mut q, sql(", "));
    push_part(&mut q, text_arg(file.name.as_str()));
    push_part(&mut q, sql(", "));
    push_part(&mut q, text_arg(file.content_type.as_str()));
    push_part(&mut q, sql(", "));
    push_part(&mut q, QueryPart::Bind(SqlArg::Int(file.size as i64)));
    push_part(&mut q, sql(", "));
    push_part(&mut q, QueryPart::Bind(tags));
    push_part(&mut q, sql(") on conflict (id) do update set name = excluded.name, content_type = excluded.content_type, size = excluded.size, tags = excluded.tags"));
    assert(parts_view(q@) =~= file_upsert(dialect, file@, pairs_view(pv)));
    q
}

/// The query for the credentials of an account.
pub open spec fn credentials_for_account_query(d: Dialect, account_id: u128) -> Seq<PartView> {
    seq![
        PartView::Sql("select id, kind, data from account_credentials where account_id = "@),
        PartView::Bind(id_arg(d, account_id)),
    ]
}

pub fn credentials_for_account_statement(dialect: Dialect, account_id: AccountId) -> (q: Vec<QueryPart>)
    ensures
        parts_view(q@) == credentials_for_account_query(dialect, account_id@),
{
    let mut q: Vec<QueryPart> = Vec::new();
    push_part(&mut q, sql("select id, kind, data from account_credentials where account_id = "));
    push_part(&mut q, id_bind(dialect, account_id.as_u128()));
    assert(parts_view(q@) =~= credentials_for_account_query(dialect, account_id@));
    q
}

/// The query for the collection `id`.
pub open spec fn collection_by_id_query(d: Dialect, id: u128) -> Seq<PartView> {
    seq![
        PartView::Sql("select id, owner_id, name, filter from collections where id = "@),
        PartView::Bind(id_arg(d, id)),
    ]
}

/// The query for a page of the collections of `owner`, by identifier.
pub open spec fn collections_of_owner_query(d: Dialect, owner: u128, p: Paginate) -> Seq<PartView> {
    seq![
        PartView::Sql("select id, owner_id, name, filter from collections where owner_id = "@),
        PartView::Bind(id_arg(d, owner)),
    ] + page_clause(d, p, collection_order())
}

pub fn collection_by_id_statement(dialect: Dialect, id: CollectionId) -> (q: Vec<QueryPart>)
    ensures
        parts_view(q@) == collection_by_id_query(dialect, id@),
{
    let mut q: Vec<QueryPart> = Vec::new();
    push_part(&mut q, sql("select id, owner_id, name, filter from collections where id = "));
    push_part(&mut q, id_bind(dialect, id.as_u128()));
    assert(parts_view(q@) =~= collection_by_id_query(dialect, id@));
    q
}

pub fn collections_of_owner_statement(dialect: Dialect, owner_id: AccountId, paginate: &Paginate) -> (q: Vec<QueryPart>)
    ensures
        parts_view(q@) == collections_of_owner_query(dialect, owner_id@, *paginate),
{
    let mut q: Vec<QueryPart> = Vec::new();
    push_part(&mut q, sql("select id, owner_id, name, filter from collections where owner_id = "));
    push_part(&mut q, id_bind(dialect, owner_id.as_u128()));
    let order = "id";
    push_page_clause(&mut q, dialect, paginate, order);
    assert(parts_view(q@) =~= collections_of_owner_query(dialect, owner_id@, *paginate));
    q
}

} // verus!
