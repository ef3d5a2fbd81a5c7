//! The SQL that the Postgres and SQLite stores run: each statement as a list
//! of text fragments and bound arguments, in the order a query builder
//! receives them.
use vstd::prelude::*;
use crate::collection::Collection;
use crate::credentials::{creds_map, password_id, unique_creds_ids, Credentials, Creds, CredsView};
use crate::ids::{uuid_text, uuid_to_text, FileId};
use crate::tag::opt_view;
use crate::tags::{Filter, FilterView, Op};
use crate::text::concat;

verus! {

/// The database a statement is written for.
#[derive(Clone, Copy, Debug, PartialEq, Eq, Structural)]
pub enum Dialect {
    Postgres,
    Sqlite,
}

/// A value bound to a statement.
#[derive(Debug)]
pub enum SqlArg {
    /// A text value.
    Text(String),
    /// A UUID, bound natively.
    Uuid(u128),
    /// A JSON document holding one string.
    JsonString(String),
    /// A signed 64-bit integer.
    Int(i64),
    /// Raw bytes.
    Bytes(Vec<u8>),
    /// An instant, in Unix nanoseconds.
    Timestamp(i128),
    /// An instant in Unix nanoseconds, or SQL `null`.
    OptTimestamp(Option<i128>),
    /// Tags as a Postgres `hstore`: each key with its value, or `null`.
    Hstore(Vec<(String, Option<String>)>),
    /// Tags as a JSON object: each key with its value as a string, or with an
    /// empty object when it has no value.
    JsonTags(Vec<(String, Option<String>)>),
}

/// What a bound value is, as plain values.
pub enum ArgView {
    Text(Seq<char>),
    Uuid(u128),
    JsonString(Seq<char>),
    Int(i64),
    Bytes(Seq<u8>),
    Timestamp(i128),
    OptTimestamp(Option<i128>),
    Hstore(Seq<(Seq<char>, Option<Seq<char>>)>),
    JsonTags(Seq<(Seq<char>, Option<Seq<char>>)>),
}

/// The plain-value form of a list of (key, value) pairs.
pub open spec fn pairs_view(s: Seq<(String, Option<String>)>) -> Seq<(Seq<char>, Option<Seq<char>>)> {
    s.map_values(|p: (String, Option<String>)| (p.0@, opt_view(p.1)))
}

impl View for SqlArg {
    type V = ArgView;

    open spec fn view(&self) -> ArgView {
        match self {
            SqlArg::Text(s) => ArgView::Text(s@),
            SqlArg::Uuid(u) => ArgView::Uuid(*u),
            SqlArg::JsonString(s) => ArgView::JsonString(s@),
            SqlArg::Int(n) => ArgView::Int(*n),
            SqlArg::Bytes(b) => ArgView::Bytes(b@),
            SqlArg::Timestamp(t) => ArgView::Timestamp(*t),
            SqlArg::OptTimestamp(t) => ArgView::OptTimestamp(*t),
            SqlArg::Hstore(p) => ArgView::Hstore(pairs_view(p@)),
            SqlArg::JsonTags(p) => ArgView::JsonTags(pairs_view(p@)),
        }
    }
}

/// A piece of a statement: literal SQL text, or a bound value.
#[derive(Debug)]
pub enum QueryPart {
    Sql(String),
    Bind(SqlArg),
}

/// What a piece of a statement is, as plain values.
pub enum PartView {
    Sql(Seq<char>),
    Bind(ArgView),
}

impl View for QueryPart {
    type V = PartView;

    open spec fn view(&self) -> PartView {
        match self {
            QueryPart::Sql(s) => PartView::Sql(s@),
            QueryPart::Bind(a) => PartView::Bind(a@),
        }
    }
}

/// The plain-value form of a list of pieces.
pub open spec fn parts_view(s: Seq<QueryPart>) -> Seq<PartView> {
    s.map_values(|p: QueryPart| p@)
}

/// The plain-value form of a list of statements.
pub open spec fn statements_view(s: Seq<Vec<QueryPart>>) -> Seq<Seq<PartView>> {
    s.map_values(|v: Vec<QueryPart>| parts_view(v@))
}

/// How a UUID is bound: natively by Postgres, as its text by SQLite.
pub open spec fn id_arg(d: Dialect, u: u128) -> ArgView {
    match d {
        Dialect::Postgres => ArgView::Uuid(u),
        Dialect::Sqlite => ArgView::Text(uuid_text(u)),
    }
}

/// The SQL that joins the two sides of a filter.
pub open spec fn op_sql(op: Op) -> Seq<char> {
    match op {
        Op::And => " and "@,
        Op::Or => " or "@,
    }
}

/// The expression that reads the tag `key` of a file.
pub open spec fn tag_path(d: Dialect, key: Seq<char>) -> Seq<char> {
    match d {
        Dialect::Postgres => "tags->'"@ + key + "'"@,
        Dialect::Sqlite => "tags->>'"@ + key + "'"@,
    }
}

/// The condition that selects the files a filter accepts.
pub open spec fn filter_query(d: Dialect, f: FilterView) -> Seq<PartView>
    decreases f,
{
    match f {
        FilterView::All => seq![PartView::Sql("1=1"@)],
        FilterView::Tag { key, value } => match value {
            Some(v) => seq![PartView::Sql(tag_path(d, key) + " = "@), PartView::Bind(ArgView::Text(v))],
            None => match d {
                Dialect::Postgres => seq![PartView::Sql("tags ? "@), PartView::Bind(ArgView::Text(key))],
                Dialect::Sqlite => seq![PartView::Sql(tag_path(d, key) + " is not null"@)],
            },
        },
        FilterView::Op { lhs, op, rhs } =>
            seq![PartView::Sql("("@)] + filter_query(d, *lhs)
                + seq![PartView::Sql(") "@), PartView::Sql(op_sql(op)), PartView::Sql("("@)]
                + filter_query(d, *rhs) + seq![PartView::Sql(") "@)],
    }
}

/// The filter's condition, added to a query's `where` clause.
pub open spec fn search_query(d: Dialect, f: FilterView) -> Seq<PartView> {
    seq![PartView::Sql(" and ("@)] + filter_query(d, f) + seq![PartView::Sql(")"@)]
}

pub(crate) fn push_part(out: &mut Vec<QueryPart>, p: QueryPart)
    ensures
        parts_view(final(out)@) == parts_view(old(out)@).push(p@),
{
    let ghost pv = p@;
    out.push(p);
    assert(parts_view(out@) =~= parts_view(old(out)@).push(pv));
}

pub(crate) fn sql(text: &str) -> (p: QueryPart)
    ensures
        p@ == PartView::Sql(text@),
{
    QueryPart::Sql(String::from_str(text))
}

pub(crate) fn text_arg(text: &str) -> (p: QueryPart)
    ensures
        p@ == PartView::Bind(ArgView::Text(text@)),
{
    QueryPart::Bind(SqlArg::Text(String::from_str(text)))
}

pub(crate) fn id_bind(d: Dialect, u: u128) -> (p: QueryPart)
    ensures
        p@ == PartView::Bind(id_arg(d, u)),
{
    match d {
        Dialect::Postgres => QueryPart::Bind(SqlArg::Uuid(u)),
        Dialect::Sqlite => QueryPart::Bind(SqlArg::Text(uuid_to_text(u))),
    }
}

/// Appends the condition that selects the files `filter` accepts.
pub fn traverse_query(out: &mut Vec<QueryPart>, dialect: Dialect, filter: Filter)
    ensures
        parts_view(final(out)@) == parts_view(old(out)@) + filter_query(dialect, filter@),
    decreases filter,
{
    let ghost before = parts_view(out@);
    let ghost fv = filter@;
    match filter {
        Filter::All => {
            push_part(out, sql("1=1"));
            assert(parts_view(out@) =~= before + filter_query(dialect, fv));
        },
        Filter::Tag { key, value } => {
            match value {
                Some(v) => {
                    let open = match dialect {
                        Dialect::Postgres => "tags->'",
                        Dialect::Sqlite => "tags->>'",
                    };
                    let path = concat(concat(open, key.as_str()).as_str(), "'");
                    let text = concat(path.as_str(), " = ");
                    assert(path@ == tag_path(dialect, key@));
                    push_part(out, QueryPart::Sql(text));
                    push_part(out, QueryPart::Bind(SqlArg::Text(v)));
                },
                None => {
                    match dialect {
                        Dialect::Postgres => {
                            push_part(out, sql("tags ? "));
                            push_part(out, text_arg(key.as_str()));
                        },
                        Dialect::Sqlite => {
                            let path = concat(concat("tags->>'", key.as_str()).as_str(), "'");
                            let text = concat(path.as_str(), " is not null");
                            push_part(out, QueryPart::Sql(text));
                        },
                    }
                },
            }
            assert(parts_view(out@) =~= before + filter_query(dialect, fv));
        },
        Filter::Op { lhs, op, rhs } => {
            push_part(out, sql("("));
            traverse_query(out, dialect, *lhs);
            push_part(out, sql(") "));
            match op {
                Op::And => push_part(out, sql(" and ")),
                Op::Or => push_part(out, sql(" or ")),
            }
            push_part(out, sql("("));
            traverse_query(out, dialect, *rhs);
            push_part(out, sql(") "));
            assert(parts_view(out@) =~= before + filter_query(dialect, fv));
        },
    }
}

/// Appends the filter's condition to a query's `where` clause.
pub fn push_search_query(out: &mut Vec<QueryPart>, dialect: Dialect, filter: Filter)
    ensures
        parts_view(final(out)@) == parts_view(old(out)@) + search_query(dialect, filter@),
{
    let ghost before = parts_view(out@);
    let ghost fv = filter@;
    push_part(out, sql(" and ("));
    traverse_query(out, dialect, filter);
    push_part(out, sql(")"));
    assert(parts_view(out@) =~= before + search_query(dialect, fv));
}

/// The statement that inserts a collection, or updates the name and filter
/// of the one with its identifier.
pub open spec fn collection_upsert(d: Dialect, id: u128, owner_id: u128, name: Seq<char>, filter_text: Seq<char>) -> Seq<PartView> {
    seq![
        PartView::Sql("insert into collections (id, owner_id, name, filter) values ("@),
        PartView::Bind(id_arg(d, id)),
        PartView::Sql(", "@),
        PartView::Bind(id_arg(d, owner_id)),
        PartView::Sql(", "@),
        PartView::Bind(ArgView::Text(name)),
        PartView::Sql(", "@),
        PartView::Bind(ArgView::Text(filter_text)),
        PartView::Sql(") on conflict (id) do update set name = excluded.name, filter = excluded.filter"@),
    ]
}

/// The rows `(collection, file)` for each file, separated by commas.
pub open spec fn link_rows(d: Dialect, id: u128, files: Seq<u128>) -> Seq<PartView>
    decreases files.len(),
{
    if files.len() == 0 {
        Seq::empty()
    } else {
        let sep = if files.len() == 1 { Seq::empty() } else { seq![PartView::Sql(", "@)] };
        link_rows(d, id, files.drop_last()) + sep + seq![
            PartView::Sql("("@),
            PartView::Bind(id_arg(d, id)),
            PartView::Sql(", "@),
            PartView::Bind(id_arg(d, files.last())),
            PartView::Sql(")"@),
        ]
    }
}

/// The files, bound one by one and separated by commas.
pub open spec fn bind_list(d: Dialect, files: Seq<u128>) -> Seq<PartView>
    decreases files.len(),
{
    if files.len() == 0 {
        Seq::empty()
    } else {
        let sep = if files.len() == 1 { Seq::empty() } else { seq![PartView::Sql(", "@)] };
        bind_list(d, files.drop_last()) + sep + seq![PartView::Bind(id_arg(d, files.last()))]
    }
}

/// The statement that links the collection to each of its files, keeping the
/// links that exist.
pub open spec fn links_insert(d: Dialect, id: u128, files: Seq<u128>) -> Seq<PartView> {
    seq![PartView::Sql("insert into collections_files (collection_id, file_id) values "@)]
        + link_rows(d, id, files)
        + seq![PartView::Sql(" on conflict (collection_id, file_id) do nothing"@)]
}

/// The statement that removes the links to files the collection no longer has.
pub open spec fn links_prune(d: Dialect, id: u128, files: Seq<u128>) -> Seq<PartView> {
    seq![
        PartView::Sql("delete from collections_files where collection_id = "@),
        PartView::Bind(id_arg(d, id)),
        PartView::Sql(" and file_id not in ("@),
    ] + bind_list(d, files) + seq![PartView::Sql(")"@)]
}

/// What saving a collection runs, in order: the upsert and, when it has
/// files, the insertion of its links and the removal of the others.
pub open spec fn collection_save(d: Dialect, id: u128, owner_id: u128, name: Seq<char>, filter_text: Seq<char>, files: Seq<u128>) -> Seq<Seq<PartView>> {
    if files.len() == 0 {
        seq![collection_upsert(d, id, owner_id, name, filter_text)]
    } else {
        seq![
            collection_upsert(d, id, owner_id, name, filter_text),
            links_insert(d, id, files),
            links_prune(d, id, files),
        ]
    }
}

/// The statements that save `collection`, whose filter reads `filter_text`:
/// its files are taken in some order, each once.
pub fn collection_save_statements(dialect: Dialect, collection: &Collection, filter_text: &str) -> (r: Vec<Vec<QueryPart>>)
    ensures
        exists|files: Seq<u128>|
            #![trigger files.to_set()]
            files.to_set() == collection@.files && files.no_duplicates()
            && statements_view(r@) == collection_save(
                dialect, collection@.id, collection@.owner_id, collection@.name, filter_text@, files),
{
    let id = collection.id_value();
    let owner = collection.owner_value();
    let files = collection.files();
    let ghost fs = files@.map_values(|f: FileId| f@);

    let mut upsert: Vec<QueryPart> = Vec::new();
    push_part(&mut upsert, sql("insert into collections (id, owner_id, name, filter) values ("));
    push_part(&mut upsert, id_bind(dialect, id));
    push_part(&mut upsert, sql(", "));
    push_part(&mut upsert, id_bind(dialect, owner));
    push_part(&mut upsert, sql(", "));
    push_part(&mut upsert, text_arg(collection.name_str()));
    push_part(&mut upsert, sql(", "));
    push_part(&mut upsert, text_arg(filter_text));
    push_part(&mut upsert, sql(") on conflict (id) do update set name = excluded.name, filter = excluded.filter"));
    assert(parts_view(upsert@) =~= collection_upsert(dialect, id as u128, owner as u128, collection@.name, filter_text@));

    let mut r: Vec<Vec<QueryPart>> = Vec::new();
    r.push(upsert);

    if files.len() > 0 {
        let mut insert: Vec<QueryPart> = Vec::new();
        push_part(&mut insert, sql("insert into collections_files (collection_id, file_id) values "));
        let mut prune: Vec<QueryPart> = Vec::new();
        push_part(&mut prune, sql("delete from collections_files where collection_id = "));
        push_part(&mut prune, id_bind(dialect, id));
        push_part(&mut prune, sql(" and file_id not in ("));
        let ghost insert_head = parts_view(insert@);
        let ghost prune_head = parts_view(prune@);
        let mut i: usize = 0;
        while i < files.len()
            invariant
                i <= files@.len(),
                fs == files@.map_values(|f: FileId| f@),
                parts_view(insert@) == insert_head + link_rows(dialect, id, fs.take(i as int)),
                parts_view(prune@) == prune_head + bind_list(dialect, fs.take(i as int)),
            decreases files.len() - i,
        {
            assert(fs.take(i + 1).drop_last() =~= fs.take(i as int));
            if i > 0 {
                push_part(&mut insert, sql(", "));
                push_part(&mut prune, sql(", "));
            }
            let f = files[i].as_u128();
            push_part(&mut insert, sql("("));
            push_part(&mut insert, id_bind(dialect, id));
            push_part(&mut insert, sql(", "));
            push_part(&mut insert, id_bind(dialect, f));
            push_part(&mut insert, sql(")"));
            push_part(&mut prune, id_bind(dialect, f));
            i = i + 1;
            assert(parts_view(insert@) =~= insert_head + link_rows(dialect, id, fs.take(i as int)));
            assert(parts_view(prune@) =~= prune_head + bind_list(dialect, fs.take(i as int)));
        }
        assert(fs.take(files@.len() as int) =~= fs);
        push_part(&mut insert, sql(" on conflict (collection_id, file_id) do nothing"));
        push_part(&mut prune, sql(")"));
        assert(parts_view(insert@) =~= links_insert(dialect, id, fs));
        assert(parts_view(prune@) =~= links_prune(dialect, id, fs));
        r.push(insert);
        r.push(prune);
    }
    proof {
        assert(fs.to_set() =~= collection@.files) by {
            assert forall|u: u128| fs.to_set().contains(u) implies collection@.files.contains(u) by {
                let k = choose|k: int| 0 <= k < fs.len() && fs[k] == u;
                assert(files@[k]@ == u);
            }
            assert forall|u: u128| collection@.files.contains(u) implies fs.to_set().contains(u) by {
                let k = choose|k: int| 0 <= k < files@.len() && files@[k]@ == u;
                assert(fs[k] == u);
            }
        }
        assert(fs.no_duplicates()) by {
            assert forall|a: int, b: int| 0 <= a < fs.len() && 0 <= b < fs.len() && a != b implies fs[a] != fs[b] by {
                assert(files@[a]@ != files@[b]@);
            }
        }
        assert(statements_view(r@) =~= collection_save(dialect, id as u128, owner as u128, collection@.name, filter_text@, fs));
    }
    r
}

/// The row that stores one credential of an account.
pub open spec fn creds_row(d: Dialect, account_id: u128, id: Seq<char>, c: CredsView) -> Seq<PartView> {
    match c {
        CredsView::Password(hash) => seq![
            PartView::Sql("("@),
            PartView::Bind(ArgView::Text(id)),
            PartView::Sql(", "@),
            PartView::Bind(id_arg(d, account_id)),
            PartView::Sql(", "@),
            PartView::Bind(ArgView::Text(password_id())),
            PartView::Sql(", "@),
            PartView::Bind(ArgView::JsonString(hash)),
            PartView::Sql(")"@),
        ],
    }
}

/// The rows of the credentials `es`, separated by commas.
pub open spec fn creds_rows(d: Dialect, account_id: u128, es: Seq<(String, Creds)>) -> Seq<PartView>
    decreases es.len(),
{
    if es.len() == 0 {
        Seq::empty()
    } else {
        let sep = if es.len() == 1 { Seq::empty() } else { seq![PartView::Sql(", "@)] };
        creds_rows(d, account_id, es.drop_last()) + sep + creds_row(d, account_id, es.last().0@, es.last().1@)
    }
}

/// What a stored credential whose identifier exists is updated with.
pub open spec fn creds_conflict(d: Dialect) -> Seq<char> {
    match d {
        Dialect::Postgres => " on conflict (account_id, id) do update set kind = excluded.kind, data = excluded.data"@,
        Dialect::Sqlite => " on conflict (id, account_id) do update set kind = excluded.kind, data = excluded.data"@,
    }
}

/// The statement that stores the credentials `es` of an account.
pub open spec fn credentials_upsert(d: Dialect, account_id: u128, es: Seq<(String, Creds)>) -> Seq<PartView> {
    seq![PartView::Sql("insert into account_credentials (id, account_id, kind, data) values "@)]
        + creds_rows(d, account_id, es) + seq![PartView::Sql(creds_conflict(d))]
}

fn push_creds_row(q: &mut Vec<QueryPart>, dialect: Dialect, account: u128, id: &str, creds: &Creds)
    ensures
        parts_view(final(q)@) == parts_view(old(q)@) + creds_row(dialect, account, id@, creds@),
{
    let ghost before = parts_view(q@);
    push_part(q, sql("("));
    push_part(q, text_arg(id));
    push_part(q, sql(", "));
    push_part(q, id_bind(dialect, account));
    push_part(q, sql(", "));
    let kind = creds.kind();
    push_part(q, QueryPart::Bind(SqlArg::Text(kind)));
    push_part(q, sql(", "));
    match creds {
        Creds::Password(p) => {
            push_part(q, QueryPart::Bind(SqlArg::JsonString(String::from_str(p.password_hash()))));
        },
    }
    push_part(q, sql(")"));
    assert(parts_view(q@) =~= before + creds_row(dialect, account, id@, creds@));
}

/// The statement that saves the credentials of an account: none when it has
/// no credential; otherwise one row per credential, taken in some order.
pub fn credentials_save_statement(dialect: Dialect, credentials: &Credentials) -> (r: Option<Vec<QueryPart>>)
    ensures
        r is None <==> credentials@.creds.dom() == Set::<Seq<char>>::empty(),
        r matches Some(q) ==> exists|es: Seq<(String, Creds)>|
            #![trigger creds_map(es)]
            creds_map(es) == credentials@.creds && unique_creds_ids(es)
            && parts_view(q@) == credentials_upsert(dialect, credentials@.account_id, es),
{
    if credentials.is_empty() {
        return None;
    }
    let account = credentials.account_id().as_u128();
    let es = credentials.values();
    let mut q: Vec<QueryPart> = Vec::new();
    push_part(&mut q, sql("insert into account_credentials (id, account_id, kind, data) values "));
    let ghost head = parts_view(q@);
    let mut i: usize = 0;
    while i < es.len()
        invariant
            i <= es@.len(),
            parts_view(q@) == head + creds_rows(dialect, account, es@.take(i as int)),
        decreases es.len() - i,
    {
        assert(es@.take(i + 1).drop_last() =~= es@.take(i as int));
        if i > 0 {
            push_part(&mut q, sql(", "));
        }
        push_creds_row(&mut q, dialect, account, es[i].0.as_str(), &es[i].1);
        i = i + 1;
        assert(parts_view(q@) =~= head + creds_rows(dialect, account, es@.take(i as int)));
    }
    assert(es@.take(es@.len() as int) =~= es@);
    match dialect {
        Dialect::Postgres => push_part(&mut q, sql(" on conflict (account_id, id) do update set kind = excluded.kind, data = excluded.data")),
        Dialect::Sqlite => push_part(&mut q, sql(" on conflict (id, account_id) do update set kind = excluded.kind, data = excluded.data")),
    }
    assert(parts_view(q@) =~= credentials_upsert(dialect, account as u128, es@));
    Some(q)
}

/// The query for the `(collection, file)` links of the collections `ids`.
pub open spec fn links_query(d: Dialect, ids: Seq<u128>) -> Seq<PartView> {
    seq![PartView::Sql("select collection_id, file_id from collections_files where collection_id in ("@)]
        + bind_list(d, ids) + seq![PartView::Sql(")"@)]
}

/// The query for the `(collection, file)` links of the collections `ids`.
pub fn collection_links_query(dialect: Dialect, ids: &Vec<u128>) -> (q: Vec<QueryPart>)
    ensures
        parts_view(q@) == links_query(dialect, ids@),
{
    let mut q: Vec<QueryPart> = Vec::new();
    push_part(&mut q, sql("select collection_id, file_id from collections_files where collection_id in ("));
    let ghost head = parts_view(q@);
    let mut i: usize = 0;
    while i < ids.len()
        invariant
            i <= ids@.len(),
            parts_view(q@) == head + bind_list(dialect, ids@.take(i as int)),
        decreases ids.len() - i,
    {
        assert(ids@.take(i + 1).drop_last() =~= ids@.take(i as int));
        if i > 0 {
            push_part(&mut q, sql(", "));
        }
        push_part(&mut q, id_bind(dialect, ids[i]));
        i = i + 1;
        assert(parts_view(q@) =~= head + bind_list(dialect, ids@.take(i as int)));
    }
    assert(ids@.take(ids@.len() as int) =~= ids@);
    push_part(&mut q, sql(")"));
    assert(parts_view(q@) =~= links_query(dialect, ids@));
    q
}

} // verus!
