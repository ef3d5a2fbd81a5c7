use oxidrive::authorization::{action_type, AnyRef, Authorized};
use oxidrive::collection::Collection;
use oxidrive::credentials::Credentials;
use oxidrive::ids::{AccountId, FileId};
use oxidrive::services::password_credentials;
use oxidrive::sql::{
    collection_save_statements, credentials_save_statement, push_search_query, traverse_query,
    Dialect, QueryPart, SqlArg,
};
use oxidrive::tags::{Filter, Op};
use oxidrive::account::Account;
use oxidrive::statements::{account_by_username_statement, account_upsert_statement, accounts_count_statement};
use oxidrive::ids::SessionId;
use oxidrive::pat::Token;
use oxidrive::statements::{session_by_id_statement, sessions_delete_expired_statement, token_by_token_statement};
use oxidrive::file::File;
use oxidrive::statements::{file_search_statement, file_upsert_statement, in_page_order, page_cursors_of};
use oxidrive::paginate::Paginate;
use oxidrive::sql::collection_links_query;

fn render(parts: &[QueryPart]) -> String {
    let mut out = String::new();
    for p in parts {
        match p {
            QueryPart::Sql(s) => out.push_str(s),
            QueryPart::Bind(SqlArg::Text(s)) => out.push_str(&format!("<{s}>")),
            QueryPart::Bind(SqlArg::Uuid(u)) => out.push_str(&format!("<uuid {u:x}>")),
            QueryPart::Bind(SqlArg::JsonString(s)) => out.push_str(&format!("<json {s}>")),
            QueryPart::Bind(SqlArg::Int(n)) => out.push_str(&format!("<int {n}>")),
            QueryPart::Bind(SqlArg::Timestamp(t)) => out.push_str(&format!("<at {t}>")),
            QueryPart::Bind(other) => out.push_str(&format!("<{other:?}>")),
        }
    }
    out
}

fn tag(key: &str, value: Option<&str>) -> Filter {
    Filter::Tag { key: key.to_string(), value: value.map(|v| v.to_string()) }
}

fn query(dialect: Dialect, filter: Filter) -> String {
    let mut parts = Vec::new();
    traverse_query(&mut parts, dialect, filter);
    render(&parts)
}

#[test]
fn the_all_filter_selects_everything() {
    assert_eq!(query(Dialect::Postgres, Filter::All), "1=1");
    assert_eq!(query(Dialect::Sqlite, Filter::All), "1=1");
}

#[test]
fn tag_filters_read_the_tags_column() {
    assert_eq!(query(Dialect::Postgres, tag("name", Some("a.txt"))), "tags->'name' = <a.txt>");
    assert_eq!(query(Dialect::Postgres, tag("file1", None)), "tags ? <file1>");
    assert_eq!(query(Dialect::Sqlite, tag("name", Some("a.txt"))), "tags->>'name' = <a.txt>");
    assert_eq!(query(Dialect::Sqlite, tag("file1", None)), "tags->>'file1' is not null");
}

#[test]
fn combined_filters_are_parenthesised() {
    let f = Filter::Op { lhs: Box::new(tag("a", None)), op: Op::Or, rhs: Box::new(tag("b", Some("c"))) };
    assert_eq!(query(Dialect::Sqlite, f), "(tags->>'a' is not null)  or (tags->>'b' = <c>) ");
    let mut parts = Vec::new();
    push_search_query(&mut parts, Dialect::Postgres, Filter::Op { lhs: Box::new(Filter::All), op: Op::And, rhs: Box::new(tag("x", None)) });
    assert_eq!(render(&parts), " and ((1=1)  and (tags ? <x>) )");
}

#[test]
fn saving_a_collection_without_files_only_upserts_it() {
    let c = Collection::new(AccountId::from_u128(1), "docs", Filter::All);
    let statements = collection_save_statements(Dialect::Postgres, &c, "*");
    assert_eq!(statements.len(), 1);
    let text = render(&statements[0]);
    assert!(text.starts_with("insert into collections (id, owner_id, name, filter) values (<uuid "));
    assert!(text.contains(", <uuid 1>, <docs>, <*>) on conflict (id) do update set name = excluded.name, filter = excluded.filter"));
}

#[test]
fn saving_a_collection_links_its_files_and_drops_the_others() {
    let mut c = Collection::new(AccountId::from_u128(1), "docs", Filter::All);
    c.id = oxidrive::ids::CollectionId::from_u128(2);
    c.add(vec![FileId::from_u128(3)]);
    let statements = collection_save_statements(Dialect::Sqlite, &c, "*");
    assert_eq!(statements.len(), 3);
    assert_eq!(
        render(&statements[1]),
        "insert into collections_files (collection_id, file_id) values (<00000000-0000-0000-0000-000000000002>, <00000000-0000-0000-0000-000000000003>) on conflict (collection_id, file_id) do nothing"
    );
    assert_eq!(
        render(&statements[2]),
        "delete from collections_files where collection_id = <00000000-0000-0000-0000-000000000002> and file_id not in (<00000000-0000-0000-0000-000000000003>)"
    );
}

#[test]
fn empty_credentials_are_not_saved() {
    assert!(credentials_save_statement(Dialect::Postgres, &Credentials::new(AccountId::new())).is_none());
}

#[test]
fn a_password_is_saved_as_a_json_string() {
    let credentials = password_credentials(AccountId::from_u128(7), "pw").unwrap();
    let q = credentials_save_statement(Dialect::Postgres, &credentials).unwrap();
    let text = render(&q);
    assert!(text.starts_with("insert into account_credentials (id, account_id, kind, data) values (<password>, <uuid 7>, <password>, <json $argon2"));
    assert!(text.ends_with(") on conflict (account_id, id) do update set kind = excluded.kind, data = excluded.data"));
}

#[test]
fn authorization_outcomes() {
    assert!(Authorized::from_allowed(true).is_allowed());
    assert!(!Authorized::Deny.is_allowed());
    let ok: Result<(), Denied> = Authorized::Allow.into_err();
    assert!(ok.is_ok());
    let denied: Result<(), Denied> = Authorized::Deny.into_err();
    assert_eq!(denied, Err(Denied));
}

#[derive(Debug, PartialEq)]
struct Denied;

impl From<Authorized> for Denied {
    fn from(_: Authorized) -> Self {
        Denied
    }
}



#[test]
fn entity_references_and_action_types() {
    let r = AnyRef::new("File", "abc".to_string());
    assert_eq!(r.type_(), "File");
    assert_eq!(r.id(), "abc");
    assert_eq!(action_type("File"), "File::Action");
}

#[test]
fn account_statements() {
    assert_eq!(render(&accounts_count_statement()), "select count(id) as count from accounts");
    assert_eq!(
        render(&account_by_username_statement("admin")),
        "select a.id, a.username from accounts a where username = <admin>"
    );
    let mut account = Account::create("admin");
    account.id = AccountId::from_u128(5);
    assert_eq!(
        render(&account_upsert_statement(Dialect::Sqlite, &account)),
        "insert into accounts (id, username) values (<00000000-0000-0000-0000-000000000005>, <admin>) on conflict(id) do update set username = excluded.username"
    );
}

#[test]
fn session_and_token_statements() {
    assert_eq!(
        render(&session_by_id_statement(Dialect::Postgres, SessionId::from_u128(9), 77)),
        "select id, account_id, expires_at from sessions where id = <uuid 9> and expires_at >= <at 77>"
    );
    assert_eq!(
        render(&sessions_delete_expired_statement(5)),
        "delete from sessions where expires_at < <at 5> returning id, account_id, expires_at"
    );
    let token = Token::from_bytes([1; 16]);
    let q = token_by_token_statement(&token, 3);
    match &q[1] {
        QueryPart::Bind(SqlArg::Bytes(b)) => assert_eq!(b.as_slice(), &token.hashed()[..]),
        other => panic!("unexpected {other:?}"),
    }
    assert!(render(&q).ends_with(" and (expires_at is null or expires_at > <at 3>)"));
}

#[test]
fn file_statements() {
    let mut file = File::new(AccountId::from_u128(1), "a.txt", "text/plain");
    file.id = FileId::from_u128(2);
    let q = file_upsert_statement(Dialect::Postgres, &file);
    let text = render(&q);
    assert!(text.starts_with("insert into files (id, owner_id, name, content_type, size, tags) values (<uuid 2>, <uuid 1>, <a.txt>, <text/plain>, <int 0>, <Hstore("));
    match &q[11] {
        QueryPart::Bind(SqlArg::Hstore(pairs)) => assert_eq!(pairs.len(), 4),
        other => panic!("unexpected {other:?}"),
    }
    let search = render(&file_search_statement(Dialect::Sqlite, AccountId::from_u128(1), tag("ext", Some("txt")), &Paginate::first(10)));
    assert_eq!(
        search,
        "select distinct id, owner_id, name, content_type, size, tags from files where owner_id = <00000000-0000-0000-0000-000000000001> and (tags->>'ext' = <txt>) and id > <00000000-0000-0000-0000-000000000000> order by lower(name) asc limit <int 10>"
    );
    let back = render(&file_search_statement(Dialect::Postgres, AccountId::from_u128(1), Filter::All, &Paginate::Backward { before: "x".into(), last: 2 }));
    assert!(back.ends_with(" and (1=1) and id::text < <x> order by lower(name) desc limit <int 2>"));
}

#[test]
fn page_cursors_follow_the_ends_of_the_page() {
    let ids = vec![1u128, 2];
    let (next, previous) = page_cursors_of(&ids, &Paginate::first(2));
    assert_eq!(next.as_deref(), Some("00000000-0000-0000-0000-000000000002"));
    assert!(previous.is_none());
    let (next, previous) = page_cursors_of(&ids, &Paginate::last(2));
    assert!(next.is_none());
    assert_eq!(previous.as_deref(), Some("00000000-0000-0000-0000-000000000001"));
    assert_eq!(page_cursors_of(&Vec::new(), &Paginate::first(2)), (None, None));
}

#[test]
fn collection_links_are_read_for_all_listed_collections() {
    assert_eq!(
        render(&collection_links_query(Dialect::Postgres, &vec![1, 2])),
        "select collection_id, file_id from collections_files where collection_id in (<uuid 1>, <uuid 2>)"
    );
}

#[test]
fn a_backward_page_is_presented_in_increasing_order() {
    assert_eq!(in_page_order(vec![3, 2, 1], &Paginate::last(3)), vec![1, 2, 3]);
    assert_eq!(in_page_order(vec![1, 2, 3], &Paginate::first(3)), vec![1, 2, 3]);
    assert_eq!(in_page_order(Vec::<u8>::new(), &Paginate::last(3)), Vec::<u8>::new());
}
