//! What a search's SQL condition means: a reading of the condition as the
//! rows it selects, and the law that the condition built for a filter
//! selects exactly the rows the filter accepts.
use vstd::prelude::*;
use crate::sql::{filter_query, ArgView, Dialect, PartView};
use crate::tags::{filter_accepts, FilterView, Op, TagMap};

verus! {

/// An entry of the stack on which a condition is read: an open parenthesis,
/// a pending `and` / `or`, or the truth of a sub-condition.
pub enum CondItem {
    Open,
    Join(Op),
    Val(bool),
}

/// `t` starts with `pre` and ends with `post`.
pub open spec fn framed(t: Seq<char>, pre: Seq<char>, post: Seq<char>) -> bool {
    &&& t.len() >= pre.len() + post.len()
    &&& t.take(pre.len() as int) == pre
    &&& t.skip(t.len() - post.len()) == post
}

/// What lies between `pre` and `post` in `t`.
pub open spec fn inner(t: Seq<char>, pre: Seq<char>, post: Seq<char>) -> Seq<char> {
    t.subrange(pre.len() as int, t.len() - post.len())
}

/// The text bound by a piece, if it binds text.
pub open spec fn bound_text(p: PartView) -> Option<Seq<char>> {
    match p {
        PartView::Bind(ArgView::Text(v)) => Some(v),
        _ => None,
    }
}

/// `a op b` in SQL.
pub open spec fn join_truth(op: Op, a: bool, b: bool) -> bool {
    match op {
        Op::And => a && b,
        Op::Or => a || b,
    }
}

/// The stack after a parenthesised sub-condition of truth `v` closes: it
/// joins the truth before a pending `and` / `or`, or is pushed as it is.
pub open spec fn close_with(st: Seq<CondItem>, v: bool) -> Seq<CondItem> {
    if st.len() >= 2 && st.last() is Join && st[st.len() - 2] is Val {
        st.take(st.len() - 2).push(CondItem::Val(join_truth(st.last()->Join_0, st[st.len() - 2]->Val_0, v)))
    } else {
        st.push(CondItem::Val(v))
    }
}

/// Reads the pieces of a condition over a row whose `tags` column holds `m`
/// (as an `hstore` or a JSON object: key to optional value), left to right:
/// `1=1` is true; `tags ? k` and `tags->>'k' is not null` hold when the row has
/// the key `k`; `tags->'k' = v` and `tags->>'k' = v` hold when its value for
/// `k` is `v`; parentheses group and `and` / `or` join. `None` for pieces
/// that are not such a condition.
#[verifier::opaque]
pub open spec fn read_cond(toks: Seq<PartView>, st: Seq<CondItem>, m: TagMap) -> Option<Seq<CondItem>>
    decreases toks.len(),
{
    if toks.len() == 0 {
        Some(st)
    } else {
        match toks[0] {
            PartView::Bind(_) => None,
            PartView::Sql(t) => {
                let rest = toks.drop_first();
                if t == "("@ {
                    read_cond(rest, st.push(CondItem::Open), m)
                } else if t == ") "@ {
                    if st.len() >= 2 && st.last() is Val && st[st.len() - 2] is Open {
                        read_cond(rest, close_with(st.take(st.len() - 2), st.last()->Val_0), m)
                    } else {
                        None
                    }
                } else if t == " and "@ {
                    read_cond(rest, st.push(CondItem::Join(Op::And)), m)
                } else if t == " or "@ {
                    read_cond(rest, st.push(CondItem::Join(Op::Or)), m)
                } else if t == "1=1"@ {
                    read_cond(rest, st.push(CondItem::Val(true)), m)
                } else if t == "tags ? "@ {
                    if rest.len() > 0 && bound_text(rest[0]) is Some {
                        let k = bound_text(rest[0])->Some_0;
                        read_cond(rest.drop_first(), st.push(CondItem::Val(m.contains_key(k))), m)
                    } else {
                        None
                    }
                } else if framed(t, "tags->>'"@, "' is not null"@) {
                    let k = inner(t, "tags->>'"@, "' is not null"@);
                    read_cond(rest, st.push(CondItem::Val(m.contains_key(k))), m)
                } else if framed(t, "tags->>'"@, "' = "@) || framed(t, "tags->'"@, "' = "@) {
                    let k = if framed(t, "tags->>'"@, "' = "@) {
                        inner(t, "tags->>'"@, "' = "@)
                    } else {
                        inner(t, "tags->'"@, "' = "@)
                    };
                    if rest.len() > 0 && bound_text(rest[0]) is Some {
                        let v = bound_text(rest[0])->Some_0;
                        read_cond(rest.drop_first(), st.push(CondItem::Val(m.contains_key(k) && m[k] == Some(v))), m)
                    } else {
                        None
                    }
                } else {
                    None
                }
            },
        }
    }
}

proof fn lemma_read_open(rest: Seq<PartView>, st: Seq<CondItem>, m: TagMap)
    ensures
        read_cond(seq![PartView::Sql("("@)] + rest, st, m) == read_cond(rest, st.push(CondItem::Open), m),
{
    reveal(read_cond);
    let toks = seq![PartView::Sql("("@)] + rest;
    assert(toks[0] == PartView::Sql("("@));
    assert(toks.drop_first() =~= rest);
}

proof fn lemma_read_close(rest: Seq<PartView>, st: Seq<CondItem>, v: bool, m: TagMap)
    ensures
        read_cond(seq![PartView::Sql(") "@)] + rest, st.push(CondItem::Open).push(CondItem::Val(v)), m)
            == read_cond(rest, close_with(st, v), m),
{
    reveal(read_cond);
    reveal_strlit("(");
    reveal_strlit(") ");
    let toks = seq![PartView::Sql(") "@)] + rest;
    let s = st.push(CondItem::Open).push(CondItem::Val(v));
    assert(toks[0] == PartView::Sql(") "@));
    assert(toks.drop_first() =~= rest);
    assert(") "@ != "("@) by {
        assert(") "@.len() != "("@.len());
    }
    assert(s.take(s.len() - 2) =~= st);
}

proof fn lemma_read_join(op: Op, rest: Seq<PartView>, st: Seq<CondItem>, m: TagMap)
    ensures
        read_cond(seq![PartView::Sql(crate::sql::op_sql(op))] + rest, st, m) == read_cond(rest, st.push(CondItem::Join(op)), m),
{
    reveal(read_cond);
    reveal_strlit("(");
    reveal_strlit(") ");
    reveal_strlit(" and ");
    reveal_strlit(" or ");
    let t = crate::sql::op_sql(op);
    let toks = seq![PartView::Sql(t)] + rest;
    assert(toks[0] == PartView::Sql(t));
    assert(toks.drop_first() =~= rest);
    assert(t != "("@ && t != ") "@) by {
        assert(t.len() >= 4);
    }
    assert(" or "@ != " and "@) by {
        assert(" or "@.len() != " and "@.len());
    }
}

proof fn lemma_read_all(rest: Seq<PartView>, st: Seq<CondItem>, m: TagMap)
    ensures
        read_cond(seq![PartView::Sql("1=1"@)] + rest, st, m) == read_cond(rest, st.push(CondItem::Val(true)), m),
{
    reveal(read_cond);
    reveal_strlit("(");
    reveal_strlit(") ");
    reveal_strlit(" and ");
    reveal_strlit(" or ");
    reveal_strlit("1=1");
    let toks = seq![PartView::Sql("1=1"@)] + rest;
    assert(toks[0] == PartView::Sql("1=1"@));
    assert(toks.drop_first() =~= rest);
    let t = "1=1"@;
    assert(t.len() == 3);
    assert(t != "("@ && t != ") "@ && t != " and "@ && t != " or "@);
}

proof fn lemma_read_has_key_pg(key: Seq<char>, rest: Seq<PartView>, st: Seq<CondItem>, m: TagMap)
    ensures
        read_cond(seq![PartView::Sql("tags ? "@), PartView::Bind(ArgView::Text(key))] + rest, st, m)
            == read_cond(rest, st.push(CondItem::Val(m.contains_key(key))), m),
{
    reveal(read_cond);
    reveal_strlit("(");
    reveal_strlit(") ");
    reveal_strlit(" and ");
    reveal_strlit(" or ");
    reveal_strlit("1=1");
    reveal_strlit("tags ? ");
    let toks = seq![PartView::Sql("tags ? "@), PartView::Bind(ArgView::Text(key))] + rest;
    assert(toks[0] == PartView::Sql("tags ? "@));
    assert(toks.drop_first()[0] == PartView::Bind(ArgView::Text(key)));
    assert(toks.drop_first().drop_first() =~= rest);
    let t = "tags ? "@;
    assert(t.len() == 7);
    assert(t != "("@ && t != ") "@ && t != " and "@ && t != " or "@ && t != "1=1"@);
}

proof fn lemma_read_has_key_sqlite(key: Seq<char>, rest: Seq<PartView>, st: Seq<CondItem>, m: TagMap)
    ensures
        read_cond(seq![PartView::Sql("tags->>'"@ + key + "'"@ + " is not null"@)] + rest, st, m)
            == read_cond(rest, st.push(CondItem::Val(m.contains_key(key))), m),
{
    reveal(read_cond);
    reveal_strlit("(");
    reveal_strlit(") ");
    reveal_strlit(" and ");
    reveal_strlit(" or ");
    reveal_strlit("1=1");
    reveal_strlit("tags ? ");
    reveal_strlit("tags->>'");
    reveal_strlit("'");
    reveal_strlit(" is not null");
    reveal_strlit("' is not null");
    let t = "tags->>'"@ + key + "'"@ + " is not null"@;
    let toks = seq![PartView::Sql(t)] + rest;
    assert(toks[0] == PartView::Sql(t));
    assert(toks.drop_first() =~= rest);
    assert(t.len() >= 21);
    assert(t != "("@ && t != ") "@ && t != " and "@ && t != " or "@ && t != "1=1"@ && t != "tags ? "@);
    assert(t.take(8) =~= "tags->>'"@);
    assert(t.skip(t.len() - 13) =~= "' is not null"@);
    assert(inner(t, "tags->>'"@, "' is not null"@) =~= key);
}

proof fn lemma_read_value(d: Dialect, key: Seq<char>, v: Seq<char>, rest: Seq<PartView>, st: Seq<CondItem>, m: TagMap)
    ensures
        read_cond(seq![PartView::Sql(crate::sql::tag_path(d, key) + " = "@), PartView::Bind(ArgView::Text(v))] + rest, st, m)
            == read_cond(rest, st.push(CondItem::Val(m.contains_key(key) && m[key] == Some(v))), m),
{
    reveal(read_cond);
    reveal_strlit("(");
    reveal_strlit(") ");
    reveal_strlit(" and ");
    reveal_strlit(" or ");
    reveal_strlit("1=1");
    reveal_strlit("tags ? ");
    reveal_strlit("tags->>'");
    reveal_strlit("tags->'");
    reveal_strlit("'");
    reveal_strlit("' is not null");
    reveal_strlit("' = ");
    reveal_strlit(" = ");
    let t = crate::sql::tag_path(d, key) + " = "@;
    let toks = seq![PartView::Sql(t), PartView::Bind(ArgView::Text(v))] + rest;
    assert(toks[0] == PartView::Sql(t));
    assert(toks.drop_first()[0] == PartView::Bind(ArgView::Text(v)));
    assert(toks.drop_first().drop_first() =~= rest);
    assert(t.len() >= 11);
    assert(t != "("@ && t != ") "@ && t != " and "@ && t != " or "@ && t != "1=1"@ && t != "tags ? "@);
    assert(t[t.len() - 1] == ' ');
    assert(!framed(t, "tags->>'"@, "' is not null"@)) by {
        if framed(t, "tags->>'"@, "' is not null"@) {
            assert(t.skip(t.len() - 13)[12] == t[t.len() - 1]);
        }
    }
    assert(t.skip(t.len() - 4) =~= "' = "@);
    match d {
        Dialect::Sqlite => {
            assert(t.take(8) =~= "tags->>'"@);
            assert(inner(t, "tags->>'"@, "' = "@) =~= key);
        },
        Dialect::Postgres => {
            assert(t.take(7) =~= "tags->'"@);
            assert(inner(t, "tags->'"@, "' = "@) =~= key);
            assert(!framed(t, "tags->>'"@, "' = "@)) by {
                if framed(t, "tags->>'"@, "' = "@) {
                    assert(t.take(8)[6] == t[6]);
                }
            }
        },
    }
}

/// Reading a filter's condition from a stack that is empty or ends with an
/// open parenthesis pushes whether the filter accepts the row.
#[verifier::spinoff_prover]
#[verifier::rlimit(30)]
proof fn lemma_filter_query_reads(d: Dialect, f: FilterView, rest: Seq<PartView>, st: Seq<CondItem>, m: TagMap)
    requires
        st.len() == 0 || st.last() is Open,
    ensures
        read_cond(filter_query(d, f) + rest, st, m) == read_cond(rest, st.push(CondItem::Val(filter_accepts(f, m))), m),
    decreases f,
{
    match f {
        FilterView::All => {
            assert(filter_query(d, f) + rest =~= seq![PartView::Sql("1=1"@)] + rest);
            lemma_read_all(rest, st, m);
        },
        FilterView::Tag { key, value } => {
            match value {
                Some(v) => {
                    assert(filter_query(d, f) + rest
                        =~= seq![PartView::Sql(crate::sql::tag_path(d, key) + " = "@), PartView::Bind(ArgView::Text(v))] + rest);
                    lemma_read_value(d, key, v, rest, st, m);
                    if m.contains_key(key) && m[key] == Some(v) {
                        assert(crate::tags::spec_tag_matches(key, m[key], key, Some(v)));
                    }
                },
                None => {
                    match d {
                        Dialect::Postgres => {
                            assert(filter_query(d, f) + rest
                                =~= seq![PartView::Sql("tags ? "@), PartView::Bind(ArgView::Text(key))] + rest);
                            lemma_read_has_key_pg(key, rest, st, m);
                        },
                        Dialect::Sqlite => {
                            assert(filter_query(d, f) + rest
                                =~= seq![PartView::Sql("tags->>'"@ + key + "'"@ + " is not null"@)] + rest);
                            lemma_read_has_key_sqlite(key, rest, st, m);
                        },
                    }
                    if m.contains_key(key) {
                        assert(crate::tags::spec_tag_matches(key, m[key], key, None));
                    }
                },
            }
        },
        FilterView::Op { lhs, op, rhs } => {
            let ql = filter_query(d, *lhs);
            let qr = filter_query(d, *rhs);
            let opt = crate::sql::op_sql(op);
            let after_r = seq![PartView::Sql(") "@)] + rest;
            let open_r = seq![PartView::Sql("("@)] + (qr + after_r);
            let join_r = seq![PartView::Sql(opt)] + open_r;
            let after_l = seq![PartView::Sql(") "@)] + join_r;
            assert(filter_query(d, f) + rest =~= seq![PartView::Sql("("@)] + (ql + after_l));
            let a = filter_accepts(*lhs, m);
            let b = filter_accepts(*rhs, m);
            lemma_read_open(ql + after_l, st, m);
            lemma_filter_query_reads(d, *lhs, after_l, st.push(CondItem::Open), m);
            lemma_read_close(join_r, st, a, m);
            assert(close_with(st, a) == st.push(CondItem::Val(a)));
            let s4 = st.push(CondItem::Val(a)).push(CondItem::Join(op));
            lemma_read_join(op, open_r, st.push(CondItem::Val(a)), m);
            lemma_read_open(qr + after_r, s4, m);
            lemma_filter_query_reads(d, *rhs, after_r, s4.push(CondItem::Open), m);
            lemma_read_close(rest, s4, b, m);
            assert(s4.take(s4.len() - 2) =~= st);
            assert(close_with(s4, b) == st.push(CondItem::Val(join_truth(op, a, b))));
        },
    }
}

/// The condition built for a filter selects exactly the rows whose tags the
/// filter accepts, in every dialect: read over any row's tags, it comes out
/// true when the filter accepts them and false when it does not. In
/// particular two filters joined by `or` select a row that either selects.
pub proof fn law_filter_condition_selects_accepted_rows(d: Dialect, f: FilterView, m: TagMap)
    ensures
        read_cond(filter_query(d, f), Seq::empty(), m) == Some(seq![CondItem::Val(filter_accepts(f, m))]),
{
    lemma_filter_query_reads(d, f, Seq::empty(), Seq::empty(), m);
    assert(filter_query(d, f) + Seq::<PartView>::empty() =~= filter_query(d, f));
    reveal(read_cond);
    assert(Seq::<CondItem>::empty().push(CondItem::Val(filter_accepts(f, m))) =~= seq![CondItem::Val(filter_accepts(f, m))]);
}

} // verus!
