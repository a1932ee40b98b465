use vstd::prelude::*;
use vstd::string::*;
use crate::text::{
    chars_of, lemma_seq_le_total, lemma_seq_le_trans, seq_le, starts_with_cs, starts_with_cs_x,
    str_views,
};

verus! {

// ---------------------------------------------------------------------------
// The schema graph: tables with columns and keys, and schema-wide foreign-key
// edges. Everything here is assembled from plain rows handed back by the
// engine's introspection calls.
// ---------------------------------------------------------------------------

#[derive(Clone, Copy, Debug, PartialEq, Eq, Structural)]
pub enum KeyKind {
    PrimaryKey,
    ForeignKey,
    Index,
}

#[derive(Debug, PartialEq, Eq)]
pub struct TableColumn {
    pub name: String,
    pub data_type: Option<String>,
    pub not_null: bool,
    pub pk: bool,
}

#[derive(Debug, PartialEq, Eq)]
pub struct TableKey {
    pub key_type: KeyKind,
    /// The index name; absent for primary and foreign keys.
    pub name: Option<String>,
    /// Key columns; for a foreign key, the referencing columns.
    pub columns: Vec<String>,
    pub ref_table: Option<String>,
    /// Referenced columns, position-aligned with `columns`.
    pub ref_columns: Option<Vec<String>>,
    /// Uniqueness; present for indexes only.
    pub unique: Option<bool>,
}

#[derive(Debug, PartialEq, Eq)]
pub struct TableInfo {
    pub name: String,
    pub columns: Vec<TableColumn>,
    pub keys: Vec<TableKey>,
}

#[derive(Debug, PartialEq, Eq)]
pub struct ForeignKeyEdge {
    pub from_table: String,
    pub from_columns: Vec<String>,
    pub to_table: String,
    pub to_columns: Vec<String>,
}

#[derive(Debug, PartialEq, Eq)]
pub struct DbSchemaSummary {
    pub tables: Vec<TableInfo>,
    pub foreign_keys: Vec<ForeignKeyEdge>,
}

// ---------------------------------------------------------------------------
// Table-name list: internal tables excluded, the rest alphabetical.
// ---------------------------------------------------------------------------

pub open spec fn internal_prefix() -> Seq<char> {
    "sqlite_"@
}

/// An engine-internal table name: one with the reserved prefix.
pub open spec fn is_internal_name(n: Seq<char>) -> bool {
    starts_with_cs(n, internal_prefix())
}

pub fn is_internal_name_x(name: &str) -> (r: bool)
    ensures
        r == is_internal_name(name@),
{
    let cs = chars_of(name);
    let p = chars_of("sqlite_");
    starts_with_cs_x(&cs, &p)
}

pub open spec fn sorted_names(v: Seq<String>) -> bool {
    forall|i: int, j: int| 0 <= i < j < v.len() ==> seq_le(v[i]@, v[j]@)
}

/// The non-internal names of `names`, in input order.
pub open spec fn user_names_of(names: Seq<String>) -> Seq<String>
    decreases names.len(),
{
    if names.len() == 0 {
        Seq::empty()
    } else if is_internal_name(names.last()@) {
        user_names_of(names.drop_last())
    } else {
        user_names_of(names.drop_last()).push(names.last())
    }
}

fn str_le_x(a: &String, b: &String) -> (r: bool)
    ensures
        r == seq_le(a@, b@),
{
    let ca = chars_of(a.as_str());
    let cb = chars_of(b.as_str());
    crate::text::lex_le(&ca, &cb)
}

/// Inserts `name` into a sorted vector, keeping it sorted.
fn sorted_insert(out: &mut Vec<String>, name: String)
    requires
        sorted_names(old(out)@),
    ensures
        sorted_names(final(out)@),
        final(out)@.to_multiset() == old(out)@.to_multiset().insert(name),
        final(out)@.len() == old(out)@.len() + 1,
        forall|i: int|
            0 <= i < final(out)@.len() ==> final(out)@[i] == name || old(out)@.contains(
                #[trigger] final(out)@[i],
            ),
{
    broadcast use vstd::seq_lib::group_to_multiset_ensures;

    let ghost pre = out@;
    let mut pos: usize = 0;
    while pos < out.len() && str_le_x(&out[pos], &name)
        invariant
            out@ == pre,
            0 <= pos <= out@.len(),
            forall|i: int| 0 <= i < pos ==> seq_le(out@[i]@, name@),
        decreases out@.len() - pos,
    {
        pos += 1;
    }
    proof {
        if (pos as int) < pre.len() {
            lemma_seq_le_total(pre[pos as int]@, name@, 0);
        }
    }
    let ghost p = pos as int;
    out.insert(pos, name);
    proof {
        let post = out@;
        assert(post == pre.insert(p, name));
        assert forall|i: int, j: int| 0 <= i < j < post.len() implies seq_le(
            post[i]@,
            post[j]@,
        ) by {
            if i < p && j < p {
            } else if i < p && j == p {
            } else if i == p && j > p {
                assert(post[j] == pre[j - 1]);
                assert(seq_le(name@, pre[p]@));
                if p < j - 1 {
                    assert(seq_le(pre[p]@, pre[j - 1]@));
                    lemma_seq_le_trans(name@, pre[p]@, pre[j - 1]@, 0);
                }
            } else if i < p && j > p {
                assert(post[j] == pre[j - 1]);
                if i < j - 1 {
                } else {
                    lemma_seq_le_trans(pre[i]@, name@, pre[j - 1]@, 0);
                }
            } else {
                assert(post[i] == pre[i - 1] && post[j] == pre[j - 1]);
            }
        }
        assert(post.remove(p) =~= pre);
        assert(post.to_multiset().remove(post[p]) =~= pre.to_multiset());
        assert(post.to_multiset().contains(name));
        assert(post.to_multiset() =~= pre.to_multiset().insert(name));
        assert forall|i: int| 0 <= i < post.len() implies post[i] == name || pre.contains(
            #[trigger] post[i],
        ) by {
            if i < p {
                assert(post[i] == pre[i]);
            } else if i > p {
                assert(post[i] == pre[i - 1]);
            }
        }
    }
}

/// The user-visible table list: internal tables dropped, the rest sorted
/// alphabetically. The result holds exactly the non-internal input names.
pub fn user_tables(names: &Vec<String>) -> (r: Vec<String>)
    ensures
        sorted_names(r@),
        forall|i: int| 0 <= i < r@.len() ==> !is_internal_name(r@[i]@),
        r@.to_multiset() == user_names_of(names@).to_multiset(),
{
    broadcast use vstd::seq_lib::group_to_multiset_ensures;

    let mut r: Vec<String> = Vec::new();
    let mut k: usize = 0;
    while k < names.len()
        invariant
            0 <= k <= names@.len(),
            sorted_names(r@),
            forall|i: int| 0 <= i < r@.len() ==> !is_internal_name(r@[i]@),
            r@.to_multiset() == user_names_of(names@.take(k as int)).to_multiset(),
        decreases names@.len() - k,
    {
        proof {
            assert(names@.take(k as int + 1).drop_last() =~= names@.take(k as int));
            assert(names@.take(k as int + 1).last() == names@[k as int]);
        }
        let name = names[k].clone();
        if !is_internal_name_x(name.as_str()) {
            let ghost pre = r@;
            proof {
                let prev = user_names_of(names@.take(k as int));
                let cur = user_names_of(names@.take(k as int + 1));
                assert(cur == prev.push(names@[k as int]));
                prev.to_multiset_ensures();
            }
            sorted_insert(&mut r, name);
            proof {
                assert forall|i: int| 0 <= i < r@.len() implies !is_internal_name(
                    r@[i]@,
                ) by {
                    if r@[i] != names@[k as int] {
                        assert(pre.contains(r@[i]));
                    }
                }
            }
        }
        k += 1;
    }
    proof {
        assert(names@.take(names@.len() as int) =~= names@);
    }
    r
}

proof fn lemma_user_names_not_internal(names: Seq<String>)
    ensures
        forall|i: int|
            0 <= i < user_names_of(names).len() ==> !is_internal_name(
                #[trigger] user_names_of(names)[i]@,
            ),
    decreases names.len(),
{
    if names.len() > 0 {
        lemma_user_names_not_internal(names.drop_last());
        let prev = user_names_of(names.drop_last());
        let cur = user_names_of(names);
        assert forall|i: int| 0 <= i < cur.len() implies !is_internal_name(cur[i]@) by {
            if i < prev.len() {
                assert(cur[i] == prev[i]);
            } else {
                assert(cur[i] == names.last());
            }
        }
    }
}

// ---------------------------------------------------------------------------
// Columns and the primary key.
// ---------------------------------------------------------------------------

pub open spec fn opt_view(o: Option<String>) -> Option<Seq<char>> {
    match o {
        Some(s) => Some(s@),
        None => None,
    }
}

/// `c` is the column that an introspection row (name, declared type,
/// not-null flag, primary-key ordinal) describes.
pub open spec fn column_of_row(row: (String, Option<String>, i64, i64), c: TableColumn) -> bool {
    &&& c.name@ == row.0@
    &&& opt_view(c.data_type) == opt_view(row.1)
    &&& c.not_null == (row.2 != 0)
    &&& c.pk == (row.3 != 0)
}

fn clone_opt_string(o: &Option<String>) -> (r: Option<String>)
    ensures
        opt_view(r) == opt_view(*o),
{
    match o {
        Some(s) => Some(s.clone()),
        None => None,
    }
}

/// Builds the column list from the engine's column-metadata rows.
pub fn build_columns(rows: &Vec<(String, Option<String>, i64, i64)>) -> (r: Vec<TableColumn>)
    ensures
        r@.len() == rows@.len(),
        forall|i: int| 0 <= i < r@.len() ==> column_of_row(rows@[i], #[trigger] r@[i]),
{
    let mut r: Vec<TableColumn> = Vec::new();
    let mut k: usize = 0;
    while k < rows.len()
        invariant
            0 <= k <= rows@.len(),
            r@.len() == k,
            forall|i: int| 0 <= i < k ==> column_of_row(rows@[i], #[trigger] r@[i]),
        decreases rows@.len() - k,
    {
        let name = rows[k].0.clone();
        let data_type = clone_opt_string(&rows[k].1);
        let not_null = rows[k].2;
        let pk = rows[k].3;
        r.push(TableColumn { name, data_type, not_null: not_null != 0, pk: pk != 0 });
        k += 1;
    }
    r
}

/// The names of the primary-key member columns, in column-definition order.
pub open spec fn pk_names_of(cols: Seq<TableColumn>) -> Seq<Seq<char>>
    decreases cols.len(),
{
    if cols.len() == 0 {
        Seq::empty()
    } else if cols.last().pk {
        pk_names_of(cols.drop_last()).push(cols.last().name@)
    } else {
        pk_names_of(cols.drop_last())
    }
}

/// Collects the primary-key member column names, in definition order.
pub fn pk_columns(cols: &Vec<TableColumn>) -> (r: Vec<String>)
    ensures
        str_views(r@) == pk_names_of(cols@),
{
    let mut r: Vec<String> = Vec::new();
    let mut k: usize = 0;
    while k < cols.len()
        invariant
            0 <= k <= cols@.len(),
            str_views(r@) == pk_names_of(cols@.take(k as int)),
        decreases cols@.len() - k,
    {
        proof {
            assert(cols@.take(k as int + 1).drop_last() =~= cols@.take(k as int));
        }
        let ghost pre = str_views(r@);
        if cols[k].pk {
            r.push(cols[k].name.clone());
            proof {
                assert(str_views(r@) =~= pre.push(cols@[k as int].name@));
            }
        }
        k += 1;
    }
    proof {
        assert(cols@.take(cols@.len() as int) =~= cols@);
    }
    r
}

// ---------------------------------------------------------------------------
// Foreign keys: the engine reports one row per (constraint, column) pair,
// tagged with a constraint id. Rows are grouped by id — a single constraint
// may span several columns — into one key and one schema-wide edge each.
// ---------------------------------------------------------------------------

/// One grouped foreign-key constraint: the referencing columns and the
/// referenced table and columns, position-aligned.
#[derive(Debug, PartialEq, Eq)]
pub struct ForeignKeyGroup {
    pub id: i64,
    pub ref_table: String,
    pub from_cols: Vec<String>,
    pub to_cols: Vec<String>,
}

/// The referencing columns of constraint `id`, in row-traversal order.
pub open spec fn froms_of(rows: Seq<(i64, String, String, String)>, id: i64) -> Seq<Seq<char>>
    decreases rows.len(),
{
    if rows.len() == 0 {
        Seq::empty()
    } else if rows.last().0 == id {
        froms_of(rows.drop_last(), id).push(rows.last().2@)
    } else {
        froms_of(rows.drop_last(), id)
    }
}

/// The referenced columns of constraint `id`, in row-traversal order.
pub open spec fn tos_of(rows: Seq<(i64, String, String, String)>, id: i64) -> Seq<Seq<char>>
    decreases rows.len(),
{
    if rows.len() == 0 {
        Seq::empty()
    } else if rows.last().0 == id {
        tos_of(rows.drop_last(), id).push(rows.last().3@)
    } else {
        tos_of(rows.drop_last(), id)
    }
}

/// The referenced table of constraint `id`: the one on its first row.
pub open spec fn ref_of(rows: Seq<(i64, String, String, String)>, id: i64) -> Option<Seq<char>>
    decreases rows.len(),
{
    if rows.len() == 0 {
        None
    } else {
        match ref_of(rows.drop_last(), id) {
            Some(r) => Some(r),
            None => if rows.last().0 == id {
                Some(rows.last().1@)
            } else {
                None
            },
        }
    }
}

pub open spec fn has_id(rows: Seq<(i64, String, String, String)>, id: i64) -> bool {
    exists|i: int| 0 <= i < rows.len() && rows[i].0 == id
}

/// How many rows carry constraint `id`.
pub open spec fn id_count(rows: Seq<(i64, String, String, String)>, id: i64) -> nat
    decreases rows.len(),
{
    if rows.len() == 0 {
        0
    } else {
        id_count(rows.drop_last(), id) + (if rows.last().0 == id {
            1nat
        } else {
            0nat
        })
    }
}

/// A constraint spanning several columns yields one group whose two column
/// lists each hold one entry per (constraint, column) row — never one edge
/// per column.
pub proof fn law_fk_columns_grouped(rows: Seq<(i64, String, String, String)>, id: i64)
    ensures
        froms_of(rows, id).len() == id_count(rows, id),
        tos_of(rows, id).len() == id_count(rows, id),
    decreases rows.len(),
{
    if rows.len() > 0 {
        law_fk_columns_grouped(rows.drop_last(), id);
    }
}

proof fn lemma_ref_of_some(rows: Seq<(i64, String, String, String)>, id: i64)
    requires
        has_id(rows, id),
    ensures
        ref_of(rows, id) is Some,
    decreases rows.len(),
{
    let i = choose|i: int| 0 <= i < rows.len() && rows[i].0 == id;
    if i < rows.len() - 1 {
        assert(rows.drop_last()[i] == rows[i]);
        lemma_ref_of_some(rows.drop_last(), id);
    }
}

/// The distinct constraint ids of the rows, each exactly once.
fn fk_ids(rows: &Vec<(i64, String, String, String)>) -> (ids: Vec<i64>)
    ensures
        forall|p: int, q: int| 0 <= p < q < ids@.len() ==> ids@[p] != ids@[q],
        forall|p: int| 0 <= p < ids@.len() ==> has_id(rows@, #[trigger] ids@[p]),
        forall|i: int| 0 <= i < rows@.len() ==> ids@.contains(#[trigger] rows@[i].0),
{
    let mut ids: Vec<i64> = Vec::new();
    let mut k: usize = 0;
    while k < rows.len()
        invariant
            0 <= k <= rows@.len(),
            forall|p: int, q: int| 0 <= p < q < ids@.len() ==> ids@[p] != ids@[q],
            forall|p: int| 0 <= p < ids@.len() ==> has_id(rows@, #[trigger] ids@[p]),
            forall|i: int| 0 <= i < k ==> ids@.contains(#[trigger] rows@[i].0),
        decreases rows@.len() - k,
    {
        let id = rows[k].0;
        let mut seen = false;
        let mut j: usize = 0;
        while j < ids.len() && !seen
            invariant
                0 <= j <= ids@.len(),
                seen ==> ids@.contains(id),
                !seen ==> forall|m: int| 0 <= m < j ==> ids@[m] != id,
            decreases ids@.len() - j + (if seen {
                0int
            } else {
                1int
            }),
        {
            if ids[j] == id {
                seen = true;
            } else {
                j += 1;
            }
        }
        if !seen {
            let ghost pre = ids@;
            ids.push(id);
            proof {
                assert(ids@[ids@.len() - 1] == id);
                assert(rows@[k as int].0 == id);
                assert forall|i: int| 0 <= i < k + 1 implies ids@.contains(
                    #[trigger] rows@[i].0,
                ) by {
                    if i < k {
                        let m = choose|m: int| 0 <= m < pre.len() && pre[m] == rows@[i].0;
                        assert(ids@[m] == rows@[i].0);
                    }
                }
            }
        }
        k += 1;
    }
    ids
}

/// Collects the group for one constraint id: its columns in traversal order
/// and the referenced table of its first row.
fn fk_group(rows: &Vec<(i64, String, String, String)>, id: i64) -> (g: ForeignKeyGroup)
    requires
        has_id(rows@, id),
    ensures
        g.id == id,
        str_views(g.from_cols@) == froms_of(rows@, id),
        str_views(g.to_cols@) == tos_of(rows@, id),
        Some(g.ref_table@) == ref_of(rows@, id),
{
    let mut from_cols: Vec<String> = Vec::new();
    let mut to_cols: Vec<String> = Vec::new();
    let mut rt: Option<String> = None;
    let mut k: usize = 0;
    while k < rows.len()
        invariant
            0 <= k <= rows@.len(),
            str_views(from_cols@) == froms_of(rows@.take(k as int), id),
            str_views(to_cols@) == tos_of(rows@.take(k as int), id),
            opt_view(rt) == ref_of(rows@.take(k as int), id),
        decreases rows@.len() - k,
    {
        proof {
            assert(rows@.take(k as int + 1).drop_last() =~= rows@.take(k as int));
            assert(rows@.take(k as int + 1).last() == rows@[k as int]);
        }
        let ghost from_pre = str_views(from_cols@);
        let ghost to_pre = str_views(to_cols@);
        if rows[k].0 == id {
            from_cols.push(rows[k].2.clone());
            to_cols.push(rows[k].3.clone());
            if rt.is_none() {
                rt = Some(rows[k].1.clone());
            }
            proof {
                assert(str_views(from_cols@) =~= from_pre.push(rows@[k as int].2@));
                assert(str_views(to_cols@) =~= to_pre.push(rows@[k as int].3@));
            }
        }
        k += 1;
    }
    proof {
        assert(rows@.take(rows@.len() as int) =~= rows@);
        lemma_ref_of_some(rows@, id);
    }
    match rt {
        Some(ref_table) => ForeignKeyGroup { id, ref_table, from_cols, to_cols },
        None => {
            proof {
                assert(false);
            }
            ForeignKeyGroup { id, ref_table: String::new(), from_cols, to_cols }
        },
    }
}

pub open spec fn group_ids(gs: Seq<ForeignKeyGroup>) -> Seq<i64> {
    Seq::new(gs.len(), |p: int| gs[p].id)
}

/// Groups the engine's foreign-key rows by constraint id: one group per
/// distinct id, holding that constraint's column pairs in traversal order.
pub fn group_foreign_keys(rows: &Vec<(i64, String, String, String)>) -> (gs: Vec<ForeignKeyGroup>)
    ensures
        forall|p: int, q: int| 0 <= p < q < gs@.len() ==> gs@[p].id != gs@[q].id,
        forall|p: int|
            0 <= p < gs@.len() ==> {
                let g = #[trigger] gs@[p];
                &&& has_id(rows@, g.id)
                &&& str_views(g.from_cols@) == froms_of(rows@, g.id)
                &&& str_views(g.to_cols@) == tos_of(rows@, g.id)
                &&& Some(g.ref_table@) == ref_of(rows@, g.id)
                &&& g.from_cols@.len() == g.to_cols@.len()
            },
        forall|i: int| 0 <= i < rows@.len() ==> group_ids(gs@).contains(#[trigger] rows@[i].0),
{
    let ids = fk_ids(rows);
    let mut gs: Vec<ForeignKeyGroup> = Vec::new();
    let mut k: usize = 0;
    while k < ids.len()
        invariant
            0 <= k <= ids@.len(),
            gs@.len() == k,
            forall|p: int, q: int| 0 <= p < q < ids@.len() ==> ids@[p] != ids@[q],
            forall|p: int| 0 <= p < ids@.len() ==> has_id(rows@, #[trigger] ids@[p]),
            forall|i: int| 0 <= i < rows@.len() ==> ids@.contains(#[trigger] rows@[i].0),
            forall|p: int| 0 <= p < k ==> #[trigger] gs@[p].id == ids@[p],
            forall|p: int|
                0 <= p < k ==> {
                    let g = #[trigger] gs@[p];
                    &&& has_id(rows@, g.id)
                    &&& str_views(g.from_cols@) == froms_of(rows@, g.id)
                    &&& str_views(g.to_cols@) == tos_of(rows@, g.id)
                    &&& Some(g.ref_table@) == ref_of(rows@, g.id)
                    &&& g.from_cols@.len() == g.to_cols@.len()
                },
        decreases ids@.len() - k,
    {
        let g = fk_group(rows, ids[k]);
        proof {
            law_fk_columns_grouped(rows@, ids@[k as int]);
            assert(str_views(g.from_cols@).len() == g.from_cols@.len());
            assert(str_views(g.to_cols@).len() == g.to_cols@.len());
        }
        gs.push(g);
        k += 1;
    }
    proof {
        assert forall|i: int| 0 <= i < rows@.len() implies group_ids(gs@).contains(
            #[trigger] rows@[i].0,
        ) by {
            assert(ids@.contains(rows@[i].0));
            let p = choose|p: int| 0 <= p < ids@.len() && ids@[p] == rows@[i].0;
            assert(group_ids(gs@)[p] == rows@[i].0);
        }
    }
    gs
}

// ---------------------------------------------------------------------------
// Key assembly: primary key first (when any column is a member), then
// foreign keys in discovery order, then indexes in discovery order.
// ---------------------------------------------------------------------------

pub open spec fn key_rank(k: KeyKind) -> int {
    match k {
        KeyKind::PrimaryKey => 0,
        KeyKind::ForeignKey => 1,
        KeyKind::Index => 2,
    }
}

pub open spec fn pk_key_shape(k: TableKey) -> bool {
    &&& k.key_type == KeyKind::PrimaryKey
    &&& k.name is None
    &&& k.ref_table is None
    &&& k.ref_columns is None
    &&& k.unique is None
}

pub open spec fn fk_key_shape(k: TableKey) -> bool {
    &&& k.key_type == KeyKind::ForeignKey
    &&& k.name is None
    &&& k.ref_table is Some
    &&& k.ref_columns is Some
    &&& k.ref_columns->Some_0@.len() == k.columns@.len()
    &&& k.unique is None
}

pub open spec fn index_key_shape(k: TableKey) -> bool {
    &&& k.key_type == KeyKind::Index
    &&& k.name is Some
    &&& k.ref_table is None
    &&& k.ref_columns is None
    &&& k.unique is Some
}

/// The key list is well-formed: ranks ascending (so the primary key comes
/// first, then foreign keys, then indexes), at most one primary key, and
/// each key shaped as its kind demands.
pub open spec fn keys_wf(ks: Seq<TableKey>) -> bool {
    &&& forall|i: int, j: int|
        #![trigger ks[i].key_type, ks[j].key_type]
        0 <= i < j < ks.len() ==> key_rank(ks[i].key_type) <= key_rank(ks[j].key_type)
    &&& forall|i: int, j: int|
        #![trigger ks[i].key_type, ks[j].key_type]
        0 <= i < j < ks.len() ==> !(ks[i].key_type == KeyKind::PrimaryKey
            && ks[j].key_type == KeyKind::PrimaryKey)
    &&& forall|i: int|
        0 <= i < ks.len() ==> match (#[trigger] ks[i]).key_type {
            KeyKind::PrimaryKey => pk_key_shape(ks[i]),
            KeyKind::ForeignKey => fk_key_shape(ks[i]),
            KeyKind::Index => index_key_shape(ks[i]),
        }
}

/// One when a primary key is present, else zero: where the foreign keys
/// begin in a table's key list.
pub open spec fn pk_offset(pk_cols: Seq<String>) -> int {
    if pk_cols.len() > 0 {
        1
    } else {
        0
    }
}

fn clone_string_vec(v: &Vec<String>) -> (r: Vec<String>)
    ensures
        r@ == v@,
{
    let mut r: Vec<String> = Vec::new();
    let mut i: usize = 0;
    while i < v.len()
        invariant
            0 <= i <= v@.len(),
            r@ == v@.take(i as int),
        decreases v@.len() - i,
    {
        r.push(v[i].clone());
        assert(r@ =~= v@.take(i as int + 1));
        i += 1;
    }
    assert(r@ =~= v@);
    r
}

/// Builds a table's primary and foreign keys, and appends this table's
/// foreign-key edges to the schema-wide edge list.
pub fn table_keys_and_edges(
    table_name: &String,
    pk_cols: Vec<String>,
    groups: Vec<ForeignKeyGroup>,
    edges: &mut Vec<ForeignKeyEdge>,
) -> (keys: Vec<TableKey>)
    requires
        forall|p: int|
            0 <= p < groups@.len() ==> (#[trigger] groups@[p]).from_cols@.len()
                == groups@[p].to_cols@.len(),
    ensures
        keys_wf(keys@),
        keys@.len() == pk_offset(pk_cols@) + groups@.len(),
        pk_cols@.len() > 0 ==> keys@[0].key_type == KeyKind::PrimaryKey && keys@[0].columns@
            == pk_cols@,
        pk_cols@.len() == 0 ==> forall|i: int|
            0 <= i < keys@.len() ==> (#[trigger] keys@[i]).key_type != KeyKind::PrimaryKey,
        forall|p: int|
            0 <= p < groups@.len() ==> {
                let k = #[trigger] keys@[pk_offset(pk_cols@) + p];
                &&& k.key_type == KeyKind::ForeignKey
                &&& k.columns@ == groups@[p].from_cols@
                &&& k.ref_table->Some_0@ == groups@[p].ref_table@
                &&& k.ref_columns->Some_0@ == groups@[p].to_cols@
            },
        final(edges)@.len() == old(edges)@.len() + groups@.len(),
        forall|i: int| 0 <= i < old(edges)@.len() ==> #[trigger] final(edges)@[i] == old(edges)@[i],
        forall|p: int|
            0 <= p < groups@.len() ==> {
                let e = #[trigger] final(edges)@[old(edges)@.len() + p];
                &&& e.from_table@ == table_name@
                &&& e.from_columns@ == groups@[p].from_cols@
                &&& e.to_table@ == groups@[p].ref_table@
                &&& e.to_columns@ == groups@[p].to_cols@
            },
{
    let ghost epre = edges@;
    let ghost gall = groups@;
    let glen = groups.len();
    let mut keys: Vec<TableKey> = Vec::new();
    if pk_cols.len() > 0 {
        keys.push(
            TableKey {
                key_type: KeyKind::PrimaryKey,
                name: None,
                columns: pk_cols,
                ref_table: None,
                ref_columns: None,
                unique: None,
            },
        );
    }
    let ghost off: int = keys@.len() as int;
    let mut groups = groups;
    let mut p: usize = 0;
    while groups.len() > 0
        invariant
            groups@ == gall.skip(p as int),
            0 <= p <= gall.len() == glen,
            keys@.len() == off + p,
            edges@.len() == epre.len() + p,
            off == pk_offset(pk_cols@),
            off == 1 ==> keys@[0].key_type == KeyKind::PrimaryKey && keys@[0].columns@ == pk_cols@
                && pk_key_shape(keys@[0]),
            forall|i: int| 0 <= i < epre.len() ==> #[trigger] edges@[i] == epre[i],
            forall|q: int|
                0 <= q < p ==> {
                    let k = #[trigger] keys@[off + q];
                    &&& k.key_type == KeyKind::ForeignKey
                    &&& fk_key_shape(k)
                    &&& k.columns@ == gall[q].from_cols@
                    &&& k.ref_table->Some_0@ == gall[q].ref_table@
                    &&& k.ref_columns->Some_0@ == gall[q].to_cols@
                },
            forall|q: int|
                0 <= q < p ==> {
                    let e = #[trigger] edges@[epre.len() + q];
                    &&& e.from_table@ == table_name@
                    &&& e.from_columns@ == gall[q].from_cols@
                    &&& e.to_table@ == gall[q].ref_table@
                    &&& e.to_columns@ == gall[q].to_cols@
                },
            forall|q: int|
                0 <= q < gall.len() ==> (#[trigger] gall[q]).from_cols@.len()
                    == gall[q].to_cols@.len(),
        decreases groups@.len(),
    {
        proof {
            assert(gall.skip(p as int)[0] == gall[p as int]);
            assert(gall.skip(p as int).drop_first() =~= gall.skip(p as int + 1));
        }
        let g = groups.remove(0);
        let from_for_key = clone_string_vec(&g.from_cols);
        let to_for_key = clone_string_vec(&g.to_cols);
        keys.push(
            TableKey {
                key_type: KeyKind::ForeignKey,
                name: None,
                columns: from_for_key,
                ref_table: Some(g.ref_table.clone()),
                ref_columns: Some(to_for_key),
                unique: None,
            },
        );
        edges.push(
            ForeignKeyEdge {
                from_table: table_name.clone(),
                from_columns: g.from_cols,
                to_table: g.ref_table,
                to_columns: g.to_cols,
            },
        );
        p += 1;
    }
    proof {
        assert(gall.skip(p as int).len() == 0);
        assert(p as int == gall.len());
        let off2 = off;
        assert forall|i: int| 0 <= i < keys@.len() implies match (#[trigger] keys@[i]).key_type {
            KeyKind::PrimaryKey => pk_key_shape(keys@[i]),
            KeyKind::ForeignKey => fk_key_shape(keys@[i]),
            KeyKind::Index => index_key_shape(keys@[i]),
        } by {
            if off2 == 1 && i == 0 {
            } else {
                assert(fk_key_shape(keys@[off2 + (i - off2)]));
            }
        }
        assert forall|i: int, j: int|
            #![trigger keys@[i].key_type, keys@[j].key_type]
            0 <= i < j < keys@.len() implies key_rank(keys@[i].key_type) <= key_rank(
            keys@[j].key_type,
        ) && !(keys@[i].key_type == KeyKind::PrimaryKey && keys@[j].key_type
            == KeyKind::PrimaryKey) by {
            if off2 == 1 && i == 0 {
                assert(fk_key_shape(keys@[off2 + (j - off2)]));
            } else {
                assert(fk_key_shape(keys@[off2 + (i - off2)]));
                assert(fk_key_shape(keys@[off2 + (j - off2)]));
            }
        }
        if pk_cols@.len() == 0 {
            assert forall|i: int| 0 <= i < keys@.len() implies (#[trigger] keys@[i]).key_type
                != KeyKind::PrimaryKey by {
                assert(fk_key_shape(keys@[off2 + i]));
            }
        }
    }
    keys
}

/// Appends one index key: indexes rank last, so a well-formed key list stays
/// well-formed.
pub fn push_index_key(keys: &mut Vec<TableKey>, name: String, unique: bool, cols: Vec<String>)
    requires
        keys_wf(old(keys)@),
    ensures
        keys_wf(final(keys)@),
        final(keys)@.len() == old(keys)@.len() + 1,
        forall|i: int| 0 <= i < old(keys)@.len() ==> #[trigger] final(keys)@[i] == old(keys)@[i],
        final(keys)@.last().key_type == KeyKind::Index,
        final(keys)@.last().name->Some_0@ == name@,
        final(keys)@.last().columns@ == cols@,
        final(keys)@.last().unique->Some_0 == unique,
{
    keys.push(
        TableKey {
            key_type: KeyKind::Index,
            name: Some(name),
            columns: cols,
            ref_table: None,
            ref_columns: None,
            unique: Some(unique),
        },
    );
}

} // verus!
