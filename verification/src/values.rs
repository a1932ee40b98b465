use vstd::prelude::*;

verus! {

// ---------------------------------------------------------------------------
// Tagged values decoded from engine rows. A raw value carries what the engine
// handed back (a real number as its bit pattern, text and blobs as bytes); a
// decoded value is JSON-ready: text made lossily valid, blobs base64-encoded.
// ---------------------------------------------------------------------------

/// An engine-native row value, as plain data.
#[derive(Debug, PartialEq, Eq)]
pub enum RawValue {
    Null,
    Integer(i64),
    /// A real number, carried opaquely as its IEEE 754 bit pattern.
    Real(u64),
    /// Text as raw bytes, not yet checked for valid UTF-8.
    Text(Vec<u8>),
    Blob(Vec<u8>),
}

/// A JSON-compatible tagged value.
#[derive(Debug, PartialEq, Eq)]
pub enum SqlValue {
    Null,
    Integer(i64),
    /// A real number, carried opaquely as its IEEE 754 bit pattern.
    Real(u64),
    Text(String),
    /// A binary payload, encoded as base64 text.
    Blob(String),
}

impl Clone for SqlValue {
    /// A clone denotes the same tagged value.
    fn clone(&self) -> (r: Self)
        ensures
            r == *self,
    {
        match self {
            SqlValue::Null => SqlValue::Null,
            SqlValue::Integer(i) => SqlValue::Integer(*i),
            SqlValue::Real(bits) => SqlValue::Real(*bits),
            SqlValue::Text(t) => SqlValue::Text(t.clone()),
            SqlValue::Blob(t) => SqlValue::Blob(t.clone()),
        }
    }
}

/// The base64 text that encodes a byte string; it depends on the bytes alone.
pub uninterp spec fn base64_of(b: Seq<u8>) -> Seq<char>;

/// The characters that a byte string decodes to as UTF-8, invalid sequences
/// replaced; the result depends on the bytes alone.
pub uninterp spec fn utf8_lossy_of(b: Seq<u8>) -> Seq<char>;

/// Relies on base64's `Engine::encode` with the standard alphabet: the
/// encoding of a byte string depends on the bytes alone, and no bytes encode
/// to the empty string.
#[verifier::external_body]
fn base64_encode(b: &Vec<u8>) -> (r: String)
    ensures
        r@ == base64_of(b@),
        b@.len() == 0 ==> r@.len() == 0,
{
    base64::engine::Engine::encode(&base64::engine::general_purpose::STANDARD, b)
}

/// Relies on std's `String::from_utf8_lossy`: the result depends on the bytes
/// alone, and empty input gives the empty string.
#[verifier::external_body]
fn utf8_lossy(b: &Vec<u8>) -> (r: String)
    ensures
        r@ == utf8_lossy_of(b@),
        b@.len() == 0 ==> r@.len() == 0,
{
    String::from_utf8_lossy(b).into_owned()
}

/// `v` is the decoding of `raw`: tags and payloads carried over, text decoded
/// lossily, blobs base64-encoded.
pub open spec fn decodes_to(raw: RawValue, v: SqlValue) -> bool {
    match raw {
        RawValue::Null => v == SqlValue::Null,
        RawValue::Integer(i) => v == SqlValue::Integer(i),
        RawValue::Real(bits) => v == SqlValue::Real(bits),
        RawValue::Text(b) => v matches SqlValue::Text(t) && t@ == utf8_lossy_of(b@),
        RawValue::Blob(b) => v matches SqlValue::Blob(t) && t@ == base64_of(b@),
    }
}

/// Decodes one engine-native value into its JSON-compatible form.
pub fn decode_value(raw: RawValue) -> (r: SqlValue)
    ensures
        decodes_to(raw, r),
{
    match raw {
        RawValue::Null => SqlValue::Null,
        RawValue::Integer(i) => SqlValue::Integer(i),
        RawValue::Real(bits) => SqlValue::Real(bits),
        RawValue::Text(b) => SqlValue::Text(utf8_lossy(&b)),
        RawValue::Blob(b) => SqlValue::Blob(base64_encode(&b)),
    }
}

// ---------------------------------------------------------------------------
// A decoded row: a name-keyed mapping of values. Duplicate column names
// collapse to one entry, the last write winning.
// ---------------------------------------------------------------------------

pub open spec fn names_unique(es: Seq<(String, SqlValue)>) -> bool {
    forall|i: int, j: int| 0 <= i < j < es.len() ==> es[i].0@ != es[j].0@
}

/// The mapping that a sequence of entries denotes, later entries winning.
pub open spec fn map_of_entries(es: Seq<(String, SqlValue)>) -> Map<Seq<char>, SqlValue>
    decreases es.len(),
{
    if es.len() == 0 {
        Map::empty()
    } else {
        map_of_entries(es.drop_last()).insert(es.last().0@, es.last().1)
    }
}

/// The mapping that pairing `cols` with `vals` denotes, the last write to a
/// repeated name winning.
pub open spec fn row_map_spec(cols: Seq<String>, vals: Seq<SqlValue>) -> Map<
    Seq<char>,
    SqlValue,
>
    decreases cols.len(),
{
    if cols.len() == 0 || vals.len() == 0 {
        Map::empty()
    } else {
        row_map_spec(cols.drop_last(), vals.drop_last()).insert(cols.last()@, vals.last())
    }
}

/// The names that `cols` holds, as views.
pub open spec fn col_name_set(cols: Seq<String>) -> Set<Seq<char>> {
    Set::new(|n: Seq<char>| exists|i: int| 0 <= i < cols.len() && cols[i]@ == n)
}

/// A row mapping's keys all come from the column-name list.
pub proof fn lemma_row_map_dom(cols: Seq<String>, vals: Seq<SqlValue>)
    ensures
        row_map_spec(cols, vals).dom() <= col_name_set(cols),
    decreases cols.len(),
{
    if cols.len() == 0 || vals.len() == 0 {
        assert(row_map_spec(cols, vals).dom() =~= Set::<Seq<char>>::empty());
    } else {
        lemma_row_map_dom(cols.drop_last(), vals.drop_last());
        assert forall|n: Seq<char>| row_map_spec(cols, vals).dom().contains(n) implies col_name_set(
            cols,
        ).contains(n) by {
            if n == cols.last()@ {
                assert(cols[cols.len() - 1]@ == n);
            } else {
                assert(row_map_spec(cols.drop_last(), vals.drop_last()).dom().contains(n));
                assert(col_name_set(cols.drop_last()).contains(n));
                let i = choose|i: int|
                    0 <= i < cols.drop_last().len() && cols.drop_last()[i]@ == n;
                assert(cols[i]@ == n);
            }
        }
    }
}

/// One decoded row: distinct column names, each mapped to a value.
#[derive(Debug, PartialEq, Eq)]
pub struct SqlRow {
    pub entries: Vec<(String, SqlValue)>,
}

impl SqlRow {
    pub open spec fn wf(self) -> bool {
        names_unique(self.entries@)
    }

    pub open spec fn as_map(self) -> Map<Seq<char>, SqlValue> {
        map_of_entries(self.entries@)
    }
}

proof fn lemma_map_update(es: Seq<(String, SqlValue)>, i: int, nm: String, v: SqlValue)
    requires
        names_unique(es),
        0 <= i < es.len(),
        nm@ == es[i].0@,
    ensures
        map_of_entries(es.update(i, (nm, v))) =~= map_of_entries(es).insert(nm@, v),
    decreases es.len(),
{
    let es2 = es.update(i, (nm, v));
    if i == es.len() - 1 {
        assert(es2.drop_last() =~= es.drop_last());
    } else {
        assert(es2.drop_last() =~= es.drop_last().update(i, (nm, v)));
        assert(names_unique(es.drop_last()));
        lemma_map_update(es.drop_last(), i, nm, v);
        assert(es.last().0@ != es[i].0@);
        assert(es2.last() == es.last());
    }
}

/// Builds the row mapping for one fetched row: pairs each column name with the
/// decoded value at its position, the last write to a repeated name winning.
pub fn build_row(cols: &Vec<String>, vals: Vec<SqlValue>) -> (r: SqlRow)
    requires
        vals@.len() == cols@.len(),
    ensures
        r.wf(),
        r.as_map() == row_map_spec(cols@, vals@),
        r.entries@.len() <= cols@.len(),
{
    let n = cols.len();
    let mut row = SqlRow { entries: Vec::new() };
    let mut k: usize = 0;
    while k < n
        invariant
            n == cols@.len() == vals@.len(),
            0 <= k <= n,
            row.wf(),
            row.entries@.len() <= k,
            row.as_map() =~= row_map_spec(cols@.take(k as int), vals@.take(k as int)),
        decreases n - k,
    {
        let ghost pre = row.entries@;
        let name = &cols[k];
        let mut found: Option<usize> = None;
        let mut j: usize = 0;
        while j < row.entries.len() && found.is_none()
            invariant
                0 <= j <= row.entries@.len(),
                match found {
                    Some(p) => p < row.entries@.len() && row.entries@[p as int].0@ == name@,
                    None => forall|m: int| 0 <= m < j ==> row.entries@[m].0@ != name@,
                },
                row.entries@ == pre,
                k < n == cols@.len(),
                name@ == cols@[k as int]@,
            decreases row.entries@.len() - j + (if found is None {
                1int
            } else {
                0int
            }),
        {
            if row.entries[j].0.eq(name) {
                found = Some(j);
            } else {
                j += 1;
            }
        }
        proof {
            assert(cols@.take(k as int + 1).drop_last() =~= cols@.take(k as int));
            assert(vals@.take(k as int + 1).drop_last() =~= vals@.take(k as int));
            assert(cols@.take(k as int + 1).last() == cols@[k as int]);
        }
        match found {
            Some(p) => {
                let val = vals[k].clone();
                let nm = name.clone();
                let ghost old_entries = row.entries@;
                row.entries.set(p, (nm, val));
                proof {
                    lemma_map_update(old_entries, p as int, cols@[k as int], vals@[k as int]);
                    assert(row.entries@ =~= old_entries.update(
                        p as int,
                        (cols@[k as int], vals@[k as int]),
                    ));
                }
            },
            None => {
                let val = vals[k].clone();
                row.entries.push((name.clone(), val));
                proof {
                    assert(row.entries@.drop_last() =~= pre);
                }
            },
        }
        k += 1;
    }
    proof {
        assert(cols@.take(n as int) =~= cols@);
        assert(vals@.take(n as int) =~= vals@);
    }
    row
}

} // verus!
