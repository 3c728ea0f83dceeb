//! Feature encoding: each record becomes a fixed-width integer vector and a
//! label, with account ids replaced by their first-seen ordinals.
use vstd::prelude::*;
use crate::graph::first_seen;
use crate::record::{Transaction, spec_tx_type, tx_type_of};

verus! {

/// Width of a feature vector.
pub const FEATURE_WIDTH: usize = 14;

/// Slot of the sender ordinal in a feature vector.
pub const ORIG_SLOT: usize = 7;

/// Slot of the receiver ordinal in a feature vector.
pub const DEST_SLOT: usize = 10;

/// Whether feature slot `j` holds money (amount or a balance, in cents).
pub fn is_money_slot(j: usize) -> (r: bool)
    ensures
        r == (j == 6 || j == 8 || j == 9 || j == 11 || j == 12),
{
    j == 6 || j == 8 || j == 9 || j == 11 || j == 12
}

/// One-hot slot `j` (0..5) for a type label: 1 at the category's slot, 0
/// elsewhere, and 0 everywhere for an unknown label.
pub open spec fn one_hot_at(label: Seq<char>, j: int) -> int {
    match spec_tx_type(label) {
        Some(t) => if t.spec_slot() == j {
            1
        } else {
            0
        },
        None => 0,
    }
}

/// The feature vector of a record whose sender and receiver ordinals are
/// `o` and `d`.
pub open spec fn spec_features(rec: Transaction, o: int, d: int) -> Seq<int> {
    seq![
        rec.step as int,
        one_hot_at(rec.ttype@, 0),
        one_hot_at(rec.ttype@, 1),
        one_hot_at(rec.ttype@, 2),
        one_hot_at(rec.ttype@, 3),
        one_hot_at(rec.ttype@, 4),
        rec.amount as int,
        o,
        rec.old_balance_orig as int,
        rec.new_balance_orig as int,
        d,
        rec.old_balance_dest as int,
        rec.new_balance_dest as int,
        rec.is_flagged_fraud as int,
    ]
}

/// A concrete vector that holds exactly the values of `want`.
pub open spec fn holds(row: Seq<i128>, want: Seq<int>) -> bool {
    &&& row.len() == want.len()
    &&& forall|j: int| #![trigger row[j]] 0 <= j < row.len() ==> row[j] as int == want[j]
}

/// The account ids of a table, as character sequences.
pub open spec fn names(v: Seq<String>) -> Seq<Seq<char>> {
    v.map_values(|s: String| s@)
}

/// Ordinal of `id` in `table`: its position, or 0 when it is absent.
pub open spec fn ordinal(table: Seq<Seq<char>>, id: Seq<char>) -> int {
    if table.contains(id) {
        table.index_of(id)
    } else {
        0
    }
}

/// Sender ids of a record stream, in order.
pub open spec fn orig_ids(recs: Seq<Transaction>) -> Seq<Seq<char>> {
    Seq::new(recs.len(), |i: int| recs[i].name_orig@)
}

/// Receiver ids of a record stream, in order.
pub open spec fn dest_ids(recs: Seq<Transaction>) -> Seq<Seq<char>> {
    Seq::new(recs.len(), |i: int| recs[i].name_dest@)
}

/// The five one-hot slots of a type label.
pub fn one_hot(label: &String) -> (r: Vec<i128>)
    ensures
        r@.len() == 5,
        forall|j: int| #![trigger r@[j]] 0 <= j < 5 ==> r@[j] as int == one_hot_at(label@, j),
{
    let t = tx_type_of(label);
    let mut r: Vec<i128> = Vec::new();
    let mut j: usize = 0;
    while j < 5
        invariant
            t == spec_tx_type(label@),
            j <= 5,
            r@.len() == j,
            forall|i: int| #![trigger r@[i]] 0 <= i < j ==> r@[i] as int == one_hot_at(label@, i),
        decreases 5 - j,
    {
        let bit: i128 = match t {
            Some(c) => if c.slot() == j {
                1
            } else {
                0
            },
            None => 0,
        };
        r.push(bit);
        j = j + 1;
    }
    r
}

/// Encodes one record with the given sender and receiver ordinals.
pub fn features_with(rec: &Transaction, o: usize, d: usize) -> (r: Vec<i128>)
    ensures
        holds(r@, spec_features(*rec, o as int, d as int)),
{
    let h = one_hot(&rec.ttype);
    let mut r: Vec<i128> = Vec::new();
    r.push(rec.step as i128);
    r.push(h[0]);
    r.push(h[1]);
    r.push(h[2]);
    r.push(h[3]);
    r.push(h[4]);
    r.push(rec.amount as i128);
    r.push(o as i128);
    r.push(rec.old_balance_orig as i128);
    r.push(rec.new_balance_orig as i128);
    r.push(d as i128);
    r.push(rec.old_balance_dest as i128);
    r.push(rec.new_balance_dest as i128);
    r.push(rec.is_flagged_fraud as i128);
    assert(holds(r@, spec_features(*rec, o as int, d as int))) by {
        let _h = (h@[0], h@[1], h@[2], h@[3], h@[4]);
    }
    r
}

/// The position of `id` in `table`, if it is there.
fn find_id(table: &Vec<String>, id: &String) -> (r: Option<usize>)
    ensures
        r is None <==> !names(table@).contains(id@),
        r matches Some(i) ==> i < table@.len() && table@[i as int]@ == id@,
{
    let mut i: usize = 0;
    while i < table.len()
        invariant
            i <= table@.len(),
            forall|j: int| 0 <= j < i ==> table@[j]@ != id@,
        decreases table@.len() - i,
    {
        if table[i] == *id {
            assert(names(table@)[i as int] == id@);
            return Some(i);
        }
        i = i + 1;
    }
    assert(!names(table@).contains(id@)) by {
        if names(table@).contains(id@) {
            let j = choose|j: int| 0 <= j < names(table@).len() && names(table@)[j] == id@;
            assert(table@[j]@ == id@);
        }
    }
    None
}

/// The ordinal of `id`, appended to the table when it is new.
fn ordinal_or_insert(table: &mut Vec<String>, id: &String) -> (r: usize)
    requires
        names(old(table)@).no_duplicates(),
    ensures
        names(final(table)@) == if names(old(table)@).contains(id@) {
            names(old(table)@)
        } else {
            names(old(table)@).push(id@)
        },
        names(final(table)@).no_duplicates(),
        r < final(table)@.len(),
        names(final(table)@)[r as int] == id@,
{
    match find_id(table, id) {
        Some(i) => i,
        None => {
            let i = table.len();
            table.push(id.clone());
            assert(names(table@) =~= names(old(table)@).push(id@));
            i
        },
    }
}

/// In a table without repeats, the entry at `o` has ordinal `o`.
proof fn lemma_ordinal_at(table: Seq<Seq<char>>, o: int)
    requires
        table.no_duplicates(),
        0 <= o < table.len(),
    ensures
        ordinal(table, table[o]) == o,
{
    assert(table.contains(table[o]));
}

/// The id-to-ordinal tables of one encoding pass, senders and receivers
/// apart, each in first-seen order.
pub struct EncodingTables {
    orig: Vec<String>,
    dest: Vec<String>,
}

impl EncodingTables {
    pub closed spec fn orig_table(&self) -> Seq<Seq<char>> {
        names(self.orig@)
    }

    pub closed spec fn dest_table(&self) -> Seq<Seq<char>> {
        names(self.dest@)
    }

    pub open spec fn wf(&self) -> bool {
        self.orig_table().no_duplicates() && self.dest_table().no_duplicates()
    }

    pub fn new() -> (r: EncodingTables)
        ensures
            r.wf(),
            r.orig_table() == Seq::<Seq<char>>::empty(),
            r.dest_table() == Seq::<Seq<char>>::empty(),
    {
        let r = EncodingTables { orig: Vec::new(), dest: Vec::new() };
        assert(names(r.orig@) =~= Seq::<Seq<char>>::empty());
        assert(names(r.dest@) =~= Seq::<Seq<char>>::empty());
        r
    }

    /// The sender ordinal of `id`; 0 for an id the table has not seen.
    pub fn orig_ordinal(&self, id: &String) -> (r: usize)
        requires
            self.wf(),
        ensures
            r as int == ordinal(self.orig_table(), id@),
    {
        match find_id(&self.orig, id) {
            Some(i) => {
                proof { lemma_ordinal_at(self.orig_table(), i as int); }
                i
            },
            None => 0,
        }
    }

    /// The receiver ordinal of `id`; 0 for an id the table has not seen.
    pub fn dest_ordinal(&self, id: &String) -> (r: usize)
        requires
            self.wf(),
        ensures
            r as int == ordinal(self.dest_table(), id@),
    {
        match find_id(&self.dest, id) {
            Some(i) => {
                proof { lemma_ordinal_at(self.dest_table(), i as int); }
                i
            },
            None => 0,
        }
    }

    /// Encodes a record against these tables, unknown ids as ordinal 0.
    pub fn encode(&self, rec: &Transaction) -> (r: Vec<i128>)
        requires
            self.wf(),
        ensures
            holds(
                r@,
                spec_features(
                    *rec,
                    ordinal(self.orig_table(), rec.name_orig@),
                    ordinal(self.dest_table(), rec.name_dest@),
                ),
            ),
    {
        let o = self.orig_ordinal(&rec.name_orig);
        let d = self.dest_ordinal(&rec.name_dest);
        features_with(rec, o, d)
    }
}

/// Whether `rows`, `labels` and `tables` are the encoding of `recs`: the
/// tables list the ids in first-seen order, and row `i` holds the features
/// of record `i` under those tables, with its fraud marker as label.
pub open spec fn encodes(
    recs: Seq<Transaction>,
    tables: EncodingTables,
    rows: Seq<Vec<i128>>,
    labels: Seq<u8>,
) -> bool {
    &&& tables.wf()
    &&& tables.orig_table() == first_seen(orig_ids(recs))
    &&& tables.dest_table() == first_seen(dest_ids(recs))
    &&& rows.len() == recs.len()
    &&& labels.len() == recs.len()
    &&& forall|i: int|
        #![trigger rows[i]]
        0 <= i < recs.len() ==> holds(
            rows[i]@,
            spec_features(
                recs[i],
                ordinal(tables.orig_table(), recs[i].name_orig@),
                ordinal(tables.dest_table(), recs[i].name_dest@),
            ),
        )
    &&& forall|i: int| #![trigger labels[i]] 0 <= i < recs.len() ==> labels[i] == recs[i].is_fraud
}

/// Row `row` holds the features of `rec` with some ordinals whose entries in
/// the two tables are the record's ids.
spec fn placed(row: Seq<i128>, rec: Transaction, ot: Seq<Seq<char>>, dt: Seq<Seq<char>>) -> bool {
    &&& row.len() == FEATURE_WIDTH
    &&& 0 <= row[ORIG_SLOT as int] < ot.len()
    &&& ot[row[ORIG_SLOT as int] as int] == rec.name_orig@
    &&& 0 <= row[DEST_SLOT as int] < dt.len()
    &&& dt[row[DEST_SLOT as int] as int] == rec.name_dest@
    &&& holds(row, spec_features(rec, row[ORIG_SLOT as int] as int, row[DEST_SLOT as int] as int))
}

/// Encodes a record stream in one pass, growing the id tables as ids are
/// first seen and emitting one feature row and one label per record.
pub fn fit_encode(records: &Vec<Transaction>) -> (r: (EncodingTables, Vec<Vec<i128>>, Vec<u8>))
    ensures
        encodes(records@, r.0, r.1@, r.2@),
{
    let ghost recs = records@;
    let mut tables = EncodingTables::new();
    let mut rows: Vec<Vec<i128>> = Vec::new();
    let mut labels: Vec<u8> = Vec::new();
    let mut k: usize = 0;
    while k < records.len()
        invariant
            recs == records@,
            k <= recs.len(),
            tables.wf(),
            tables.orig_table() == first_seen(orig_ids(recs.take(k as int))),
            tables.dest_table() == first_seen(dest_ids(recs.take(k as int))),
            rows@.len() == k,
            labels@.len() == k,
            forall|i: int|
                #![trigger rows@[i]]
                0 <= i < k ==> placed(rows@[i]@, recs[i], tables.orig_table(), tables.dest_table()),
            forall|i: int| #![trigger labels@[i]] 0 <= i < k ==> labels@[i] == recs[i].is_fraud,
        decreases recs.len() - k,
    {
        let rec = &records[k];
        let ghost ot0 = tables.orig_table();
        let ghost dt0 = tables.dest_table();
        let o = ordinal_or_insert(&mut tables.orig, &rec.name_orig);
        let d = ordinal_or_insert(&mut tables.dest, &rec.name_dest);
        let row = features_with(rec, o, d);
        proof {
            let next = recs.take(k + 1);
            assert(orig_ids(next).drop_last() =~= orig_ids(recs.take(k as int)));
            assert(dest_ids(next).drop_last() =~= dest_ids(recs.take(k as int)));
            assert(orig_ids(next).last() == rec.name_orig@);
            assert(dest_ids(next).last() == rec.name_dest@);
            assert forall|i: int| 0 <= i < k implies placed(
                #[trigger] rows@[i]@,
                recs[i],
                tables.orig_table(),
                tables.dest_table(),
            ) by {
                let row_i = rows@[i]@;
                assert(ot0[row_i[ORIG_SLOT as int] as int] == tables.orig_table()[row_i[ORIG_SLOT as int] as int]);
                assert(dt0[row_i[DEST_SLOT as int] as int] == tables.dest_table()[row_i[DEST_SLOT as int] as int]);
            }
            assert(row@[ORIG_SLOT as int] == o as i128);
            assert(row@[DEST_SLOT as int] == d as i128);
        }
        rows.push(row);
        labels.push(rec.is_fraud);
        k = k + 1;
    }
    proof {
        assert(recs.take(recs.len() as int) =~= recs);
        assert forall|i: int| 0 <= i < recs.len() implies holds(
            #[trigger] rows@[i]@,
            spec_features(
                recs[i],
                ordinal(tables.orig_table(), recs[i].name_orig@),
                ordinal(tables.dest_table(), recs[i].name_dest@),
            ),
        ) by {
            let row_i = rows@[i]@;
            lemma_ordinal_at(tables.orig_table(), row_i[ORIG_SLOT as int] as int);
            lemma_ordinal_at(tables.dest_table(), row_i[DEST_SLOT as int] as int);
        }
    }
    (tables, rows, labels)
}

/// For a known category exactly one of the five one-hot slots is 1 and the
/// other four are 0; for an unknown label all five are 0.
pub proof fn lemma_one_hot_exact(label: Seq<char>)
    ensures
        spec_tx_type(label) is Some ==> exists|j: int|
            0 <= j < 5 && #[trigger] one_hot_at(label, j) == 1 && forall|m: int|
                0 <= m < 5 && m != j ==> #[trigger] one_hot_at(label, m) == 0,
        spec_tx_type(label) is None ==> forall|m: int|
            0 <= m < 5 ==> #[trigger] one_hot_at(label, m) == 0,
{
    if let Some(t) = spec_tx_type(label) {
        let j = t.spec_slot() as int;
        assert(one_hot_at(label, j) == 1);
    }
}

/// Encoding is stable per account: two records with the same sender get the
/// same sender ordinal, and two with the same receiver the same receiver
/// ordinal.
pub proof fn lemma_same_account_same_ordinal(
    recs: Seq<Transaction>,
    tables: EncodingTables,
    rows: Seq<Vec<i128>>,
    labels: Seq<u8>,
    i: int,
    j: int,
)
    requires
        encodes(recs, tables, rows, labels),
        0 <= i < recs.len(),
        0 <= j < recs.len(),
    ensures
        recs[i].name_orig@ == recs[j].name_orig@ ==> rows[i]@[ORIG_SLOT as int]
            == rows[j]@[ORIG_SLOT as int],
        recs[i].name_dest@ == recs[j].name_dest@ ==> rows[i]@[DEST_SLOT as int]
            == rows[j]@[DEST_SLOT as int],
{
    let ri = rows[i]@;
    let rj = rows[j]@;
    assert(ri[ORIG_SLOT as int] as int == ordinal(tables.orig_table(), recs[i].name_orig@));
    assert(rj[ORIG_SLOT as int] as int == ordinal(tables.orig_table(), recs[j].name_orig@));
    assert(ri[DEST_SLOT as int] as int == ordinal(tables.dest_table(), recs[i].name_dest@));
    assert(rj[DEST_SLOT as int] as int == ordinal(tables.dest_table(), recs[j].name_dest@));
}

} // verus!
