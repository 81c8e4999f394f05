//! Model of the persisted store and the batch persistence writer.
//!
//! The pipeline persists normalized records with idempotent,
//! identity-keyed upserts: a title row is keyed by (catalog id, ISBN),
//! a holdings row by catalog id alone, and an insert is a no-op when
//! the key is already present (first write wins). This module holds
//! the verified writer over an in-memory image of the two tables; the
//! surrounding program replays exactly the same upserts, in the same
//! order, against the real storage engine inside one transaction per
//! batch.

use vstd::prelude::*;
use crate::records::{
    ParsedRecord, ParsedRecordV, opt_bytes_view,
};

verus! {

/// Key of a title row: catalog identifier and 13-digit ISBN value.
pub type TitleKey = (u64, i64);

/// One row of the title table.
pub struct TitleRow {
    pub oclc_number: u64,
    pub isbn13: i64,
    pub publication_date: Option<i64>,
    pub title: Option<Vec<u8>>,
    pub creator: Option<Vec<u8>>,
}

/// Mathematical image of a title row.
pub struct TitleRowV {
    pub oclc_number: u64,
    pub isbn13: i64,
    pub publication_date: Option<i64>,
    pub title: Option<Seq<u8>>,
    pub creator: Option<Seq<u8>>,
}

impl View for TitleRow {
    type V = TitleRowV;

    open spec fn view(&self) -> TitleRowV {
        TitleRowV {
            oclc_number: self.oclc_number,
            isbn13: self.isbn13,
            publication_date: self.publication_date,
            title: opt_bytes_view(self.title),
            creator: opt_bytes_view(self.creator),
        }
    }
}

/// One row of the holdings table; counts are stored as signed 64-bit.
pub struct HoldingsRow {
    pub oclc_number: u64,
    pub holding_count: i64,
    pub edition_count: i64,
}

/// The title row a given key and title record content persist as.
pub open spec fn title_row_v(
    oclc: u64,
    isbn: i64,
    year: Option<i64>,
    title: Option<Seq<u8>>,
    creator: Option<Seq<u8>>,
) -> TitleRowV {
    TitleRowV { oclc_number: oclc, isbn13: isbn, publication_date: year, title, creator }
}

/// Insert-if-absent: the upsert-or-ignore policy of the store.
pub open spec fn upsert<K, V>(m: Map<K, V>, k: K, v: V) -> Map<K, V> {
    if m.contains_key(k) {
        m
    } else {
        m.insert(k, v)
    }
}

/// Effect of one title record on the title table: one upsert per
/// valid ISBN value, in order, all sharing the record's derived year,
/// title and creator.
pub open spec fn apply_title_isbns(
    m: Map<TitleKey, TitleRowV>,
    oclc: u64,
    isbns: Seq<i64>,
    year: Option<i64>,
    title: Option<Seq<u8>>,
    creator: Option<Seq<u8>>,
) -> Map<TitleKey, TitleRowV>
    decreases isbns.len(),
{
    if isbns.len() == 0 {
        m
    } else {
        upsert(
            apply_title_isbns(m, oclc, isbns.drop_last(), year, title, creator),
            (oclc, isbns.last()),
            title_row_v(oclc, isbns.last(), year, title, creator),
        )
    }
}

/// Effect of one normalized record on the two tables.
pub open spec fn apply_record(
    mt: Map<TitleKey, TitleRowV>,
    mh: Map<u64, HoldingsRow>,
    r: ParsedRecordV,
) -> (Map<TitleKey, TitleRowV>, Map<u64, HoldingsRow>) {
    match r {
        ParsedRecordV::Title { oclc_num, title, creator, isbn, publication_date } => (
            (apply_title_isbns(mt, oclc_num, isbn, publication_date, title, creator), mh)
        ),
        ParsedRecordV::Holdings { oclc_num, holdings } => (
            (
                mt,
                upsert(
                    mh,
                    oclc_num,
                    HoldingsRow {
                        oclc_number: oclc_num,
                        holding_count: holdings.0 as i64,
                        edition_count: holdings.1 as i64,
                    },
                ),
            )
        ),
    }
}

/// Effect of a batch of normalized records, first to last.
pub open spec fn apply_records(
    mt: Map<TitleKey, TitleRowV>,
    mh: Map<u64, HoldingsRow>,
    rs: Seq<ParsedRecordV>,
) -> (Map<TitleKey, TitleRowV>, Map<u64, HoldingsRow>)
    decreases rs.len(),
{
    if rs.len() == 0 {
        (mt, mh)
    } else {
        let prev = apply_records(mt, mh, rs.drop_last());
        apply_record(prev.0, prev.1, rs.last())
    }
}

/// Views of a list of normalized records.
pub open spec fn record_views(rs: Seq<ParsedRecord>) -> Seq<ParsedRecordV> {
    Seq::new(rs.len(), |i: int| rs[i]@)
}

/// In-memory image of the two tables. Rows are kept in insertion
/// order; the maps below are the authoritative reading of each table.
pub struct Database {
    pub isbn_data: Vec<TitleRow>,
    pub holdings_data: Vec<HoldingsRow>,
}

impl Database {
    /// Views of the title rows, in insertion order.
    pub open spec fn title_rows(&self) -> Seq<TitleRowV> {
        Seq::new(self.isbn_data@.len(), |i: int| self.isbn_data@[i]@)
    }

    /// The title table as a map, first write winning.
    pub open spec fn title_map(&self) -> Map<TitleKey, TitleRowV> {
        title_map_of(self.title_rows())
    }

    /// The holdings table as a map, first write winning.
    pub open spec fn holdings_map(&self) -> Map<u64, HoldingsRow> {
        holdings_map_of(self.holdings_data@)
    }

    /// No key appears twice in either table: the upsert-or-ignore
    /// policy keeps exactly one row per identity.
    pub open spec fn wf(&self) -> bool {
        &&& forall|i: int, j: int|
            #![trigger self.title_rows()[i], self.title_rows()[j]]
            0 <= i < j < self.title_rows().len() ==> !(self.title_rows()[i].oclc_number
                == self.title_rows()[j].oclc_number && self.title_rows()[i].isbn13
                == self.title_rows()[j].isbn13)
        &&& forall|i: int, j: int|
            #![trigger self.holdings_data@[i], self.holdings_data@[j]]
            0 <= i < j < self.holdings_data@.len() ==> self.holdings_data@[i].oclc_number
                != self.holdings_data@[j].oclc_number
    }
}

/// The title table that a row list denotes under insert-if-absent.
pub open spec fn title_map_of(rows: Seq<TitleRowV>) -> Map<TitleKey, TitleRowV>
    decreases rows.len(),
{
    if rows.len() == 0 {
        Map::empty()
    } else {
        upsert(
            title_map_of(rows.drop_last()),
            (rows.last().oclc_number, rows.last().isbn13),
            rows.last(),
        )
    }
}

/// The holdings table that a row list denotes under insert-if-absent.
pub open spec fn holdings_map_of(rows: Seq<HoldingsRow>) -> Map<u64, HoldingsRow>
    decreases rows.len(),
{
    if rows.len() == 0 {
        Map::empty()
    } else {
        upsert(holdings_map_of(rows.drop_last()), rows.last().oclc_number, rows.last())
    }
}

/// A key is in the title table exactly when some row carries it.
pub proof fn lemma_title_map_contains(rows: Seq<TitleRowV>, k: TitleKey)
    ensures
        title_map_of(rows).contains_key(k) <==> exists|i: int|
            #![trigger rows[i]]
            0 <= i < rows.len() && rows[i].oclc_number == k.0 && rows[i].isbn13 == k.1,
    decreases rows.len(),
{
    if rows.len() > 0 {
        lemma_title_map_contains(rows.drop_last(), k);
        if title_map_of(rows).contains_key(k) {
            if rows.last().oclc_number == k.0 && rows.last().isbn13 == k.1 {
                assert(rows[rows.len() - 1].oclc_number == k.0);
            } else {
                let i = choose|i: int|
                    0 <= i < rows.drop_last().len() && rows.drop_last()[i].oclc_number == k.0
                        && rows.drop_last()[i].isbn13 == k.1;
                assert(rows[i].oclc_number == k.0 && rows[i].isbn13 == k.1);
            }
        }
        if exists|i: int| 0 <= i < rows.len() && rows[i].oclc_number == k.0 && rows[i].isbn13
            == k.1 {
            let i = choose|i: int|
                0 <= i < rows.len() && rows[i].oclc_number == k.0 && rows[i].isbn13 == k.1;
            if i < rows.len() - 1 {
                assert(rows.drop_last()[i].oclc_number == k.0);
            }
        }
    }
}

/// A key is in the holdings table exactly when some row carries it.
pub proof fn lemma_holdings_map_contains(rows: Seq<HoldingsRow>, k: u64)
    ensures
        holdings_map_of(rows).contains_key(k) <==> exists|i: int|
            #![trigger rows[i]]
            0 <= i < rows.len() && rows[i].oclc_number == k,
    decreases rows.len(),
{
    if rows.len() > 0 {
        lemma_holdings_map_contains(rows.drop_last(), k);
        if holdings_map_of(rows).contains_key(k) {
            if rows.last().oclc_number == k {
                assert(rows[rows.len() - 1].oclc_number == k);
            } else {
                let i = choose|i: int|
                    0 <= i < rows.drop_last().len() && rows.drop_last()[i].oclc_number == k;
                assert(rows[i].oclc_number == k);
            }
        }
        if exists|i: int| 0 <= i < rows.len() && rows[i].oclc_number == k {
            let i = choose|i: int| 0 <= i < rows.len() && rows[i].oclc_number == k;
            if i < rows.len() - 1 {
                assert(rows.drop_last()[i].oclc_number == k);
            }
        }
    }
}

/// Copy a byte string.
pub fn clone_bytes(v: &Vec<u8>) -> (r: Vec<u8>)
    ensures
        r@ == v@,
{
    let mut out: Vec<u8> = Vec::new();
    let mut i: usize = 0;
    while i < v.len()
        invariant
            0 <= i <= v@.len(),
            out@ == v@.subrange(0, i as int),
        decreases v@.len() - i,
    {
        out.push(v[i]);
        proof {
            assert(v@.subrange(0, i as int + 1) =~= v@.subrange(0, i as int).push(v@[i as int]));
        }
        i = i + 1;
    }
    proof {
        assert(v@.subrange(0, v@.len() as int) =~= v@);
    }
    out
}

/// Copy an optional byte string.
pub fn clone_opt_bytes(o: &Option<Vec<u8>>) -> (r: Option<Vec<u8>>)
    ensures
        opt_bytes_view(r) == opt_bytes_view(*o),
{
    match o {
        Some(v) => Some(clone_bytes(v)),
        None => None,
    }
}

/// An empty image of the two tables, as schema initialization leaves
/// the store on first run.
pub fn setup_database() -> (db: Database)
    ensures
        db.title_map() == Map::<TitleKey, TitleRowV>::empty(),
        db.holdings_map() == Map::<u64, HoldingsRow>::empty(),
        db.isbn_data@.len() == 0,
        db.holdings_data@.len() == 0,
        db.wf(),
{
    Database { isbn_data: Vec::new(), holdings_data: Vec::new() }
}

/// Whether the title table already holds the key.
pub fn has_title(db: &Database, oclc: u64, isbn: i64) -> (r: bool)
    ensures
        r == db.title_map().contains_key((oclc, isbn)),
{
    proof {
        lemma_title_map_contains(db.title_rows(), (oclc, isbn));
    }
    let mut i: usize = 0;
    while i < db.isbn_data.len()
        invariant
            0 <= i <= db.isbn_data@.len(),
            forall|j: int|
                0 <= j < i ==> !(db.title_rows()[j].oclc_number == oclc
                    && db.title_rows()[j].isbn13 == isbn),
        decreases db.isbn_data@.len() - i,
    {
        if db.isbn_data[i].oclc_number == oclc && db.isbn_data[i].isbn13 == isbn {
            proof {
                lemma_title_map_contains(db.title_rows(), (oclc, isbn));
                let rows = db.title_rows();
                assert(rows[i as int].oclc_number == oclc && rows[i as int].isbn13 == isbn);
                assert(exists|j: int|
                    0 <= j < rows.len() && rows[j].oclc_number == oclc && rows[j].isbn13 == isbn);
            }
            return true;
        }
        i = i + 1;
    }
    false
}

/// Whether the holdings table already holds the key.
pub fn has_holdings(db: &Database, oclc: u64) -> (r: bool)
    ensures
        r == db.holdings_map().contains_key(oclc),
{
    proof {
        lemma_holdings_map_contains(db.holdings_data@, oclc);
    }
    let mut i: usize = 0;
    while i < db.holdings_data.len()
        invariant
            0 <= i <= db.holdings_data@.len(),
            forall|j: int| 0 <= j < i ==> db.holdings_data@[j].oclc_number != oclc,
        decreases db.holdings_data@.len() - i,
    {
        if db.holdings_data[i].oclc_number == oclc {
            proof {
                lemma_holdings_map_contains(db.holdings_data@, oclc);
                let rows = db.holdings_data@;
                assert(rows[i as int].oclc_number == oclc);
                assert(exists|j: int| 0 <= j < rows.len() && rows[j].oclc_number == oclc);
            }
            return true;
        }
        i = i + 1;
    }
    false
}

/// One idempotent upsert into the title table.
pub fn upsert_title(db: &mut Database, row: TitleRow)
    requires
        old(db).wf(),
    ensures
        final(db).title_map() == upsert(
            old(db).title_map(),
            (row.oclc_number, row.isbn13),
            row@,
        ),
        final(db).holdings_data == old(db).holdings_data,
        final(db).wf(),
{
    let present = has_title(db, row.oclc_number, row.isbn13);
    if !present {
        let ghost before = db.title_rows();
        db.isbn_data.push(row);
        proof {
            assert(db.title_rows().drop_last() =~= before);
            assert(db.title_rows().last() == row@);
            lemma_title_map_contains(before, (row.oclc_number, row.isbn13));
            let rows = db.title_rows();
            assert forall|i: int, j: int|
                #![trigger rows[i], rows[j]]
                0 <= i < j < rows.len() implies !(rows[i].oclc_number == rows[j].oclc_number
                && rows[i].isbn13 == rows[j].isbn13) by {
                if j == rows.len() - 1 {
                    assert(rows[i] == before[i]);
                } else {
                    assert(rows[i] == before[i] && rows[j] == before[j]);
                }
            }
        }
    }
}

/// One idempotent upsert into the holdings table.
pub fn upsert_holdings(db: &mut Database, row: HoldingsRow)
    requires
        old(db).wf(),
    ensures
        final(db).holdings_map() == upsert(old(db).holdings_map(), row.oclc_number, row),
        final(db).isbn_data == old(db).isbn_data,
        final(db).wf(),
{
    let present = has_holdings(db, row.oclc_number);
    if !present {
        let ghost before = db.holdings_data@;
        db.holdings_data.push(row);
        proof {
            assert(db.holdings_data@.drop_last() =~= before);
            lemma_holdings_map_contains(before, row.oclc_number);
            let rows = db.holdings_data@;
            assert forall|i: int, j: int|
                #![trigger rows[i], rows[j]]
                0 <= i < j < rows.len() implies rows[i].oclc_number != rows[j].oclc_number by {
                if j == rows.len() - 1 {
                    assert(rows[i] == before[i]);
                } else {
                    assert(rows[i] == before[i] && rows[j] == before[j]);
                }
            }
        }
    }
}

/// Persist one batch of normalized records: for each title record one
/// upsert per valid ISBN, for each holdings record one upsert, in
/// batch order, all under insert-if-absent.
pub fn store_to_db(db: &mut Database, records: Vec<ParsedRecord>)
    requires
        old(db).wf(),
    ensures
        final(db).wf(),
        (final(db).title_map(), final(db).holdings_map()) == apply_records(
            old(db).title_map(),
            old(db).holdings_map(),
            record_views(records@),
        ),
{
    let ghost mt0 = db.title_map();
    let ghost mh0 = db.holdings_map();
    let ghost views = record_views(records@);
    let mut i: usize = 0;
    while i < records.len()
        invariant
            0 <= i <= records@.len(),
            db.wf(),
            views == record_views(records@),
            (db.title_map(), db.holdings_map()) == apply_records(
                mt0,
                mh0,
                views.subrange(0, i as int),
            ),
        decreases records@.len() - i,
    {
        let ghost mt_i = db.title_map();
        let ghost mh_i = db.holdings_map();
        match &records[i] {
            ParsedRecord::Title { oclc_num, title, creator, isbn, publication_date } => {
                let ghost tv = opt_bytes_view(*title);
                let ghost cv = opt_bytes_view(*creator);
                let mut j: usize = 0;
                while j < isbn.len()
                    invariant
                        0 <= j <= isbn@.len(),
                        db.wf(),
                        tv == opt_bytes_view(*title),
                        cv == opt_bytes_view(*creator),
                        db.title_map() == apply_title_isbns(
                            mt_i,
                            *oclc_num,
                            isbn@.subrange(0, j as int),
                            *publication_date,
                            tv,
                            cv,
                        ),
                        db.holdings_map() == mh_i,
                    decreases isbn@.len() - j,
                {
                    let row = TitleRow {
                        oclc_number: *oclc_num,
                        isbn13: isbn[j],
                        publication_date: *publication_date,
                        title: clone_opt_bytes(title),
                        creator: clone_opt_bytes(creator),
                    };
                    proof {
                        let pre = isbn@.subrange(0, j as int + 1);
                        assert(pre.drop_last() =~= isbn@.subrange(0, j as int));
                        assert(pre.last() == isbn@[j as int]);
                        assert(opt_bytes_view(row.title) == tv);
                        assert(opt_bytes_view(row.creator) == cv);
                        assert(row@ == title_row_v(
                            *oclc_num,
                            isbn@[j as int],
                            *publication_date,
                            tv,
                            cv,
                        ));
                    }
                    upsert_title(db, row);
                    j = j + 1;
                }
                proof {
                    assert(isbn@.subrange(0, isbn@.len() as int) =~= isbn@);
                }
            },
            ParsedRecord::Holdings { oclc_num, holdings } => {
                let row = HoldingsRow {
                    oclc_number: *oclc_num,
                    holding_count: holdings.0 as i64,
                    edition_count: holdings.1 as i64,
                };
                upsert_holdings(db, row);
            },
        }
        proof {
            assert(views.subrange(0, i as int + 1).drop_last() =~= views.subrange(0, i as int));
            assert(views.subrange(0, i as int + 1).last() == records@[i as int]@);
        }
        i = i + 1;
    }
    proof {
        assert(views.subrange(0, views.len() as int) =~= views);
    }
}

} // verus!
