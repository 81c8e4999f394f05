//! Laws of the persistence model.
//!
//! The pipeline relies on idempotent identity-keyed upserts instead of
//! replay order or exactly-once delivery. The proofs here pin that
//! down: a title record persists exactly one row per valid ISBN, all
//! rows of one record share its derived year, title and creator, an
//! ISBN string yields a row exactly when it reads as an in-range
//! 13-digit value, and re-applying a record list to the store changes
//! nothing.

use vstd::prelude::*;
use crate::records::{ParsedRecordV, TitleRecordV, spec_isbn13, spec_normalize_title, spec_valid_isbns};
use crate::store::{
    HoldingsRow, TitleKey, TitleRowV, apply_record, apply_records, apply_title_isbns, title_row_v,
    upsert,
};

verus! {

/// A sequence holds a value exactly when its front part does or its
/// last element is it.
pub proof fn lemma_seq_contains_drop_last<T>(s: Seq<T>, v: T)
    requires
        s.len() > 0,
    ensures
        s.contains(v) <==> (s.drop_last().contains(v) || s.last() == v),
{
    if s.contains(v) {
        let i = choose|i: int| 0 <= i < s.len() && s[i] == v;
        if i < s.len() - 1 {
            assert(s.drop_last()[i] == v);
        }
    }
    if s.drop_last().contains(v) {
        let i = choose|i: int| 0 <= i < s.drop_last().len() && s.drop_last()[i] == v;
        assert(s[i] == v);
    }
    if s.last() == v {
        assert(s[s.len() - 1] == v);
    }
}

/// The catalog identifier a normalized record carries.
pub open spec fn rec_oclc(r: ParsedRecordV) -> u64 {
    match r {
        ParsedRecordV::Title { oclc_num, .. } => oclc_num,
        ParsedRecordV::Holdings { oclc_num, .. } => oclc_num,
    }
}

/// Title keys that one normalized record upserts.
pub open spec fn rec_title_keys(r: ParsedRecordV) -> Set<TitleKey> {
    match r {
        ParsedRecordV::Title { oclc_num, isbn, .. } => (
            Set::new(|k: TitleKey| k.0 == oclc_num && isbn.contains(k.1))
        ),
        ParsedRecordV::Holdings { .. } => Set::empty(),
    }
}

/// Holdings keys that one normalized record upserts.
pub open spec fn rec_holdings_keys(r: ParsedRecordV) -> Set<u64> {
    match r {
        ParsedRecordV::Title { .. } => Set::empty(),
        ParsedRecordV::Holdings { oclc_num, .. } => Set::new(|k: u64| k == oclc_num),
    }
}

/// Title keys that a record list upserts.
pub open spec fn recs_title_keys(rs: Seq<ParsedRecordV>) -> Set<TitleKey>
    decreases rs.len(),
{
    if rs.len() == 0 {
        Set::empty()
    } else {
        recs_title_keys(rs.drop_last()).union(rec_title_keys(rs.last()))
    }
}

/// Holdings keys that a record list upserts.
pub open spec fn recs_holdings_keys(rs: Seq<ParsedRecordV>) -> Set<u64>
    decreases rs.len(),
{
    if rs.len() == 0 {
        Set::empty()
    } else {
        recs_holdings_keys(rs.drop_last()).union(rec_holdings_keys(rs.last()))
    }
}

/// Upserting a title record's ISBNs keeps every present row untouched
/// (first write wins), adds exactly the record's keys, and writes the
/// record's own content into every row it adds.
pub proof fn lemma_apply_isbns_frame(
    m: Map<TitleKey, TitleRowV>,
    oclc: u64,
    isbns: Seq<i64>,
    year: Option<i64>,
    title: Option<Seq<u8>>,
    creator: Option<Seq<u8>>,
)
    ensures
        ({
            let m2 = apply_title_isbns(m, oclc, isbns, year, title, creator);
            &&& forall|k: TitleKey|
                m.contains_key(k) ==> #[trigger] m2.contains_key(k) && m2[k] == m[k]
            &&& forall|k: TitleKey|
                #[trigger] m2.contains_key(k) <==> (m.contains_key(k) || (k.0 == oclc
                    && isbns.contains(k.1)))
            &&& forall|k: TitleKey|
                #[trigger] m2.contains_key(k) && !m.contains_key(k) ==> m2[k] == title_row_v(
                    oclc,
                    k.1,
                    year,
                    title,
                    creator,
                )
        }),
    decreases isbns.len(),
{
    if isbns.len() > 0 {
        lemma_apply_isbns_frame(m, oclc, isbns.drop_last(), year, title, creator);
        let rest = apply_title_isbns(m, oclc, isbns.drop_last(), year, title, creator);
        let m2 = apply_title_isbns(m, oclc, isbns, year, title, creator);
        assert(m2 == upsert(
            rest,
            (oclc, isbns.last()),
            title_row_v(oclc, isbns.last(), year, title, creator),
        ));
        assert forall|k: TitleKey| #[trigger] m2.contains_key(k) implies (m.contains_key(k) || (
        k.0 == oclc && isbns.contains(k.1))) by {
            if !m.contains_key(k) {
                if rest.contains_key(k) {
                    lemma_seq_contains_drop_last(isbns, k.1);
                } else {
                    assert(k == (oclc, isbns.last()));
                    assert(isbns[isbns.len() - 1] == k.1);
                }
            }
        }
        assert forall|k: TitleKey| (m.contains_key(k) || (k.0 == oclc && isbns.contains(
            k.1,
        ))) implies #[trigger] m2.contains_key(k) by {
            if !m.contains_key(k) && k.0 == oclc && isbns.contains(k.1) {
                lemma_seq_contains_drop_last(isbns, k.1);
                if isbns.drop_last().contains(k.1) {
                    assert(rest.contains_key(k));
                } else {
                    assert(k.1 == isbns.last());
                }
            }
        }
    }
}

/// Upserting ISBNs whose keys are all present changes nothing.
pub proof fn lemma_apply_isbns_noop(
    m: Map<TitleKey, TitleRowV>,
    oclc: u64,
    isbns: Seq<i64>,
    year: Option<i64>,
    title: Option<Seq<u8>>,
    creator: Option<Seq<u8>>,
)
    requires
        forall|v: i64| isbns.contains(v) ==> m.contains_key((oclc, v)),
    ensures
        apply_title_isbns(m, oclc, isbns, year, title, creator) == m,
    decreases isbns.len(),
{
    if isbns.len() > 0 {
        assert forall|v: i64| isbns.drop_last().contains(v) implies m.contains_key(
            (oclc, v),
        ) by {
            lemma_seq_contains_drop_last(isbns, v);
        }
        lemma_apply_isbns_noop(m, oclc, isbns.drop_last(), year, title, creator);
        assert(isbns[isbns.len() - 1] == isbns.last());
        assert(isbns.contains(isbns.last()));
        assert(m.contains_key((oclc, isbns.last())));
    }
}

/// One record's upserts keep present rows and add exactly its keys.
pub proof fn lemma_apply_record_grows(
    mt: Map<TitleKey, TitleRowV>,
    mh: Map<u64, HoldingsRow>,
    r: ParsedRecordV,
)
    ensures
        ({
            let res = apply_record(mt, mh, r);
            &&& forall|k: TitleKey|
                #[trigger] res.0.contains_key(k) <==> (mt.contains_key(k)
                    || rec_title_keys(r).contains(k))
            &&& forall|k: u64|
                #[trigger] res.1.contains_key(k) <==> (mh.contains_key(k)
                    || rec_holdings_keys(r).contains(k))
        }),
{
    match r {
        ParsedRecordV::Title { oclc_num, title, creator, isbn, publication_date } => {
            lemma_apply_isbns_frame(mt, oclc_num, isbn, publication_date, title, creator);
        },
        ParsedRecordV::Holdings { .. } => {},
    }
}

/// A record whose keys are all present changes nothing.
pub proof fn lemma_apply_record_noop(
    mt: Map<TitleKey, TitleRowV>,
    mh: Map<u64, HoldingsRow>,
    r: ParsedRecordV,
)
    requires
        forall|k: TitleKey| rec_title_keys(r).contains(k) ==> mt.contains_key(k),
        forall|k: u64| rec_holdings_keys(r).contains(k) ==> mh.contains_key(k),
    ensures
        apply_record(mt, mh, r) == (mt, mh),
{
    match r {
        ParsedRecordV::Title { oclc_num, title, creator, isbn, publication_date } => {
            assert forall|v: i64| isbn.contains(v) implies mt.contains_key((oclc_num, v)) by {
                assert(rec_title_keys(r).contains((oclc_num, v)));
            }
            lemma_apply_isbns_noop(mt, oclc_num, isbn, publication_date, title, creator);
        },
        ParsedRecordV::Holdings { oclc_num, .. } => {
            assert(rec_holdings_keys(r).contains(oclc_num));
        },
    }
}

/// A record list's upserts keep present rows and add exactly its keys.
pub proof fn lemma_apply_records_grows(
    mt: Map<TitleKey, TitleRowV>,
    mh: Map<u64, HoldingsRow>,
    rs: Seq<ParsedRecordV>,
)
    ensures
        ({
            let res = apply_records(mt, mh, rs);
            &&& forall|k: TitleKey|
                #[trigger] res.0.contains_key(k) <==> (mt.contains_key(k)
                    || recs_title_keys(rs).contains(k))
            &&& forall|k: u64|
                #[trigger] res.1.contains_key(k) <==> (mh.contains_key(k)
                    || recs_holdings_keys(rs).contains(k))
        }),
    decreases rs.len(),
{
    if rs.len() > 0 {
        lemma_apply_records_grows(mt, mh, rs.drop_last());
        let prev = apply_records(mt, mh, rs.drop_last());
        lemma_apply_record_grows(prev.0, prev.1, rs.last());
    }
}

/// A record list whose keys are all present changes nothing.
pub proof fn lemma_apply_records_noop(
    mt: Map<TitleKey, TitleRowV>,
    mh: Map<u64, HoldingsRow>,
    rs: Seq<ParsedRecordV>,
)
    requires
        forall|k: TitleKey| recs_title_keys(rs).contains(k) ==> mt.contains_key(k),
        forall|k: u64| recs_holdings_keys(rs).contains(k) ==> mh.contains_key(k),
    ensures
        apply_records(mt, mh, rs) == (mt, mh),
    decreases rs.len(),
{
    if rs.len() > 0 {
        assert forall|k: TitleKey| recs_title_keys(rs.drop_last()).contains(k) implies
            mt.contains_key(k) by {
            assert(recs_title_keys(rs).contains(k));
        }
        assert forall|k: u64| recs_holdings_keys(rs.drop_last()).contains(k) implies
            mh.contains_key(k) by {
            assert(recs_holdings_keys(rs).contains(k));
        }
        lemma_apply_records_noop(mt, mh, rs.drop_last());
        assert forall|k: TitleKey| rec_title_keys(rs.last()).contains(k) implies mt.contains_key(
            k,
        ) by {
            assert(recs_title_keys(rs).contains(k));
        }
        assert forall|k: u64| rec_holdings_keys(rs.last()).contains(k) implies mh.contains_key(
            k,
        ) by {
            assert(recs_holdings_keys(rs).contains(k));
        }
        lemma_apply_record_noop(mt, mh, rs.last());
    }
}

/// Idempotence of the whole run: applying the same normalized records
/// to the store a second time leaves every table exactly as the first
/// application left it — no duplicate rows, no overwritten values.
pub proof fn lemma_store_idempotent(
    mt: Map<TitleKey, TitleRowV>,
    mh: Map<u64, HoldingsRow>,
    rs: Seq<ParsedRecordV>,
)
    ensures
        ({
            let once = apply_records(mt, mh, rs);
            apply_records(once.0, once.1, rs) == once
        }),
{
    let once = apply_records(mt, mh, rs);
    lemma_apply_records_grows(mt, mh, rs);
    lemma_apply_records_noop(once.0, once.1, rs);
}

/// A title record persists exactly one row per valid ISBN value, and
/// every row carries the record's own derived year, title and
/// creator.
pub proof fn lemma_title_record_rows(r: ParsedRecordV)
    requires
        r is Title,
    ensures
        ({
            let res = apply_records(
                Map::<TitleKey, TitleRowV>::empty(),
                Map::<u64, HoldingsRow>::empty(),
                seq![r],
            );
            &&& forall|k: TitleKey|
                #[trigger] res.0.contains_key(k) <==> (k.0 == rec_oclc(r) && r->isbn.contains(
                    k.1,
                ))
            &&& forall|k: TitleKey|
                #[trigger] res.0.contains_key(k) ==> res.0[k] == title_row_v(
                    rec_oclc(r),
                    k.1,
                    r->publication_date,
                    r->title,
                    r->creator,
                )
            &&& res.1 == Map::<u64, HoldingsRow>::empty()
        }),
{
    let mt0 = Map::<TitleKey, TitleRowV>::empty();
    let mh0 = Map::<u64, HoldingsRow>::empty();
    let s = seq![r];
    assert(s.drop_last() =~= Seq::<ParsedRecordV>::empty());
    assert(s.last() == r);
    assert(apply_records(mt0, mh0, s.drop_last()) == (mt0, mh0));
    match r {
        ParsedRecordV::Title { oclc_num, title, creator, isbn, publication_date } => {
            lemma_apply_isbns_frame(mt0, oclc_num, isbn, publication_date, title, creator);
        },
        ParsedRecordV::Holdings { .. } => {},
    }
}

/// A string contributes an ISBN value exactly when some position of
/// the list reads as that in-range 13-digit value.
pub proof fn lemma_valid_isbns_contains(isbns: Seq<Seq<u8>>, v: i64)
    ensures
        spec_valid_isbns(isbns).contains(v) <==> exists|j: int|
            #![trigger isbns[j]]
            0 <= j < isbns.len() && spec_isbn13(isbns[j]) == Some(v),
    decreases isbns.len(),
{
    if isbns.len() > 0 {
        lemma_valid_isbns_contains(isbns.drop_last(), v);
        let rest = spec_valid_isbns(isbns.drop_last());
        if spec_valid_isbns(isbns).contains(v) {
            if rest.contains(v) {
                let j = choose|j: int|
                    0 <= j < isbns.drop_last().len() && spec_isbn13(isbns.drop_last()[j]) == Some(
                        v,
                    );
                assert(isbns[j] == isbns.drop_last()[j]);
            } else {
                match spec_isbn13(isbns.last()) {
                    Option::Some(w) => {
                        lemma_seq_contains_drop_last(spec_valid_isbns(isbns), v);
                        assert(w == v);
                        assert(isbns[isbns.len() - 1] == isbns.last());
                    },
                    Option::None => {},
                }
            }
        }
        if exists|j: int|
            #![trigger isbns[j]]
            0 <= j < isbns.len() && spec_isbn13(isbns[j]) == Some(v) {
            let j = choose|j: int| 0 <= j < isbns.len() && spec_isbn13(isbns[j]) == Some(v);
            if j < isbns.len() - 1 {
                assert(isbns.drop_last()[j] == isbns[j]);
                assert(rest.contains(v));
                match spec_isbn13(isbns.last()) {
                    Option::Some(w) => {
                        assert(spec_valid_isbns(isbns) == rest.push(w));
                        assert(spec_valid_isbns(isbns)[choose|i: int|
                            0 <= i < rest.len() && rest[i] == v] == v);
                    },
                    Option::None => {},
                }
            } else {
                match spec_isbn13(isbns.last()) {
                    Option::Some(w) => {
                        assert(spec_valid_isbns(isbns) == rest.push(w));
                        assert(spec_valid_isbns(isbns)[rest.len() as int] == w);
                    },
                    Option::None => {},
                }
            }
        }
    }
}

/// An ISBN string of a title record yields a persisted row exactly
/// when it reads as a decimal integer in the accepted 13-digit range:
/// the keys of the title table after ingesting one normalized title
/// record are exactly the (catalog id, value) pairs of its in-range
/// ISBN strings.
pub proof fn lemma_isbn_persisted_iff(t: TitleRecordV)
    requires
        spec_normalize_title(t) is Some,
    ensures
        ({
            let p = spec_normalize_title(t).unwrap();
            let res = apply_records(
                Map::<TitleKey, TitleRowV>::empty(),
                Map::<u64, HoldingsRow>::empty(),
                seq![p],
            );
            forall|k: TitleKey|
                #[trigger] res.0.contains_key(k) <==> (k.0 == rec_oclc(p) && exists|j: int|
                    #![trigger t.isbns[j]]
                    0 <= j < t.isbns.len() && spec_isbn13(t.isbns[j]) == Some(k.1))
        }),
{
    let p = spec_normalize_title(t).unwrap();
    lemma_title_record_rows(p);
    assert(p->isbn == spec_valid_isbns(t.isbns));
    assert forall|k: TitleKey| true implies (#[trigger] p->isbn.contains(k.1) <==> exists|j: int|
        #![trigger t.isbns[j]]
        0 <= j < t.isbns.len() && spec_isbn13(t.isbns[j]) == Some(k.1)) by {
        lemma_valid_isbns_contains(t.isbns, k.1);
    }
}

} // verus!
