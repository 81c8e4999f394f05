//! Record types of the pipeline and their validation and
//! normalization rules.
//!
//! A decoded input line classifies into a title record, a holdings
//! record, or an unrecognized shape. A title record is normalized by
//! parsing its catalog identifier, filtering its ISBN strings down to
//! the 13-digit values with prefix 978 or 979, and deriving a
//! publication year from up to three date-bearing strings. Strings
//! are carried as UTF-8 byte vectors throughout.

use vstd::prelude::*;

verus! {

/// Smallest 13-digit ISBN value accepted (prefix 978, inclusive).
pub const ISBN13_MIN: i64 = 9_780_000_000_000;

/// Upper bound of the accepted ISBN range (prefix 980, exclusive).
pub const ISBN13_END: i64 = 9_800_000_000_000;

/// A title record as it appears on an input line: every field still
/// in its textual form.
pub struct TitleRecord {
    pub oclc_number: Vec<u8>,
    pub title: Option<Vec<u8>>,
    pub creator: Option<Vec<u8>>,
    pub isbns: Vec<Vec<u8>>,
    pub machine_readable_date: Option<Vec<u8>>,
    pub date: Option<Vec<u8>>,
    pub publication_date: Option<Vec<u8>>,
}

/// Mathematical image of a `TitleRecord`: the same fields as
/// sequences.
pub struct TitleRecordV {
    pub oclc_number: Seq<u8>,
    pub title: Option<Seq<u8>>,
    pub creator: Option<Seq<u8>>,
    pub isbns: Seq<Seq<u8>>,
    pub machine_readable_date: Option<Seq<u8>>,
    pub date: Option<Seq<u8>>,
    pub publication_date: Option<Seq<u8>>,
}

/// View of an optional byte string.
pub open spec fn opt_bytes_view(o: Option<Vec<u8>>) -> Option<Seq<u8>> {
    match o {
        Option::Some(v) => Option::Some(v@),
        Option::None => Option::None,
    }
}

/// Views of a list of byte strings.
pub open spec fn bytes_views(v: Seq<Vec<u8>>) -> Seq<Seq<u8>> {
    Seq::new(v.len(), |i: int| v[i]@)
}

impl View for TitleRecord {
    type V = TitleRecordV;

    open spec fn view(&self) -> TitleRecordV {
        TitleRecordV {
            oclc_number: self.oclc_number@,
            title: opt_bytes_view(self.title),
            creator: opt_bytes_view(self.creator),
            isbns: bytes_views(self.isbns@),
            machine_readable_date: opt_bytes_view(self.machine_readable_date),
            date: opt_bytes_view(self.date),
            publication_date: opt_bytes_view(self.publication_date),
        }
    }
}

/// A holdings-summary record: already numeric on the wire.
pub struct HoldingsRecord {
    pub oclc_number: u64,
    pub total_holding_count: u32,
    pub total_editions: u32,
}

/// One classified input line.
pub enum RawRecord {
    TitleJson { record: TitleRecord },
    SearchHoldings { record: HoldingsRecord },
    Other,
}

/// An input line as a whole: its `metadata` member.
pub struct JsonRecord {
    pub metadata: RawRecord,
}

/// A record after validation and normalization, ready to persist.
pub enum ParsedRecord {
    Title {
        oclc_num: u64,
        title: Option<Vec<u8>>,
        creator: Option<Vec<u8>>,
        isbn: Vec<i64>,
        publication_date: Option<i64>,
    },
    Holdings { oclc_num: u64, holdings: (u32, u32) },
}

/// Mathematical image of a `ParsedRecord`.
pub enum ParsedRecordV {
    Title {
        oclc_num: u64,
        title: Option<Seq<u8>>,
        creator: Option<Seq<u8>>,
        isbn: Seq<i64>,
        publication_date: Option<i64>,
    },
    Holdings { oclc_num: u64, holdings: (u32, u32) },
}

impl View for ParsedRecord {
    type V = ParsedRecordV;

    open spec fn view(&self) -> ParsedRecordV {
        match self {
            ParsedRecord::Title { oclc_num, title, creator, isbn, publication_date } => (
                ParsedRecordV::Title {
                    oclc_num: *oclc_num,
                    title: opt_bytes_view(*title),
                    creator: opt_bytes_view(*creator),
                    isbn: isbn@,
                    publication_date: *publication_date,
                }
            ),
            ParsedRecord::Holdings { oclc_num, holdings } => (
                ParsedRecordV::Holdings { oclc_num: *oclc_num, holdings: *holdings }
            ),
        }
    }
}

/// An ASCII decimal digit.
pub open spec fn is_digit(b: u8) -> bool {
    0x30 <= b <= 0x39
}

/// Every byte of `s` is a decimal digit.
pub open spec fn all_digits(s: Seq<u8>) -> bool {
    forall|i: int| 0 <= i < s.len() ==> is_digit(s[i])
}

/// Numeric value of a digit string, most significant digit first.
pub open spec fn digits_value(s: Seq<u8>) -> int
    decreases s.len(),
{
    if s.len() == 0 {
        0
    } else {
        digits_value(s.drop_last()) * 10 + (s.last() - 0x30)
    }
}

/// The value of a digit string is never negative.
pub proof fn lemma_digits_value_nonneg(s: Seq<u8>)
    requires
        all_digits(s),
    ensures
        digits_value(s) >= 0,
    decreases s.len(),
{
    if s.len() > 0 {
        assert(all_digits(s.drop_last()));
        lemma_digits_value_nonneg(s.drop_last());
    }
}

/// Extending a digit string never lowers its value.
pub proof fn lemma_digits_value_prefix(s: Seq<u8>, i: int, j: int)
    requires
        all_digits(s),
        0 <= i <= j <= s.len(),
    ensures
        digits_value(s.subrange(0, i)) <= digits_value(s.subrange(0, j)),
    decreases j - i,
{
    if i < j {
        lemma_digits_value_prefix(s, i, j - 1);
        let p = s.subrange(0, j);
        assert(p.drop_last() =~= s.subrange(0, j - 1));
        assert(all_digits(s.subrange(0, j - 1)));
        lemma_digits_value_nonneg(s.subrange(0, j - 1));
    }
}

/// What a decimal string denotes as an unsigned 64-bit value: defined
/// exactly when it is non-empty, all digits, and within range.
pub open spec fn spec_parse_u64_digits(s: Seq<u8>) -> Option<u64> {
    if s.len() > 0 && all_digits(s) && digits_value(s) <= u64::MAX {
        Option::Some(digits_value(s) as u64)
    } else {
        Option::None
    }
}

/// Parse a non-empty all-digit string as a `u64`; `None` on an empty
/// string, a non-digit byte, or overflow.
pub fn parse_u64_digits(s: &[u8]) -> (r: Option<u64>)
    ensures
        r == spec_parse_u64_digits(s@),
{
    if s.len() == 0 {
        return None;
    }
    let mut acc: u64 = 0;
    let mut i: usize = 0;
    while i < s.len()
        invariant
            0 <= i <= s@.len(),
            all_digits(s@.subrange(0, i as int)),
            acc == digits_value(s@.subrange(0, i as int)),
        decreases s@.len() - i,
    {
        let b = s[i];
        if b < 0x30 || b > 0x39 {
            assert(!is_digit(s@[i as int]));
            return None;
        }
        let d: u64 = (b - 0x30) as u64;
        if acc > 1_844_674_407_370_955_161 || (acc == 1_844_674_407_370_955_161 && d > 5) {
            proof {
                let p = s@.subrange(0, i as int + 1);
                assert(p.drop_last() =~= s@.subrange(0, i as int));
                assert(digits_value(p) > u64::MAX);
                if all_digits(s@) {
                    lemma_digits_value_prefix(s@, i as int + 1, s@.len() as int);
                    assert(s@.subrange(0, s@.len() as int) =~= s@);
                }
            }
            return None;
        }
        proof {
            let p = s@.subrange(0, i as int + 1);
            assert(p.drop_last() =~= s@.subrange(0, i as int));
        }
        acc = acc * 10 + d;
        i = i + 1;
    }
    proof {
        assert(s@.subrange(0, s@.len() as int) =~= s@);
    }
    Some(acc)
}

/// Whether `v` is a 13-digit ISBN value with prefix 978 or 979.
pub open spec fn isbn_in_range(v: int) -> bool {
    ISBN13_MIN <= v < ISBN13_END
}

/// What an ISBN string denotes: its decimal value, when that value is
/// a 13-digit number with prefix 978 or 979.
pub open spec fn spec_isbn13(s: Seq<u8>) -> Option<i64> {
    if s.len() > 0 && all_digits(s) && isbn_in_range(digits_value(s)) {
        Option::Some(digits_value(s) as i64)
    } else {
        Option::None
    }
}

/// Parse an ISBN string into its numeric value, accepting exactly the
/// decimal strings whose value lies in [`ISBN13_MIN`, `ISBN13_END`).
pub fn parse_isbn13(s: &[u8]) -> (r: Option<i64>)
    ensures
        r == spec_isbn13(s@),
{
    match parse_u64_digits(s) {
        Some(v) => {
            proof {
                lemma_digits_value_nonneg(s@);
            }
            if v >= ISBN13_MIN as u64 && v < ISBN13_END as u64 {
                Some(v as i64)
            } else {
                None
            }
        },
        None => {
            proof {
                if s@.len() > 0 && all_digits(s@) {
                    assert(digits_value(s@) > u64::MAX);
                }
            }
            None
        },
    }
}

/// A byte the tokenizer counts as part of a word: a digit, a letter,
/// or an underscore.
pub open spec fn is_word_byte(b: u8) -> bool {
    is_digit(b) || (0x41 <= b <= 0x5a) || (0x61 <= b <= 0x7a) || b == 0x5f
}

/// A year-like token starts at `i`: four digits, the first a 1 or a
/// 2, delimited on both sides by a word boundary.
pub open spec fn year_token_at(s: Seq<u8>, i: int) -> bool {
    &&& 0 <= i
    &&& i + 4 <= s.len()
    &&& (s[i] == 0x31 || s[i] == 0x32)
    &&& is_digit(s[i + 1])
    &&& is_digit(s[i + 2])
    &&& is_digit(s[i + 3])
    &&& (i == 0 || !is_word_byte(s[i - 1]))
    &&& (i + 4 == s.len() || !is_word_byte(s[i + 4]))
}

/// Value of the year token at `i`.
pub open spec fn year_value_at(s: Seq<u8>, i: int) -> int {
    (s[i] - 0x30) * 1000 + (s[i + 1] - 0x30) * 100 + (s[i + 2] - 0x30) * 10 + (s[i + 3] - 0x30)
}

/// The first year-like token at or after position `i`, if any.
pub open spec fn spec_year_from(s: Seq<u8>, i: int) -> Option<i64>
    decreases s.len() - i,
{
    if i < 0 || i + 4 > s.len() {
        Option::None
    } else if year_token_at(s, i) {
        Option::Some(year_value_at(s, i) as i64)
    } else {
        spec_year_from(s, i + 1)
    }
}

/// The first year-like token of the string: the derived year of one
/// date-bearing field.
pub open spec fn spec_single_date(s: Seq<u8>) -> Option<i64> {
    spec_year_from(s, 0)
}

/// Extract the first year-like token of a date-bearing string: the
/// leftmost four-digit run beginning with 1 or 2 that is bounded by
/// word boundaries on both sides.
pub fn parse_single_date(s: &[u8]) -> (r: Option<i64>)
    ensures
        r == spec_single_date(s@),
{
    if s.len() < 4 {
        return None;
    }
    let mut i: usize = 0;
    while i <= s.len() - 4
        invariant
            0 <= i,
            s@.len() >= 4,
            i <= s@.len() - 3,
            spec_year_from(s@, 0) == spec_year_from(s@, i as int),
        decreases s@.len() - i,
    {
        let b0 = s[i];
        let b1 = s[i + 1];
        let b2 = s[i + 2];
        let b3 = s[i + 3];
        let first_ok = b0 == 0x31 || b0 == 0x32;
        let digits_ok = b1 >= 0x30 && b1 <= 0x39 && b2 >= 0x30 && b2 <= 0x39 && b3 >= 0x30
            && b3 <= 0x39;
        let left_ok = i == 0 || !exec_is_word_byte(s[i - 1]);
        let right_ok = i + 4 == s.len() || !exec_is_word_byte(s[i + 4]);
        if first_ok && digits_ok && left_ok && right_ok {
            assert(year_token_at(s@, i as int));
            let y: i64 = (b0 - 0x30) as i64 * 1000 + (b1 - 0x30) as i64 * 100 + (b2 - 0x30) as i64
                * 10 + (b3 - 0x30) as i64;
            return Some(y);
        }
        assert(!year_token_at(s@, i as int));
        i = i + 1;
    }
    None
}

/// Whether the byte counts as part of a word for tokenizing.
pub fn exec_is_word_byte(b: u8) -> (r: bool)
    ensures
        r == is_word_byte(b),
{
    (b >= 0x30 && b <= 0x39) || (b >= 0x41 && b <= 0x5a) || (b >= 0x61 && b <= 0x7a) || b == 0x5f
}

/// A derived year is always a four-digit value beginning with 1 or
/// 2: whatever the date-bearing string holds, an extracted year lies
/// between 1000 and 2999.
pub proof fn lemma_year_in_range(s: Seq<u8>, i: int)
    ensures
        spec_year_from(s, i) matches Some(y) ==> 1000 <= y <= 2999,
    decreases s.len() - i,
{
    if 0 <= i && i + 4 <= s.len() {
        if !year_token_at(s, i) {
            lemma_year_in_range(s, i + 1);
        }
    }
}

/// The derived publication year of a title record, when present,
/// lies between 1000 and 2999.
pub proof fn lemma_publication_year_in_range(t: TitleRecordV)
    ensures
        spec_publication_date(t) matches Some(y) ==> 1000 <= y <= 2999,
{
    match t.machine_readable_date {
        Option::Some(d) => lemma_year_in_range(d, 0),
        Option::None => (),
    }
    match t.publication_date {
        Option::Some(d) => lemma_year_in_range(d, 0),
        Option::None => (),
    }
    match t.date {
        Option::Some(d) => lemma_year_in_range(d, 0),
        Option::None => (),
    }
}

/// The derived year of one optional date-bearing field.
pub open spec fn spec_opt_date(o: Option<Seq<u8>>) -> Option<i64> {
    match o {
        Option::Some(s) => spec_single_date(s),
        Option::None => Option::None,
    }
}

/// The derived publication year of a title record: the three
/// date-bearing fields are tried in priority order — machine-readable
/// date, then publication date, then date — and the first that yields
/// a year-like token wins.
pub open spec fn spec_publication_date(t: TitleRecordV) -> Option<i64> {
    if spec_opt_date(t.machine_readable_date) is Some {
        spec_opt_date(t.machine_readable_date)
    } else if spec_opt_date(t.publication_date) is Some {
        spec_opt_date(t.publication_date)
    } else {
        spec_opt_date(t.date)
    }
}

/// Derive the publication year of a title record per
/// [`spec_publication_date`]: the first of the machine-readable date,
/// the publication date, and the date to carry a year-like token
/// decides, whatever the later fields hold.
pub fn parse_publication_date(record: &TitleRecord) -> (r: Option<i64>)
    ensures
        r == spec_publication_date(record@),
{
    let first = match &record.machine_readable_date {
        Some(d) => parse_single_date(d.as_slice()),
        None => None,
    };
    if first.is_some() {
        return first;
    }
    let second = match &record.publication_date {
        Some(d) => parse_single_date(d.as_slice()),
        None => None,
    };
    if second.is_some() {
        return second;
    }
    match &record.date {
        Some(d) => parse_single_date(d.as_slice()),
        None => None,
    }
}

/// The ISBN values a title's ISBN strings contribute, in order: each
/// string that denotes an in-range 13-digit value yields that value.
pub open spec fn spec_valid_isbns(isbns: Seq<Seq<u8>>) -> Seq<i64>
    decreases isbns.len(),
{
    if isbns.len() == 0 {
        Seq::empty()
    } else {
        let rest = spec_valid_isbns(isbns.drop_last());
        match spec_isbn13(isbns.last()) {
            Option::Some(v) => rest.push(v),
            Option::None => rest,
        }
    }
}

/// Filter a title's ISBN strings down to their in-range numeric
/// values, dropping each string that is not a 13-digit number with
/// prefix 978 or 979.
pub fn valid_isbns(isbns: &Vec<Vec<u8>>) -> (r: Vec<i64>)
    ensures
        r@ == spec_valid_isbns(bytes_views(isbns@)),
{
    let mut out: Vec<i64> = Vec::new();
    let mut i: usize = 0;
    while i < isbns.len()
        invariant
            0 <= i <= isbns@.len(),
            out@ == spec_valid_isbns(bytes_views(isbns@).subrange(0, i as int)),
        decreases isbns@.len() - i,
    {
        proof {
            let views = bytes_views(isbns@);
            assert(views.subrange(0, i as int + 1).drop_last() =~= views.subrange(0, i as int));
            assert(views.subrange(0, i as int + 1).last() == isbns@[i as int]@);
        }
        match parse_isbn13(isbns[i].as_slice()) {
            Some(v) => out.push(v),
            None => (),
        }
        i = i + 1;
    }
    proof {
        assert(bytes_views(isbns@).subrange(0, isbns@.len() as int) =~= bytes_views(isbns@));
    }
    out
}

/// The normalized form of a title record: defined exactly when the
/// catalog identifier parses as a `u64`; the ISBN list is filtered to
/// its valid values and the publication year is derived by priority.
pub open spec fn spec_normalize_title(t: TitleRecordV) -> Option<ParsedRecordV> {
    match spec_parse_u64_digits(t.oclc_number) {
        Option::Some(o) => Option::Some(
            ParsedRecordV::Title {
                oclc_num: o,
                title: t.title,
                creator: t.creator,
                isbn: spec_valid_isbns(t.isbns),
                publication_date: spec_publication_date(t),
            },
        ),
        Option::None => Option::None,
    }
}

/// Normalize a title record: `None` exactly when its catalog
/// identifier does not parse, else the normalized record of
/// [`spec_normalize_title`].
pub fn normalize_title(record: TitleRecord) -> (r: Option<ParsedRecord>)
    ensures
        match r {
            Option::Some(p) => spec_normalize_title(record@) == Option::Some(p@),
            Option::None => spec_normalize_title(record@) is None,
        },
{
    let publication_date = parse_publication_date(&record);
    let oclc = parse_u64_digits(record.oclc_number.as_slice());
    match oclc {
        Some(oclc_num) => {
            let isbn = valid_isbns(&record.isbns);
            Some(
                ParsedRecord::Title {
                    oclc_num,
                    title: record.title,
                    creator: record.creator,
                    isbn,
                    publication_date,
                },
            )
        },
        None => None,
    }
}

/// Normalize a holdings record: always accepted, carried over field
/// by field.
pub fn normalize_holdings(record: HoldingsRecord) -> (r: ParsedRecord)
    ensures
        r@ == (ParsedRecordV::Holdings {
            oclc_num: record.oclc_number,
            holdings: (record.total_holding_count, record.total_editions),
        }),
{
    ParsedRecord::Holdings {
        oclc_num: record.oclc_number,
        holdings: (record.total_holding_count, record.total_editions),
    }
}

} // verus!
