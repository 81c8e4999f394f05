//! Member names the line parser recognizes, as byte strings, with
//! verified matchers over parsed (unescaped) member names.

use vstd::prelude::*;

verus! {

/// The bytes of the member name `metadata`.
pub open spec fn key_metadata() -> Seq<u8> {
    seq![0x6du8, 0x65u8, 0x74u8, 0x61u8, 0x64u8, 0x61u8, 0x74u8, 0x61u8]
}

/// Whether `k` spells `metadata`.
pub fn is_key_metadata(k: &Vec<u8>) -> (r: bool)
    ensures
        r == (k@ == key_metadata()),
{
    if k.len() != 8 {
        return false;
    }
    let ok = k[0] == 0x6du8 && k[1] == 0x65u8 && k[2] == 0x74u8 && k[3] == 0x61u8 && k[4] == 0x64u8 && k[5] == 0x61u8 && k[6] == 0x74u8 && k[7] == 0x61u8;
    proof {
        if ok {
            assert(k@ =~= key_metadata());
        } else {
            assert(!(k@ =~= key_metadata()));
        }
    }
    ok
}

/// The bytes of the member name `type`.
pub open spec fn key_type_field() -> Seq<u8> {
    seq![0x74u8, 0x79u8, 0x70u8, 0x65u8]
}

/// Whether `k` spells `type`.
pub fn is_key_type_field(k: &Vec<u8>) -> (r: bool)
    ensures
        r == (k@ == key_type_field()),
{
    if k.len() != 4 {
        return false;
    }
    let ok = k[0] == 0x74u8 && k[1] == 0x79u8 && k[2] == 0x70u8 && k[3] == 0x65u8;
    proof {
        if ok {
            assert(k@ =~= key_type_field());
        } else {
            assert(!(k@ =~= key_type_field()));
        }
    }
    ok
}

/// The bytes of the member name `record`.
pub open spec fn key_record() -> Seq<u8> {
    seq![0x72u8, 0x65u8, 0x63u8, 0x6fu8, 0x72u8, 0x64u8]
}

/// Whether `k` spells `record`.
pub fn is_key_record(k: &Vec<u8>) -> (r: bool)
    ensures
        r == (k@ == key_record()),
{
    if k.len() != 6 {
        return false;
    }
    let ok = k[0] == 0x72u8 && k[1] == 0x65u8 && k[2] == 0x63u8 && k[3] == 0x6fu8 && k[4] == 0x72u8 && k[5] == 0x64u8;
    proof {
        if ok {
            assert(k@ =~= key_record());
        } else {
            assert(!(k@ =~= key_record()));
        }
    }
    ok
}

/// The bytes of the member name `title_json`.
pub open spec fn key_title_json() -> Seq<u8> {
    seq![0x74u8, 0x69u8, 0x74u8, 0x6cu8, 0x65u8, 0x5fu8, 0x6au8, 0x73u8, 0x6fu8, 0x6eu8]
}

/// Whether `k` spells `title_json`.
pub fn is_key_title_json(k: &Vec<u8>) -> (r: bool)
    ensures
        r == (k@ == key_title_json()),
{
    if k.len() != 10 {
        return false;
    }
    let ok = k[0] == 0x74u8 && k[1] == 0x69u8 && k[2] == 0x74u8 && k[3] == 0x6cu8 && k[4] == 0x65u8 && k[5] == 0x5fu8 && k[6] == 0x6au8 && k[7] == 0x73u8 && k[8] == 0x6fu8 && k[9] == 0x6eu8;
    proof {
        if ok {
            assert(k@ =~= key_title_json());
        } else {
            assert(!(k@ =~= key_title_json()));
        }
    }
    ok
}

/// The bytes of the member name `search_holdings_summary_all_editions`.
pub open spec fn key_search_holdings() -> Seq<u8> {
    seq![0x73u8, 0x65u8, 0x61u8, 0x72u8, 0x63u8, 0x68u8, 0x5fu8, 0x68u8, 0x6fu8, 0x6cu8, 0x64u8, 0x69u8, 0x6eu8, 0x67u8, 0x73u8, 0x5fu8, 0x73u8, 0x75u8, 0x6du8, 0x6du8, 0x61u8, 0x72u8, 0x79u8, 0x5fu8, 0x61u8, 0x6cu8, 0x6cu8, 0x5fu8, 0x65u8, 0x64u8, 0x69u8, 0x74u8, 0x69u8, 0x6fu8, 0x6eu8, 0x73u8]
}

/// Whether `k` spells `search_holdings_summary_all_editions`.
pub fn is_key_search_holdings(k: &Vec<u8>) -> (r: bool)
    ensures
        r == (k@ == key_search_holdings()),
{
    if k.len() != 36 {
        return false;
    }
    let ok = k[0] == 0x73u8 && k[1] == 0x65u8 && k[2] == 0x61u8 && k[3] == 0x72u8 && k[4] == 0x63u8 && k[5] == 0x68u8 && k[6] == 0x5fu8 && k[7] == 0x68u8 && k[8] == 0x6fu8 && k[9] == 0x6cu8 && k[10] == 0x64u8 && k[11] == 0x69u8 && k[12] == 0x6eu8 && k[13] == 0x67u8 && k[14] == 0x73u8 && k[15] == 0x5fu8 && k[16] == 0x73u8 && k[17] == 0x75u8 && k[18] == 0x6du8 && k[19] == 0x6du8 && k[20] == 0x61u8 && k[21] == 0x72u8 && k[22] == 0x79u8 && k[23] == 0x5fu8 && k[24] == 0x61u8 && k[25] == 0x6cu8 && k[26] == 0x6cu8 && k[27] == 0x5fu8 && k[28] == 0x65u8 && k[29] == 0x64u8 && k[30] == 0x69u8 && k[31] == 0x74u8 && k[32] == 0x69u8 && k[33] == 0x6fu8 && k[34] == 0x6eu8 && k[35] == 0x73u8;
    proof {
        if ok {
            assert(k@ =~= key_search_holdings());
        } else {
            assert(!(k@ =~= key_search_holdings()));
        }
    }
    ok
}

/// The bytes of the member name `oclcNumber`.
pub open spec fn key_oclc_number_title() -> Seq<u8> {
    seq![0x6fu8, 0x63u8, 0x6cu8, 0x63u8, 0x4eu8, 0x75u8, 0x6du8, 0x62u8, 0x65u8, 0x72u8]
}

/// Whether `k` spells `oclcNumber`.
pub fn is_key_oclc_number_title(k: &Vec<u8>) -> (r: bool)
    ensures
        r == (k@ == key_oclc_number_title()),
{
    if k.len() != 10 {
        return false;
    }
    let ok = k[0] == 0x6fu8 && k[1] == 0x63u8 && k[2] == 0x6cu8 && k[3] == 0x63u8 && k[4] == 0x4eu8 && k[5] == 0x75u8 && k[6] == 0x6du8 && k[7] == 0x62u8 && k[8] == 0x65u8 && k[9] == 0x72u8;
    proof {
        if ok {
            assert(k@ =~= key_oclc_number_title());
        } else {
            assert(!(k@ =~= key_oclc_number_title()));
        }
    }
    ok
}

/// The bytes of the member name `title`.
pub open spec fn key_title() -> Seq<u8> {
    seq![0x74u8, 0x69u8, 0x74u8, 0x6cu8, 0x65u8]
}

/// Whether `k` spells `title`.
pub fn is_key_title(k: &Vec<u8>) -> (r: bool)
    ensures
        r == (k@ == key_title()),
{
    if k.len() != 5 {
        return false;
    }
    let ok = k[0] == 0x74u8 && k[1] == 0x69u8 && k[2] == 0x74u8 && k[3] == 0x6cu8 && k[4] == 0x65u8;
    proof {
        if ok {
            assert(k@ =~= key_title());
        } else {
            assert(!(k@ =~= key_title()));
        }
    }
    ok
}

/// The bytes of the member name `creator`.
pub open spec fn key_creator() -> Seq<u8> {
    seq![0x63u8, 0x72u8, 0x65u8, 0x61u8, 0x74u8, 0x6fu8, 0x72u8]
}

/// Whether `k` spells `creator`.
pub fn is_key_creator(k: &Vec<u8>) -> (r: bool)
    ensures
        r == (k@ == key_creator()),
{
    if k.len() != 7 {
        return false;
    }
    let ok = k[0] == 0x63u8 && k[1] == 0x72u8 && k[2] == 0x65u8 && k[3] == 0x61u8 && k[4] == 0x74u8 && k[5] == 0x6fu8 && k[6] == 0x72u8;
    proof {
        if ok {
            assert(k@ =~= key_creator());
        } else {
            assert(!(k@ =~= key_creator()));
        }
    }
    ok
}

/// The bytes of the member name `isbns`.
pub open spec fn key_isbns() -> Seq<u8> {
    seq![0x69u8, 0x73u8, 0x62u8, 0x6eu8, 0x73u8]
}

/// Whether `k` spells `isbns`.
pub fn is_key_isbns(k: &Vec<u8>) -> (r: bool)
    ensures
        r == (k@ == key_isbns()),
{
    if k.len() != 5 {
        return false;
    }
    let ok = k[0] == 0x69u8 && k[1] == 0x73u8 && k[2] == 0x62u8 && k[3] == 0x6eu8 && k[4] == 0x73u8;
    proof {
        if ok {
            assert(k@ =~= key_isbns());
        } else {
            assert(!(k@ =~= key_isbns()));
        }
    }
    ok
}

/// The bytes of the member name `machineReadableDate`.
pub open spec fn key_machine_readable_date() -> Seq<u8> {
    seq![0x6du8, 0x61u8, 0x63u8, 0x68u8, 0x69u8, 0x6eu8, 0x65u8, 0x52u8, 0x65u8, 0x61u8, 0x64u8, 0x61u8, 0x62u8, 0x6cu8, 0x65u8, 0x44u8, 0x61u8, 0x74u8, 0x65u8]
}

/// Whether `k` spells `machineReadableDate`.
pub fn is_key_machine_readable_date(k: &Vec<u8>) -> (r: bool)
    ensures
        r == (k@ == key_machine_readable_date()),
{
    if k.len() != 19 {
        return false;
    }
    let ok = k[0] == 0x6du8 && k[1] == 0x61u8 && k[2] == 0x63u8 && k[3] == 0x68u8 && k[4] == 0x69u8 && k[5] == 0x6eu8 && k[6] == 0x65u8 && k[7] == 0x52u8 && k[8] == 0x65u8 && k[9] == 0x61u8 && k[10] == 0x64u8 && k[11] == 0x61u8 && k[12] == 0x62u8 && k[13] == 0x6cu8 && k[14] == 0x65u8 && k[15] == 0x44u8 && k[16] == 0x61u8 && k[17] == 0x74u8 && k[18] == 0x65u8;
    proof {
        if ok {
            assert(k@ =~= key_machine_readable_date());
        } else {
            assert(!(k@ =~= key_machine_readable_date()));
        }
    }
    ok
}

/// The bytes of the member name `date`.
pub open spec fn key_date() -> Seq<u8> {
    seq![0x64u8, 0x61u8, 0x74u8, 0x65u8]
}

/// Whether `k` spells `date`.
pub fn is_key_date(k: &Vec<u8>) -> (r: bool)
    ensures
        r == (k@ == key_date()),
{
    if k.len() != 4 {
        return false;
    }
    let ok = k[0] == 0x64u8 && k[1] == 0x61u8 && k[2] == 0x74u8 && k[3] == 0x65u8;
    proof {
        if ok {
            assert(k@ =~= key_date());
        } else {
            assert(!(k@ =~= key_date()));
        }
    }
    ok
}

/// The bytes of the member name `publicationDate`.
pub open spec fn key_publication_date() -> Seq<u8> {
    seq![0x70u8, 0x75u8, 0x62u8, 0x6cu8, 0x69u8, 0x63u8, 0x61u8, 0x74u8, 0x69u8, 0x6fu8, 0x6eu8, 0x44u8, 0x61u8, 0x74u8, 0x65u8]
}

/// Whether `k` spells `publicationDate`.
pub fn is_key_publication_date(k: &Vec<u8>) -> (r: bool)
    ensures
        r == (k@ == key_publication_date()),
{
    if k.len() != 15 {
        return false;
    }
    let ok = k[0] == 0x70u8 && k[1] == 0x75u8 && k[2] == 0x62u8 && k[3] == 0x6cu8 && k[4] == 0x69u8 && k[5] == 0x63u8 && k[6] == 0x61u8 && k[7] == 0x74u8 && k[8] == 0x69u8 && k[9] == 0x6fu8 && k[10] == 0x6eu8 && k[11] == 0x44u8 && k[12] == 0x61u8 && k[13] == 0x74u8 && k[14] == 0x65u8;
    proof {
        if ok {
            assert(k@ =~= key_publication_date());
        } else {
            assert(!(k@ =~= key_publication_date()));
        }
    }
    ok
}

/// The bytes of the member name `oclc_number`.
pub open spec fn key_oclc_number_holdings() -> Seq<u8> {
    seq![0x6fu8, 0x63u8, 0x6cu8, 0x63u8, 0x5fu8, 0x6eu8, 0x75u8, 0x6du8, 0x62u8, 0x65u8, 0x72u8]
}

/// Whether `k` spells `oclc_number`.
pub fn is_key_oclc_number_holdings(k: &Vec<u8>) -> (r: bool)
    ensures
        r == (k@ == key_oclc_number_holdings()),
{
    if k.len() != 11 {
        return false;
    }
    let ok = k[0] == 0x6fu8 && k[1] == 0x63u8 && k[2] == 0x6cu8 && k[3] == 0x63u8 && k[4] == 0x5fu8 && k[5] == 0x6eu8 && k[6] == 0x75u8 && k[7] == 0x6du8 && k[8] == 0x62u8 && k[9] == 0x65u8 && k[10] == 0x72u8;
    proof {
        if ok {
            assert(k@ =~= key_oclc_number_holdings());
        } else {
            assert(!(k@ =~= key_oclc_number_holdings()));
        }
    }
    ok
}

/// The bytes of the member name `total_holding_count`.
pub open spec fn key_total_holding_count() -> Seq<u8> {
    seq![0x74u8, 0x6fu8, 0x74u8, 0x61u8, 0x6cu8, 0x5fu8, 0x68u8, 0x6fu8, 0x6cu8, 0x64u8, 0x69u8, 0x6eu8, 0x67u8, 0x5fu8, 0x63u8, 0x6fu8, 0x75u8, 0x6eu8, 0x74u8]
}

/// Whether `k` spells `total_holding_count`.
pub fn is_key_total_holding_count(k: &Vec<u8>) -> (r: bool)
    ensures
        r == (k@ == key_total_holding_count()),
{
    if k.len() != 19 {
        return false;
    }
    let ok = k[0] == 0x74u8 && k[1] == 0x6fu8 && k[2] == 0x74u8 && k[3] == 0x61u8 && k[4] == 0x6cu8 && k[5] == 0x5fu8 && k[6] == 0x68u8 && k[7] == 0x6fu8 && k[8] == 0x6cu8 && k[9] == 0x64u8 && k[10] == 0x69u8 && k[11] == 0x6eu8 && k[12] == 0x67u8 && k[13] == 0x5fu8 && k[14] == 0x63u8 && k[15] == 0x6fu8 && k[16] == 0x75u8 && k[17] == 0x6eu8 && k[18] == 0x74u8;
    proof {
        if ok {
            assert(k@ =~= key_total_holding_count());
        } else {
            assert(!(k@ =~= key_total_holding_count()));
        }
    }
    ok
}

/// The bytes of the member name `total_editions`.
pub open spec fn key_total_editions() -> Seq<u8> {
    seq![0x74u8, 0x6fu8, 0x74u8, 0x61u8, 0x6cu8, 0x5fu8, 0x65u8, 0x64u8, 0x69u8, 0x74u8, 0x69u8, 0x6fu8, 0x6eu8, 0x73u8]
}

/// Whether `k` spells `total_editions`.
pub fn is_key_total_editions(k: &Vec<u8>) -> (r: bool)
    ensures
        r == (k@ == key_total_editions()),
{
    if k.len() != 14 {
        return false;
    }
    let ok = k[0] == 0x74u8 && k[1] == 0x6fu8 && k[2] == 0x74u8 && k[3] == 0x61u8 && k[4] == 0x6cu8 && k[5] == 0x5fu8 && k[6] == 0x65u8 && k[7] == 0x64u8 && k[8] == 0x69u8 && k[9] == 0x74u8 && k[10] == 0x69u8 && k[11] == 0x6fu8 && k[12] == 0x6eu8 && k[13] == 0x73u8;
    proof {
        if ok {
            assert(k@ =~= key_total_editions());
        } else {
            assert(!(k@ =~= key_total_editions()));
        }
    }
    ok
}
} // verus!
