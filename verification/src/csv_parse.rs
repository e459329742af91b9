//! Scanning the registry dump's two tables.
//!
//! CSV decoding is done by the `csv` crate behind a trusted wrapper over an
//! in-memory buffer; everything after — the id-to-name mapping table, the
//! per-row record assembly, the versions scan feeding the consumer — is
//! verified. A single malformed record never aborts the scan: it is
//! skipped, and only a consumer failure stops the run.

use vstd::prelude::*;

use std::collections::HashMap;

use crate::api::{spec_field_ok, VersionsEntry, VersionsEntryBuilder};
use crate::consumer::CrateConsumer;
use crate::strutil::spec_parse_u64;

verus! {

broadcast use vstd::std_specs::hash::group_hash_axioms;

/// Relies on csv::Reader::records: decode a comma-separated table with a
/// header row into its records' fields; a record the decoder rejects
/// becomes an empty slot, so one bad record never loses the rest.
#[verifier::external_body]
pub(crate) fn parse_csv_records(data: &[u8]) -> (r: Vec<Option<Vec<String>>>)
{
    let mut rdr = csv::ReaderBuilder::new().has_headers(true).from_reader(data);
    let mut out: Vec<Option<Vec<String>>> = Vec::new();
    for rec in rdr.records() {
        match rec {
            Ok(fields) => out.push(Some(fields.iter().map(str::to_string).collect())),
            Err(_) => out.push(None),
        }
    }
    out
}

/// The id-to-name mapping the crates table folds to: for each decodable
/// record with a numeric column four and a column seven, the name is
/// entered under the id; any other record is skipped.
pub open spec fn id_name_fold(recs: Seq<Option<Vec<String>>>, acc: Map<u64, String>) -> Map<
    u64,
    String,
>
    decreases recs.len(),
{
    if recs.len() == 0 {
        acc
    } else {
        match recs[0] {
            Option::None => id_name_fold(recs.drop_first(), acc),
            Option::Some(rec_v) => {
                let rec = rec_v@;
                if rec.len() > 7 && spec_parse_u64(rec[4]@) is Some {
                    id_name_fold(
                        recs.drop_first(),
                        acc.insert(spec_parse_u64(rec[4]@)->Some_0, rec[7]),
                    )
                } else {
                    id_name_fold(recs.drop_first(), acc)
                }
            },
        }
    }
}

/// Build the crate-id-to-name mapping from the crates table's records,
/// skipping malformed ones.
pub fn parse_id_name_mapping(records: &Vec<Option<Vec<String>>>) -> (r: HashMap<u64, String>)
    ensures
        r@ == id_name_fold(records@, Map::<u64, String>::empty()),
{
    let mut map: HashMap<u64, String> = HashMap::new();
    let mut i: usize = 0;
    proof {
        assert(records@.skip(0) =~= records@);
    }
    while i < records.len()
        invariant
            i <= records.len(),
            id_name_fold(records@.skip(i as int), map@) == id_name_fold(
                records@,
                Map::<u64, String>::empty(),
            ),
        decreases records.len() - i,
    {
        proof {
            assert(records@.skip(i as int).drop_first() =~= records@.skip(i + 1));
        }
        if let Option::Some(rec) = &records[i] {
            if rec.len() > 7 {
                if let Option::Some(id) = crate::strutil::parse_u64(rec[4].as_str()) {
                    let name = rec[7].clone();
                    map.insert(id, name);
                }
            }
        }
        i = i + 1;
    }
    proof {
        assert(records@.skip(i as int) =~= Seq::<Option<Vec<String>>>::empty());
    }
    map
}

/// A versions-table row assembles into an entry: exactly 24 columns, each
/// numeric or boolean column well formed.
pub open spec fn spec_row_builds(rec: Seq<String>) -> bool {
    rec.len() == 24 && forall|i: int| 0 <= i < 24 ==> spec_field_ok(i, (#[trigger] rec[i])@)
}

/// Assemble one versions-table row and look its crate name up: succeeds
/// exactly when the row builds and the mapping knows its id, and then the
/// entry carries the row's id, size, download count, repository and yanked
/// flag, under the mapped name.
pub fn build_record(rec: &Vec<String>, name_id_mapping: &HashMap<u64, String>) -> (r: Option<
    (String, VersionsEntry),
>)
    ensures
        ({
            let ok = spec_row_builds(rec@) && name_id_mapping@.contains_key(
                spec_parse_u64(rec@[3]@)->Some_0,
            );
            match r {
                Option::Some((name, e)) => {
                    &&& ok
                    &&& e.crate_id == spec_parse_u64(rec@[3]@)->Some_0
                    &&& e.crate_size == spec_parse_u64(rec@[4]@)->Some_0
                    &&& e.downloads == spec_parse_u64(rec@[8]@)->Some_0
                    &&& e.repository@ == rec@[20]@
                    &&& e.yanked == (rec@[23]@ == "t"@)
                    &&& name == name_id_mapping@[e.crate_id]
                },
                Option::None => !ok,
            }
        }),
{
    let m = rec.len();
    let mut bldr = VersionsEntryBuilder::new();
    let mut j: usize = 0;
    while j < m
        invariant
            m == rec.len(),
            j <= m,
            j <= 24,
            bldr.next_field == j,
            forall|i: int| 0 <= i < j ==> spec_field_ok(i, (#[trigger] rec@[i])@),
            j > 3 ==> bldr.inner.crate_id == spec_parse_u64(rec@[3]@)->Some_0,
            j > 4 ==> bldr.inner.crate_size == spec_parse_u64(rec@[4]@)->Some_0,
            j > 8 ==> bldr.inner.downloads == spec_parse_u64(rec@[8]@)->Some_0,
            j > 20 ==> bldr.inner.repository@ == rec@[20]@,
            j > 23 ==> bldr.inner.yanked == (rec@[23]@ == "t"@),
        decreases m - j,
    {
        match bldr.enter_next(rec[j].as_str()) {
            Result::Ok(_) => {},
            Result::Err(_) => {
                proof {
                    if rec@.len() == 24 {
                        assert(!spec_field_ok(j as int, rec@[j as int]@));
                    }
                }
                return Option::None;
            },
        }
        j = j + 1;
    }
    let val = match bldr.consume() {
        Result::Ok(v) => v,
        Result::Err(_) => {
            return Option::None;
        },
    };
    match name_id_mapping.get(&val.crate_id) {
        Option::Some(name) => Option::Some((name.clone(), val)),
        Option::None => Option::None,
    }
}

/// Scan the versions table: assemble each decodable record, look its crate
/// name up, and offer it to the consumer; the scan stops early when the
/// consumer says so. A record that did not decode, does not assemble, or
/// has an unmapped id is skipped — a single malformed record never aborts
/// the scan. Only a consumer failure stops the run.
pub fn parse_versions_xml<C: CrateConsumer>(
    records: Vec<Option<Vec<String>>>,
    name_id_mapping: &HashMap<u64, String>,
    consumer: &mut C,
) -> (r: Result<(), String>)
{
    let n = records.len();
    let mut i: usize = 0;
    while i < n
        invariant
            n == records.len(),
            i <= n,
        decreases n - i,
    {
        if let Option::Some(rec) = &records[i] {
            if let Option::Some((crate_name, val)) = build_record(rec, name_id_mapping) {
                let go_on = match consumer.consume(crate_name.as_str(), val) {
                    Result::Ok(b) => b,
                    Result::Err(e) => {
                        return Result::Err(e);
                    },
                };
                if !go_on {
                    return Result::Ok(());
                }
            }
        }
        i = i + 1;
    }
    Result::Ok(())
}

/// Decode both tables of the registry dump and stream the versions records
/// into the consumer; only a consumer failure can fail the scan.
pub fn consume_crates_data<C: CrateConsumer>(
    crates_csv: &[u8],
    versions_csv: &[u8],
    consumer: &mut C,
) -> (r: Result<(), String>)
{
    let crates_records = parse_csv_records(crates_csv);
    let name_id_mapping = parse_id_name_mapping(&crates_records);
    let versions_records = parse_csv_records(versions_csv);
    parse_versions_xml(versions_records, &name_id_mapping, consumer)
}

} // verus!
