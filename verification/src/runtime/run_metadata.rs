//! What identifies a run.

use crate::crypto::{hex_chars, hex_encode, sha256, sha256_digest};
use crate::decimal::Decimal;
use crate::json::canonical::{canonical_of, canonicalize_json_value, well_named};
use crate::json::encode::json_chars;
use crate::json::{same_json, Json};
use crate::time::Timestamp;
use vstd::prelude::*;
use vstd::string::*;
use vstd::utf8::encode_utf8;

verus! {

/// The digest of a value's compact text, in hexadecimal.
pub open spec fn text_hash(value: Json) -> Seq<char> {
    hex_chars(sha256(encode_utf8(json_chars(value))))
}

/// The hash of a configuration: the order of its fields makes no difference to it.
pub fn config_hash(config: &Json) -> (r: String)
    requires
        well_named(*config),
    ensures
        exists|c: Json| #[trigger] canonical_of(*config, c) && r@ == text_hash(c),
        r@.len() == 64,
{
    let canonical = canonicalize_json_value(config);
    let text = canonical.to_text();
    let mut bytes: Vec<u8> = Vec::new();
    bytes.extend_from_slice(text.as_str().as_bytes());
    assert(bytes@ =~= encode_utf8(text@));
    let digest = sha256_digest(&bytes);
    hex_encode(&digest)
}

/// What is written down of a run when it starts.
#[derive(Debug)]
pub struct RunMetadata {
    pub run_id: String,
    pub pid: u32,
    pub mode: String,
    pub started_at: Timestamp,
    pub events_path: String,
    pub event_log_dir: String,
    pub config_path: String,
    pub config_hash: String,
    pub cash_reserve_usd: Decimal,
}

/// Where a run is written down.
#[derive(Debug)]
pub struct RunMetadataPaths {
    pub events_path: String,
    pub event_log_dir: String,
}

/// What is written down of a run, with the hash of its configuration.
pub fn build_run_metadata(
    config: &Json,
    cash_reserve: Decimal,
    run_id: &str,
    pid: u32,
    mode: &str,
    started_at: Timestamp,
    config_path: &str,
    paths: &RunMetadataPaths,
) -> (r: RunMetadata)
    requires
        well_named(*config),
    ensures
        r.run_id@ == run_id@,
        r.pid == pid,
        r.mode@ == mode@,
        r.started_at == started_at,
        r.events_path@ == paths.events_path@,
        r.event_log_dir@ == paths.event_log_dir@,
        r.config_path@ == config_path@,
        exists|c: Json| #[trigger] canonical_of(*config, c) && r.config_hash@ == text_hash(c),
        r.cash_reserve_usd == cash_reserve,
{
    RunMetadata {
        run_id: run_id.to_owned(),
        pid,
        mode: mode.to_owned(),
        started_at,
        events_path: paths.events_path.clone(),
        event_log_dir: paths.event_log_dir.clone(),
        config_path: config_path.to_owned(),
        config_hash: config_hash(config),
        cash_reserve_usd: cash_reserve,
    }
}

/// Configurations that are the same but for the order of fields have the same hash.
pub proof fn law_config_hash_is_stable(a: Json, b: Json, ra: Json, rb: Json)
    requires
        well_named(a),
        well_named(b),
        same_json(a, b),
        canonical_of(a, ra),
        canonical_of(b, rb),
    ensures
        text_hash(ra) == text_hash(rb),
{
    crate::json::canonical::law_canonical_text_is_stable(a, b, ra, rb);
}

} // verus!
