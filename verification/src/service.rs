//! Decisions of the proof service: the commitment it publishes for a
//! statement, the threshold a request resolves to, whether a range-check
//! proof is attempted and how its outcome is labelled, and the authoritative
//! freshness epoch derived from chain height.
use vstd::prelude::*;
use vstd::string::{StrSliceExecFns, StringSliceAdditionalSpecFns};
use vstd::utf8::encode_utf8;
use crate::digest::{hex_encode, hex_lower, sha256, sha256_digest};
use crate::text::{decimal, decimal_string, parse_failure_text, parse_unsigned, parse_unsigned_bytes, parse_unsigned_spec, with_number};
use crate::tiers::{threshold_of, tier_to_threshold};

verus! {

/// The text the SHA-256 commitment is taken over.
pub open spec fn commitment_preimage(agent_id: Seq<char>, repid: u64, threshold: u64) -> Seq<char> {
    "hyperdag_v1:"@ + agent_id + ":"@ + decimal(repid as nat) + ":"@ + decimal(threshold as nat)
}

/// `0x` and the lower-case hex SHA-256 of the UTF-8 preimage.
pub open spec fn commitment_text(agent_id: Seq<char>, repid: u64, threshold: u64) -> Seq<char> {
    "0x"@ + hex_lower(sha256_digest(encode_utf8(commitment_preimage(agent_id, repid, threshold))))
}

/// Public commitment of a statement: `0x` + hex(SHA-256("hyperdag_v1:{agent}:{repid}:{threshold}")).
pub fn sha256_commitment(agent_id: &str, repid: u64, threshold: u64) -> (c: String)
    ensures
        c@ == commitment_text(agent_id@, repid, threshold),
{
    let mut pre = String::from_str("hyperdag_v1:");
    pre.append(agent_id);
    pre.append(":");
    let r = decimal_string(repid);
    pre.append(r.as_str());
    pre.append(":");
    let t = decimal_string(threshold);
    pre.append(t.as_str());
    let digest = sha256(pre.as_str().as_bytes());
    let hex = hex_encode(digest.as_slice());
    let mut out = String::from_str("0x");
    out.append(hex.as_str());
    out
}

/// The threshold of a request: the one it names, otherwise that of its tier.
pub fn resolve_threshold(requested: Option<u64>, tier: &str) -> (r: Result<u64, &'static str>)
    ensures
        match requested {
            Some(t) => r == Ok::<u64, &'static str>(t),
            None => match r {
                Ok(t) => threshold_of(tier@) == Ok::<u64, Seq<char>>(t),
                Err(e) => threshold_of(tier@) == Err::<u64, Seq<char>>(e@),
            },
        },
{
    match requested {
        Some(t) => Ok(t),
        None => tier_to_threshold(tier),
    }
}

/// The gap a range-check proof is attempted for: only a score above the
/// threshold gets one, with gap `repid - threshold - 1` (truncated to 32 bits).
pub fn range_check_gap(repid: u64, threshold: u64) -> (g: Option<u32>)
    ensures
        g is Some <==> repid > threshold,
        g matches Some(v) ==> v == (repid - threshold - 1) as u32,
{
    if repid > threshold {
        Some((repid - threshold - 1) as u32)
    } else {
        None
    }
}

/// The proof type and proof bytes the service publishes for a request:
/// no attempt (score not above the threshold) and a failed attempt both fall
/// back to the SHA-256 commitment, each with its own placeholder bytes.
pub fn proof_outcome(attempt: Option<Result<Vec<u8>, String>>) -> (r: (&'static str, Vec<u8>))
    ensures
        match attempt {
            None => r.0@ == "sha256_commitment_poc"@ && r.1@ == encode_utf8("not_above_threshold"@),
            Some(Ok(bytes)) => r.0@ == "plonky3_range_check"@ && r.1@ == bytes@,
            Some(Err(_)) => r.0@ == "sha256_commitment_poc"@ && r.1@ == encode_utf8("sha256_fallback_placeholder"@),
        },
{
    match attempt {
        None => ("sha256_commitment_poc", "not_above_threshold".as_bytes_vec()),
        Some(Ok(bytes)) => ("plonky3_range_check", bytes),
        Some(Err(_)) => ("sha256_commitment_poc", "sha256_fallback_placeholder".as_bytes_vec()),
    }
}

/// The public statement of a proof: `RepID > {threshold} @ epoch {epoch}`.
pub fn proof_statement(threshold: u64, epoch: u64) -> (s: String)
    ensures
        s@ == "RepID > "@ + decimal(threshold as nat) + " @ epoch "@ + decimal(epoch as nat),
{
    let mut s = with_number("RepID > ", threshold);
    s.append(" @ epoch ");
    let e = decimal_string(epoch);
    s.append(e.as_str());
    s
}

/// Blocks per freshness epoch when the setting is absent or unusable.
pub const RPC_EPOCH_BLOCKS: u64 = 300;

/// The configured blocks per epoch: a positive decimal setting, else `RPC_EPOCH_BLOCKS`.
pub open spec fn epoch_blocks_of(setting: Option<Seq<u8>>) -> u64 {
    match setting {
        Some(s) => match parse_unsigned_spec(s, 10, u64::MAX as nat) {
            Ok(v) => if v > 0 { v as u64 } else { RPC_EPOCH_BLOCKS },
            Err(_) => RPC_EPOCH_BLOCKS,
        },
        None => RPC_EPOCH_BLOCKS,
    }
}

/// Blocks per epoch from an optional setting.
pub fn epoch_blocks_setting(setting: Option<&str>) -> (n: u64)
    ensures
        n == epoch_blocks_of(match setting { Some(s) => Some(s.spec_bytes()), None => None }),
        n > 0,
{
    match setting {
        Some(s) => match parse_unsigned(s, 10, u64::MAX) {
            Ok(v) => if v > 0 { v } else { RPC_EPOCH_BLOCKS },
            Err(_) => RPC_EPOCH_BLOCKS,
        },
        None => RPC_EPOCH_BLOCKS,
    }
}

/// `s` with every leading `0x` removed.
pub open spec fn strip_hex_prefixes(s: Seq<u8>) -> Seq<u8>
    decreases s.len(),
{
    if s.len() >= 2 && s[0] == 48u8 && s[1] == 120u8 {
        strip_hex_prefixes(s.skip(2))
    } else {
        s
    }
}

/// The epoch of an RPC block-number reply, or why there is none.
pub open spec fn epoch_of_reply(result: Seq<u8>, epoch_blocks: u64) -> Result<u64, Seq<char>> {
    match parse_unsigned_spec(strip_hex_prefixes(result), 16, u64::MAX as nat) {
        Ok(block) => Ok((block / (epoch_blocks as nat)) as u64),
        Err(e) => Err("epoch rpc: bad block hex: "@ + parse_failure_text(e)),
    }
}

fn hex_prefix_end(b: &[u8]) -> (k: usize)
    ensures
        k <= b@.len(),
        b@.skip(k as int) == strip_hex_prefixes(b@),
{
    let mut k: usize = 0;
    assert(b@.skip(0) =~= b@);
    while k < b.len() && b.len() - k >= 2 && b[k] == 48u8 && b[k + 1] == 120u8
        invariant
            k <= b@.len(),
            strip_hex_prefixes(b@.skip(k as int)) == strip_hex_prefixes(b@),
        decreases b@.len() - k,
    {
        let ghost t = b@.skip(k as int);
        assert(t[0] == 48u8 && t[1] == 120u8);
        assert(t.skip(2) =~= b@.skip(k + 2));
        k = k + 2;
    }
    let ghost t = b@.skip(k as int);
    assert(!(t.len() >= 2 && t[0] == 48u8 && t[1] == 120u8));
    k
}

/// The authoritative epoch of a hex block height `0x...`: `block / epoch_blocks`.
pub fn epoch_from_block_hex(result: &str, epoch_blocks: u64) -> (r: Result<u64, String>)
    requires
        epoch_blocks > 0,
    ensures
        match r {
            Ok(e) => epoch_of_reply(result.spec_bytes(), epoch_blocks) == Ok::<u64, Seq<char>>(e),
            Err(m) => epoch_of_reply(result.spec_bytes(), epoch_blocks) == Err::<u64, Seq<char>>(m@),
        },
{
    let b = result.as_bytes();
    let k = hex_prefix_end(b);
    match parse_unsigned_bytes(b, k, 16, u64::MAX) {
        Ok(block) => Ok(block / epoch_blocks),
        Err(e) => {
            let mut m = String::from_str("epoch rpc: bad block hex: ");
            m.append(e.message());
            Err(m)
        },
    }
}

/// Where the epoch came from: `base-sepolia:block/{epoch_blocks}`.
pub fn epoch_source(epoch_blocks: u64) -> (s: String)
    ensures
        s@ == "base-sepolia:block/"@ + decimal(epoch_blocks as nat),
{
    with_number("base-sepolia:block/", epoch_blocks)
}

/// The listening port: a decimal `u16` setting, else `fallback`.
pub fn listen_port(setting: Option<&str>, fallback: u16) -> (port: u16)
    ensures
        port == (match setting {
            Some(s) => match parse_unsigned_spec(s.spec_bytes(), 10, 65535) {
                Ok(v) => v as u16,
                Err(_) => fallback,
            },
            None => fallback,
        }),
{
    match setting {
        Some(s) => match parse_unsigned(s, 10, 65535) {
            Ok(v) => v as u16,
            Err(_) => fallback,
        },
        None => fallback,
    }
}

} // verus!
