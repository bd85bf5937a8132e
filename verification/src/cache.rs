//! The cache gate: deciding between a stored exec-credential document and a
//! fresh mint.
//!
//! Storage itself is a collaborator outside the library; this module owns
//! the key derivation and the decision. A stored document counts only if it
//! is a canonical document whose expiration lies strictly in the future —
//! a parse failure is a miss, never an error.
use vstd::prelude::*;

use crate::rfc3339::lemma_rfc3339_byte_range;
use crate::rfc3339::lemma_rfc3339_injective;
use crate::rfc3339::parse_rfc3339;
use crate::rfc3339::rfc3339_bytes;
use crate::rfc3339::MAX_TIMESTAMP;
use crate::strutil::string_to_bytes;
use crate::token::canonical_doc;
use crate::token::parse_exec_credential;
use crate::token::quote_free;
use vstd::utf8::encode_utf8;

verus! {

/// The cache key for a cluster, and the role when one is assumed.
pub open spec fn cache_key_view(cluster: Seq<char>, role_arn: Option<Seq<char>>) -> Seq<char> {
    match role_arn {
        Some(r) => cluster + "|"@ + r,
        None => cluster,
    }
}

/// Derives the stable cache key: the cluster name, extended by the role ARN
/// when role assumption is in play, so distinct roles against the same
/// cluster never share an entry.
pub fn cache_key(cluster_name: &str, role_arn: Option<&String>) -> (r: String)
    ensures
        r@ == cache_key_view(
            cluster_name@,
            match role_arn {
                Some(x) => Some(x@),
                None => None,
            },
        ),
{
    match role_arn {
        Some(ra) => String::from_str(cluster_name).concat("|").concat(ra.as_str()),
        None => String::from_str(cluster_name),
    }
}

/// Distinct roles against the same cluster get distinct keys.
pub proof fn lemma_cache_key_distinct_roles(cluster: Seq<char>, r1: Seq<char>, r2: Seq<char>)
    requires
        r1 != r2,
    ensures
        cache_key_view(cluster, Some(r1)) != cache_key_view(cluster, Some(r2)),
{
    let k1 = cache_key_view(cluster, Some(r1));
    let k2 = cache_key_view(cluster, Some(r2));
    if k1 == k2 {
        let off = cluster.len() + "|"@.len();
        assert(k1.len() == off + r1.len());
        assert(k2.len() == off + r2.len());
        assert forall|j: int| 0 <= j < r1.len() implies r1[j] == r2[j] by {
            assert(k1[off + j] == r1[j]);
            assert(k2[off + j] == r2[j]);
        }
        assert(r1 =~= r2);
    }
}

/// The cache gate's lookup decision. A hit — the entry returned unchanged —
/// happens exactly when the entry is a canonical document whose expiration
/// parses and lies strictly after `now`; an absent, malformed or expired
/// entry means the caller must mint (and overwrite the entry).
pub fn cache_lookup(entry: Option<&String>, now: u64) -> (r: Option<String>)
    ensures
        r matches Some(s) ==> (entry matches Some(e) && s@ == e@ && exists|ts: int, tok: Seq<u8>|
            #[trigger] canonical_doc(rfc3339_bytes(ts), tok) == encode_utf8(e@) && 0 <= ts
                <= MAX_TIMESTAMP && ts > now),
        forall|ts: int, tok: Seq<u8>|
            ((entry matches Some(e) && encode_utf8(e@) == #[trigger] canonical_doc(
                rfc3339_bytes(ts),
                tok,
            )) && 0 <= ts <= MAX_TIMESTAMP && quote_free(tok)) ==> (if ts > now {
                (r matches Some(s) && entry matches Some(e) && s@ == e@)
            } else {
                r is None
            }),
        entry is None ==> r is None,
{
    let e = match entry {
        Some(e) => e,
        None => {
            return None;
        },
    };
    let bytes = string_to_bytes(e.as_str());
    let parsed = match parse_exec_credential(bytes.as_slice()) {
        Some(p) => p,
        None => {
            proof {
                assert forall|ts: int, tok: Seq<u8>|
                    !((encode_utf8(e@) == canonical_doc(rfc3339_bytes(ts), tok)) && 0 <= ts
                        <= MAX_TIMESTAMP && quote_free(tok)) by {
                    if 0 <= ts <= MAX_TIMESTAMP {
                        lemma_rfc3339_byte_range(ts);
                    }
                }
            }
            return None;
        },
    };
    let (exp, tok) = parsed;
    let ts_parsed = match parse_rfc3339(exp.as_slice()) {
        Some(ts) => ts,
        None => {
            proof {
                assert forall|ts: int, tok2: Seq<u8>|
                    !((encode_utf8(e@) == canonical_doc(rfc3339_bytes(ts), tok2)) && 0 <= ts
                        <= MAX_TIMESTAMP && quote_free(tok2)) by {
                    if 0 <= ts <= MAX_TIMESTAMP && quote_free(tok2) && encode_utf8(e@)
                        == canonical_doc(rfc3339_bytes(ts), tok2) {
                        lemma_rfc3339_byte_range(ts);
                        crate::token::lemma_canonical_doc_injective(
                            exp@,
                            tok@,
                            rfc3339_bytes(ts),
                            tok2,
                        );
                    }
                }
            }
            return None;
        },
    };
    proof {
        assert forall|ts: int, tok2: Seq<u8>|
            ((encode_utf8(e@) == canonical_doc(rfc3339_bytes(ts), tok2)) && 0 <= ts
                <= MAX_TIMESTAMP && quote_free(tok2)) implies ts == ts_parsed as int by {
            lemma_rfc3339_byte_range(ts);
            crate::token::lemma_canonical_doc_injective(exp@, tok@, rfc3339_bytes(ts), tok2);
            lemma_rfc3339_injective(ts, ts_parsed as int);
        }
    }
    if ts_parsed > now {
        proof {
            assert(canonical_doc(rfc3339_bytes(ts_parsed as int), tok@) == encode_utf8(e@));
        }
        Some(e.clone())
    } else {
        None
    }
}

} // verus!
