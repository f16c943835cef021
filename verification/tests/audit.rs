use convergio_billing::audit::{compute_hash, next_link_hashes, prev_hash_or_empty, verify_chain, AuditLink};
use sha2::{Digest, Sha256};

/// Appends an entry to an in-memory trail the way the stored trail grows:
/// it names the last stored hash and gets the next id.
fn append(chain: &mut Vec<AuditLink>, event_type: &str, entity_id: &str, amount: f64, details: &str) -> AuditLink {
    let prev = prev_hash_or_empty(chain.last().map(|l| l.hash.clone()));
    let hash = compute_hash(&prev, event_type, entity_id, amount.to_bits(), details);
    let link = AuditLink {
        id: chain.len() as i64 + 1,
        event_type: event_type.to_string(),
        entity_id: entity_id.to_string(),
        amount_bits: amount.to_bits(),
        details: details.to_string(),
        prev_hash: prev,
        hash,
    };
    chain.push(clone_link(&link));
    link
}

fn clone_link(l: &AuditLink) -> AuditLink {
    AuditLink {
        id: l.id,
        event_type: l.event_type.clone(),
        entity_id: l.entity_id.clone(),
        amount_bits: l.amount_bits,
        details: l.details.clone(),
        prev_hash: l.prev_hash.clone(),
        hash: l.hash.clone(),
    }
}

#[test]
fn append_creates_chain() {
    let mut chain = Vec::new();
    let e1 = append(&mut chain, "usage", "acme-corp", 10.0, "api calls");
    assert!(e1.prev_hash.is_empty());
    assert!(!e1.hash.is_empty());

    let e2 = append(&mut chain, "usage", "acme-corp", 5.0, "tokens");
    assert_eq!(e2.prev_hash, e1.hash);
}

#[test]
fn chain_verification_passes() {
    let mut chain = Vec::new();
    append(&mut chain, "usage", "org-a", 10.0, "d1");
    append(&mut chain, "invoice", "org-a", 10.0, "d2");
    append(&mut chain, "settlement", "org-b", 5.0, "d3");
    let result = verify_chain(&chain);
    assert_eq!(result, Ok(3));
}

#[test]
fn tampered_chain_is_detected() {
    let mut chain = Vec::new();
    append(&mut chain, "usage", "org-a", 10.0, "d1");
    append(&mut chain, "usage", "org-a", 5.0, "d2");

    // Tamper with the second entry's hash
    chain[1].hash = "tampered".to_string();

    let result = verify_chain(&chain);
    assert!(result.is_err());
}

#[test]
fn hash_is_sha256_of_the_fields_in_lowercase_hex() {
    let amount: f64 = 12.5;
    let mut hasher = Sha256::new();
    hasher.update("prev".as_bytes());
    hasher.update("usage".as_bytes());
    hasher.update("acme-corp".as_bytes());
    hasher.update(amount.to_le_bytes());
    hasher.update("api calls".as_bytes());
    let expected = format!("{:x}", hasher.finalize());
    let got = compute_hash("prev", "usage", "acme-corp", amount.to_bits(), "api calls");
    assert_eq!(got, expected);
    assert_eq!(got.len(), 64);
    assert!(got.chars().all(|c| c.is_ascii_digit() || ('a'..='f').contains(&c)));
}

#[test]
fn hash_of_empty_fields_is_known_digest() {
    // SHA-256 of the eight zero bytes of the amount 0.0 and nothing else.
    let got = compute_hash("", "", "", 0.0f64.to_bits(), "");
    assert_eq!(got, "af5570f5a1810b7af78caf4bc70a660f0df51e42baf91d4de5b2328de0e83dfc");
}

#[test]
fn hash_depends_on_every_field() {
    let base = compute_hash("p", "e", "x", 1.0f64.to_bits(), "d");
    assert_ne!(base, compute_hash("q", "e", "x", 1.0f64.to_bits(), "d"));
    assert_ne!(base, compute_hash("p", "f", "x", 1.0f64.to_bits(), "d"));
    assert_ne!(base, compute_hash("p", "e", "y", 1.0f64.to_bits(), "d"));
    assert_ne!(base, compute_hash("p", "e", "x", 2.0f64.to_bits(), "d"));
    assert_ne!(base, compute_hash("p", "e", "x", 1.0f64.to_bits(), "c"));
}

#[test]
fn empty_chain_verifies_with_no_links() {
    let chain: Vec<AuditLink> = Vec::new();
    assert_eq!(verify_chain(&chain), Ok(0));
}

#[test]
fn tampered_hash_is_reported_at_its_link() {
    let mut chain = Vec::new();
    append(&mut chain, "usage", "org-a", 10.0, "d1");
    append(&mut chain, "usage", "org-a", 5.0, "d2");
    append(&mut chain, "usage", "org-a", 7.0, "d3");
    chain[1].hash = "tampered".to_string();
    assert_eq!(verify_chain(&chain), Err(2));
}

#[test]
fn tampered_prev_hash_is_reported_at_its_link() {
    let mut chain = Vec::new();
    append(&mut chain, "usage", "org-a", 10.0, "d1");
    append(&mut chain, "usage", "org-a", 5.0, "d2");
    chain[0].prev_hash = "x".to_string();
    assert_eq!(verify_chain(&chain), Err(1));
}

#[test]
fn tampered_details_are_reported_at_their_link() {
    let mut chain = Vec::new();
    append(&mut chain, "usage", "org-a", 10.0, "d1");
    append(&mut chain, "usage", "org-a", 5.0, "d2");
    append(&mut chain, "usage", "org-a", 5.0, "d3");
    chain[2].details = "changed".to_string();
    assert_eq!(verify_chain(&chain), Err(3));
}

#[test]
fn tampered_amount_is_reported_at_its_link() {
    let mut chain = Vec::new();
    append(&mut chain, "usage", "org-a", 10.0, "d1");
    append(&mut chain, "usage", "org-a", 5.0, "d2");
    chain[0].amount_bits = 1000.0f64.to_bits();
    assert_eq!(verify_chain(&chain), Err(1));
}

#[test]
fn missing_last_hash_starts_the_chain_empty() {
    assert_eq!(prev_hash_or_empty(None), "");
    assert_eq!(prev_hash_or_empty(Some("abc".to_string())), "abc");
}

#[test]
fn deleted_middle_link_is_reported_at_its_successor() {
    let mut chain = Vec::new();
    append(&mut chain, "usage", "org-a", 10.0, "d1");
    append(&mut chain, "usage", "org-a", 5.0, "d2");
    append(&mut chain, "usage", "org-a", 7.0, "d3");
    chain.remove(1);
    assert_eq!(verify_chain(&chain), Err(3));
}

#[test]
fn deleted_first_link_is_reported_at_its_successor() {
    let mut chain = Vec::new();
    append(&mut chain, "usage", "org-a", 10.0, "d1");
    append(&mut chain, "usage", "org-a", 5.0, "d2");
    chain.remove(0);
    assert_eq!(verify_chain(&chain), Err(2));
}

#[test]
fn inserted_forged_link_is_reported() {
    let mut chain = Vec::new();
    append(&mut chain, "usage", "org-a", 10.0, "d1");
    append(&mut chain, "usage", "org-a", 5.0, "d2");
    // A forged link that fits where it stands: names the first hash, carries its own.
    let prev = chain[0].hash.clone();
    let hash = compute_hash(&prev, "refund", "org-a", 99.0f64.to_bits(), "forged");
    let forged = AuditLink {
        id: 99,
        event_type: "refund".to_string(),
        entity_id: "org-a".to_string(),
        amount_bits: 99.0f64.to_bits(),
        details: "forged".to_string(),
        prev_hash: prev,
        hash,
    };
    chain.insert(1, forged);
    // The forged link fits, so its successor no longer does.
    assert_eq!(verify_chain(&chain), Err(2));
}

#[test]
fn inserted_unfit_link_is_reported_at_itself() {
    let mut chain = Vec::new();
    append(&mut chain, "usage", "org-a", 10.0, "d1");
    append(&mut chain, "usage", "org-a", 5.0, "d2");
    let forged = AuditLink {
        id: 77,
        event_type: "refund".to_string(),
        entity_id: "org-a".to_string(),
        amount_bits: 1.0f64.to_bits(),
        details: "forged".to_string(),
        prev_hash: "nothing".to_string(),
        hash: "nothing".to_string(),
    };
    chain.insert(0, forged);
    assert_eq!(verify_chain(&chain), Err(77));
}

#[test]
fn next_link_hashes_names_the_last_hash() {
    let (prev, hash) = next_link_hashes(None, "usage", "acme-corp", 10.0f64.to_bits(), "api calls");
    assert_eq!(prev, "");
    assert_eq!(hash, compute_hash("", "usage", "acme-corp", 10.0f64.to_bits(), "api calls"));
    let (prev2, hash2) =
        next_link_hashes(Some(hash.clone()), "usage", "acme-corp", 5.0f64.to_bits(), "tokens");
    assert_eq!(prev2, hash);
    assert_eq!(hash2, compute_hash(&hash, "usage", "acme-corp", 5.0f64.to_bits(), "tokens"));
}
