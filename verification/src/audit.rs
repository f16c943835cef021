//! Tamper-evident audit trail with a hash chain.
//!
//! Every billing transaction is logged with a SHA-256 hash over the previous
//! entry's hash and the entry's own fields, so that each link commits to the
//! whole history before it. `verify_chain` finds the first link that does not
//! fit, and any rewrite of a stored hash is found there.

use vstd::bytes::{
    lemma_auto_spec_u64_to_from_le_bytes, spec_u64_from_le_bytes, spec_u64_to_le_bytes,
    u64_to_le_bytes,
};
use vstd::prelude::*;
use vstd::string::StringSliceAdditionalSpecFns;
use vstd::utf8::encode_utf8;

use crate::hashing::{lower_hex, sha256, sha256_digest, to_lower_hex};

verus! {

/// One stored link of the audit chain.
///
/// The amount is held as the IEEE-754 bit pattern of the `f64` amount in USD
/// (`f64::to_bits`): the chain hashes its little-endian bytes and reads nothing
/// else of it.
pub struct AuditLink {
    pub id: i64,
    pub event_type: String,
    pub entity_id: String,
    pub amount_bits: u64,
    pub details: String,
    pub prev_hash: String,
    pub hash: String,
}

/// The mathematical content of an audit link.
pub struct AuditLinkView {
    pub id: i64,
    pub event_type: Seq<char>,
    pub entity_id: Seq<char>,
    pub amount_bits: u64,
    pub details: Seq<char>,
    pub prev_hash: Seq<char>,
    pub hash: Seq<char>,
}

impl View for AuditLink {
    type V = AuditLinkView;

    open spec fn view(&self) -> AuditLinkView {
        AuditLinkView {
            id: self.id,
            event_type: self.event_type@,
            entity_id: self.entity_id@,
            amount_bits: self.amount_bits,
            details: self.details@,
            prev_hash: self.prev_hash@,
            hash: self.hash@,
        }
    }
}

/// The bytes that an entry's hash is taken over: the previous hash, the event
/// type, the entity, the amount's little-endian bytes and the details, in that
/// order, text in UTF-8.
pub open spec fn entry_preimage(
    prev_hash: Seq<char>,
    event_type: Seq<char>,
    entity_id: Seq<char>,
    amount_bits: u64,
    details: Seq<char>,
) -> Seq<u8> {
    encode_utf8(prev_hash) + encode_utf8(event_type) + encode_utf8(entity_id)
        + spec_u64_to_le_bytes(amount_bits) + encode_utf8(details)
}

/// The hash of an entry: lowercase hex of the SHA-256 digest of its preimage.
pub open spec fn entry_hash(
    prev_hash: Seq<char>,
    event_type: Seq<char>,
    entity_id: Seq<char>,
    amount_bits: u64,
    details: Seq<char>,
) -> Seq<char> {
    lower_hex(sha256_digest(entry_preimage(prev_hash, event_type, entity_id, amount_bits, details)))
}

/// An entry's hash is the lowercase hex of the SHA-256 digest of bytes that
/// hold every field whole, in order and nothing else: the UTF-8 of the previous
/// hash, of the event type and of the entity, the amount's eight little-endian
/// bytes (which read back as the amount), then the UTF-8 of the details.
pub proof fn lemma_entry_hash_covers_all_fields(
    prev_hash: Seq<char>,
    event_type: Seq<char>,
    entity_id: Seq<char>,
    amount_bits: u64,
    details: Seq<char>,
)
    ensures
        exists|data: Seq<u8>|
            {
                let p = encode_utf8(prev_hash).len() as int;
                let e = encode_utf8(event_type).len() as int;
                let x = encode_utf8(entity_id).len() as int;
                let d = encode_utf8(details).len() as int;
                &&& entry_hash(prev_hash, event_type, entity_id, amount_bits, details) == lower_hex(
                    #[trigger] sha256_digest(data),
                )
                &&& data.len() == p + e + x + 8 + d
                &&& data.subrange(0, p) == encode_utf8(prev_hash)
                &&& data.subrange(p, p + e) == encode_utf8(event_type)
                &&& data.subrange(p + e, p + e + x) == encode_utf8(entity_id)
                &&& data.subrange(p + e + x, p + e + x + 8) == spec_u64_to_le_bytes(amount_bits)
                &&& spec_u64_from_le_bytes(data.subrange(p + e + x, p + e + x + 8)) == amount_bits
                &&& data.subrange(p + e + x + 8, p + e + x + 8 + d) == encode_utf8(details)
            },
{
    lemma_auto_spec_u64_to_from_le_bytes();
    let data = entry_preimage(prev_hash, event_type, entity_id, amount_bits, details);
    let p = encode_utf8(prev_hash).len() as int;
    let e = encode_utf8(event_type).len() as int;
    let x = encode_utf8(entity_id).len() as int;
    let d = encode_utf8(details).len() as int;
    assert(data.subrange(0, p) =~= encode_utf8(prev_hash));
    assert(data.subrange(p, p + e) =~= encode_utf8(event_type));
    assert(data.subrange(p + e, p + e + x) =~= encode_utf8(entity_id));
    assert(data.subrange(p + e + x, p + e + x + 8) =~= spec_u64_to_le_bytes(amount_bits));
    assert(data.subrange(p + e + x + 8, p + e + x + 8 + d) =~= encode_utf8(details));
    assert(entry_hash(prev_hash, event_type, entity_id, amount_bits, details) == lower_hex(
        sha256_digest(data),
    ));
}

/// Two entries that differ in one field only, whichever it is, have different
/// preimages: the hash is taken over every bit of every field.
pub proof fn lemma_entry_preimage_separates_fields(
    prev_hash: Seq<char>,
    event_type: Seq<char>,
    entity_id: Seq<char>,
    amount_bits: u64,
    details: Seq<char>,
    other_prev_hash: Seq<char>,
    other_event_type: Seq<char>,
    other_entity_id: Seq<char>,
    other_amount_bits: u64,
    other_details: Seq<char>,
)
    ensures
        prev_hash != other_prev_hash ==> entry_preimage(prev_hash, event_type, entity_id, amount_bits, details)
            != entry_preimage(other_prev_hash, event_type, entity_id, amount_bits, details),
        event_type != other_event_type ==> entry_preimage(prev_hash, event_type, entity_id, amount_bits, details)
            != entry_preimage(prev_hash, other_event_type, entity_id, amount_bits, details),
        entity_id != other_entity_id ==> entry_preimage(prev_hash, event_type, entity_id, amount_bits, details)
            != entry_preimage(prev_hash, event_type, other_entity_id, amount_bits, details),
        amount_bits != other_amount_bits ==> entry_preimage(prev_hash, event_type, entity_id, amount_bits, details)
            != entry_preimage(prev_hash, event_type, entity_id, other_amount_bits, details),
        details != other_details ==> entry_preimage(prev_hash, event_type, entity_id, amount_bits, details)
            != entry_preimage(prev_hash, event_type, entity_id, amount_bits, other_details),
{
    broadcast use vstd::utf8::encode_utf8_decode_utf8;

    lemma_auto_spec_u64_to_from_le_bytes();
    let ep = encode_utf8(prev_hash);
    let ee = encode_utf8(event_type);
    let ex = encode_utf8(entity_id);
    let ea = spec_u64_to_le_bytes(amount_bits);
    let ed = encode_utf8(details);
    let base = entry_preimage(prev_hash, event_type, entity_id, amount_bits, details);
    if prev_hash != other_prev_hash {
        let q = encode_utf8(other_prev_hash);
        let t = entry_preimage(other_prev_hash, event_type, entity_id, amount_bits, details);
        let rest = ee + ex + ea + ed;
        assert(base =~= Seq::empty() + ep + rest);
        assert(t =~= Seq::empty() + q + rest);
        if base == t {
            lemma_middle_cancels(Seq::empty(), ep, q, rest);
            assert(vstd::utf8::decode_utf8(ep) == prev_hash);
        }
    }
    if event_type != other_event_type {
        let q = encode_utf8(other_event_type);
        let t = entry_preimage(prev_hash, other_event_type, entity_id, amount_bits, details);
        let rest = ex + ea + ed;
        assert(base =~= ep + ee + rest);
        assert(t =~= ep + q + rest);
        if base == t {
            lemma_middle_cancels(ep, ee, q, rest);
            assert(vstd::utf8::decode_utf8(ee) == event_type);
        }
    }
    if entity_id != other_entity_id {
        let q = encode_utf8(other_entity_id);
        let t = entry_preimage(prev_hash, event_type, other_entity_id, amount_bits, details);
        let rest = ea + ed;
        assert(base =~= (ep + ee) + ex + rest);
        assert(t =~= (ep + ee) + q + rest);
        if base == t {
            lemma_middle_cancels(ep + ee, ex, q, rest);
            assert(vstd::utf8::decode_utf8(ex) == entity_id);
        }
    }
    if amount_bits != other_amount_bits {
        let q = spec_u64_to_le_bytes(other_amount_bits);
        let t = entry_preimage(prev_hash, event_type, entity_id, other_amount_bits, details);
        assert(base =~= (ep + ee + ex) + ea + ed);
        assert(t =~= (ep + ee + ex) + q + ed);
        if base == t {
            lemma_middle_cancels(ep + ee + ex, ea, q, ed);
            assert(spec_u64_from_le_bytes(ea) == amount_bits);
        }
    }
    if details != other_details {
        let q = encode_utf8(other_details);
        let t = entry_preimage(prev_hash, event_type, entity_id, amount_bits, other_details);
        assert(base =~= (ep + ee + ex + ea) + ed + Seq::empty());
        assert(t =~= (ep + ee + ex + ea) + q + Seq::empty());
        if base == t {
            lemma_middle_cancels(ep + ee + ex + ea, ed, q, Seq::empty());
            assert(vstd::utf8::decode_utf8(ed) == details);
        }
    }
}

/// Equal concatenations with the same outer parts have the same middle part.
proof fn lemma_middle_cancels(a: Seq<u8>, m1: Seq<u8>, m2: Seq<u8>, b: Seq<u8>)
    requires
        a + m1 + b == a + m2 + b,
    ensures
        m1 == m2,
{
    let w = a + m1 + b;
    assert(w.len() == a.len() + m1.len() + b.len());
    assert((a + m2 + b).len() == a.len() + m2.len() + b.len());
    assert(m1.len() == m2.len());
    assert(m1 =~= w.subrange(a.len() as int, (a.len() + m1.len()) as int));
    assert(m2 =~= (a + m2 + b).subrange(a.len() as int, (a.len() + m2.len()) as int));
}

/// The hash that a link's own fields call for.
pub open spec fn link_hash(l: AuditLinkView) -> Seq<char> {
    entry_hash(l.prev_hash, l.event_type, l.entity_id, l.amount_bits, l.details)
}

/// The hash that the link at `k` must name as its predecessor: none (empty
/// text) for the first link, else the stored hash of the link before it.
pub open spec fn expected_prev(links: Seq<AuditLinkView>, k: int) -> Seq<char> {
    if k == 0 {
        Seq::empty()
    } else {
        links[k - 1].hash
    }
}

/// The link at `k` names its predecessor's hash and carries its own hash.
pub open spec fn link_ok(links: Seq<AuditLinkView>, k: int) -> bool {
    &&& links[k].prev_hash == expected_prev(links, k)
    &&& links[k].hash == link_hash(links[k])
}

/// Every link of the chain fits.
pub open spec fn chain_ok(links: Seq<AuditLinkView>) -> bool {
    forall|k: int| 0 <= k < links.len() ==> #[trigger] link_ok(links, k)
}

/// The position of the first link at or after `k` that does not fit, or the
/// length of the chain where none fails.
pub open spec fn first_broken_from(links: Seq<AuditLinkView>, k: int) -> int
    decreases links.len() - k,
{
    if k < 0 || k >= links.len() {
        links.len() as int
    } else if !link_ok(links, k) {
        k
    } else {
        first_broken_from(links, k + 1)
    }
}

/// The verdict on a chain: its length when every link fits, else the id of the
/// first link that does not.
pub open spec fn chain_verdict(links: Seq<AuditLinkView>) -> Result<usize, i64> {
    let k = first_broken_from(links, 0);
    if k < links.len() {
        Err(links[k].id)
    } else {
        Ok(links.len() as usize)
    }
}

/// The hash that the last link of a chain carries, or empty text for an empty chain.
pub open spec fn last_hash(links: Seq<AuditLinkView>) -> Seq<char> {
    if links.len() == 0 {
        Seq::empty()
    } else {
        links.last().hash
    }
}

/// Appends bytes to a buffer.
fn push_bytes(out: &mut Vec<u8>, bytes: &[u8])
    ensures
        final(out)@ == old(out)@ + bytes@,
{
    let n = bytes.len();
    let mut i: usize = 0;
    while i < n
        invariant
            n == bytes@.len(),
            i <= n,
            out@ == old(out)@ + bytes@.take(i as int),
        decreases n - i,
    {
        out.push(bytes[i]);
        proof {
            assert(bytes@.take(i as int + 1) =~= bytes@.take(i as int).push(bytes@[i as int]));
        }
        i = i + 1;
    }
    proof {
        assert(bytes@.take(n as int) =~= bytes@);
    }
}

/// Computes the hash of an audit entry from the previous hash and its fields.
pub fn compute_hash(
    prev_hash: &str,
    event_type: &str,
    entity_id: &str,
    amount_bits: u64,
    details: &str,
) -> (h: String)
    ensures
        h@ == entry_hash(prev_hash@, event_type@, entity_id@, amount_bits, details@),
        h@.len() == 64,
        forall|j: int|
            0 <= j < h@.len() ==> ('0' <= #[trigger] h@[j] <= '9') || ('a' <= h@[j] <= 'f'),
        exists|data: Seq<u8>|
            {
                let p = encode_utf8(prev_hash@).len() as int;
                let e = encode_utf8(event_type@).len() as int;
                let x = encode_utf8(entity_id@).len() as int;
                let d = encode_utf8(details@).len() as int;
                &&& h@ == lower_hex(#[trigger] sha256_digest(data))
                &&& data.len() == p + e + x + 8 + d
                &&& data.subrange(0, p) == encode_utf8(prev_hash@)
                &&& data.subrange(p, p + e) == encode_utf8(event_type@)
                &&& data.subrange(p + e, p + e + x) == encode_utf8(entity_id@)
                &&& data.subrange(p + e + x, p + e + x + 8) == spec_u64_to_le_bytes(amount_bits)
                &&& data.subrange(p + e + x + 8, p + e + x + 8 + d) == encode_utf8(details@)
            },
{
    let mut data: Vec<u8> = Vec::new();
    push_bytes(&mut data, prev_hash.as_bytes());
    push_bytes(&mut data, event_type.as_bytes());
    push_bytes(&mut data, entity_id.as_bytes());
    let amount = u64_to_le_bytes(amount_bits);
    push_bytes(&mut data, amount.as_slice());
    push_bytes(&mut data, details.as_bytes());
    proof {
        assert(data@ =~= entry_preimage(prev_hash@, event_type@, entity_id@, amount_bits, details@));
    }
    let digest = sha256(data.as_slice());
    proof {
        crate::hashing::lemma_lower_hex_len(digest@);
        crate::hashing::lemma_lower_hex_digits(digest@);
        lemma_entry_hash_covers_all_fields(prev_hash@, event_type@, entity_id@, amount_bits, details@);
    }
    to_lower_hex(digest.as_slice())
}

/// The views of stored links.
pub open spec fn link_views(links: Seq<AuditLink>) -> Seq<AuditLinkView> {
    links.map_values(|l: AuditLink| l@)
}

/// The hash that a new entry names as its predecessor: the last stored hash,
/// or empty text when the trail is empty (or the last hash cannot be read).
pub fn prev_hash_or_empty(last: Option<String>) -> (h: String)
    ensures
        h@ == (match last {
            Some(s) => s@,
            None => Seq::<char>::empty(),
        }),
{
    match last {
        Some(s) => s,
        None => String::new(),
    }
}

/// Checks the chain link by link, in order: each link must name the previous
/// link's hash (empty text for the first) and carry the hash of its own fields.
/// Gives the number of links when all fit, else the id of the first that does not.
pub fn verify_chain(links: &Vec<AuditLink>) -> (r: Result<usize, i64>)
    ensures
        r == chain_verdict(link_views(links@)),
{
    let ghost v = link_views(links@);
    let n = links.len();
    let mut expected = String::new();
    let mut i: usize = 0;
    while i < n
        invariant
            n == links@.len(),
            v == link_views(links@),
            v.len() == n,
            i <= n,
            forall|j: int| 0 <= j < i ==> #[trigger] link_ok(v, j),
            expected@ == expected_prev(v, i as int),
            first_broken_from(v, 0) == first_broken_from(v, i as int),
        decreases n - i,
    {
        let l = &links[i];
        assert(v[i as int] == l@);
        if !(l.prev_hash == expected) {
            return Err(l.id);
        }
        let computed = compute_hash(
            l.prev_hash.as_str(),
            l.event_type.as_str(),
            l.entity_id.as_str(),
            l.amount_bits,
            l.details.as_str(),
        );
        if !(computed == l.hash) {
            return Err(l.id);
        }
        expected = l.hash.clone();
        i = i + 1;
    }
    Ok(n)
}

/// Where every link before `k` fits, the first broken link is the first broken
/// link at or after `k`.
proof fn lemma_first_broken_skips_valid_prefix(v: Seq<AuditLinkView>, k: int)
    requires
        0 <= k <= v.len(),
        forall|j: int| 0 <= j < k ==> #[trigger] link_ok(v, j),
    ensures
        first_broken_from(v, 0) == first_broken_from(v, k),
    decreases k,
{
    if k > 0 {
        lemma_first_broken_skips_valid_prefix(v, k - 1);
        assert(link_ok(v, k - 1));
    }
}

/// A chain in which every link fits is judged valid, with its length.
pub proof fn lemma_valid_chain_verdict(v: Seq<AuditLinkView>)
    requires
        chain_ok(v),
    ensures
        chain_verdict(v) == Ok::<usize, i64>(v.len() as usize),
{
    lemma_first_broken_skips_valid_prefix(v, v.len() as int);
}

/// The link that an append adds after `links`: it names the last stored hash
/// and carries the hash of its own fields.
pub open spec fn appended_link(
    links: Seq<AuditLinkView>,
    id: i64,
    event_type: Seq<char>,
    entity_id: Seq<char>,
    amount_bits: u64,
    details: Seq<char>,
) -> AuditLinkView {
    let prev = last_hash(links);
    AuditLinkView {
        id,
        event_type,
        entity_id,
        amount_bits,
        details,
        prev_hash: prev,
        hash: entry_hash(prev, event_type, entity_id, amount_bits, details),
    }
}

/// Appending an entry to a valid chain keeps it valid: every link still fits,
/// and the chain is judged valid with one more link.
pub proof fn lemma_append_keeps_chain_valid(
    links: Seq<AuditLinkView>,
    id: i64,
    event_type: Seq<char>,
    entity_id: Seq<char>,
    amount_bits: u64,
    details: Seq<char>,
)
    requires
        chain_ok(links),
    ensures
        chain_ok(links.push(appended_link(links, id, event_type, entity_id, amount_bits, details))),
        chain_verdict(links.push(appended_link(links, id, event_type, entity_id, amount_bits, details)))
            == Ok::<usize, i64>((links.len() + 1) as usize),
{
    let l = appended_link(links, id, event_type, entity_id, amount_bits, details);
    let w = links.push(l);
    assert forall|k: int| 0 <= k < w.len() implies #[trigger] link_ok(w, k) by {
        if k < links.len() {
            assert(link_ok(links, k));
            if k > 0 {
                assert(w[k - 1] == links[k - 1]);
            }
        } else {
            if k > 0 {
                assert(w[k - 1] == links.last());
            }
        }
    }
    lemma_valid_chain_verdict(w);
}

/// One entry as handed to an append: its id and fields.
pub struct AuditInput {
    pub id: i64,
    pub event_type: Seq<char>,
    pub entity_id: Seq<char>,
    pub amount_bits: u64,
    pub details: Seq<char>,
}

/// The chain that appending the given entries one after another builds,
/// starting from an empty trail.
pub open spec fn built_chain(inputs: Seq<AuditInput>) -> Seq<AuditLinkView>
    decreases inputs.len(),
{
    if inputs.len() == 0 {
        Seq::empty()
    } else {
        let before = built_chain(inputs.drop_last());
        let e = inputs.last();
        before.push(appended_link(before, e.id, e.event_type, e.entity_id, e.amount_bits, e.details))
    }
}

/// A trail built only by appends verifies, with as many links as entries.
pub proof fn lemma_built_chain_verifies(inputs: Seq<AuditInput>)
    ensures
        built_chain(inputs).len() == inputs.len(),
        chain_ok(built_chain(inputs)),
        chain_verdict(built_chain(inputs)) == Ok::<usize, i64>(inputs.len() as usize),
    decreases inputs.len(),
{
    if inputs.len() > 0 {
        lemma_built_chain_verifies(inputs.drop_last());
        let before = built_chain(inputs.drop_last());
        let e = inputs.last();
        lemma_append_keeps_chain_valid(before, e.id, e.event_type, e.entity_id, e.amount_bits, e.details);
    } else {
        lemma_valid_chain_verdict(built_chain(inputs));
    }
}

/// Where a chain agrees with a valid chain on its first `k` links, those links
/// still fit, and the first broken link is the first one at or after `k`.
proof fn lemma_shared_prefix_fits(links: Seq<AuditLinkView>, t: Seq<AuditLinkView>, k: int)
    requires
        chain_ok(links),
        0 <= k <= t.len(),
        k <= links.len(),
        forall|j: int| 0 <= j < k ==> t[j] == links[j],
    ensures
        forall|j: int| 0 <= j < k ==> #[trigger] link_ok(t, j),
        first_broken_from(t, 0) == first_broken_from(t, k),
{
    assert forall|j: int| 0 <= j < k implies #[trigger] link_ok(t, j) by {
        assert(link_ok(links, j));
        assert(t[j] == links[j]);
        if j > 0 {
            assert(t[j - 1] == links[j - 1]);
        }
    }
    lemma_first_broken_skips_valid_prefix(t, k);
}

/// Where the link at `k` does not fit, the verdict names it, provided every
/// link before it fits.
proof fn lemma_break_at(t: Seq<AuditLinkView>, k: int)
    requires
        0 <= k < t.len(),
        first_broken_from(t, 0) == first_broken_from(t, k),
        !link_ok(t, k),
    ensures
        chain_verdict(t) == Err::<usize, i64>(t[k].id),
{
}

/// Replacing one link of a valid chain by a link that does not fit there (it
/// names another predecessor hash, or its stored hash is not the hash of its
/// own fields) is reported at that link. A rewrite of the event, entity,
/// amount or details is caught this way unless the new fields hash to the
/// very same text.
pub proof fn lemma_unfit_rewrite_detected(links: Seq<AuditLinkView>, k: int, n: AuditLinkView)
    requires
        chain_ok(links),
        0 <= k < links.len(),
        n.prev_hash != links[k].prev_hash || n.hash != link_hash(n),
    ensures
        chain_verdict(links.update(k, n)) == Err::<usize, i64>(n.id),
{
    let t = links.update(k, n);
    lemma_shared_prefix_fits(links, t, k);
    assert(link_ok(links, k));
    if k > 0 {
        assert(t[k - 1] == links[k - 1]);
    }
    lemma_break_at(t, k);
}

/// Rewriting the stored hash of one link of a valid chain to any other text is
/// detected: the verdict names that link's id.
pub proof fn lemma_rewritten_hash_detected(links: Seq<AuditLinkView>, k: int, h: Seq<char>)
    requires
        chain_ok(links),
        0 <= k < links.len(),
        h != links[k].hash,
    ensures
        chain_verdict(links.update(k, AuditLinkView { hash: h, ..links[k] })) == Err::<usize, i64>(links[k].id),
{
    assert(link_ok(links, k));
    lemma_unfit_rewrite_detected(links, k, AuditLinkView { hash: h, ..links[k] });
}

/// Rewriting the predecessor hash named by one link of a valid chain to any
/// other text is detected: the verdict names that link's id.
pub proof fn lemma_rewritten_prev_hash_detected(links: Seq<AuditLinkView>, k: int, p: Seq<char>)
    requires
        chain_ok(links),
        0 <= k < links.len(),
        p != links[k].prev_hash,
    ensures
        chain_verdict(links.update(k, AuditLinkView { prev_hash: p, ..links[k] }))
            == Err::<usize, i64>(links[k].id),
{
    lemma_unfit_rewrite_detected(links, k, AuditLinkView { prev_hash: p, ..links[k] });
}

/// Deleting a link of a valid chain other than the last is detected: the
/// verdict names the link that followed it, which no longer names the hash
/// before it. The one exception is a deleted link whose hash equals the hash
/// it followed (empty text for the first link).
pub proof fn lemma_deleted_link_detected(links: Seq<AuditLinkView>, k: int)
    requires
        chain_ok(links),
        0 <= k < links.len() - 1,
        links[k].hash != expected_prev(links, k),
    ensures
        chain_verdict(links.remove(k)) == Err::<usize, i64>(links[k + 1].id),
{
    let t = links.remove(k);
    lemma_shared_prefix_fits(links, t, k);
    assert(link_ok(links, k + 1));
    assert(t[k] == links[k + 1]);
    if k > 0 {
        assert(t[k - 1] == links[k - 1]);
    }
    assert(!link_ok(t, k));
    lemma_break_at(t, k);
}

/// Inserting a forged link anywhere before the last link of a valid chain is
/// detected: the verdict names the forged link, or the link that followed it.
/// The one exception is a forged link whose own fields hash to the very hash
/// it follows.
pub proof fn lemma_inserted_link_detected(links: Seq<AuditLinkView>, k: int, x: AuditLinkView)
    requires
        chain_ok(links),
        0 <= k < links.len(),
        link_hash(x) != expected_prev(links, k),
    ensures
        chain_verdict(links.insert(k, x)) == Err::<usize, i64>(x.id) || chain_verdict(
            links.insert(k, x),
        ) == Err::<usize, i64>(links[k].id),
{
    let t = links.insert(k, x);
    lemma_shared_prefix_fits(links, t, k);
    assert(t[k] == x);
    if k > 0 {
        assert(t[k - 1] == links[k - 1]);
    }
    if !link_ok(t, k) {
        lemma_break_at(t, k);
    } else {
        assert(link_ok(t, k));
        lemma_first_broken_skips_valid_prefix(t, k + 1);
        assert(t[k + 1] == links[k]);
        assert(link_ok(links, k));
        assert(!link_ok(t, k + 1));
        lemma_break_at(t, k + 1);
    }
}

/// Where no link at or after `k` is broken, every link from `k` on fits.
proof fn lemma_no_break_from(v: Seq<AuditLinkView>, k: int)
    requires
        0 <= k <= v.len(),
        first_broken_from(v, k) >= v.len(),
    ensures
        forall|j: int| k <= j < v.len() ==> #[trigger] link_ok(v, j),
    decreases v.len() - k,
{
    if k < v.len() {
        lemma_no_break_from(v, k + 1);
    }
}

/// A chain that the verdict accepts is valid: every link fits.
pub proof fn lemma_accepted_chain_is_valid(v: Seq<AuditLinkView>)
    requires
        chain_verdict(v) is Ok,
    ensures
        chain_ok(v),
{
    lemma_no_break_from(v, 0);
}

/// The predecessor hash and the hash of a new entry: the last stored hash
/// (empty text when there is none), then the hash of that and the fields.
pub fn next_link_hashes(
    stored_last: Option<String>,
    event_type: &str,
    entity_id: &str,
    amount_bits: u64,
    details: &str,
) -> (r: (String, String))
    ensures
        r.0@ == (match stored_last {
            Some(h) => h@,
            None => Seq::<char>::empty(),
        }),
        r.1@ == entry_hash(r.0@, event_type@, entity_id@, amount_bits, details@),
        forall|links: Seq<AuditLinkView>, id: i64|
            last_hash(links) == r.0@ ==> #[trigger] appended_link(
                links,
                id,
                event_type@,
                entity_id@,
                amount_bits,
                details@,
            ) == (AuditLinkView {
                id,
                event_type: event_type@,
                entity_id: entity_id@,
                amount_bits,
                details: details@,
                prev_hash: r.0@,
                hash: r.1@,
            }),
{
    let prev = prev_hash_or_empty(stored_last);
    let hash = compute_hash(prev.as_str(), event_type, entity_id, amount_bits, details);
    (prev, hash)
}

} // verus!
