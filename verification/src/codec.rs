//! Canonical byte encoding of the plaintext vault.
//!
//! Layout, all integers little-endian: the vault's `created_at` and
//! `updated_at` (8 bytes each), the entry count (8 bytes), then each entry in
//! order. An entry is its identifier (16 bytes), its four text fields, each as
//! an 8-byte byte-length followed by the field's UTF-8 bytes, and its two
//! timestamps (8 bytes each). Decoding accepts a byte sequence exactly when
//! the specification-level parser does, and decoding an encoding gives back
//! the vault it came from.

use vstd::prelude::*;
use vstd::slice::slice_subrange;
use vstd::slice::slice_to_vec;
use vstd::string::StrSliceExecFns;
use vstd::utf8::decode_utf8;
use vstd::utf8::encode_utf8;
use vstd::utf8::encode_utf8_decode_utf8;
use vstd::utf8::encode_utf8_valid_utf8;
use vstd::utf8::valid_utf8;
use crate::vault::EntryModel;
use crate::vault::PasswordEntry;
use crate::vault::Vault;
use crate::vault::VaultModel;

verus! {

// ---------------------------------------------------------------------------
// Little-endian integers
// ---------------------------------------------------------------------------

/// The 8 little-endian bytes of a 64-bit integer.
pub open spec fn le64(x: u64) -> Seq<u8> {
    seq![
        (x & 0xff) as u8,
        ((x >> 8) & 0xff) as u8,
        ((x >> 16) & 0xff) as u8,
        ((x >> 24) & 0xff) as u8,
        ((x >> 32) & 0xff) as u8,
        ((x >> 40) & 0xff) as u8,
        ((x >> 48) & 0xff) as u8,
        ((x >> 56) & 0xff) as u8,
    ]
}

/// The 16 little-endian bytes of a 128-bit integer.
pub open spec fn le128(x: u128) -> Seq<u8> {
    seq![
        (x & 0xff) as u8,
        ((x >> 8) & 0xff) as u8,
        ((x >> 16) & 0xff) as u8,
        ((x >> 24) & 0xff) as u8,
        ((x >> 32) & 0xff) as u8,
        ((x >> 40) & 0xff) as u8,
        ((x >> 48) & 0xff) as u8,
        ((x >> 56) & 0xff) as u8,
        ((x >> 64) & 0xff) as u8,
        ((x >> 72) & 0xff) as u8,
        ((x >> 80) & 0xff) as u8,
        ((x >> 88) & 0xff) as u8,
        ((x >> 96) & 0xff) as u8,
        ((x >> 104) & 0xff) as u8,
        ((x >> 112) & 0xff) as u8,
        ((x >> 120) & 0xff) as u8,
    ]
}

/// The 64-bit integer whose little-endian bytes the first 8 bytes of `b` are.
pub open spec fn dec64(b: Seq<u8>) -> u64
    recommends
        b.len() >= 8,
{
    ((b[0] as u64) | ((b[1] as u64) << 8) | ((b[2] as u64) << 16) | ((b[3] as u64) << 24)
        | ((b[4] as u64) << 32) | ((b[5] as u64) << 40) | ((b[6] as u64) << 48)
        | ((b[7] as u64) << 56)) as u64
}

/// The 128-bit integer whose little-endian bytes the first 16 bytes of `b`
/// are.
pub open spec fn dec128(b: Seq<u8>) -> u128
    recommends
        b.len() >= 16,
{
    ((b[0] as u128) | ((b[1] as u128) << 8) | ((b[2] as u128) << 16) | ((b[3] as u128) << 24)
        | ((b[4] as u128) << 32) | ((b[5] as u128) << 40) | ((b[6] as u128) << 48)
        | ((b[7] as u128) << 56) | ((b[8] as u128) << 64) | ((b[9] as u128) << 72)
        | ((b[10] as u128) << 80) | ((b[11] as u128) << 88) | ((b[12] as u128) << 96)
        | ((b[13] as u128) << 104) | ((b[14] as u128) << 112) | ((b[15] as u128) << 120)) as u128
}

/// Reading back the little-endian bytes of a 64-bit integer gives the
/// integer.
pub proof fn lemma_dec64_le64(x: u64)
    ensures
        dec64(le64(x)) == x,
{
    assert((((x & 0xff) as u8 as u64) | ((((x >> 8) & 0xff) as u8 as u64) << 8)
        | ((((x >> 16) & 0xff) as u8 as u64) << 16) | ((((x >> 24) & 0xff) as u8 as u64) << 24)
        | ((((x >> 32) & 0xff) as u8 as u64) << 32) | ((((x >> 40) & 0xff) as u8 as u64) << 40)
        | ((((x >> 48) & 0xff) as u8 as u64) << 48) | ((((x >> 56) & 0xff) as u8 as u64) << 56))
        == x) by (bit_vector);
}

/// Reading back the little-endian bytes of a 128-bit integer gives the
/// integer.
pub proof fn lemma_dec128_le128(x: u128)
    ensures
        dec128(le128(x)) == x,
{
    assert((((x & 0xff) as u8 as u128) | ((((x >> 8) & 0xff) as u8 as u128) << 8)
        | ((((x >> 16) & 0xff) as u8 as u128) << 16) | ((((x >> 24) & 0xff) as u8 as u128) << 24)
        | ((((x >> 32) & 0xff) as u8 as u128) << 32) | ((((x >> 40) & 0xff) as u8 as u128) << 40)
        | ((((x >> 48) & 0xff) as u8 as u128) << 48) | ((((x >> 56) & 0xff) as u8 as u128) << 56)
        | ((((x >> 64) & 0xff) as u8 as u128) << 64) | ((((x >> 72) & 0xff) as u8 as u128) << 72)
        | ((((x >> 80) & 0xff) as u8 as u128) << 80) | ((((x >> 88) & 0xff) as u8 as u128) << 88)
        | ((((x >> 96) & 0xff) as u8 as u128) << 96) | ((((x >> 104) & 0xff) as u8 as u128) << 104)
        | ((((x >> 112) & 0xff) as u8 as u128) << 112)
        | ((((x >> 120) & 0xff) as u8 as u128) << 120)) == x) by (bit_vector);
}

// ---------------------------------------------------------------------------
// Specification-level encoding
// ---------------------------------------------------------------------------

/// A text field whose UTF-8 byte length fits the 8-byte length prefix.
pub open spec fn str_fits(s: Seq<char>) -> bool {
    encode_utf8(s).len() <= u64::MAX
}

/// Every text field of the entry fits its length prefix.
pub open spec fn entry_fits(e: EntryModel) -> bool {
    &&& str_fits(e.title)
    &&& str_fits(e.username)
    &&& str_fits(e.password)
    &&& str_fits(e.notes)
}

/// The vault's entry count fits its length prefix and every entry fits.
pub open spec fn vault_fits(v: VaultModel) -> bool {
    &&& v.entries.len() <= u64::MAX
    &&& forall|i: int| 0 <= i < v.entries.len() ==> entry_fits(#[trigger] v.entries[i])
}

/// Encoding of one text field: byte length, then UTF-8 bytes.
pub open spec fn enc_str(s: Seq<char>) -> Seq<u8> {
    le64(encode_utf8(s).len() as u64) + encode_utf8(s)
}

/// Encoding of one entry: identifier, the four text fields, the two
/// timestamps.
pub open spec fn enc_entry(e: EntryModel) -> Seq<u8> {
    le128(e.id) + enc_str(e.title) + enc_str(e.username) + enc_str(e.password) + enc_str(e.notes)
        + le64(e.created_at) + le64(e.updated_at)
}

/// Encoding of a sequence of entries, in order.
pub open spec fn enc_entries(es: Seq<EntryModel>) -> Seq<u8>
    decreases es.len(),
{
    if es.len() == 0 {
        Seq::empty()
    } else {
        enc_entry(es[0]) + enc_entries(es.drop_first())
    }
}

/// Encoding of a whole vault: the two timestamps, the entry count, the
/// entries.
pub open spec fn enc_vault(v: VaultModel) -> Seq<u8> {
    le64(v.created_at) + le64(v.updated_at) + le64(v.entries.len() as u64) + enc_entries(v.entries)
}

// ---------------------------------------------------------------------------
// Specification-level parsing
// ---------------------------------------------------------------------------

/// Parse a 64-bit integer from the front; the remainder follows.
pub open spec fn p_u64(b: Seq<u8>) -> Option<(u64, Seq<u8>)> {
    if b.len() >= 8 {
        Some((dec64(b), b.skip(8)))
    } else {
        None
    }
}

/// Parse a 128-bit integer from the front; the remainder follows.
pub open spec fn p_u128(b: Seq<u8>) -> Option<(u128, Seq<u8>)> {
    if b.len() >= 16 {
        Some((dec128(b), b.skip(16)))
    } else {
        None
    }
}

/// Parse one text field from the front: a byte length, then that many bytes,
/// which must be valid UTF-8.
pub open spec fn p_str(b: Seq<u8>) -> Option<(Seq<char>, Seq<u8>)> {
    match p_u64(b) {
        Some((n, rest)) => if n <= rest.len() && valid_utf8(rest.take(n as int)) {
            Some((decode_utf8(rest.take(n as int)), rest.skip(n as int)))
        } else {
            None
        },
        None => None,
    }
}

/// Parse one entry from the front.
#[verifier::opaque]
pub open spec fn p_entry(b: Seq<u8>) -> Option<(EntryModel, Seq<u8>)> {
    match p_u128(b) {
        Some((id, b)) => match p_str(b) {
            Some((title, b)) => match p_str(b) {
                Some((username, b)) => match p_str(b) {
                    Some((password, b)) => match p_str(b) {
                        Some((notes, b)) => match p_u64(b) {
                            Some((created_at, b)) => match p_u64(b) {
                                Some((updated_at, b)) => Some(
                                    (EntryModel {
                                        id,
                                        title,
                                        username,
                                        password,
                                        notes,
                                        created_at,
                                        updated_at,
                                    }, b),
                                ),
                                None => None,
                            },
                            None => None,
                        },
                        None => None,
                    },
                    None => None,
                },
                None => None,
            },
            None => None,
        },
        None => None,
    }
}

/// Parse exactly `n` entries from the front.
pub open spec fn p_entries(b: Seq<u8>, n: nat) -> Option<(Seq<EntryModel>, Seq<u8>)>
    decreases n,
{
    if n == 0 {
        Some((Seq::empty(), b))
    } else {
        match p_entry(b) {
            Some((e, rest)) => match p_entries(rest, (n - 1) as nat) {
                Some((es, rest2)) => Some((seq![e] + es, rest2)),
                None => None,
            },
            None => None,
        }
    }
}

/// The vault a byte sequence canonically encodes, if any: the header, then
/// exactly the announced number of entries, with nothing left over.
pub open spec fn spec_decode(b: Seq<u8>) -> Option<VaultModel> {
    match p_u64(b) {
        Some((created_at, b)) => match p_u64(b) {
            Some((updated_at, b)) => match p_u64(b) {
                Some((n, b)) => match p_entries(b, n as nat) {
                    Some((entries, rest)) => if rest.len() == 0 {
                        Some(VaultModel { entries, created_at, updated_at })
                    } else {
                        None
                    },
                    None => None,
                },
                None => None,
            },
            None => None,
        },
        None => None,
    }
}

// ---------------------------------------------------------------------------
// Round trip: parsing an encoding gives the encoded value back
// ---------------------------------------------------------------------------

proof fn lemma_add_assoc(a: Seq<u8>, b: Seq<u8>, c: Seq<u8>)
    ensures
        (a + b) + c == a + (b + c),
{
    assert((a + b) + c =~= a + (b + c));
}

proof fn lemma_p_u64_le64(x: u64, rest: Seq<u8>)
    ensures
        p_u64(le64(x) + rest) == Some((x, rest)),
{
    let b = le64(x) + rest;
    assert(b.skip(8) =~= rest);
    assert(b[0] == le64(x)[0] && b[1] == le64(x)[1] && b[2] == le64(x)[2] && b[3] == le64(x)[3]
        && b[4] == le64(x)[4] && b[5] == le64(x)[5] && b[6] == le64(x)[6] && b[7] == le64(x)[7]);
    lemma_dec64_le64(x);
    assert(dec64(b) == dec64(le64(x)));
}

proof fn lemma_p_u128_le128(x: u128, rest: Seq<u8>)
    ensures
        p_u128(le128(x) + rest) == Some((x, rest)),
{
    let b = le128(x) + rest;
    assert(b.skip(16) =~= rest);
    assert(forall|i: int| 0 <= i < 16 ==> b[i] == le128(x)[i]);
    lemma_dec128_le128(x);
    assert(dec128(b) == dec128(le128(x)));
}

proof fn lemma_p_str_enc_str(s: Seq<char>, rest: Seq<u8>)
    requires
        str_fits(s),
    ensures
        p_str(enc_str(s) + rest) == Some((s, rest)),
{
    let eb = encode_utf8(s);
    let n = eb.len() as u64;
    lemma_add_assoc(le64(n), eb, rest);
    assert(enc_str(s) + rest == le64(n) + (eb + rest));
    lemma_p_u64_le64(n, eb + rest);
    assert((eb + rest).take(n as int) =~= eb);
    assert((eb + rest).skip(n as int) =~= rest);
    encode_utf8_valid_utf8(s);
    encode_utf8_decode_utf8(s);
}

proof fn lemma_p_entry_enc_entry(e: EntryModel, rest: Seq<u8>)
    requires
        entry_fits(e),
    ensures
        p_entry(enc_entry(e) + rest) == Some((e, rest)),
{
    reveal(p_entry);
    let a1 = le128(e.id);
    let a2 = enc_str(e.title);
    let a3 = enc_str(e.username);
    let a4 = enc_str(e.password);
    let a5 = enc_str(e.notes);
    let a6 = le64(e.created_at);
    let a7 = le64(e.updated_at);
    let r6 = a7 + rest;
    let r5 = a6 + r6;
    let r4 = a5 + r5;
    let r3 = a4 + r4;
    let r2 = a3 + r3;
    let r1 = a2 + r2;
    lemma_add_assoc(a1 + a2 + a3 + a4 + a5 + a6, a7, rest);
    lemma_add_assoc(a1 + a2 + a3 + a4 + a5, a6, r6);
    lemma_add_assoc(a1 + a2 + a3 + a4, a5, r5);
    lemma_add_assoc(a1 + a2 + a3, a4, r4);
    lemma_add_assoc(a1 + a2, a3, r3);
    lemma_add_assoc(a1, a2, r2);
    assert(enc_entry(e) + rest == a1 + r1);
    lemma_p_u128_le128(e.id, r1);
    lemma_p_str_enc_str(e.title, r2);
    lemma_p_str_enc_str(e.username, r3);
    lemma_p_str_enc_str(e.password, r4);
    lemma_p_str_enc_str(e.notes, r5);
    lemma_p_u64_le64(e.created_at, r6);
    lemma_p_u64_le64(e.updated_at, rest);
}

#[verifier::rlimit(60)]
proof fn lemma_p_entries_enc_entries(es: Seq<EntryModel>, rest: Seq<u8>)
    requires
        forall|i: int| 0 <= i < es.len() ==> entry_fits(#[trigger] es[i]),
    ensures
        p_entries(enc_entries(es) + rest, es.len()) == Some((es, rest)),
    decreases es.len(),
{
    if es.len() == 0 {
        assert(enc_entries(es) + rest =~= rest);
        assert(es =~= Seq::<EntryModel>::empty());
    } else {
        let tail = es.drop_first();
        lemma_add_assoc(enc_entry(es[0]), enc_entries(tail), rest);
        assert(enc_entries(es) + rest == enc_entry(es[0]) + (enc_entries(tail) + rest));
        lemma_p_entry_enc_entry(es[0], enc_entries(tail) + rest);
        lemma_p_entries_enc_entries(tail, rest);
        assert(seq![es[0]] + tail =~= es);
    }
}

/// Decoding is a left inverse of encoding: the canonical parse of
/// `enc_vault(v)` is exactly `v`, for every vault model whose fields fit the
/// format's length prefixes.
pub proof fn lemma_spec_decode_enc_vault(v: VaultModel)
    requires
        vault_fits(v),
    ensures
        spec_decode(enc_vault(v)) == Some(v),
{
    let n = v.entries.len() as u64;
    let r3 = enc_entries(v.entries);
    let r2 = le64(n) + r3;
    let r1 = le64(v.updated_at) + r2;
    assert(enc_vault(v) =~= le64(v.created_at) + r1);
    lemma_p_u64_le64(v.created_at, r1);
    lemma_p_u64_le64(v.updated_at, r2);
    lemma_p_u64_le64(n, r3);
    assert(r3 =~= enc_entries(v.entries) + Seq::<u8>::empty());
    lemma_p_entries_enc_entries(v.entries, Seq::<u8>::empty());
    assert(n as nat == v.entries.len());
}

// ---------------------------------------------------------------------------
// Executable encoder
// ---------------------------------------------------------------------------

fn push_u64_le(out: &mut Vec<u8>, x: u64)
    ensures
        final(out)@ == old(out)@ + le64(x),
{
    proof {
        assert((x & 0xff) < 256 && ((x >> 8) & 0xff) < 256 && ((x >> 16) & 0xff) < 256
            && ((x >> 24) & 0xff) < 256 && ((x >> 32) & 0xff) < 256 && ((x >> 40) & 0xff) < 256
            && ((x >> 48) & 0xff) < 256 && ((x >> 56) & 0xff) < 256) by (bit_vector);
    }
    out.push((x & 0xff) as u8);
    out.push(((x >> 8) & 0xff) as u8);
    out.push(((x >> 16) & 0xff) as u8);
    out.push(((x >> 24) & 0xff) as u8);
    out.push(((x >> 32) & 0xff) as u8);
    out.push(((x >> 40) & 0xff) as u8);
    out.push(((x >> 48) & 0xff) as u8);
    out.push(((x >> 56) & 0xff) as u8);
    proof {
        assert(out@ =~= old(out)@ + le64(x));
    }
}

fn push_u128_le(out: &mut Vec<u8>, x: u128)
    ensures
        final(out)@ == old(out)@ + le128(x),
{
    proof {
        assert((x & 0xff) < 256 && ((x >> 8) & 0xff) < 256 && ((x >> 16) & 0xff) < 256
            && ((x >> 24) & 0xff) < 256 && ((x >> 32) & 0xff) < 256 && ((x >> 40) & 0xff) < 256
            && ((x >> 48) & 0xff) < 256 && ((x >> 56) & 0xff) < 256 && ((x >> 64) & 0xff) < 256
            && ((x >> 72) & 0xff) < 256 && ((x >> 80) & 0xff) < 256 && ((x >> 88) & 0xff) < 256
            && ((x >> 96) & 0xff) < 256 && ((x >> 104) & 0xff) < 256 && ((x >> 112) & 0xff) < 256
            && ((x >> 120) & 0xff) < 256) by (bit_vector);
    }
    out.push((x & 0xff) as u8);
    out.push(((x >> 8) & 0xff) as u8);
    out.push(((x >> 16) & 0xff) as u8);
    out.push(((x >> 24) & 0xff) as u8);
    out.push(((x >> 32) & 0xff) as u8);
    out.push(((x >> 40) & 0xff) as u8);
    out.push(((x >> 48) & 0xff) as u8);
    out.push(((x >> 56) & 0xff) as u8);
    out.push(((x >> 64) & 0xff) as u8);
    out.push(((x >> 72) & 0xff) as u8);
    out.push(((x >> 80) & 0xff) as u8);
    out.push(((x >> 88) & 0xff) as u8);
    out.push(((x >> 96) & 0xff) as u8);
    out.push(((x >> 104) & 0xff) as u8);
    out.push(((x >> 112) & 0xff) as u8);
    out.push(((x >> 120) & 0xff) as u8);
    proof {
        assert(out@ =~= old(out)@ + le128(x));
    }
}

fn push_string(out: &mut Vec<u8>, s: &String)
    ensures
        final(out)@ == old(out)@ + enc_str(s@),
        str_fits(s@),
{
    let mut bytes = s.as_str().as_bytes_vec();
    let n = bytes.len() as u64;
    push_u64_le(out, n);
    out.append(&mut bytes);
    proof {
        assert(out@ =~= old(out)@ + enc_str(s@));
    }
}

fn push_entry(out: &mut Vec<u8>, e: &PasswordEntry)
    ensures
        final(out)@ == old(out)@ + enc_entry(e@),
        entry_fits(e@),
{
    push_u128_le(out, e.id);
    push_string(out, &e.title);
    push_string(out, &e.username);
    push_string(out, &e.password);
    push_string(out, &e.notes);
    push_u64_le(out, e.created_at);
    push_u64_le(out, e.updated_at);
    proof {
        assert(out@ =~= old(out)@ + enc_entry(e@));
    }
}

proof fn lemma_enc_entries_push(es: Seq<EntryModel>, e: EntryModel)
    ensures
        enc_entries(es.push(e)) == enc_entries(es) + enc_entry(e),
    decreases es.len(),
{
    if es.len() == 0 {
        assert(es.push(e).len() == 1);
        assert(es.push(e)[0] == e);
        assert(es.push(e).drop_first() =~= Seq::<EntryModel>::empty());
        assert(enc_entries(es.push(e)) == enc_entry(e) + enc_entries(
            Seq::<EntryModel>::empty(),
        ));
        assert(enc_entry(e) + Seq::<u8>::empty() =~= enc_entry(e));
        assert(Seq::<u8>::empty() + enc_entry(e) =~= enc_entry(e));
    } else {
        assert(es.push(e).len() == es.len() + 1);
        assert(es.push(e)[0] == es[0]);
        assert(es.push(e).drop_first() =~= es.drop_first().push(e));
        lemma_enc_entries_push(es.drop_first(), e);
        assert(enc_entries(es.push(e)) == enc_entry(es[0]) + (enc_entries(es.drop_first())
            + enc_entry(e)));
        lemma_add_assoc(enc_entry(es[0]), enc_entries(es.drop_first()), enc_entry(e));
    }
}

/// Serialize a vault into its canonical byte encoding.
pub fn encode_vault(vault: &Vault) -> (r: Vec<u8>)
    ensures
        r@ == enc_vault(vault@),
        vault_fits(vault@),
{
    let mut out: Vec<u8> = Vec::new();
    push_u64_le(&mut out, vault.created_at);
    push_u64_le(&mut out, vault.updated_at);
    push_u64_le(&mut out, vault.entries.len() as u64);
    let ghost header = out@;
    let n = vault.entries.len();
    let mut i: usize = 0;
    while i < n
        invariant
            n == vault.entries.len(),
            0 <= i <= n,
            out@ == header + enc_entries(vault@.entries.take(i as int)),
            forall|j: int| 0 <= j < i ==> entry_fits(#[trigger] vault@.entries[j]),
        decreases n - i,
    {
        let ghost done = vault@.entries.take(i as int);
        push_entry(&mut out, &vault.entries[i]);
        proof {
            lemma_enc_entries_push(done, vault@.entries[i as int]);
            assert(done.push(vault@.entries[i as int]) =~= vault@.entries.take(i as int + 1));
        }
        i = i + 1;
    }
    proof {
        assert(vault@.entries.take(n as int) =~= vault@.entries);
        assert(out@ =~= enc_vault(vault@));
    }
    out
}

// ---------------------------------------------------------------------------
// Executable decoder
// ---------------------------------------------------------------------------

/// Relies on std's String::from_utf8: it succeeds exactly on valid UTF-8 and
/// returns the string whose UTF-8 encoding the bytes are.
#[verifier::external_body]
fn string_from_utf8(bytes: Vec<u8>) -> (r: Option<String>)
    ensures
        r matches Some(s) ==> encode_utf8(s@) == bytes@,
        valid_utf8(bytes@) ==> r is Some,
{
    match String::from_utf8(bytes) {
        Ok(s) => Some(s),
        Err(_) => None,
    }
}

fn read_u64_le(bytes: &Vec<u8>, pos: usize) -> (r: Option<(u64, usize)>)
    requires
        pos <= bytes@.len(),
    ensures
        r matches Some((x, pos2)) ==> pos2 <= bytes@.len()
            && p_u64(bytes@.skip(pos as int)) == Some((x, bytes@.skip(pos2 as int))),
        r is None ==> p_u64(bytes@.skip(pos as int)) is None,
{
    if bytes.len() - pos < 8 {
        return None;
    }
    let x = (bytes[pos] as u64) | ((bytes[pos + 1] as u64) << 8) | ((bytes[pos + 2] as u64) << 16)
        | ((bytes[pos + 3] as u64) << 24) | ((bytes[pos + 4] as u64) << 32)
        | ((bytes[pos + 5] as u64) << 40) | ((bytes[pos + 6] as u64) << 48)
        | ((bytes[pos + 7] as u64) << 56);
    proof {
        let t = bytes@.skip(pos as int);
        assert(t[0] == bytes@[pos as int] && t[1] == bytes@[pos as int + 1]
            && t[2] == bytes@[pos as int + 2] && t[3] == bytes@[pos as int + 3]
            && t[4] == bytes@[pos as int + 4] && t[5] == bytes@[pos as int + 5]
            && t[6] == bytes@[pos as int + 6] && t[7] == bytes@[pos as int + 7]);
        assert(x == dec64(t));
        assert(t.skip(8) =~= bytes@.skip(pos as int + 8));
    }
    Some((x, pos + 8))
}

fn read_u128_le(bytes: &Vec<u8>, pos: usize) -> (r: Option<(u128, usize)>)
    requires
        pos <= bytes@.len(),
    ensures
        r matches Some((x, pos2)) ==> pos2 <= bytes@.len()
            && p_u128(bytes@.skip(pos as int)) == Some((x, bytes@.skip(pos2 as int))),
        r is None ==> p_u128(bytes@.skip(pos as int)) is None,
{
    if bytes.len() - pos < 16 {
        return None;
    }
    let x = (bytes[pos] as u128) | ((bytes[pos + 1] as u128) << 8)
        | ((bytes[pos + 2] as u128) << 16) | ((bytes[pos + 3] as u128) << 24)
        | ((bytes[pos + 4] as u128) << 32) | ((bytes[pos + 5] as u128) << 40)
        | ((bytes[pos + 6] as u128) << 48) | ((bytes[pos + 7] as u128) << 56)
        | ((bytes[pos + 8] as u128) << 64) | ((bytes[pos + 9] as u128) << 72)
        | ((bytes[pos + 10] as u128) << 80) | ((bytes[pos + 11] as u128) << 88)
        | ((bytes[pos + 12] as u128) << 96) | ((bytes[pos + 13] as u128) << 104)
        | ((bytes[pos + 14] as u128) << 112) | ((bytes[pos + 15] as u128) << 120);
    proof {
        let t = bytes@.skip(pos as int);
        assert(forall|k: int| 0 <= k < 16 ==> t[k] == bytes@[pos as int + k]);
        assert(x == dec128(t));
        assert(t.skip(16) =~= bytes@.skip(pos as int + 16));
    }
    Some((x, pos + 16))
}

fn read_string(bytes: &Vec<u8>, pos: usize) -> (r: Option<(String, usize)>)
    requires
        pos <= bytes@.len(),
    ensures
        r matches Some((s, pos2)) ==> pos2 <= bytes@.len()
            && p_str(bytes@.skip(pos as int)) == Some((s@, bytes@.skip(pos2 as int))),
        r is None ==> p_str(bytes@.skip(pos as int)) is None,
{
    let (n, pos1) = match read_u64_le(bytes, pos) {
        Some(v) => v,
        None => {
            return None;
        },
    };
    if ((bytes.len() - pos1) as u64) < n {
        return None;
    }
    let n_us = n as usize;
    let seg = slice_to_vec(slice_subrange(bytes.as_slice(), pos1, pos1 + n_us));
    proof {
        let rest = bytes@.skip(pos1 as int);
        assert(seg@ =~= rest.take(n as int));
    }
    match string_from_utf8(seg) {
        Some(s) => {
            proof {
                let rest = bytes@.skip(pos1 as int);
                encode_utf8_valid_utf8(s@);
                encode_utf8_decode_utf8(s@);
                assert(rest.skip(n as int) =~= bytes@.skip(pos1 as int + n as int));
            }
            Some((s, pos1 + n_us))
        },
        None => {
            proof {
                let rest = bytes@.skip(pos1 as int);
                assert(!valid_utf8(rest.take(n as int)));
            }
            None
        },
    }
}

fn read_entry(bytes: &Vec<u8>, pos: usize) -> (r: Option<(PasswordEntry, usize)>)
    requires
        pos <= bytes@.len(),
    ensures
        r matches Some((e, pos2)) ==> pos2 <= bytes@.len()
            && p_entry(bytes@.skip(pos as int)) == Some((e@, bytes@.skip(pos2 as int))),
        r is None ==> p_entry(bytes@.skip(pos as int)) is None,
{
    proof {
        reveal(p_entry);
    }
    let (id, pos) = match read_u128_le(bytes, pos) {
        Some(v) => v,
        None => {
            return None;
        },
    };
    let (title, pos) = match read_string(bytes, pos) {
        Some(v) => v,
        None => {
            return None;
        },
    };
    let (username, pos) = match read_string(bytes, pos) {
        Some(v) => v,
        None => {
            return None;
        },
    };
    let (password, pos) = match read_string(bytes, pos) {
        Some(v) => v,
        None => {
            return None;
        },
    };
    let (notes, pos) = match read_string(bytes, pos) {
        Some(v) => v,
        None => {
            return None;
        },
    };
    let (created_at, pos) = match read_u64_le(bytes, pos) {
        Some(v) => v,
        None => {
            return None;
        },
    };
    let (updated_at, pos) = match read_u64_le(bytes, pos) {
        Some(v) => v,
        None => {
            return None;
        },
    };
    let entry = PasswordEntry { id, title, username, password, notes, created_at, updated_at };
    Some((entry, pos))
}

/// The parse of the remaining entries, prefixed by the entries already
/// decoded.
spec fn prepend_parsed(done: Seq<EntryModel>, r: Option<(Seq<EntryModel>, Seq<u8>)>) -> Option<
    (Seq<EntryModel>, Seq<u8>),
> {
    match r {
        Some((es, rest)) => Some((done + es, rest)),
        None => None,
    }
}

#[verifier::rlimit(60)]
proof fn lemma_prepend_parsed_step(
    done: Seq<EntryModel>,
    e: EntryModel,
    b: Seq<u8>,
    b2: Seq<u8>,
    n: nat,
)
    requires
        n > 0,
        p_entry(b) == Some((e, b2)),
    ensures
        prepend_parsed(done, p_entries(b, n)) == prepend_parsed(
            done.push(e),
            p_entries(b2, (n - 1) as nat),
        ),
{
    match p_entries(b2, (n - 1) as nat) {
        Some((es, r)) => {
            assert(p_entries(b, n) == Some((seq![e] + es, r)));
            assert(done + (seq![e] + es) =~= done.push(e) + es);
        },
        None => {
            assert(p_entries(b, n) is None);
        },
    }
}

/// Decode a canonical byte encoding back into a vault. Returns the vault a
/// well-formed byte sequence encodes, and nothing on every other byte
/// sequence.
#[verifier::loop_isolation(false)]
pub fn decode_vault(bytes: &Vec<u8>) -> (r: Option<Vault>)
    ensures
        r matches Some(v) ==> spec_decode(bytes@) == Some(v@),
        r is None ==> spec_decode(bytes@) is None,
{
    proof {
        assert(bytes@.skip(0) =~= bytes@);
    }
    let (created_at, pos) = match read_u64_le(bytes, 0) {
        Some(v) => v,
        None => {
            return None;
        },
    };
    let (updated_at, pos) = match read_u64_le(bytes, pos) {
        Some(v) => v,
        None => {
            return None;
        },
    };
    let (count, pos) = match read_u64_le(bytes, pos) {
        Some(v) => v,
        None => {
            return None;
        },
    };
    let ghost tail0 = bytes@.skip(pos as int);
    let mut entries: Vec<PasswordEntry> = Vec::new();
    let mut k: u64 = 0;
    let mut pos = pos;
    while k < count
        invariant
            pos <= bytes@.len(),
            0 <= k <= count,
            entries@.len() == k,
            p_entries(tail0, count as nat) == prepend_parsed(
                entries@.map_values(|e: PasswordEntry| e@),
                p_entries(bytes@.skip(pos as int), (count - k) as nat),
            ),
        decreases count - k,
    {
        let ghost pos_old = pos as int;
        let ghost done = entries@.map_values(|e: PasswordEntry| e@);
        let (e, pos2) = match read_entry(bytes, pos) {
            Some(v) => v,
            None => {
                proof {
                    assert(p_entries(bytes@.skip(pos as int), (count - k) as nat) is None);
                    assert(spec_decode(bytes@) is None);
                }
                return None;
            },
        };
        proof {
            lemma_prepend_parsed_step(
                done,
                e@,
                bytes@.skip(pos_old),
                bytes@.skip(pos2 as int),
                (count - k) as nat,
            );
            assert(done.push(e@) =~= entries@.push(e).map_values(|pe: PasswordEntry| pe@));
        }
        entries.push(e);
        pos = pos2;
        k = k + 1;
    }
    proof {
        let fin = bytes@.skip(pos as int);
        assert(p_entries(fin, 0) == Some((Seq::<EntryModel>::empty(), fin)));
        assert(entries@.map_values(|e: PasswordEntry| e@) + Seq::<EntryModel>::empty()
            =~= entries@.map_values(|e: PasswordEntry| e@));
        assert(p_entries(tail0, count as nat) == Some(
            (entries@.map_values(|e: PasswordEntry| e@), fin),
        ));
    }
    if pos != bytes.len() {
        proof {
            assert(bytes@.skip(pos as int).len() != 0);
            assert(spec_decode(bytes@) is None);
        }
        return None;
    }
    let v = Vault { entries, created_at, updated_at };
    proof {
        assert(spec_decode(bytes@) == Some(v@));
    }
    Some(v)
}

} // verus!
