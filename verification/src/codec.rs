//! How a registry is written as bytes and read back.
//!
//! A registry is written as its credentials one after the other, each as its
//! three fields (the name in UTF-8, the ciphertext, the nonce), each field as
//! its length in eight little-endian bytes followed by its bytes. Reading is
//! the inverse of writing: what was written is read back unchanged, and
//! bytes that no registry is written as are refused.

use vstd::prelude::*;
use vstd::bytes::{
    lemma_auto_spec_u64_to_from_le_bytes, spec_u64_from_le_bytes, spec_u64_to_le_bytes,
    u64_from_le_bytes, u64_to_le_bytes,
};
use vstd::slice::slice_subrange;
use vstd::utf8::{
    decode_utf8, encode_utf8, encode_utf8_decode_utf8, encode_utf8_valid_utf8, valid_utf8,
};
use crate::bytes::append_bytes;
use crate::secrets::{names_distinct, views_of, Credential, CredentialView};

verus! {

/// Bytes that the length of a field is written in.
pub const LENGTH_SIZE: usize = 8;

/// A field as it is written: its length, then its bytes.
pub open spec fn encode_field(field: Seq<u8>) -> Seq<u8> {
    spec_u64_to_le_bytes(field.len() as u64) + field
}

/// The field that `bytes` begin with and the bytes after it; none where the
/// bytes are too few for the length or for the field.
pub open spec fn parse_field(bytes: Seq<u8>) -> Option<(Seq<u8>, Seq<u8>)> {
    if bytes.len() < LENGTH_SIZE {
        None
    } else {
        let n = spec_u64_from_le_bytes(bytes.subrange(0, LENGTH_SIZE as int));
        if bytes.len() - LENGTH_SIZE < n {
            None
        } else {
            Some((bytes.subrange(LENGTH_SIZE as int, LENGTH_SIZE + n), bytes.skip(LENGTH_SIZE + n)))
        }
    }
}

/// A credential as it is written: name, ciphertext, nonce.
pub open spec fn encode_entry(entry: CredentialView) -> Seq<u8> {
    encode_field(encode_utf8(entry.name)) + encode_field(entry.ciphertext) + encode_field(
        entry.nonce,
    )
}

/// The credential that `bytes` begin with and the bytes after it; none where
/// a field is cut short or the name is not UTF-8.
pub open spec fn parse_entry(bytes: Seq<u8>) -> Option<(CredentialView, Seq<u8>)> {
    match parse_field(bytes) {
        None => None,
        Some((name, after_name)) => if !valid_utf8(name) {
            None
        } else {
            match parse_field(after_name) {
                None => None,
                Some((ciphertext, after_ciphertext)) => match parse_field(after_ciphertext) {
                    None => None,
                    Some((nonce, rest)) => Some(
                        (CredentialView { name: decode_utf8(name), ciphertext, nonce }, rest),
                    ),
                },
            }
        },
    }
}

/// Credentials as they are written: one after the other.
pub open spec fn encode_entries(entries: Seq<CredentialView>) -> Seq<u8>
    decreases entries.len(),
{
    if entries.len() == 0 {
        Seq::empty()
    } else {
        encode_entry(entries.first()) + encode_entries(entries.drop_first())
    }
}

/// The credentials that `bytes` are made of; none where a credential is cut
/// short or a name is not UTF-8.
pub open spec fn parse_entries(bytes: Seq<u8>) -> Option<Seq<CredentialView>>
    decreases bytes.len(),
{
    if bytes.len() == 0 {
        Some(Seq::empty())
    } else {
        match parse_entry(bytes) {
            None => None,
            Some((entry, rest)) => if rest.len() >= bytes.len() {
                None
            } else {
                match parse_entries(rest) {
                    None => None,
                    Some(entries) => Some(seq![entry] + entries),
                }
            },
        }
    }
}

/// The registry that `bytes` hold: the credentials they are made of, where
/// those bear distinct names.
pub open spec fn decode_registry(bytes: Seq<u8>) -> Option<Seq<CredentialView>> {
    match parse_entries(bytes) {
        None => None,
        Some(entries) => if names_distinct(entries) {
            Some(entries)
        } else {
            None
        },
    }
}

/// Every field of every credential is short enough for its length to be
/// written. On a machine this holds of every registry in memory.
pub open spec fn encodable(entries: Seq<CredentialView>) -> bool {
    forall|i: int|
        0 <= i < entries.len() ==> {
            &&& encode_utf8((#[trigger] entries[i]).name).len() <= u64::MAX
            &&& entries[i].ciphertext.len() <= u64::MAX
            &&& entries[i].nonce.len() <= u64::MAX
        }
}

/// A written field, whatever follows it, is read back.
pub proof fn lemma_parse_encoded_field(field: Seq<u8>, rest: Seq<u8>)
    requires
        field.len() <= u64::MAX,
    ensures
        parse_field(encode_field(field) + rest) == Some((field, rest)),
        encode_field(field).len() == LENGTH_SIZE + field.len(),
{
    lemma_auto_spec_u64_to_from_le_bytes();
    let n = field.len() as u64;
    let bytes = encode_field(field) + rest;
    assert(spec_u64_to_le_bytes(n).len() == 8);
    assert(bytes.subrange(0, LENGTH_SIZE as int) =~= spec_u64_to_le_bytes(n));
    assert(bytes.subrange(LENGTH_SIZE as int, LENGTH_SIZE + n) =~= field);
    assert(bytes.skip(LENGTH_SIZE + n) =~= rest);
}

/// A written credential, whatever follows it, is read back.
pub proof fn lemma_parse_encoded_entry(entry: CredentialView, rest: Seq<u8>)
    requires
        encode_utf8(entry.name).len() <= u64::MAX,
        entry.ciphertext.len() <= u64::MAX,
        entry.nonce.len() <= u64::MAX,
    ensures
        parse_entry(encode_entry(entry) + rest) == Some((entry, rest)),
        encode_entry(entry).len() >= 3 * LENGTH_SIZE,
{
    let name = encode_utf8(entry.name);
    let after_ciphertext = encode_field(entry.nonce) + rest;
    let after_name = encode_field(entry.ciphertext) + after_ciphertext;
    assert(encode_entry(entry) + rest =~= encode_field(name) + after_name);
    lemma_parse_encoded_field(name, after_name);
    lemma_parse_encoded_field(entry.ciphertext, after_ciphertext);
    lemma_parse_encoded_field(entry.nonce, rest);
    encode_utf8_valid_utf8(entry.name);
    encode_utf8_decode_utf8(entry.name);
}

/// Written credentials are read back unchanged.
pub proof fn lemma_parse_encoded_entries(entries: Seq<CredentialView>)
    requires
        encodable(entries),
    ensures
        parse_entries(encode_entries(entries)) == Some(entries),
    decreases entries.len(),
{
    if entries.len() == 0 {
        assert(entries =~= Seq::empty());
    } else {
        let first = entries.first();
        let tail = entries.drop_first();
        assert(encodable(tail)) by {
            assert forall|i: int| 0 <= i < tail.len() implies {
                &&& encode_utf8((#[trigger] tail[i]).name).len() <= u64::MAX
                &&& tail[i].ciphertext.len() <= u64::MAX
                &&& tail[i].nonce.len() <= u64::MAX
            } by {
                assert(tail[i] == entries[i + 1]);
            }
        }
        assert(entries[0] == first);
        lemma_parse_encoded_entry(first, encode_entries(tail));
        lemma_parse_encoded_entries(tail);
        assert(seq![first] + tail =~= entries);
    }
}

/// A registry that was written is read back unchanged.
pub proof fn lemma_decode_encoded_registry(entries: Seq<CredentialView>)
    requires
        encodable(entries),
        names_distinct(entries),
    ensures
        decode_registry(encode_entries(entries)) == Some(entries),
{
    lemma_parse_encoded_entries(entries);
}

/// Writing one more credential appends it to what was written.
pub proof fn lemma_encode_entries_push(entries: Seq<CredentialView>, entry: CredentialView)
    ensures
        encode_entries(entries.push(entry)) == encode_entries(entries) + encode_entry(entry),
    decreases entries.len(),
{
    if entries.len() == 0 {
        assert(entries.push(entry).drop_first() =~= Seq::<CredentialView>::empty());
        assert(entries.push(entry).first() == entry);
        assert(encode_entries(Seq::<CredentialView>::empty()) =~= Seq::<u8>::empty());
        assert(encode_entries(entries.push(entry)) =~= encode_entry(entry));
        assert(encode_entries(entries) + encode_entry(entry) =~= encode_entry(entry));
    } else {
        assert(entries.push(entry).drop_first() =~= entries.drop_first().push(entry));
        lemma_encode_entries_push(entries.drop_first(), entry);
        assert(encode_entries(entries.push(entry)) =~= encode_entries(entries) + encode_entry(
            entry,
        ));
    }
}

/// `String::from_utf8`. Trusted: it succeeds exactly on valid UTF-8, and the
/// string then consists of the bytes given.
#[verifier::external_body]
pub(crate) fn string_from_utf8(bytes: Vec<u8>) -> (res: Option<String>)
    ensures
        res is Some <==> valid_utf8(bytes@),
        res matches Some(s) ==> encode_utf8(s@) == bytes@,
{
    String::from_utf8(bytes).ok()
}

/// Appends a field as it is written.
fn write_field(out: &mut Vec<u8>, field: &[u8])
    ensures
        final(out)@ == old(out)@ + encode_field(field@),
        field@.len() <= u64::MAX,
{
    let length = u64_to_le_bytes(field.len() as u64);
    append_bytes(out, length.as_slice());
    append_bytes(out, field);
    assert(out@ =~= old(out)@ + encode_field(field@));
}

/// Reads the field that starts at `pos`.
fn read_field(bytes: &[u8], pos: usize) -> (res: Option<(Vec<u8>, usize)>)
    requires
        pos <= bytes@.len(),
    ensures
        match res {
            Some((field, next)) => pos < next <= bytes@.len() && parse_field(bytes@.skip(pos as int))
                == Some((field@, bytes@.skip(next as int))),
            None => parse_field(bytes@.skip(pos as int)) is None,
        },
{
    let left = bytes.len() - pos;
    if left < LENGTH_SIZE {
        return None;
    }
    let ghost tail = bytes@.skip(pos as int);
    let prefix = slice_subrange(bytes, pos, pos + LENGTH_SIZE);
    assert(prefix@ =~= tail.subrange(0, LENGTH_SIZE as int));
    let n = u64_from_le_bytes(prefix);
    if n > (left - LENGTH_SIZE) as u64 {
        return None;
    }
    let start = pos + LENGTH_SIZE;
    let next = start + n as usize;
    let mut field: Vec<u8> = Vec::new();
    append_bytes(&mut field, slice_subrange(bytes, start, next));
    assert(field@ =~= tail.subrange(LENGTH_SIZE as int, LENGTH_SIZE + n));
    assert(bytes@.skip(next as int) =~= tail.skip(LENGTH_SIZE + n));
    Some((field, next))
}

/// Reads the credential that starts at `pos`.
fn read_entry(bytes: &[u8], pos: usize) -> (res: Option<(Credential, usize)>)
    requires
        pos <= bytes@.len(),
    ensures
        match res {
            Some((entry, next)) => pos < next <= bytes@.len() && parse_entry(bytes@.skip(pos as int))
                == Some((entry@, bytes@.skip(next as int))),
            None => parse_entry(bytes@.skip(pos as int)) is None,
        },
{
    let (name_bytes, after_name) = match read_field(bytes, pos) {
        Some(read) => read,
        None => { return None; },
    };
    let ghost name_seq = name_bytes@;
    let name = match string_from_utf8(name_bytes) {
        Some(s) => s,
        None => { return None; },
    };
    proof {
        encode_utf8_decode_utf8(name@);
    }
    let (ciphertext, after_ciphertext) = match read_field(bytes, after_name) {
        Some(read) => read,
        None => { return None; },
    };
    let (nonce, next) = match read_field(bytes, after_ciphertext) {
        Some(read) => read,
        None => { return None; },
    };
    Some((Credential { name, ciphertext, nonce }, next))
}

/// Writes the credentials as bytes. What is written is read back unchanged.
pub fn encode_credentials(credentials: &Vec<Credential>) -> (out: Vec<u8>)
    ensures
        out@ == encode_entries(views_of(credentials@)),
        encodable(views_of(credentials@)),
        parse_entries(out@) == Some(views_of(credentials@)),
{
    let ghost entries = views_of(credentials@);
    let mut out: Vec<u8> = Vec::new();
    let mut i: usize = 0;
    assert(entries.take(0) =~= Seq::empty());
    while i < credentials.len()
        invariant
            i <= credentials@.len(),
            entries == views_of(credentials@),
            out@ == encode_entries(entries.take(i as int)),
            encodable(entries.take(i as int)),
        decreases credentials@.len() - i,
    {
        let ghost before = out@;
        let credential = &credentials[i];
        write_field(&mut out, credential.name.as_str().as_bytes());
        write_field(&mut out, credential.ciphertext.as_slice());
        write_field(&mut out, credential.nonce.as_slice());
        proof {
            let entry = entries[i as int];
            assert(entry == credential@);
            assert(out@ =~= before + encode_entry(entry));
            lemma_encode_entries_push(entries.take(i as int), entry);
            assert(entries.take(i + 1) =~= entries.take(i as int).push(entry));
            assert forall|k: int| 0 <= k < i + 1 implies {
                &&& encode_utf8((#[trigger] entries.take(i + 1)[k]).name).len() <= u64::MAX
                &&& entries.take(i + 1)[k].ciphertext.len() <= u64::MAX
                &&& entries.take(i + 1)[k].nonce.len() <= u64::MAX
            } by {
                if k < i {
                    assert(entries.take(i + 1)[k] == entries.take(i as int)[k]);
                }
            }
        }
        i += 1;
    }
    proof {
        assert(entries.take(credentials@.len() as int) =~= entries);
        lemma_parse_encoded_entries(entries);
    }
    out
}

/// Reads credentials from bytes: all of them, or none where the bytes are
/// not credentials written one after the other.
pub fn decode_credentials(bytes: &[u8]) -> (res: Option<Vec<Credential>>)
    ensures
        match res {
            Some(credentials) => parse_entries(bytes@) == Some(views_of(credentials@)),
            None => parse_entries(bytes@) is None,
        },
{
    let mut credentials: Vec<Credential> = Vec::new();
    let mut pos: usize = 0;
    assert(bytes@.skip(0) =~= bytes@);
    assert(views_of(credentials@) =~= Seq::empty());
    while pos < bytes.len()
        invariant
            pos <= bytes@.len(),
            parse_entries(bytes@) == match parse_entries(bytes@.skip(pos as int)) {
                None => None::<Seq<CredentialView>>,
                Some(rest) => Some(views_of(credentials@) + rest),
            },
        decreases bytes@.len() - pos,
    {
        let ghost tail = bytes@.skip(pos as int);
        let ghost read = views_of(credentials@);
        match read_entry(bytes, pos) {
            None => {
                return None;
            },
            Some((entry, next)) => {
                proof {
                    let after = bytes@.skip(next as int);
                    assert(after.len() < tail.len());
                    assert(views_of(credentials@.push(entry)) =~= read.push(entry@));
                    match parse_entries(after) {
                        None => {},
                        Some(rest) => {
                            assert(read + (seq![entry@] + rest) =~= read.push(entry@) + rest);
                        },
                    }
                }
                credentials.push(entry);
                pos = next;
            },
        }
    }
    proof {
        assert(bytes@.skip(pos as int).len() == 0);
        assert(views_of(credentials@) + Seq::<CredentialView>::empty() =~= views_of(credentials@));
    }
    Some(credentials)
}

} // verus!
