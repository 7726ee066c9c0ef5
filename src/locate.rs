//! Finding a table in a blob of concatenated ACPI tables.
//!
//! Every table starts with an 8-byte header: a 4-byte signature and the
//! table's total length as a little-endian `u32`. A lookup walks the blob
//! from offset 0, from one header to the next by the length fields.

use vstd::prelude::*;
use vstd::string::StringSliceAdditionalSpecFns;

use crate::bytes::{le_u32_at, read_le_u32};

verus! {

/// Why a table lookup, or an assembly built on lookups, failed.
#[derive(Debug, Clone, Copy, PartialEq, Eq, Structural)]
pub enum AcpiError {
    /// The requested signature is not exactly 4 bytes (four ASCII
    /// characters) long.
    InvalidSignature,
    /// The walk ran off the end of the blob without meeting the signature.
    TableNotFound,
    /// The walk met a table whose length field is zero, at this offset.
    MalformedTable { offset: usize },
}

/// Byte offset of the checksum within a table header.
pub const CHECKSUM_OFFSET: u32 = 9;

/// The signature of the table header at `off`.
pub open spec fn signature_at(t: Seq<u8>, off: int) -> Seq<u8> {
    t.subrange(off, off + 4)
}

/// The length field of the table header at `off`.
pub open spec fn length_at(t: Seq<u8>, off: int) -> int {
    le_u32_at(t, off + 4)
}

/// The offset of the first header, from `off` on along the length fields,
/// whose signature is `sig`.
pub open spec fn walk(t: Seq<u8>, sig: Seq<u8>, off: nat) -> Result<nat, AcpiError>
    decreases t.len() - off,
{
    if off + 8 > t.len() {
        Err(AcpiError::TableNotFound)
    } else if signature_at(t, off as int) == sig {
        Ok(off)
    } else if length_at(t, off as int) == 0 {
        Err(AcpiError::MalformedTable { offset: off as usize })
    } else if off + length_at(t, off as int) > t.len() {
        Err(AcpiError::TableNotFound)
    } else {
        walk(t, sig, (off + length_at(t, off as int)) as nat)
    }
}

/// What a lookup of `sig` in `t` returns: the table's offset, the offset of
/// its checksum byte and its length, each as the 32-bit field that the
/// loader script holds.
pub open spec fn locate(t: Seq<u8>, sig: Seq<u8>) -> Result<(u32, u32, u32), AcpiError> {
    if sig.len() != 4 {
        Err(AcpiError::InvalidSignature)
    } else {
        match walk(t, sig, 0) {
            Ok(off) => Ok(
                (
                    off as u32,
                    (off as u32).wrapping_add(CHECKSUM_OFFSET),
                    length_at(t, off as int) as u32,
                ),
            ),
            Err(e) => Err(e),
        }
    }
}

fn signature_matches(tables: &[u8], offset: usize, sig: &[u8]) -> (r: bool)
    requires
        offset + 4 <= tables@.len(),
        sig@.len() == 4,
    ensures
        r == (signature_at(tables@, offset as int) == sig@),
{
    let r = tables[offset] == sig[0] && tables[offset + 1] == sig[1] && tables[offset + 2]
        == sig[2] && tables[offset + 3] == sig[3];
    let ghost s = signature_at(tables@, offset as int);
    if r {
        assert(s =~= sig@);
    } else {
        assert(s[0] != sig@[0] || s[1] != sig@[1] || s[2] != sig@[2] || s[3] != sig@[3]);
    }
    r
}

/// Searches `tables` for the table with the given signature and returns its
/// offset, the offset of its checksum byte and its length. The signature is
/// compared byte for byte, and must be 4 bytes long.
pub fn find_acpi_table(tables: &[u8], signature: &str) -> (r: Result<(u32, u32, u32), AcpiError>)
    ensures
        r == locate(tables@, signature.spec_bytes()),
{
    let sig = signature.as_bytes();
    if sig.len() != 4 {
        return Err(AcpiError::InvalidSignature);
    }
    let mut offset: usize = 0;
    while offset < tables.len()
        invariant
            offset <= tables@.len(),
            sig@.len() == 4,
            sig@ == signature.spec_bytes(),
            walk(tables@, sig@, offset as nat) == walk(tables@, sig@, 0),
        decreases tables@.len() - offset,
    {
        if tables.len() - offset < 8 {
            return Err(AcpiError::TableNotFound);
        }
        let length = read_le_u32(tables, offset + 4);
        if signature_matches(tables, offset, sig) {
            let start = offset as u32;
            return Ok((start, start.wrapping_add(CHECKSUM_OFFSET), length));
        }
        if length == 0 {
            return Err(AcpiError::MalformedTable { offset });
        }
        if length as usize >= tables.len() - offset {
            assert(walk(tables@, sig@, (offset + length) as nat) is Err);
            return Err(AcpiError::TableNotFound);
        }
        offset = offset + length as usize;
    }
    Err(AcpiError::TableNotFound)
}

/// The blob made of the tables `ts`, one after the other.
pub open spec fn concat_tables(ts: Seq<Seq<u8>>) -> Seq<u8>
    decreases ts.len(),
{
    if ts.len() == 0 {
        Seq::empty()
    } else {
        concat_tables(ts.drop_last()) + ts.last()
    }
}

/// A table whose header is complete and whose length field is its length.
pub open spec fn well_formed_table(tb: Seq<u8>) -> bool {
    tb.len() >= 8 && length_at(tb, 0) == tb.len()
}

/// The blob of the first `j` tables starts the blob of all of them.
pub proof fn lemma_concat_prefix(ts: Seq<Seq<u8>>, j: int)
    requires
        0 <= j <= ts.len(),
    ensures
        concat_tables(ts.take(j)).len() <= concat_tables(ts).len(),
        concat_tables(ts).subrange(0, concat_tables(ts.take(j)).len() as int) == concat_tables(
            ts.take(j),
        ),
    decreases ts.len(),
{
    if j == ts.len() {
        assert(ts.take(j) =~= ts);
        assert(concat_tables(ts).subrange(0, concat_tables(ts).len() as int) =~= concat_tables(ts));
    } else {
        let init = ts.drop_last();
        lemma_concat_prefix(init, j);
        assert(init.take(j) =~= ts.take(j));
        let p = concat_tables(ts.take(j));
        assert(concat_tables(ts).subrange(0, p.len() as int) =~= concat_tables(init).subrange(
            0,
            p.len() as int,
        ));
    }
}

/// Header fields at `off` in `t` are those at 0 in `tb` where `tb` stands there.
proof fn lemma_header_in(t: Seq<u8>, tb: Seq<u8>, off: int)
    requires
        0 <= off,
        tb.len() >= 8,
        off + tb.len() <= t.len(),
        t.subrange(off, off + tb.len()) == tb,
    ensures
        signature_at(t, off) == signature_at(tb, 0),
        length_at(t, off) == length_at(tb, 0),
{
    assert(signature_at(t, off) =~= signature_at(tb, 0));
    assert(t[off + 4] == tb[4] && t[off + 5] == tb[5] && t[off + 6] == tb[6] && t[off + 7]
        == tb[7]);
}

/// A walk passes over well-formed tables whose signatures differ from the
/// one sought: from the start of a blob that begins with them, it goes on as
/// from the end of them.
pub proof fn lemma_walk_skips(ts: Seq<Seq<u8>>, t: Seq<u8>, sig: Seq<u8>)
    requires
        forall|i: int| 0 <= i < ts.len() ==> well_formed_table(#[trigger] ts[i]),
        forall|i: int| 0 <= i < ts.len() ==> signature_at(#[trigger] ts[i], 0) != sig,
        concat_tables(ts).len() <= t.len(),
        t.subrange(0, concat_tables(ts).len() as int) == concat_tables(ts),
    ensures
        walk(t, sig, 0) == walk(t, sig, concat_tables(ts).len()),
    decreases ts.len(),
{
    if ts.len() > 0 {
        let init = ts.drop_last();
        let last = ts.last();
        let p = concat_tables(init).len() as int;
        assert(t.subrange(0, p as int) =~= concat_tables(ts).subrange(0, p as int));
        assert(concat_tables(ts).subrange(0, p as int) =~= concat_tables(init));
        assert(well_formed_table(ts[ts.len() - 1]));
        assert(signature_at(ts[ts.len() - 1], 0) != sig);
        lemma_walk_skips(init, t, sig);
        let whole = concat_tables(ts);
        assert(whole == concat_tables(init) + last);
        assert forall|j: int| 0 <= j < last.len() implies t[p + j] == last[j] by {
            assert(t.subrange(0, whole.len() as int)[p + j] == whole[p + j]);
        }
        assert(t.subrange(p as int, p + last.len()) =~= last);
        lemma_header_in(t, last, p as int);
    }
}

/// Looking up the signature of the `k`-th table of a blob of well-formed
/// tables, where no table before it has that signature, gives the sum of the
/// lengths of the tables before it as offset, that sum plus 9 as checksum
/// offset, and the table's own length.
pub proof fn lemma_locate_offset(ts: Seq<Seq<u8>>, k: int)
    requires
        0 <= k < ts.len(),
        forall|i: int| 0 <= i < ts.len() ==> well_formed_table(#[trigger] ts[i]),
        forall|i: int|
            0 <= i < k ==> signature_at(#[trigger] ts[i], 0) != signature_at(ts[k], 0),
        concat_tables(ts).len() < u32::MAX,
    ensures
        locate(concat_tables(ts), signature_at(ts[k], 0)) == Ok::<(u32, u32, u32), AcpiError>(
            (
                concat_tables(ts.take(k)).len() as u32,
                (concat_tables(ts.take(k)).len() + 9) as u32,
                ts[k].len() as u32,
            ),
        ),
{
    let t = concat_tables(ts);
    let sig = signature_at(ts[k], 0);
    let before = ts.take(k);
    let upto = ts.take(k + 1);
    let s = concat_tables(before).len() as int;
    assert(well_formed_table(ts[k]));
    assert forall|i: int| 0 <= i < before.len() implies well_formed_table(#[trigger] before[i])
        && signature_at(before[i], 0) != sig by {
        assert(before[i] == ts[i]);
    }
    lemma_concat_prefix(ts, k);
    lemma_concat_prefix(ts, k + 1);
    lemma_walk_skips(before, t, sig);
    assert(upto.drop_last() =~= before);
    assert(t.subrange(s as int, s + ts[k].len()) =~= concat_tables(upto).subrange(
        s as int,
        s + ts[k].len(),
    ));
    assert(t.subrange(s as int, s + ts[k].len()) =~= ts[k]);
    lemma_header_in(t, ts[k], s as int);
}

/// A walk over well-formed tables that do not match stops at what follows
/// them: at a header whose length field is zero with `MalformedTable` at its
/// offset, and at a header cut short (fewer than 8 bytes) with
/// `TableNotFound`.
pub proof fn lemma_walk_termination(ts: Seq<Seq<u8>>, rest: Seq<u8>, sig: Seq<u8>)
    requires
        sig.len() == 4,
        forall|i: int| 0 <= i < ts.len() ==> well_formed_table(#[trigger] ts[i]),
        forall|i: int| 0 <= i < ts.len() ==> signature_at(#[trigger] ts[i], 0) != sig,
    ensures
        rest.len() >= 8 && signature_at(rest, 0) != sig && length_at(rest, 0) == 0 ==> locate(
            concat_tables(ts) + rest,
            sig,
        ) == Err::<(u32, u32, u32), AcpiError>(
            AcpiError::MalformedTable { offset: concat_tables(ts).len() as usize },
        ),
        rest.len() < 8 ==> locate(concat_tables(ts) + rest, sig) == Err::<
            (u32, u32, u32),
            AcpiError,
        >(AcpiError::TableNotFound),
{
    let p = concat_tables(ts);
    let t = p + rest;
    assert(t.subrange(0, p.len() as int) =~= p);
    lemma_walk_skips(ts, t, sig);
    if rest.len() >= 8 {
        assert(t.subrange(p.len() as int, (p.len() + rest.len()) as int) =~= rest);
        lemma_header_in(t, rest, p.len() as int);
    }
}

} // verus!
