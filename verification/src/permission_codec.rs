//! The stored form of asset permissions: a version byte, then each owner as a tag byte
//! followed, for an account, by the account's eight bytes.
use vstd::prelude::*;
use crate::generic_asset::{Owner, PermissionVersions, PermissionsV1};
use crate::hashing::{decode_u64, encode_u64, le_u64, lemma_le_u64_of_scale, scale_u64};

verus! {

/// Why stored permissions could not be read back.
#[derive(Clone, Copy, Debug, PartialEq, Eq, Structural)]
pub enum CodecError {
    /// The version byte is not one this ledger knows.
    UnknownVersion,
    /// An owner's tag is neither of the two known ones.
    UnknownOwner,
    /// The bytes end before the value does.
    NotEnoughData,
}

/// The stored form of an owner.
pub open spec fn owner_bytes(o: Owner) -> Seq<u8> {
    match o {
        Owner::Nobody => seq![0u8],
        Owner::Address(a) => seq![1u8] + scale_u64(a),
    }
}

/// The stored form of versioned permissions.
pub open spec fn permissions_bytes(p: PermissionVersions) -> Seq<u8> {
    match p {
        PermissionVersions::V1(q) => seq![0u8] + owner_bytes(q.update) + owner_bytes(q.mint) + owner_bytes(q.burn),
    }
}

/// The owner read from `b` at `at`, with the position after it.
pub open spec fn owner_from(b: Seq<u8>, at: int) -> Result<(Owner, int), CodecError> {
    if at >= b.len() {
        Err(CodecError::NotEnoughData)
    } else if b[at] == 0 {
        Ok((Owner::Nobody, at + 1))
    } else if b[at] == 1 {
        if at + 9 <= b.len() {
            Ok((Owner::Address(le_u64(b.subrange(at + 1, at + 9))), at + 9))
        } else {
            Err(CodecError::NotEnoughData)
        }
    } else {
        Err(CodecError::UnknownOwner)
    }
}

/// The permissions read from the front of `b`; bytes after them are left alone.
pub open spec fn permissions_from(b: Seq<u8>) -> Result<PermissionVersions, CodecError> {
    if b.len() == 0 {
        Err(CodecError::NotEnoughData)
    } else if b[0] != 0 {
        Err(CodecError::UnknownVersion)
    } else {
        match owner_from(b, 1) {
            Err(e) => Err(e),
            Ok((update, i)) => match owner_from(b, i) {
                Err(e) => Err(e),
                Ok((mint, j)) => match owner_from(b, j) {
                    Err(e) => Err(e),
                    Ok((burn, _)) => Ok(PermissionVersions::V1(PermissionsV1 { update, mint, burn })),
                },
            },
        }
    }
}

fn encode_owner(o: &Owner, out: &mut Vec<u8>)
    ensures
        final(out)@ == old(out)@ + owner_bytes(*o),
{
    match *o {
        Owner::Nobody => {
            out.push(0u8);
        },
        Owner::Address(a) => {
            out.push(1u8);
            let bytes = encode_u64(a);
            let mut i: usize = 0;
            let ghost start = out@;
            while i < bytes.len()
                invariant
                    i <= bytes@.len(),
                    out@ == start + bytes@.take(i as int),
                decreases bytes@.len() - i,
            {
                out.push(bytes[i]);
                i = i + 1;
                assert(out@ =~= start + bytes@.take(i as int));
            }
            assert(bytes@.take(bytes@.len() as int) =~= bytes@);
            assert(old(out)@.push(1u8) + scale_u64(a) =~= old(out)@ + (seq![1u8] + scale_u64(a)));
        },
    }
}

/// The stored form of the permissions.
pub fn encode_permissions(p: &PermissionVersions) -> (r: Vec<u8>)
    ensures
        r@ == permissions_bytes(*p),
{
    let mut out: Vec<u8> = Vec::new();
    out.push(0u8);
    match *p {
        PermissionVersions::V1(q) => {
            encode_owner(&q.update, &mut out);
            encode_owner(&q.mint, &mut out);
            encode_owner(&q.burn, &mut out);
            assert(out@ =~= permissions_bytes(*p));
        },
    }
    out
}

fn decode_owner(b: &[u8], at: usize) -> (r: Result<(Owner, usize), CodecError>)
    requires
        at <= b@.len(),
    ensures
        match owner_from(b@, at as int) {
            Ok((o, next)) => r == Ok::<(Owner, usize), CodecError>((o, next as usize)) && next <= b@.len(),
            Err(e) => r == Err::<(Owner, usize), CodecError>(e),
        },
{
    if at >= b.len() {
        return Err(CodecError::NotEnoughData);
    }
    if b[at] == 0 {
        Ok((Owner::Nobody, at + 1))
    } else if b[at] == 1 {
        if b.len() - at < 9 {
            return Err(CodecError::NotEnoughData);
        }
        let rest = slice_from(b, at + 1);
        match decode_u64(rest.as_slice()) {
            Some(v) => {
                assert(rest@.take(8) =~= b@.subrange(at + 1, at + 9));
                assert(le_u64(rest@) == le_u64(b@.subrange(at + 1, at + 9)));
                Ok((Owner::Address(v), at + 9))
            },
            None => Err(CodecError::NotEnoughData),
        }
    } else {
        Err(CodecError::UnknownOwner)
    }
}

/// A copy of `b` from `from` on.
fn slice_from(b: &[u8], from: usize) -> (r: Vec<u8>)
    requires
        from <= b@.len(),
    ensures
        r@ == b@.skip(from as int),
{
    let mut r: Vec<u8> = Vec::new();
    let mut i: usize = from;
    while i < b.len()
        invariant
            from <= i <= b@.len(),
            r@ == b@.subrange(from as int, i as int),
        decreases b@.len() - i,
    {
        r.push(b[i]);
        i = i + 1;
        assert(r@ =~= b@.subrange(from as int, i as int));
    }
    assert(r@ =~= b@.skip(from as int));
    r
}

/// The permissions read from the front of `b`.
pub fn decode_permissions(b: &[u8]) -> (r: Result<PermissionVersions, CodecError>)
    ensures
        r == permissions_from(b@),
{
    if b.len() == 0 {
        return Err(CodecError::NotEnoughData);
    }
    if b[0] != 0 {
        return Err(CodecError::UnknownVersion);
    }
    let (update, i) = match decode_owner(b, 1) {
        Ok(x) => x,
        Err(e) => { return Err(e); },
    };
    let (mint, j) = match decode_owner(b, i) {
        Ok(x) => x,
        Err(e) => { return Err(e); },
    };
    let (burn, _k) = match decode_owner(b, j) {
        Ok(x) => x,
        Err(e) => { return Err(e); },
    };
    Ok(PermissionVersions::V1(PermissionsV1 { update, mint, burn }))
}

/// Reading an owner back from its stored form, followed by anything, gives the owner.
proof fn lemma_owner_roundtrip(o: Owner, pre: Seq<u8>, post: Seq<u8>)
    ensures
        owner_from(pre + owner_bytes(o) + post, pre.len() as int)
            == Ok::<(Owner, int), CodecError>((o, (pre.len() + owner_bytes(o).len()) as int)),
{
    let b = pre + owner_bytes(o) + post;
    let at = pre.len() as int;
    assert(b[at] == owner_bytes(o)[0]);
    match o {
        Owner::Nobody => {},
        Owner::Address(a) => {
            assert(b.subrange(at + 1, at + 9) =~= scale_u64(a));
            lemma_le_u64_of_scale(a);
        },
    }
}

/// Permissions read back from their stored form, whatever follows it, are the same
/// permissions.
pub proof fn law_permissions_roundtrip(p: PermissionVersions, rest: Seq<u8>)
    ensures
        permissions_from(permissions_bytes(p) + rest) == Ok::<PermissionVersions, CodecError>(p),
{
    match p {
        PermissionVersions::V1(q) => {
            let b = permissions_bytes(p) + rest;
            let u = owner_bytes(q.update);
            let m = owner_bytes(q.mint);
            let n = owner_bytes(q.burn);
            assert(b =~= seq![0u8] + u + (m + n + rest));
            lemma_owner_roundtrip(q.update, seq![0u8], m + n + rest);
            assert(b =~= (seq![0u8] + u) + m + (n + rest));
            lemma_owner_roundtrip(q.mint, seq![0u8] + u, n + rest);
            assert(b =~= (seq![0u8] + u + m) + n + rest);
            lemma_owner_roundtrip(q.burn, seq![0u8] + u + m, rest);
        },
    }
}

} // verus!
