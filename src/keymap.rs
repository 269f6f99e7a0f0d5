//! Records, errors, events and origins of the registry.
use vstd::prelude::*;

verus! {

/// A 16-byte filename token: the primary key of a record.
pub type Filename = [u8; 16];

/// A 16-byte opaque content digest, stored as given.
pub type Digest = [u8; 16];

/// An account identifier, as handed over by the authentication layer.
pub type AccountId = u64;

/// Packs sixteen bytes, little-endian, into one integer.
pub open spec fn pack16(
    b0: u8, b1: u8, b2: u8, b3: u8, b4: u8, b5: u8, b6: u8, b7: u8,
    b8: u8, b9: u8, b10: u8, b11: u8, b12: u8, b13: u8, b14: u8, b15: u8,
) -> u128 {
    (b0 as u128) | ((b1 as u128) << 8u128) | ((b2 as u128) << 16u128) | ((b3 as u128) << 24u128)
        | ((b4 as u128) << 32u128) | ((b5 as u128) << 40u128) | ((b6 as u128) << 48u128)
        | ((b7 as u128) << 56u128) | ((b8 as u128) << 64u128) | ((b9 as u128) << 72u128)
        | ((b10 as u128) << 80u128) | ((b11 as u128) << 88u128) | ((b12 as u128) << 96u128)
        | ((b13 as u128) << 104u128) | ((b14 as u128) << 112u128) | ((b15 as u128) << 120u128)
}

/// The table key of a filename: its bytes read as a little-endian integer.
pub open spec fn key_of(f: Filename) -> u128 {
    pack16(
        f@[0], f@[1], f@[2], f@[3], f@[4], f@[5], f@[6], f@[7],
        f@[8], f@[9], f@[10], f@[11], f@[12], f@[13], f@[14], f@[15],
    )
}

/// Distinct filenames have distinct keys.
pub proof fn lemma_key_of_injective(f: Filename, g: Filename)
    ensures
        key_of(f) == key_of(g) ==> f == g,
{
    let (a0, a1, a2, a3, a4, a5, a6, a7) = (f@[0], f@[1], f@[2], f@[3], f@[4], f@[5], f@[6], f@[7]);
    let (a8, a9, a10, a11, a12, a13, a14, a15) = (f@[8], f@[9], f@[10], f@[11], f@[12], f@[13], f@[14], f@[15]);
    let (c0, c1, c2, c3, c4, c5, c6, c7) = (g@[0], g@[1], g@[2], g@[3], g@[4], g@[5], g@[6], g@[7]);
    let (c8, c9, c10, c11, c12, c13, c14, c15) = (g@[8], g@[9], g@[10], g@[11], g@[12], g@[13], g@[14], g@[15]);
    assert(
        ((a0 as u128) | ((a1 as u128) << 8u128) | ((a2 as u128) << 16u128) | ((a3 as u128) << 24u128)
        | ((a4 as u128) << 32u128) | ((a5 as u128) << 40u128) | ((a6 as u128) << 48u128)
        | ((a7 as u128) << 56u128) | ((a8 as u128) << 64u128) | ((a9 as u128) << 72u128)
        | ((a10 as u128) << 80u128) | ((a11 as u128) << 88u128) | ((a12 as u128) << 96u128)
        | ((a13 as u128) << 104u128) | ((a14 as u128) << 112u128) | ((a15 as u128) << 120u128))
        == ((c0 as u128) | ((c1 as u128) << 8u128) | ((c2 as u128) << 16u128) | ((c3 as u128) << 24u128)
        | ((c4 as u128) << 32u128) | ((c5 as u128) << 40u128) | ((c6 as u128) << 48u128)
        | ((c7 as u128) << 56u128) | ((c8 as u128) << 64u128) | ((c9 as u128) << 72u128)
        | ((c10 as u128) << 80u128) | ((c11 as u128) << 88u128) | ((c12 as u128) << 96u128)
        | ((c13 as u128) << 104u128) | ((c14 as u128) << 112u128) | ((c15 as u128) << 120u128))
        ==> a0 == c0 && a1 == c1 && a2 == c2 && a3 == c3 && a4 == c4 && a5 == c5 && a6 == c6
            && a7 == c7 && a8 == c8 && a9 == c9 && a10 == c10 && a11 == c11 && a12 == c12
            && a13 == c13 && a14 == c14 && a15 == c15
    ) by (bit_vector);
    if key_of(f) == key_of(g) {
        assert(f@ =~= g@);
    }
}

/// Computes the table key of a filename.
pub fn filename_key(f: &Filename) -> (k: u128)
    ensures
        k == key_of(*f),
{
    (f[0] as u128) | ((f[1] as u128) << 8u128) | ((f[2] as u128) << 16u128) | ((f[3] as u128) << 24u128)
        | ((f[4] as u128) << 32u128) | ((f[5] as u128) << 40u128) | ((f[6] as u128) << 48u128)
        | ((f[7] as u128) << 56u128) | ((f[8] as u128) << 64u128) | ((f[9] as u128) << 72u128)
        | ((f[10] as u128) << 80u128) | ((f[11] as u128) << 88u128) | ((f[12] as u128) << 96u128)
        | ((f[13] as u128) << 104u128) | ((f[14] as u128) << 112u128) | ((f[15] as u128) << 120u128)
}

/// A registered record: a filename, the digest stored with it, and its owner.
#[derive(Clone, Copy, Debug, PartialEq, Eq)]
pub struct Keymap {
    pub filename: Filename,
    pub index_of_sha: Digest,
    pub owner: AccountId,
}

/// Why a registration was refused. A refused call changes nothing.
#[derive(Clone, Copy, Debug, PartialEq, Eq, Structural)]
pub enum Error {
    /// The filename is already registered.
    DuplicateKeymap,
    /// The caller already owns as many filenames as the registry allows.
    TooManyOwned,
    /// The global count of records is at its largest value.
    Overflow,
}

/// What the registry publishes after a successful registration.
#[derive(Clone, Copy, Debug, PartialEq, Eq)]
pub enum Event {
    /// A new record was created.
    Created { filename: Filename, owner: AccountId },
}

/// Who a call comes from, as the host's dispatch layer presents it.
#[derive(Clone, Copy, Debug, PartialEq, Eq, Structural)]
pub enum Origin {
    /// The privileged root origin.
    Root,
    /// A call signed by an account.
    Signed(AccountId),
    /// An unsigned call.
    Unsigned,
    /// An unsigned call that the runtime authorized.
    Authorized,
}

/// Why a dispatched call failed.
#[derive(Clone, Copy, Debug, PartialEq, Eq, Structural)]
pub enum DispatchError {
    /// The call was not signed by an account.
    BadOrigin,
    /// The registry refused the call.
    Module(Error),
}

/// The account that signed a call, if any.
pub open spec fn signer_of(o: Origin) -> Option<AccountId> {
    match o {
        Origin::Signed(who) => Some(who),
        _ => None,
    }
}

/// Returns the signing account of a call, or `BadOrigin` for an unsigned or root call.
pub fn ensure_signed(o: Origin) -> (r: Result<AccountId, DispatchError>)
    ensures
        match signer_of(o) {
            Some(who) => r == Ok::<AccountId, DispatchError>(who),
            None => r == Err::<AccountId, DispatchError>(DispatchError::BadOrigin),
        },
{
    match o {
        Origin::Signed(who) => Ok(who),
        _ => Err(DispatchError::BadOrigin),
    }
}

} // verus!
