//! The `.blox` bytecode file: the magic bytes `blox`, then the serialized chunk.
use vstd::prelude::*;

verus! {

/// The ASCII bytes of `blox`, with which every bytecode file starts.
pub open spec fn blox_magic() -> Seq<u8> {
    seq![98u8, 108u8, 111u8, 120u8]
}

/// The payload of a bytecode file, when it starts with the magic bytes.
pub open spec fn unframe(bytes: Seq<u8>) -> Option<Seq<u8>> {
    if bytes.len() >= 4 && bytes.take(4) == blox_magic() {
        Some(bytes.skip(4))
    } else {
        None
    }
}

/// The magic bytes, in order.
fn magic() -> (m: [u8; 4])
    ensures
        m@ == blox_magic(),
{
    let m: [u8; 4] = [98u8, 108u8, 111u8, 120u8];
    assert(m@ =~= blox_magic());
    m
}

/// Whether `bytes` starts with the magic bytes.
pub fn has_blox_magic(bytes: &[u8]) -> (r: bool)
    ensures
        r == (bytes@.len() >= 4 && bytes@.take(4) == blox_magic()),
{
    if bytes.len() < 4 {
        return false;
    }
    let m = magic();
    let mut i: usize = 0;
    while i < 4
        invariant
            i <= 4,
            bytes@.len() >= 4,
            m@ == blox_magic(),
            forall|k: int| 0 <= k < i ==> bytes@[k] == blox_magic()[k],
        decreases 4 - i,
    {
        if bytes[i] != m[i] {
            assert(bytes@.take(4)[i as int] != blox_magic()[i as int]);
            return false;
        }
        i = i + 1;
    }
    assert(bytes@.take(4) =~= blox_magic());
    true
}

/// A bytecode file holding `payload`.
pub fn frame_blox(payload: &[u8]) -> (bytes: Vec<u8>)
    ensures
        bytes@ == blox_magic() + payload@,
{
    let m = magic();
    let mut bytes: Vec<u8> = Vec::new();
    let mut i: usize = 0;
    while i < 4
        invariant
            i <= 4,
            m@ == blox_magic(),
            bytes@ == blox_magic().take(i as int),
        decreases 4 - i,
    {
        bytes.push(m[i]);
        i = i + 1;
        assert(bytes@ =~= blox_magic().take(i as int));
    }
    let mut j: usize = 0;
    while j < payload.len()
        invariant
            j <= payload@.len(),
            bytes@ == blox_magic() + payload@.take(j as int),
        decreases payload@.len() - j,
    {
        bytes.push(payload[j]);
        j = j + 1;
        assert(bytes@ =~= blox_magic() + payload@.take(j as int));
    }
    assert(payload@.take(payload@.len() as int) =~= payload@);
    bytes
}

/// The payload of a bytecode file, or `None` when `bytes` lacks the magic
/// header.
pub fn blox_payload(bytes: &[u8]) -> (r: Option<Vec<u8>>)
    ensures
        match r {
            Some(p) => unframe(bytes@) == Some(p@),
            None => unframe(bytes@) is None,
        },
{
    if !has_blox_magic(bytes) {
        return None;
    }
    let mut p: Vec<u8> = Vec::new();
    let mut j: usize = 4;
    while j < bytes.len()
        invariant
            4 <= j <= bytes@.len(),
            p@ == bytes@.subrange(4, j as int),
        decreases bytes@.len() - j,
    {
        p.push(bytes[j]);
        j = j + 1;
        assert(p@ =~= bytes@.subrange(4, j as int));
    }
    assert(p@ =~= bytes@.skip(4));
    Some(p)
}

/// Law: the payload of a framed file is what was framed.
pub proof fn unframe_frame(payload: Seq<u8>)
    ensures
        unframe(blox_magic() + payload) == Some(payload),
{
    assert((blox_magic() + payload).take(4) =~= blox_magic());
    assert((blox_magic() + payload).skip(4) =~= payload);
}

} // verus!
