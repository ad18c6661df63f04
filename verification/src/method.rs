//! Method descriptors and the messages that travel as call payloads.

use std::marker::PhantomData;
use vstd::prelude::*;
use vstd::utf8::encode_utf8;

verus! {

/// Where a 64-bit FNV-1a hash starts.
pub const FNV_OFFSET: u64 = 0xcbf2_9ce4_8422_2325;

/// What a 64-bit FNV-1a hash is multiplied by after each byte.
pub const FNV_PRIME: u64 = 0x0000_0100_0000_01b3;

/// The 64-bit FNV-1a hash of `bytes`.
pub open spec fn fnv1a(bytes: Seq<u8>) -> u64
    decreases bytes.len(),
{
    if bytes.len() == 0 {
        FNV_OFFSET
    } else {
        let mixed = fnv1a(bytes.drop_last()) ^ (bytes.last() as u64);
        ((mixed as nat * FNV_PRIME as nat) % 0x1_0000_0000_0000_0000) as u64
    }
}

/// The routing id of a method path: the hash of its UTF-8 bytes.
pub open spec fn path_id(path: Seq<char>) -> u64 {
    fnv1a(encode_utf8(path))
}

/// Routing id for a method path like `interop.Echo/say`: 64-bit FNV-1a.
/// Dispatch is one integer lookup; servers reject colliding registrations,
/// so a collision is a build-time event, never a wire ambiguity.
pub fn method_id(path: &str) -> (id: u64)
    ensures
        id == path_id(path@),
{
    let bytes = path.as_bytes();
    let mut hash: u64 = FNV_OFFSET;
    let mut i: usize = 0;
    while i < bytes.len()
        invariant
            i <= bytes@.len(),
            bytes@ == encode_utf8(path@),
            hash == fnv1a(bytes@.take(i as int)),
        decreases bytes@.len() - i,
    {
        hash = (hash ^ (bytes[i] as u64)).wrapping_mul(FNV_PRIME);
        proof {
            assert(bytes@.take(i + 1).drop_last() =~= bytes@.take(i as int));
        }
        i += 1;
    }
    assert(bytes@.take(i as int) =~= bytes@);
    hash
}

/// Why a payload is not a message of the expected type.
#[derive(Clone, PartialEq, Eq, Debug)]
pub struct DecodeError {
    /// What the decoder found wrong.
    pub detail: String,
}

/// A message that can travel as an RPC payload.
///
/// Nothing is assumed of an implementation: contracts that pass through one
/// speak of whatever it returned.
pub trait Message: Sized + Send + 'static {
    fn to_bytes(&self) -> Vec<u8>;

    fn from_bytes(data: &[u8]) -> Result<Self, DecodeError>;
}

/// A unary method: one request, one response. The id is the FNV-1a of the
/// path; the path itself never crosses the wire.
pub struct Method<Req, Res> {
    pub path: &'static str,
    pub id: u64,
    pub types: PhantomData<(Req, Res)>,
}

impl<Req: Message, Res: Message> Method<Req, Res> {
    pub fn new(path: &'static str) -> (method: Self)
        ensures
            method.path == path,
            method.id == path_id(path@),
    {
        Method { path, id: method_id(path), types: PhantomData }
    }
}

impl<Req, Res> Clone for Method<Req, Res> {
    fn clone(&self) -> (copy: Self)
        ensures
            copy == *self,
    {
        *self
    }
}

impl<Req, Res> Copy for Method<Req, Res> {

}

/// A server-streaming method: one request, any number of response
/// messages, then a status.
pub struct StreamMethod<Req, Res> {
    pub path: &'static str,
    pub id: u64,
    pub types: PhantomData<(Req, Res)>,
}

impl<Req: Message, Res: Message> StreamMethod<Req, Res> {
    pub fn new(path: &'static str) -> (method: Self)
        ensures
            method.path == path,
            method.id == path_id(path@),
    {
        StreamMethod { path, id: method_id(path), types: PhantomData }
    }
}

impl<Req, Res> Clone for StreamMethod<Req, Res> {
    fn clone(&self) -> (copy: Self)
        ensures
            copy == *self,
    {
        *self
    }
}

impl<Req, Res> Copy for StreamMethod<Req, Res> {

}

proof fn encoding_concatenates(a: Seq<char>, b: Seq<char>)
    ensures
        encode_utf8(a + b) == encode_utf8(a) + encode_utf8(b),
    decreases a.len(),
{
    if a.len() == 0 {
        assert(a + b =~= b);
        assert(encode_utf8(a) + encode_utf8(b) =~= encode_utf8(b));
    } else {
        encoding_concatenates(a.drop_first(), b);
        assert((a + b).drop_first() =~= a.drop_first() + b);
        assert(encode_utf8(a + b) =~= encode_utf8(a) + encode_utf8(b));
    }
}

/// A path's id takes in every byte of the path: one more ASCII character mixes
/// its byte into the id, whatever the path's length.
pub proof fn ids_take_in_every_character(path: Seq<char>, c: char)
    requires
        (c as nat) < 128,
    ensures
        path_id(Seq::empty()) == 0xcbf2_9ce4_8422_2325,
        path_id(path.push(c)) == (((path_id(path) ^ (c as u64)) as nat * 0x100_0000_01b3)
            % 0x1_0000_0000_0000_0000) as u64,
{
    assert(encode_utf8(Seq::<char>::empty()) =~= Seq::<u8>::empty());
    let last = seq![c];
    assert(path.push(c) =~= path + last);
    encoding_concatenates(path, last);
    vstd::utf8::is_ascii_chars_encode_utf8(last);
    assert(encode_utf8(last) =~= seq![c as u8]);
    assert(encode_utf8(path.push(c)).drop_last() =~= encode_utf8(path));
}

/// A path's id is the hash of all its UTF-8 bytes, whatever they are: the hash
/// mixes in one byte after the other.
pub proof fn ids_hash_every_byte(path: Seq<char>, bytes: Seq<u8>, byte: u8)
    ensures
        path_id(path) == fnv1a(encode_utf8(path)),
        fnv1a(Seq::empty()) == 0xcbf2_9ce4_8422_2325,
        fnv1a(bytes.push(byte)) == (((fnv1a(bytes) ^ (byte as u64)) as nat * 0x100_0000_01b3)
            % 0x1_0000_0000_0000_0000) as u64,
{
    assert(bytes.push(byte).drop_last() =~= bytes);
}

} // verus!
