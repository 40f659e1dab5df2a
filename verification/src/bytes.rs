//! Little-endian numbers in byte blocks: how the structures that the guest
//! reads are spelled out.
use crate::address::GuestAddress;
use vstd::arithmetic::div_mod::lemma_fundamental_div_mod;
use vstd::arithmetic::div_mod::lemma_fundamental_div_mod_converse;
use vstd::prelude::*;

verus! {

/// Bytes that are to be written to guest memory at an address.
#[derive(Debug)]
pub struct GuestWrite {
    /// The address of the first byte.
    pub address: GuestAddress,
    /// The bytes.
    pub data: Vec<u8>,
}

impl View for GuestWrite {
    type V = (u64, Seq<u8>);

    open spec fn view(&self) -> (u64, Seq<u8>) {
        (self.address.0, self.data@)
    }
}

/// The addresses and bytes of a list of writes, in order.
pub open spec fn writes_of(writes: Seq<GuestWrite>) -> Seq<(u64, Seq<u8>)> {
    writes.map_values(|w: GuestWrite| w@)
}

/// The two bytes of `x`, least significant first.
pub open spec fn le_bytes16(x: u16) -> Seq<u8> {
    seq![(x % 256) as u8, (x / 256) as u8]
}

/// The four bytes of `x`, least significant first.
pub open spec fn le_bytes(x: u32) -> Seq<u8> {
    seq![
        (x % 256) as u8,
        ((x / 256) % 256) as u8,
        ((x / 65536) % 256) as u8,
        (x / 16777216) as u8,
    ]
}

/// The eight bytes of `x`, least significant first.
pub open spec fn le_bytes64(x: u64) -> Seq<u8> {
    le_bytes((x % 0x1_0000_0000) as u32) + le_bytes((x / 0x1_0000_0000) as u32)
}

/// The number whose little-endian bytes are the first four of `b`.
pub open spec fn le_value(b: Seq<u8>) -> int {
    b[0] + 256 * b[1] + 65536 * b[2] + 16777216 * b[3]
}

/// A block of `len` zero bytes.
pub open spec fn zeros(len: nat) -> Seq<u8> {
    Seq::new(len, |i: int| 0u8)
}

/// The block with `data` stored at offset `at`, over what was there.
pub open spec fn put(block: Seq<u8>, at: int, data: Seq<u8>) -> Seq<u8> {
    Seq::new(
        block.len(),
        |i: int|
            if at <= i < at + data.len() {
                data[i - at]
            } else {
                block[i]
            },
    )
}

/// Reading back what `le_bytes` wrote gives the number again, and four bytes
/// are the `le_bytes` of the number they spell.
pub proof fn lemma_le_round_trip(x: u32, b: Seq<u8>)
    ensures
        le_bytes(x).len() == 4,
        le_value(le_bytes(x)) == x,
        b.len() == 4 ==> 0 <= le_value(b) <= u32::MAX && le_bytes(le_value(b) as u32) == b,
{
    lemma_le_value_of_bytes(x);
    if b.len() == 4 {
        lemma_le_bytes_of_value(b[0], b[1], b[2], b[3]);
        assert(le_bytes(le_value(b) as u32) =~= b);
    }
}

proof fn lemma_le_value_of_bytes(x: u32)
    ensures
        le_value(le_bytes(x)) == x,
{
    let q1 = x as int / 256;
    let q2 = q1 / 256;
    let q3 = q2 / 256;
    lemma_fundamental_div_mod(x as int, 256);
    lemma_fundamental_div_mod(q1, 256);
    lemma_fundamental_div_mod(q2, 256);
    lemma_fundamental_div_mod_converse(x as int, 65536, q2, x % 256 + 256 * (q1 % 256));
    lemma_fundamental_div_mod_converse(
        x as int,
        16777216,
        q3,
        x % 256 + 256 * (q1 % 256) + 65536 * (q2 % 256),
    );
    let b = le_bytes(x);
    assert(b[0] == x % 256);
    assert(b[1] == q1 % 256);
    assert(b[2] == q2 % 256);
    assert(b[3] == q3);
}

proof fn lemma_le_bytes_of_value(b0: u8, b1: u8, b2: u8, b3: u8)
    ensures
        ({
            let v = b0 + 256 * b1 + 65536 * b2 + 16777216 * b3;
            &&& 0 <= v <= u32::MAX
            &&& v % 256 == b0
            &&& (v / 256) % 256 == b1
            &&& (v / 65536) % 256 == b2
            &&& v / 16777216 == b3
        }),
{
    let v = b0 + 256 * b1 + 65536 * b2 + 16777216 * b3;
    lemma_fundamental_div_mod_converse(v, 256, b1 + 256 * b2 + 65536 * b3, b0 as int);
    lemma_fundamental_div_mod_converse(b1 + 256 * b2 + 65536 * b3, 256, b2 + 256 * b3, b1 as int);
    lemma_fundamental_div_mod_converse(v, 65536, b2 + 256 * b3, b0 + 256 * b1);
    lemma_fundamental_div_mod_converse(b2 + 256 * b3, 256, b3 as int, b2 as int);
    lemma_fundamental_div_mod_converse(v, 16777216, b3 as int, b0 + 256 * b1 + 65536 * b2);
}

/// A block of `len` zero bytes.
pub fn zero_block(len: usize) -> (block: Vec<u8>)
    ensures
        block@ == zeros(len as nat),
{
    let mut block: Vec<u8> = Vec::new();
    while block.len() < len
        invariant
            block@.len() <= len,
            block@ == zeros(block@.len()),
        decreases len - block@.len(),
    {
        block.push(0u8);
        assert(block@ =~= zeros(block@.len()));
    }
    block
}

/// Appends the little-endian bytes of `x`.
pub fn push_u32(out: &mut Vec<u8>, x: u32)
    ensures
        final(out)@ == old(out)@ + le_bytes(x),
{
    out.push((x % 256) as u8);
    out.push(((x / 256) % 256) as u8);
    out.push(((x / 65536) % 256) as u8);
    out.push((x / 16777216) as u8);
    assert(out@ =~= old(out)@ + le_bytes(x));
}

/// Appends the little-endian bytes of `x`.
pub fn push_u64(out: &mut Vec<u8>, x: u64)
    ensures
        final(out)@ == old(out)@ + le_bytes64(x),
{
    push_u32(out, (x % 0x1_0000_0000) as u32);
    push_u32(out, (x / 0x1_0000_0000) as u32);
    assert(out@ =~= old(out)@ + le_bytes64(x));
}

/// Reads the little-endian number that starts at `at`.
pub fn read_u32(bytes: &[u8], at: usize) -> (x: u32)
    requires
        at + 4 <= bytes@.len(),
    ensures
        x == le_value(bytes@.subrange(at as int, at + 4)),
{
    let b0: u32 = bytes[at] as u32;
    let b1: u32 = bytes[at + 1] as u32;
    let b2: u32 = bytes[at + 2] as u32;
    let b3: u32 = bytes[at + 3] as u32;
    b0 + 256 * b1 + 65536 * b2 + 16777216 * b3
}

/// Stores one byte at offset `at`.
pub fn store_u8(block: &mut Vec<u8>, at: usize, x: u8)
    requires
        at < old(block)@.len(),
    ensures
        final(block)@ == put(old(block)@, at as int, seq![x]),
{
    block.set(at, x);
    assert(block@ =~= put(old(block)@, at as int, seq![x]));
}

/// Stores the little-endian bytes of `x` at offset `at`.
pub fn store_u16(block: &mut Vec<u8>, at: usize, x: u16)
    requires
        at + 2 <= old(block)@.len(),
    ensures
        final(block)@ == put(old(block)@, at as int, le_bytes16(x)),
{
    let _len: usize = block.len();
    block.set(at, (x % 256) as u8);
    block.set(at + 1, (x / 256) as u8);
    assert(block@ =~= put(old(block)@, at as int, le_bytes16(x)));
}

/// Stores the little-endian bytes of `x` at offset `at`.
pub fn store_u32(block: &mut Vec<u8>, at: usize, x: u32)
    requires
        at + 4 <= old(block)@.len(),
    ensures
        final(block)@ == put(old(block)@, at as int, le_bytes(x)),
{
    let _len: usize = block.len();
    block.set(at, (x % 256) as u8);
    block.set(at + 1, ((x / 256) % 256) as u8);
    block.set(at + 2, ((x / 65536) % 256) as u8);
    block.set(at + 3, (x / 16777216) as u8);
    assert(block@ =~= put(old(block)@, at as int, le_bytes(x)));
}

/// Stores the little-endian bytes of `x` at offset `at`.
pub fn store_u64(block: &mut Vec<u8>, at: usize, x: u64)
    requires
        at + 8 <= old(block)@.len(),
    ensures
        final(block)@ == put(old(block)@, at as int, le_bytes64(x)),
{
    let _len: usize = block.len();
    store_u32(block, at, (x % 0x1_0000_0000) as u32);
    store_u32(block, at + 4, (x / 0x1_0000_0000) as u32);
    assert(block@ =~= put(old(block)@, at as int, le_bytes64(x)));
}

} // verus!
