//! Preserves the loader-provided `.data` image across a warm entry.
//!
//! A cold entry captures `.data` into a shadow: three header words (magic,
//! byte length, FNV-1a checksum) followed by the image packed little-endian
//! into words, published by writing the magic last. A warm entry validates
//! the shadow completely before it writes anything, then restores `.data`.

use vstd::prelude::*;

verus! {

/// `"WMD1"` read as a little-endian word.
pub const MAGIC: u32 = 0x3144_4d57;
pub const HEADER_BYTES: usize = 12;
pub const HEADER_WORDS: usize = 3;
/// `"LDR8"` and its complement.
pub const FRESH_TOKEN: [u32; 2] = [0x3852_444c, 0xc7ad_bbb3];
/// `"RUN8"` and its complement.
pub const CONSUMED_TOKEN: [u32; 2] = [0x384e_5552, 0xc7b1_aaad];
pub const FNV_OFFSET: u32 = 0x811c_9dc5;
pub const FNV_PRIME: u32 = 0x0100_0193;

/// A warm entry needs the consumed token, a cold one the fresh token.
pub open spec fn token_ok(warm: bool, token: [u32; 2]) -> bool {
    if warm {
        token@ == CONSUMED_TOKEN@
    } else {
        token@ == FRESH_TOKEN@
    }
}

pub fn token_allows(warm: bool, token: [u32; 2]) -> (r: bool)
    ensures
        r == token_ok(warm, token),
{
    let expected = if warm {
        CONSUMED_TOKEN
    } else {
        FRESH_TOKEN
    };
    let r = token[0] == expected[0] && token[1] == expected[1];
    assert(r == (token@ =~= expected@));
    r
}

/// FNV-1a over `bytes`.
pub open spec fn fnv(bytes: Seq<u8>) -> u32
    decreases bytes.len(),
{
    if bytes.len() == 0 {
        FNV_OFFSET
    } else {
        ((fnv(bytes.drop_last()) ^ (bytes.last() as u32)) as u32).wrapping_mul(FNV_PRIME)
    }
}

/// Multiplying by `FNV_PRIME` modulo 2^32 is injective: `0x359c449b` is its
/// inverse.
proof fn lemma_fnv_mul_injective(x: u32, y: u32)
    requires
        x.wrapping_mul(FNV_PRIME) == y.wrapping_mul(FNV_PRIME),
    ensures
        x == y,
{
    let px = x.wrapping_mul(FNV_PRIME);
    let py = y.wrapping_mul(FNV_PRIME);
    assert(px == ((x as nat * FNV_PRIME as nat) % 0x1_0000_0000) as u32);
    assert(px == ((x as u64 * 0x0100_0193u64) as u32)) by (bit_vector)
        requires
            px == ((x as nat * 0x0100_0193nat) % 0x1_0000_0000) as u32,
    ;
    assert(py == ((y as u64 * 0x0100_0193u64) as u32)) by (bit_vector)
        requires
            py == ((y as nat * 0x0100_0193nat) % 0x1_0000_0000) as u32,
    ;
    assert(x == ((px as u64 * 0x359c_449bu64) as u32)) by (bit_vector)
        requires
            px == ((x as u64 * 0x0100_0193u64) as u32),
    ;
    assert(y == ((py as u64 * 0x359c_449bu64) as u32)) by (bit_vector)
        requires
            py == ((y as u64 * 0x0100_0193u64) as u32),
    ;
}

proof fn lemma_fnv_prefixes_differ(a: Seq<u8>, b: Seq<u8>, i: int, k: int)
    requires
        a.len() == b.len(),
        0 <= i < k <= a.len(),
        a[i] != b[i],
        forall|j: int| 0 <= j < a.len() && j != i ==> a[j] == b[j],
    ensures
        fnv(a.take(k)) != fnv(b.take(k)),
    decreases k,
{
    let ak = a.take(k);
    let bk = b.take(k);
    assert(ak.drop_last() =~= a.take(k - 1));
    assert(bk.drop_last() =~= b.take(k - 1));
    let ha = fnv(a.take(k - 1));
    let hb = fnv(b.take(k - 1));
    let xa = (ha ^ (ak.last() as u32)) as u32;
    let xb = (hb ^ (bk.last() as u32)) as u32;
    if k - 1 == i {
        assert(a.take(k - 1) =~= b.take(k - 1));
        let la = ak.last() as u32;
        let lb = bk.last() as u32;
        assert(la != lb);
        assert(xa != xb) by (bit_vector)
            requires
                xa == ha ^ la,
                xb == ha ^ lb,
                la != lb,
        ;
    } else {
        lemma_fnv_prefixes_differ(a, b, i, k - 1);
        let l = ak.last() as u32;
        assert(bk.last() as u32 == l);
        assert(xa != xb) by (bit_vector)
            requires
                xa == ha ^ l,
                xb == hb ^ l,
                ha != hb,
        ;
    }
    if fnv(ak) == fnv(bk) {
        lemma_fnv_mul_injective(xa, xb);
    }
}

/// Changing one byte of an image changes its FNV-1a checksum.
pub proof fn lemma_single_byte_change_changes_checksum(a: Seq<u8>, b: Seq<u8>, i: int)
    requires
        a.len() == b.len(),
        0 <= i < a.len(),
        a[i] != b[i],
        forall|j: int| 0 <= j < a.len() && j != i ==> a[j] == b[j],
    ensures
        fnv(a) != fnv(b),
{
    lemma_fnv_prefixes_differ(a, b, i, a.len() as int);
    assert(a.take(a.len() as int) =~= a);
    assert(b.take(b.len() as int) =~= b);
}

pub fn checksum(bytes: &[u8]) -> (r: u32)
    ensures
        r == fnv(bytes@),
{
    let mut digest = FNV_OFFSET;
    let mut index: usize = 0;
    while index < bytes.len()
        invariant
            index <= bytes@.len(),
            digest == fnv(bytes@.take(index as int)),
        decreases bytes@.len() - index,
    {
        assert(bytes@.take(index + 1).drop_last() =~= bytes@.take(index as int));
        digest = (digest ^ (bytes[index] as u32)).wrapping_mul(FNV_PRIME);
        index += 1;
    }
    assert(bytes@.take(index as int) =~= bytes@);
    digest
}

/// Byte `k` (0..4) of a word, little-endian.
pub open spec fn byte_of(w: u32, k: int) -> u8 {
    ((w >> ((8 * k) as u32)) & 0xff) as u8
}

/// The word with byte `k` replaced by `b`.
pub open spec fn with_byte(w: u32, k: int, b: u8) -> u32 {
    (w & !(0xffu32 << ((8 * k) as u32))) | ((b as u32) << ((8 * k) as u32))
}

proof fn lemma_with_byte(w: u32, k: u32, b: u8, j: u32)
    requires
        k < 4,
        j < 4,
    ensures
        byte_of(with_byte(w, k as int, b), j as int) == if j == k {
            b
        } else {
            byte_of(w, j as int)
        },
{
    let s = (8 * k) as u32;
    let t = (8 * j) as u32;
    assert(s == 8 * k && t == 8 * j);
    let nw = (w & !(0xffu32 << s)) | ((b as u32) << s);
    assert((((nw >> t) & 0xff) as u8) == if j == k { b } else { ((w >> t) & 0xff) as u8 })
        by (bit_vector)
        requires
            k < 4,
            j < 4,
            s == 8 * k,
            t == 8 * j,
            nw == (w & !(0xffu32 << s)) | ((b as u32) << s),
    ;
}

/// The first `len` image bytes of a shadow.
pub open spec fn image(shadow: Seq<u32>, len: nat) -> Seq<u8> {
    Seq::new(len, |i: int| byte_of(shadow[HEADER_WORDS + i / 4], i % 4))
}

/// A published shadow of a `len`-byte image: magic, length and checksum.
pub open spec fn valid_shadow(shadow: Seq<u32>, len: nat) -> bool {
    shadow[0] == MAGIC && shadow[1] == len && shadow[2] == fnv(image(shadow, len))
}

/// The shadow words that an image of `len` bytes needs.
pub open spec fn shadow_words(len: nat) -> nat {
    (HEADER_WORDS + (len + 3) / 4) as nat
}

fn image_byte(shadow: &Vec<u32>, i: usize) -> (r: u8)
    requires
        HEADER_WORDS + i / 4 < shadow@.len(),
    ensures
        r == byte_of(shadow@[HEADER_WORDS + i / 4], (i % 4) as int),
{
    let w = shadow[HEADER_WORDS + i / 4];
    let k = (i % 4) as u32;
    assert(k == i % 4);
    ((w >> (8 * k)) & 0xff) as u8
}

fn image_bytes(shadow: &Vec<u32>, len: usize) -> (r: Vec<u8>)
    requires
        shadow@.len() == shadow_words(len as nat),
    ensures
        r@ == image(shadow@, len as nat),
{
    let mut out: Vec<u8> = Vec::new();
    let mut i: usize = 0;
    while i < len
        invariant
            i <= len,
            shadow@.len() == shadow_words(len as nat),
            out@ == image(shadow@, len as nat).subrange(0, i as int),
        decreases len - i,
    {
        out.push(image_byte(shadow, i));
        i += 1;
        assert(out@ =~= image(shadow@, len as nat).subrange(0, i as int));
    }
    assert(image(shadow@, len as nat).subrange(0, len as int) =~= image(shadow@, len as nat));
    out
}

/// The checksum of a published shadow, or `None` when its magic, length or
/// checksum do not hold.
pub fn valid_image(shadow: &Vec<u32>, len: usize) -> (r: Option<u32>)
    requires
        shadow@.len() == shadow_words(len as nat),
        len <= u32::MAX,
    ensures
        r == (if valid_shadow(shadow@, len as nat) {
            Some(shadow@[2])
        } else {
            None
        }),
{
    if shadow[0] != MAGIC || shadow[1] != len as u32 {
        return None;
    }
    let digest = shadow[2];
    let bytes = image_bytes(shadow, len);
    if checksum(bytes.as_slice()) == digest {
        Some(digest)
    } else {
        None
    }
}

/// Captures (cold) or restores (warm) `data` through `shadow`. A warm entry
/// with an invalid shadow writes nothing and fails; a warm entry never
/// writes the shadow; a cold entry publishes a valid shadow of `data`.
pub fn prepare_region(warm: bool, data: &mut Vec<u8>, shadow: &mut Vec<u32>) -> (r: bool)
    requires
        old(shadow)@.len() == shadow_words(old(data)@.len()),
        old(data)@.len() <= u32::MAX,
    ensures
        final(data)@.len() == old(data)@.len(),
        final(shadow)@.len() == old(shadow)@.len(),
        warm ==> r == valid_shadow(old(shadow)@, old(data)@.len()),
        warm ==> final(shadow)@ == old(shadow)@,
        warm && r ==> final(data)@ == image(old(shadow)@, old(data)@.len()),
        warm && !r ==> final(data)@ == old(data)@,
        !warm ==> r && final(data)@ == old(data)@ && valid_shadow(final(shadow)@, old(data)@.len())
            && image(final(shadow)@, old(data)@.len()) == old(data)@,
{
    let len = data.len();
    if warm {
        match valid_image(shadow, len) {
            None => {
                return false;
            },
            Some(_) => {},
        }
        let mut i: usize = 0;
        while i < len
            invariant
                i <= len == data@.len() == old(data)@.len(),
                shadow@ == old(shadow)@,
                shadow@.len() == shadow_words(len as nat),
                forall|j: int| 0 <= j < i ==> data@[j] == image(shadow@, len as nat)[j],
            decreases len - i,
        {
            let b = image_byte(shadow, i);
            data.set(i, b);
            i += 1;
        }
        assert(data@ =~= image(shadow@, len as nat));
        return true;
    }
    shadow.set(0, 0);
    let mut i: usize = 0;
    while i < len
        invariant
            i <= len == data@.len(),
            data@ == old(data)@,
            shadow@.len() == shadow_words(len as nat),
            shadow@[0] == 0,
            forall|j: int| 0 <= j < i ==> #[trigger] image(shadow@, len as nat)[j] == data@[j],
        decreases len - i,
    {
        let index = HEADER_WORDS + i / 4;
        let k = (i % 4) as u32;
        let ghost before = shadow@;
        let w = shadow[index];
        let b = data[i];
        let nw = (w & !(0xffu32 << (8 * k))) | ((b as u32) << (8 * k));
        assert(nw == with_byte(w, k as int, b));
        shadow.set(index, nw);
        proof {
            assert forall|j: int| 0 <= j < i + 1 implies #[trigger] image(shadow@, len as nat)[j]
                == data@[j] by {
                let jw = HEADER_WORDS + j / 4;
                if jw == index {
                    lemma_with_byte(w, k, b, (j % 4) as u32);
                    if j != i {
                        assert(j % 4 != i % 4);
                        assert(image(before, len as nat)[j] == data@[j]);
                    }
                } else {
                    assert(shadow@[jw] == before[jw]);
                    assert(image(before, len as nat)[j] == data@[j]);
                }
            }
        }
        i += 1;
    }
    let bytes = image_bytes(shadow, len);
    assert(bytes@ =~= data@);
    let digest = checksum(bytes.as_slice());
    shadow.set(1, len as u32);
    shadow.set(2, digest);
    shadow.set(0, MAGIC);
    assert(image(shadow@, len as nat) =~= bytes@) by {
        assert forall|j: int| 0 <= j < len implies image(shadow@, len as nat)[j] == bytes@[j] by {
            assert(shadow@[HEADER_WORDS + j / 4] == shadow@[HEADER_WORDS + j / 4]);
        }
    }
    true
}

proof fn lemma_byte_of_flip(x: u32, bit: u32, k: u32)
    requires
        bit < 32,
        k < 4,
    ensures
        (byte_of(x ^ (1u32 << bit), k as int) == byte_of(x, k as int)) == (k != bit / 8),
{
    let t = (8 * k) as u32;
    assert(t == 8 * k);
    let y = x ^ (1u32 << bit);
    assert(((((y >> t) & 0xff) as u8) == (((x >> t) & 0xff) as u8)) == (k != bit / 8))
        by (bit_vector)
        requires
            bit < 32,
            k < 4,
            t == 8 * k,
            y == x ^ (1u32 << bit),
    ;
}

/// A published shadow no longer validates once any one bit of its header or
/// of its image bytes is flipped.
pub proof fn lemma_flipped_bit_is_rejected(shadow: Seq<u32>, len: nat, w: int, bit: u32)
    requires
        shadow.len() == shadow_words(len),
        valid_shadow(shadow, len),
        0 <= w < shadow.len(),
        bit < 32,
        w < HEADER_WORDS || 4 * (w - HEADER_WORDS) + bit / 8 < len,
    ensures
        !valid_shadow(shadow.update(w, shadow[w] ^ (1u32 << bit)), len),
{
    let x = shadow[w];
    let y = x ^ (1u32 << bit);
    let flipped = shadow.update(w, y);
    assert(y != x) by (bit_vector)
        requires
            bit < 32,
            y == x ^ (1u32 << bit),
    ;
    if w >= HEADER_WORDS {
        let i = 4 * (w - HEADER_WORDS) + bit / 8;
        let a = image(shadow, len);
        let b = image(flipped, len);
        assert forall|j: int| 0 <= j < len && j != i implies a[j] == b[j] by {
            if HEADER_WORDS + j / 4 == w {
                lemma_byte_of_flip(x, bit, (j % 4) as u32);
            }
        }
        lemma_byte_of_flip(x, bit, bit / 8);
        assert(a[i] != b[i]);
        lemma_single_byte_change_changes_checksum(a, b, i);
    } else if w == 2 {
        assert(image(flipped, len) =~= image(shadow, len));
    }
}

} // verus!
