//! Byte-string helpers: concatenation, fixed-width integer encodings and
//! equality of 32-byte words.

use vstd::prelude::*;

verus! {

/// Little-endian encoding of `n` in exactly `k` bytes (higher digits dropped).
pub open spec fn le_bytes(n: nat, k: nat) -> Seq<u8>
    decreases k,
{
    if k == 0 {
        Seq::empty()
    } else {
        seq![(n % 256) as u8] + le_bytes(n / 256, (k - 1) as nat)
    }
}

/// Big-endian encoding of `n` in exactly `k` bytes (higher digits dropped).
pub open spec fn be_bytes(n: nat, k: nat) -> Seq<u8>
    decreases k,
{
    if k == 0 {
        Seq::empty()
    } else {
        be_bytes(n / 256, (k - 1) as nat).push((n % 256) as u8)
    }
}

/// `256^k`: the number of values that `k` bytes can hold.
pub open spec fn pow256(k: nat) -> nat
    decreases k,
{
    if k == 0 {
        1
    } else {
        256 * pow256((k - 1) as nat)
    }
}

/// Values that fit `k` bytes are told apart by their big-endian encodings
/// in `k` bytes.
pub proof fn lemma_be_bytes_injective(a: nat, b: nat, k: nat)
    requires
        a < pow256(k),
        b < pow256(k),
        be_bytes(a, k) == be_bytes(b, k),
    ensures
        a == b,
    decreases k,
{
    if k > 0 {
        let k1 = (k - 1) as nat;
        let p = pow256(k1);
        let sa = be_bytes(a, k);
        let sb = be_bytes(b, k);
        assert(sa.drop_last() =~= be_bytes(a / 256, k1));
        assert(sb.drop_last() =~= be_bytes(b / 256, k1));
        assert(sa.last() == sb.last());
        assert((a % 256) as u8 == (b % 256) as u8);
        assert(a % 256 == b % 256);
        assert(a / 256 < p) by (nonlinear_arith)
            requires
                a < 256 * p,
        ;
        assert(b / 256 < p) by (nonlinear_arith)
            requires
                b < 256 * p,
        ;
        lemma_be_bytes_injective(a / 256, b / 256, k1);
        assert(a == 256 * (a / 256) + a % 256);
        assert(b == 256 * (b / 256) + b % 256);
    }
}

/// A sequence of `k` zero bytes.
pub open spec fn zeros(k: nat) -> Seq<u8> {
    Seq::new(k, |i: int| 0u8)
}

pub proof fn lemma_le_bytes_len(n: nat, k: nat)
    ensures
        le_bytes(n, k).len() == k,
    decreases k,
{
    if k > 0 {
        lemma_le_bytes_len(n / 256, (k - 1) as nat);
    }
}

pub proof fn lemma_be_bytes_len(n: nat, k: nat)
    ensures
        be_bytes(n, k).len() == k,
    decreases k,
{
    if k > 0 {
        lemma_be_bytes_len(n / 256, (k - 1) as nat);
    }
}

/// Appends the bytes of `s` to `out`.
pub fn append_bytes(out: &mut Vec<u8>, s: &[u8])
    ensures
        final(out)@ == old(out)@ + s@,
{
    let ghost start = out@;
    let mut i: usize = 0;
    while i < s.len()
        invariant
            i <= s@.len(),
            out@ == start + s@.subrange(0, i as int),
        decreases s@.len() - i,
    {
        out.push(s[i]);
        i = i + 1;
        assert(out@ =~= start + s@.subrange(0, i as int));
    }
    assert(s@.subrange(0, s@.len() as int) =~= s@);
}

/// The concatenation `a ‖ b`.
pub fn concat_bytes(a: &[u8], b: &[u8]) -> (r: Vec<u8>)
    ensures
        r@ == a@ + b@,
{
    let mut out: Vec<u8> = Vec::new();
    append_bytes(&mut out, a);
    append_bytes(&mut out, b);
    assert(out@ =~= a@ + b@);
    out
}

/// The 64-byte concatenation `a ‖ b` of two 32-byte words.
pub fn concat32(a: &[u8; 32], b: &[u8; 32]) -> (r: [u8; 64])
    ensures
        r@ == a@ + b@,
{
    let mut r = [0u8; 64];
    let mut i: usize = 0;
    while i < 32
        invariant
            i <= 32,
            r@.len() == 64,
            forall|j: int| 0 <= j < i ==> r@[j] == a@[j],
            forall|j: int| 0 <= j < i ==> r@[32 + j] == b@[j],
        decreases 32 - i,
    {
        r[i] = a[i];
        r[32 + i] = b[i];
        i = i + 1;
    }
    assert(r@ =~= a@ + b@);
    r
}

/// Whether two 32-byte words are equal.
pub fn eq32(a: &[u8; 32], b: &[u8; 32]) -> (r: bool)
    ensures
        r == (a@ == b@),
{
    let mut i: usize = 0;
    while i < 32
        invariant
            i <= 32,
            forall|j: int| 0 <= j < i ==> a@[j] == b@[j],
        decreases 32 - i,
    {
        if a[i] != b[i] {
            return false;
        }
        i = i + 1;
    }
    assert(a@ =~= b@);
    true
}

/// Copies a 32-byte view `s` into an array.
pub fn to_array32(s: &[u8]) -> (r: [u8; 32])
    requires
        s@.len() == 32,
    ensures
        r@ == s@,
{
    let mut r = [0u8; 32];
    let mut i: usize = 0;
    while i < 32
        invariant
            i <= 32,
            s@.len() == 32,
            forall|j: int| 0 <= j < i ==> r@[j] == s@[j],
        decreases 32 - i,
    {
        r[i] = s[i];
        i = i + 1;
    }
    assert(r@ =~= s@);
    r
}

/// Big-endian bytes of a `u128`, as `u128::to_be_bytes` gives them.
pub fn u128_be_bytes(x: u128) -> (r: [u8; 16])
    ensures
        r@ == be_bytes(x as nat, 16),
{
    let mut r = [0u8; 16];
    let mut v: u128 = x;
    let mut i: usize = 0;
    while i < 16
        invariant
            i <= 16,
            r@.len() == 16,
            be_bytes(x as nat, 16) == be_bytes(v as nat, (16 - i) as nat) + r@.subrange(
                16 - i,
                16,
            ),
        decreases 16 - i,
    {
        let ghost old_r = r@;
        r[15 - i] = (v % 256) as u8;
        assert(r@.subrange(16 - i - 1, 16) =~= seq![(v % 256) as u8] + old_r.subrange(
            16 - i,
            16,
        ));
        assert(be_bytes(v as nat, (16 - i) as nat) == be_bytes(
            (v / 256) as nat,
            (16 - i - 1) as nat,
        ).push((v % 256) as u8));
        assert(be_bytes((v / 256) as nat, (16 - i - 1) as nat).push((v % 256) as u8)
            + old_r.subrange(16 - i, 16) =~= be_bytes((v / 256) as nat, (16 - i - 1) as nat)
            + r@.subrange(16 - i - 1, 16));
        v = v / 256;
        i = i + 1;
    }
    assert(r@.subrange(0, 16) =~= r@);
    r
}

/// The four big-endian bytes of `x` truncated to 32 bits, as
/// `(x as u32).to_be_bytes()` gives them.
pub fn usize_be4(x: usize) -> (r: [u8; 4])
    ensures
        r@ == be_bytes(x as nat, 4),
{
    let mut r = [0u8; 4];
    let mut v: usize = x;
    let mut i: usize = 0;
    while i < 4
        invariant
            i <= 4,
            r@.len() == 4,
            be_bytes(x as nat, 4) == be_bytes(v as nat, (4 - i) as nat) + r@.subrange(
                4 - i,
                4,
            ),
        decreases 4 - i,
    {
        let ghost old_r = r@;
        r[3 - i] = (v % 256) as u8;
        assert(r@.subrange(4 - i - 1, 4) =~= seq![(v % 256) as u8] + old_r.subrange(
            4 - i,
            4,
        ));
        assert(be_bytes(v as nat, (4 - i) as nat) == be_bytes(
            (v / 256) as nat,
            (4 - i - 1) as nat,
        ).push((v % 256) as u8));
        assert(be_bytes((v / 256) as nat, (4 - i - 1) as nat).push((v % 256) as u8)
            + old_r.subrange(4 - i, 4) =~= be_bytes((v / 256) as nat, (4 - i - 1) as nat)
            + r@.subrange(4 - i - 1, 4));
        v = v / 256;
        i = i + 1;
    }
    assert(r@.subrange(0, 4) =~= r@);
    r
}

/// Little-endian bytes of an unsigned integer of `k` bytes.
fn le_bytes_vec(x: u128, k: usize) -> (r: Vec<u8>)
    requires
        k <= 16,
    ensures
        r@ == le_bytes(x as nat, k as nat),
{
    let mut out: Vec<u8> = Vec::new();
    let mut v: u128 = x;
    let mut i: usize = 0;
    while i < k
        invariant
            i <= k,
            le_bytes(x as nat, k as nat) == out@ + le_bytes(v as nat, (k - i) as nat),
        decreases k - i,
    {
        let ghost old_out = out@;
        out.push((v % 256) as u8);
        assert(le_bytes(v as nat, (k - i) as nat) == seq![(v % 256) as u8] + le_bytes(
            (v / 256) as nat,
            (k - i - 1) as nat,
        ));
        assert(old_out + (seq![(v % 256) as u8] + le_bytes((v / 256) as nat, (k - i - 1) as nat))
            =~= out@ + le_bytes((v / 256) as nat, (k - i - 1) as nat));
        v = v / 256;
        i = i + 1;
    }
    assert(out@ + le_bytes(v as nat, 0) =~= out@);
    out
}

/// The four little-endian bytes of `n` truncated to 32 bits, as
/// `(n as u32).to_le_bytes()` gives them.
pub fn usize_le4(n: usize) -> (r: Vec<u8>)
    ensures
        r@ == le_bytes(n as nat, 4),
{
    le_bytes_vec(n as u128, 4)
}

/// Little-endian bytes of a `u32`, as `u32::to_le_bytes` gives them.
pub fn u32_le_bytes(x: u32) -> (r: Vec<u8>)
    ensures
        r@ == le_bytes(x as nat, 4),
{
    le_bytes_vec(x as u128, 4)
}

/// Little-endian bytes of a `u128`, as `u128::to_le_bytes` gives them.
pub fn u128_le_bytes(x: u128) -> (r: Vec<u8>)
    ensures
        r@ == le_bytes(x as nat, 16),
{
    le_bytes_vec(x, 16)
}


/// Writes `src` into `dst` from position `off` on.
pub fn write_at<const N: usize>(dst: &mut [u8; N], off: usize, src: &[u8])
    requires
        off + src@.len() <= N,
    ensures
        final(dst)@ == old(dst)@.subrange(0, off as int) + src@ + old(dst)@.subrange(
            off + src@.len(),
            N as int,
        ),
{
    let ghost start = dst@;
    let mut i: usize = 0;
    while i < src.len()
        invariant
            off + src@.len() <= N,
            i <= src@.len(),
            dst@.len() == N,
            start.len() == N,
            forall|j: int| 0 <= j < off ==> dst@[j] == start[j],
            forall|j: int| 0 <= j < i ==> dst@[off + j] == src@[j],
            forall|j: int| off + src@.len() <= j < N ==> dst@[j] == start[j],
        decreases src@.len() - i,
    {
        dst[off + i] = src[i];
        i = i + 1;
    }
    assert(dst@ =~= start.subrange(0, off as int) + src@ + start.subrange(
        off + src@.len(),
        N as int,
    ));
}

} // verus!
