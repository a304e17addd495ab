//! Little-endian fixed-width integers inside byte buffers.
use vstd::prelude::*;

verus! {

/// `256` to the power `n`.
pub open spec fn pow256(n: nat) -> nat
    decreases n,
{
    if n == 0 {
        1
    } else {
        256 * pow256((n - 1) as nat)
    }
}

/// The unsigned value of `b` read as a little-endian number.
pub open spec fn le_value(b: Seq<u8>) -> nat
    decreases b.len(),
{
    if b.len() == 0 {
        0
    } else {
        b[0] as nat + 256 * le_value(b.subrange(1, b.len() as int))
    }
}

/// The `n` low-order bytes of `v`, least significant first.
pub open spec fn le_bytes(v: nat, n: nat) -> Seq<u8>
    decreases n,
{
    if n == 0 {
        Seq::empty()
    } else {
        seq![(v % 256) as u8] + le_bytes(v / 256, (n - 1) as nat)
    }
}

/// `b` with the bytes from `off` on replaced by `w`.
pub open spec fn splice(b: Seq<u8>, off: int, w: Seq<u8>) -> Seq<u8> {
    b.subrange(0, off) + w + b.subrange(off + w.len(), b.len() as int)
}

pub proof fn lemma_le_bytes_len(v: nat, n: nat)
    ensures
        le_bytes(v, n).len() == n,
    decreases n,
{
    if n > 0 {
        lemma_le_bytes_len(v / 256, (n - 1) as nat);
    }
}

pub proof fn lemma_le_value_bound(b: Seq<u8>)
    ensures
        le_value(b) < pow256(b.len()),
    decreases b.len(),
{
        if b.len() > 0 {
        let rest = b.subrange(1, b.len() as int);
        lemma_le_value_bound(rest);
        let p = pow256(rest.len());
        assert(b[0] as nat + 256 * le_value(rest) < 256 * p) by (nonlinear_arith)
            requires
                b[0] < 256,
                le_value(rest) < p,
        ;
    }
}

/// Writing `v` as `n` little-endian bytes and reading them back gives `v`.
pub proof fn lemma_le_round_trip(v: nat, n: nat)
    requires
        v < pow256(n),
    ensures
        le_value(le_bytes(v, n)) == v,
    decreases n,
{
        if n > 0 {
        let q = v / 256;
        let p = pow256((n - 1) as nat);
        assert(q < p) by (nonlinear_arith)
            requires
                v < 256 * p,
                q == v / 256,
        ;
        lemma_le_round_trip(q, (n - 1) as nat);
        let b = le_bytes(v, n);
        lemma_le_bytes_len(q, (n - 1) as nat);
        assert(b.subrange(1, b.len() as int) =~= le_bytes(q, (n - 1) as nat));
        assert(v == v % 256 + 256 * q) by (nonlinear_arith)
            requires
                q == v / 256,
        ;
    } else {
        assert(pow256(0) == 1);
    }
}

pub proof fn lemma_pow_256_16()
    ensures
        pow256(16) == 0x1_0000_0000_0000_0000_0000_0000_0000_0000,
{
    reveal_with_fuel(pow256, 17);
}

pub proof fn lemma_pow256_mono(a: nat, b: nat)
    requires
        a <= b,
    ensures
        pow256(a) <= pow256(b),
    decreases b,
{
    if a < b {
        lemma_pow256_mono(a, (b - 1) as nat);
    }
}

/// Reads the `width` bytes at `off` as a little-endian number.
pub fn read_le(data: &[u8], off: usize, width: usize) -> (r: u128)
    requires
        width <= 16,
        off + width <= data@.len(),
    ensures
        r as nat == le_value(data@.subrange(off as int, off + width)),
        (r as nat) < pow256(width as nat),
{
    let len = data.len();
    let mut v: u128 = 0;
    let mut i: usize = width;
    while i > 0
        invariant
            i <= width <= 16,
            off + width <= data@.len(),
            len == data@.len(),
            v as nat == le_value(data@.subrange(off + i, off + width)),
        decreases i,
    {
        let ghost rest = data@.subrange(off + i, off + width);
        let ghost cur = data@.subrange(off + i - 1, off + width);
        assert(cur.subrange(1, cur.len() as int) =~= rest);
        proof {
            lemma_le_value_bound(rest);
            lemma_le_value_bound(cur);
            lemma_pow_256_16();
            lemma_pow256_mono(cur.len(), 16);
        }
        let b = data[off + i - 1];
        v = (b as u128) + 256 * v;
        i = i - 1;
    }
    proof {
        lemma_le_value_bound(data@.subrange(off as int, off + width));
    }
    v
}

/// Copies the 32 bytes at `off`.
pub fn read_key(data: &[u8], off: usize) -> (r: [u8; 32])
    requires
        off + 32 <= data@.len(),
    ensures
        r@ == data@.subrange(off as int, off + 32),
{
    let len = data.len();
    let mut r: [u8; 32] = [0u8; 32];
    let mut i: usize = 0;
    while i < 32
        invariant
            i <= 32,
            off + 32 <= data@.len(),
            len == data@.len(),
            r@.len() == 32,
            forall|k: int| 0 <= k < i ==> r@[k] == data@[off + k],
        decreases 32 - i,
    {
        r[i] = data[off + i];
        i = i + 1;
    }
    assert(r@ =~= data@.subrange(off as int, off + 32));
    r
}

/// Writes `v` as sixteen little-endian bytes at `off`.
pub fn write_u128_le(data: &mut Vec<u8>, off: usize, v: u128)
    requires
        off + 16 <= old(data)@.len(),
    ensures
        final(data)@ == splice(old(data)@, off as int, le_bytes(v as nat, 16)),
{
    let ghost orig = data@;
    let len = data.len();
    let ghost whole = le_bytes(v as nat, 16);
    let ghost mut done: Seq<u8> = Seq::empty();
    let mut x: u128 = v;
    let mut k: usize = 0;
    proof {
        lemma_le_bytes_len(v as nat, 16);
        assert(done + le_bytes(x as nat, 16) =~= whole);
    }
    while k < 16
        invariant
            k <= 16,
            off + 16 <= orig.len(),
            len == orig.len(),
            done.len() == k,
            done + le_bytes(x as nat, (16 - k) as nat) == whole,
            data@ =~= orig.subrange(0, off as int) + done + orig.subrange(off + k, orig.len() as int),
        decreases 16 - k,
    {
        let byte = (x % 256) as u8;
        proof {
            let rest = le_bytes(x as nat, (16 - k) as nat);
            assert(rest =~= seq![byte] + le_bytes((x / 256) as nat, (15 - k) as nat));
            assert((done + seq![byte]) + le_bytes((x / 256) as nat, (15 - k) as nat) =~= done + rest);
            done = done + seq![byte];
        }
        data.set(off + k, byte);
        x = x / 256;
        k = k + 1;
    }
    proof {
        lemma_le_bytes_len(x as nat, 0);
        assert(done =~= whole);
    }
}

/// `n` zero bytes.
pub open spec fn zeros(n: nat) -> Seq<u8> {
    Seq::new(n, |i: int| 0u8)
}

/// A buffer of `n` zero bytes.
pub fn zeroed(n: usize) -> (r: Vec<u8>)
    ensures
        r@ == zeros(n as nat),
{
    let mut r: Vec<u8> = Vec::new();
    let mut i: usize = 0;
    while i < n
        invariant
            i <= n,
            r@ =~= zeros(i as nat),
        decreases n - i,
    {
        r.push(0u8);
        i = i + 1;
    }
    r
}

/// Copies the bytes of `src` into `data` at `off`.
pub fn write_bytes(data: &mut Vec<u8>, off: usize, src: &[u8])
    requires
        off + src@.len() <= old(data)@.len(),
    ensures
        final(data)@ == splice(old(data)@, off as int, src@),
{
    let n = src.len();
    let ghost orig = data@;
    let len = data.len();
    let mut k: usize = 0;
    while k < n
        invariant
            k <= n,
            n == src@.len(),
            off + n <= orig.len(),
            len == orig.len(),
            data@ =~= orig.subrange(0, off as int) + src@.subrange(0, k as int) + orig.subrange(off + k, orig.len() as int),
        decreases n - k,
    {
        data.set(off + k, src[k]);
        k = k + 1;
    }
    assert(src@.subrange(0, n as int) =~= src@);
}

/// Reading back the sixteen bytes written at `off` gives the value written.
pub proof fn lemma_read_after_write(b: Seq<u8>, off: int, v: u128)
    requires
        0 <= off,
        off + 16 <= b.len(),
    ensures
        splice(b, off, le_bytes(v as nat, 16)).len() == b.len(),
        le_value(splice(b, off, le_bytes(v as nat, 16)).subrange(off, off + 16)) == v,
{
    let w = le_bytes(v as nat, 16);
    lemma_le_bytes_len(v as nat, 16);
    assert(splice(b, off, w).subrange(off, off + 16) =~= w);
    lemma_pow_256_16();
    lemma_le_round_trip(v as nat, 16);
}

/// Bytes outside the spliced range keep their values.
pub proof fn lemma_splice_keeps(b: Seq<u8>, off: int, w: Seq<u8>, lo: int, hi: int)
    requires
        0 <= off,
        off + w.len() <= b.len(),
        0 <= lo <= hi <= b.len(),
        hi <= off || off + w.len() <= lo,
    ensures
        splice(b, off, w).len() == b.len(),
        splice(b, off, w).subrange(lo, hi) == b.subrange(lo, hi),
{
    assert(splice(b, off, w).subrange(lo, hi) =~= b.subrange(lo, hi));
}

/// Zero bytes read as zero.
pub proof fn lemma_le_value_zeros(n: nat)
    ensures
        le_value(zeros(n)) == 0,
    decreases n,
{
    if n > 0 {
        assert(zeros(n).subrange(1, n as int) =~= zeros((n - 1) as nat));
        lemma_le_value_zeros((n - 1) as nat);
    }
}

} // verus!
