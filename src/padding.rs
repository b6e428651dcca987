use vstd::prelude::*;
use crate::error::CipherError;

verus! {

/// The block size used when none is given: that of AES.
pub const DEFAULT_BLOCK_SIZE: usize = 16;

/// The largest block size whose pad count fits in one byte.
pub const MAX_BLOCK_SIZE: usize = 255;

/// The block size that an optional argument stands for.
pub open spec fn block_size_of(block_size: Option<usize>) -> nat {
    match block_size {
        Some(n) => n as nat,
        None => DEFAULT_BLOCK_SIZE as nat,
    }
}

/// A block size for which every pad count fits in one byte.
pub open spec fn valid_block_size(bs: nat) -> bool {
    1 <= bs <= MAX_BLOCK_SIZE
}

/// How many pad bytes follow `len` bytes: between 1 and `bs`, never 0.
pub open spec fn pad_count(len: nat, bs: nat) -> nat
    recommends
        bs > 0,
{
    (bs as int - (len as int) % (bs as int)) as nat
}

/// `b` followed by `n` copies of the byte `n`, where `n` is its pad count.
pub open spec fn padded(b: Seq<u8>, bs: nat) -> Seq<u8>
    recommends
        valid_block_size(bs),
{
    let n = pad_count(b.len(), bs);
    b + Seq::new(n, |_i: int| n as u8)
}

/// Whether the last `n` bytes of `b` all hold the value `n`.
pub open spec fn has_pad_tail(b: Seq<u8>, n: nat) -> bool {
    forall|i: int| b.len() - n <= i < b.len() ==> #[trigger] b[i] == n as u8
}

/// The bytes before the padding of `b`, or `None` where `b` is no padded buffer.
pub open spec fn unpadded(b: Seq<u8>, bs: nat) -> Option<Seq<u8>> {
    if b.len() == 0 || (b.len() as int) % (bs as int) != 0 {
        None
    } else {
        let n = b.last() as nat;
        if 1 <= n <= bs && has_pad_tail(b, n) {
            Some(b.take(b.len() - n))
        } else {
            None
        }
    }
}

/// Padding then unpadding gives back the original bytes, for every input and
/// every usable block size, including inputs that already fill whole blocks.
pub proof fn lemma_unpad_pad(b: Seq<u8>, bs: nat)
    requires
        valid_block_size(bs),
    ensures
        unpadded(padded(b, bs), bs) == Some(b),
{
    let n = pad_count(b.len(), bs);
    let p = padded(b, bs);
    lemma_pad_fills_block(b.len(), bs);
    assert(p.len() == b.len() + n);
    assert(p.last() == n as u8);
    assert((n as u8) as nat == n);
    assert(has_pad_tail(p, n));
    assert(p.take(p.len() - n) =~= b);
}

/// The pad count brings any length to a multiple of the block size.
pub proof fn lemma_pad_fills_block(len: nat, bs: nat)
    requires
        bs >= 1,
    ensures
        ((len + pad_count(len, bs)) as int) % (bs as int) == 0,
        1 <= pad_count(len, bs) <= bs,
{
    let l = len as int;
    let b = bs as int;
    let r = l % b;
    let q = l / b;
    vstd::arithmetic::div_mod::lemma_fundamental_div_mod(l, b);
    vstd::arithmetic::div_mod::lemma_mod_bound(l, b);
    assert(l + (b - r) == (q + 1) * b) by (nonlinear_arith)
        requires l == b * q + r;
    vstd::arithmetic::div_mod::lemma_mod_multiples_basic(q + 1, b);
}

/// Appends pad bytes to `buffer` so that its length becomes a multiple of the
/// block size (16 where `block_size` is `None`). At least one byte is always
/// added, and each added byte holds the number of bytes added.
pub fn pad(buffer: &[u8], block_size: Option<usize>) -> (r: Result<Vec<u8>, CipherError>)
    requires
        buffer@.len() + MAX_BLOCK_SIZE <= usize::MAX,
    ensures
        valid_block_size(block_size_of(block_size)) <==> r is Ok,
        !valid_block_size(block_size_of(block_size)) ==> r == Err::<Vec<u8>, CipherError>(
            CipherError::InvalidConfiguration,
        ),
        r matches Ok(v) ==> v@ == padded(buffer@, block_size_of(block_size)),
{
    let bs: usize = match block_size {
        Some(n) => n,
        None => DEFAULT_BLOCK_SIZE,
    };
    if bs == 0 || bs > MAX_BLOCK_SIZE {
        return Err(CipherError::InvalidConfiguration);
    }
    let n: usize = bs - buffer.len() % bs;
    let mut out: Vec<u8> = vstd::slice::slice_to_vec(buffer);
    let mut i: usize = 0;
    while i < n
        invariant
            n == pad_count(buffer@.len(), bs as nat),
            1 <= n <= bs <= MAX_BLOCK_SIZE,
            buffer@.len() + MAX_BLOCK_SIZE <= usize::MAX,
            0 <= i <= n,
            out@ == buffer@ + Seq::new(i as nat, |_j: int| n as u8),
        decreases n - i,
    {
        out.push(n as u8);
        i = i + 1;
        assert(out@ =~= buffer@ + Seq::new(i as nat, |_j: int| n as u8));
    }
    Ok(out)
}

/// Removes the padding that `pad` added with the same block size. Fails with
/// `InvalidConfiguration` on an unusable block size, and with `Decoding` where
/// `buffer` does not end in well-formed padding.
pub fn unpad(buffer: &[u8], block_size: Option<usize>) -> (r: Result<Vec<u8>, CipherError>)
    ensures
        !valid_block_size(block_size_of(block_size)) ==> r == Err::<Vec<u8>, CipherError>(
            CipherError::InvalidConfiguration,
        ),
        valid_block_size(block_size_of(block_size)) ==> match unpadded(
            buffer@,
            block_size_of(block_size),
        ) {
            Some(b) => r matches Ok(v) && v@ == b,
            None => r == Err::<Vec<u8>, CipherError>(CipherError::Decoding),
        },
{
    let bs: usize = match block_size {
        Some(n) => n,
        None => DEFAULT_BLOCK_SIZE,
    };
    if bs == 0 || bs > MAX_BLOCK_SIZE {
        return Err(CipherError::InvalidConfiguration);
    }
    let len: usize = buffer.len();
    if len == 0 || len % bs != 0 {
        return Err(CipherError::Decoding);
    }
    let n: usize = buffer[len - 1] as usize;
    if n < 1 || n > bs {
        return Err(CipherError::Decoding);
    }
    proof {
        assert(len >= bs) by (nonlinear_arith)
            requires len > 0, (len as int) % (bs as int) == 0, bs >= 1;
    }
    let mut i: usize = len - n;
    while i < len
        invariant
            len == buffer@.len(),
            bs as nat == block_size_of(block_size),
            1 <= bs <= MAX_BLOCK_SIZE,
            len > 0,
            (len as int) % (bs as int) == 0,
            n as nat == buffer@.last() as nat,
            1 <= n <= bs,
            n <= len,
            len - n <= i <= len,
            forall|k: int| len - n <= k < i ==> buffer@[k] == n as u8,
        decreases len - i,
    {
        if buffer[i] as usize != n {
            proof {
                assert(!has_pad_tail(buffer@, n as nat));
            }
            return Err(CipherError::Decoding);
        }
        i = i + 1;
    }
    proof {
        assert(has_pad_tail(buffer@, n as nat));
    }
    let mut out: Vec<u8> = Vec::new();
    let mut j: usize = 0;
    while j < len - n
        invariant
            len == buffer@.len(),
            1 <= n <= len,
            0 <= j <= len - n,
            out@ == buffer@.take(j as int),
        decreases len - n - j,
    {
        out.push(buffer[j]);
        j = j + 1;
        assert(out@ =~= buffer@.take(j as int));
    }
    Ok(out)
}

/// A buffer that already fills whole blocks still gets a full block of
/// padding, and still comes back unchanged from `unpad`.
pub proof fn lemma_pad_full_blocks(b: Seq<u8>, bs: nat)
    requires
        valid_block_size(bs),
        (b.len() as int) % (bs as int) == 0,
    ensures
        padded(b, bs).len() == b.len() + bs,
        unpadded(padded(b, bs), bs) == Some(b),
{
    lemma_unpad_pad(b, bs);
}

} // verus!
