use vstd::prelude::*;
use vstd::utf8::{decode_utf8, encode_utf8, encode_utf8_decode_utf8, valid_utf8};

verus! {

/// What `String::from_utf8_lossy` makes of a byte string.
pub uninterp spec fn lossy_utf8(bytes: Seq<u8>) -> Seq<char>;

/// Relies on `String::from_utf8_lossy`: the result depends on the bytes alone,
/// and bytes that are valid UTF-8 are decoded unchanged.
#[verifier::external_body]
pub(crate) fn string_from_utf8_lossy(bytes: &[u8]) -> (r: String)
    ensures
        r@ == lossy_utf8(bytes@),
        valid_utf8(bytes@) ==> r@ == decode_utf8(bytes@),
{
    String::from_utf8_lossy(bytes).into_owned()
}

/// The text that bytes stand for: the characters they encode when they are
/// valid UTF-8, else their lossy decoding.
pub open spec fn utf8_text(bytes: Seq<u8>) -> Seq<char> {
    if valid_utf8(bytes) {
        decode_utf8(bytes)
    } else {
        lossy_utf8(bytes)
    }
}

/// Decodes bytes as UTF-8, invalid sequences replaced.
pub fn text_from_utf8(bytes: &[u8]) -> (r: String)
    ensures
        r@ == utf8_text(bytes@),
{
    string_from_utf8_lossy(bytes)
}

/// Whether two strings hold the same characters.
pub fn str_eq(a: &str, b: &str) -> (r: bool)
    ensures
        r == (a@ == b@),
{
    let x = a.as_bytes();
    let y = b.as_bytes();
    proof {
        encode_utf8_decode_utf8(a@);
        encode_utf8_decode_utf8(b@);
    }
    if x.len() != y.len() {
        return false;
    }
    let mut i: usize = 0;
    while i < x.len()
        invariant
            x@ == encode_utf8(a@),
            y@ == encode_utf8(b@),
            x@.len() == y@.len(),
            i <= x@.len(),
            forall|j: int| 0 <= j < i ==> x@[j] == y@[j],
        decreases x@.len() - i,
    {
        if x[i] != y[i] {
            return false;
        }
        i = i + 1;
    }
    assert(x@ =~= y@);
    true
}

/// A copy of `v[start..end]`.
pub fn copy_range(v: &[u8], start: usize, end: usize) -> (r: Vec<u8>)
    requires
        start <= end <= v@.len(),
    ensures
        r@ == v@.subrange(start as int, end as int),
{
    let mut r: Vec<u8> = Vec::new();
    let mut i: usize = start;
    while i < end
        invariant
            start <= i <= end <= v@.len(),
            r@ == v@.subrange(start as int, i as int),
        decreases end - i,
    {
        r.push(v[i]);
        i = i + 1;
        assert(r@ =~= v@.subrange(start as int, i as int));
    }
    r
}

/// Appends the bytes of `src` to `dst`.
pub fn append_bytes(dst: &mut Vec<u8>, src: &[u8])
    ensures
        final(dst)@ == old(dst)@ + src@,
{
    let mut i: usize = 0;
    while i < src.len()
        invariant
            i <= src@.len(),
            dst@ == old(dst)@ + src@.subrange(0, i as int),
        decreases src@.len() - i,
    {
        dst.push(src[i]);
        i = i + 1;
        assert(dst@ =~= old(dst)@ + src@.subrange(0, i as int));
    }
    assert(src@.subrange(0, src@.len() as int) =~= src@);
}

/// `bytes` cut or padded with zero bytes to exactly `len` bytes.
pub open spec fn fixed_width(bytes: Seq<u8>, len: nat) -> Seq<u8> {
    if bytes.len() >= len {
        bytes.subrange(0, len as int)
    } else {
        bytes + Seq::new((len - bytes.len()) as nat, |i: int| 0u8)
    }
}

/// `bytes` without its trailing zero bytes.
pub open spec fn trim_zeros(bytes: Seq<u8>) -> Seq<u8>
    decreases bytes.len(),
{
    if bytes.len() > 0 && bytes.last() == 0 {
        trim_zeros(bytes.drop_last())
    } else {
        bytes
    }
}

/// Cuts or pads `bytes` with zero bytes to exactly `len` bytes.
pub fn to_fixed_width(bytes: &[u8], len: usize) -> (r: Vec<u8>)
    ensures
        r@ == fixed_width(bytes@, len as nat),
{
    let mut r: Vec<u8> = Vec::new();
    let mut i: usize = 0;
    while i < len
        invariant
            i <= len,
            r@.len() == i,
            forall|j: int| 0 <= j < i ==> r@[j] == fixed_width(bytes@, len as nat)[j],
        decreases len - i,
    {
        if i < bytes.len() {
            r.push(bytes[i]);
        } else {
            r.push(0);
        }
        i = i + 1;
    }
    assert(r@ =~= fixed_width(bytes@, len as nat));
    r
}

/// A copy of `bytes` without its trailing zero bytes.
pub fn strip_trailing_zeros(bytes: &[u8]) -> (r: Vec<u8>)
    ensures
        r@ == trim_zeros(bytes@),
{
    let mut end: usize = bytes.len();
    assert(bytes@.subrange(0, end as int) =~= bytes@);
    while end > 0 && bytes[end - 1] == 0
        invariant
            end <= bytes@.len(),
            trim_zeros(bytes@.subrange(0, end as int)) == trim_zeros(bytes@),
        decreases end,
    {
        assert(bytes@.subrange(0, end as int).drop_last() =~= bytes@.subrange(0, end - 1));
        end = end - 1;
    }
    assert(trim_zeros(bytes@.subrange(0, end as int)) == bytes@.subrange(0, end as int));
    copy_range(bytes, 0, end)
}

} // verus!
