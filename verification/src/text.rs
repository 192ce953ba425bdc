//! Names: bytes up to a zero byte, read as text.

use vstd::prelude::*;
use vstd::slice::slice_subrange;

verus! {

/// The characters that `String::from_utf8_lossy` makes of `bytes`.
pub uninterp spec fn utf8_lossy(bytes: Seq<u8>) -> Seq<char>;

/// `String::from_utf8_lossy`: the text that the bytes encode in UTF-8, with
/// the replacement character in place of what is no UTF-8. What comes out
/// depends on the bytes alone, and [`utf8_lossy`] is the name for it.
#[verifier::external_body]
pub(crate) fn decode_lossy(bytes: &[u8]) -> (text: String)
    ensures
        text@ == utf8_lossy(bytes@),
{
    String::from_utf8_lossy(bytes).into_owned()
}

/// Where the first zero byte at or after `from` stands, or the length of
/// `bytes` if there is none.
pub open spec fn zero_from(bytes: Seq<u8>, from: int) -> int
    decreases bytes.len() - from,
{
    if from < 0 || from >= bytes.len() || bytes[from] == 0 {
        from
    } else {
        zero_from(bytes, from + 1)
    }
}

/// The bytes before the first zero byte, or all of them if none is zero.
pub open spec fn spec_c_string(bytes: Seq<u8>) -> Seq<u8> {
    bytes.take(zero_from(bytes, 0))
}

/// The first zero byte at or after `from` stands inside `bytes` or at its
/// end, and no byte before it is zero.
pub proof fn lemma_zero_from(bytes: Seq<u8>, from: int)
    requires
        0 <= from <= bytes.len(),
    ensures
        from <= zero_from(bytes, from) <= bytes.len(),
        zero_from(bytes, from) < bytes.len() ==> bytes[zero_from(bytes, from)] == 0,
        forall|i: int| from <= i < zero_from(bytes, from) ==> bytes[i] != 0,
    decreases bytes.len() - from,
{
    if from < bytes.len() && bytes[from] != 0 {
        lemma_zero_from(bytes, from + 1);
    }
}

/// A name is read the same whatever follows its zero byte: where `name`
/// holds no zero byte, the bytes before the first zero byte of `name`, a
/// zero byte and `after` are `name`.
pub proof fn lemma_c_string_ignores_rest(name: Seq<u8>, after: Seq<u8>)
    requires
        forall|i: int| 0 <= i < name.len() ==> name[i] != 0,
    ensures
        spec_c_string(name + seq![0u8] + after) == name,
{
    let bytes = name + seq![0u8] + after;
    lemma_zero_from(bytes, 0);
    let z = zero_from(bytes, 0);
    assert(bytes[name.len() as int] == 0);
    if z < name.len() {
        assert(bytes[z] == name[z]);
    }
    assert(z == name.len());
    assert(bytes.take(z) =~= name);
}

/// The bytes of `bytes` before its first zero byte.
pub fn c_string(bytes: &[u8]) -> (name: &[u8])
    ensures
        name@ == spec_c_string(bytes@),
{
    let mut i: usize = 0;
    while i < bytes.len() && bytes[i] != 0
        invariant
            i <= bytes.len(),
            zero_from(bytes@, 0) == zero_from(bytes@, i as int),
        decreases bytes.len() - i,
    {
        i += 1;
    }
    slice_subrange(bytes, 0, i)
}

/// The name that stands at the start of `bytes`: the bytes before the first
/// zero byte, read as text.
pub open spec fn spec_name(bytes: Seq<u8>) -> Seq<char> {
    utf8_lossy(spec_c_string(bytes))
}

/// Reads the name that stands at the start of `bytes`.
pub fn name(bytes: &[u8]) -> (text: String)
    ensures
        text@ == spec_name(bytes@),
{
    decode_lossy(c_string(bytes))
}

} // verus!
