//! Small helpers on byte strings.

use vstd::prelude::*;
use vstd::string::StringSliceAdditionalSpecFns;

verus! {

/// The lower-case form of an ASCII letter; every other byte is itself.
pub open spec fn ascii_lower(b: u8) -> u8 {
    if 0x41 <= b && b <= 0x5a {
        (b + 0x20) as u8
    } else {
        b
    }
}

/// The lower-case form of an ASCII letter; every other byte is returned as
/// it is.
pub fn to_ascii_lower(b: u8) -> (r: u8)
    ensures
        r == ascii_lower(b),
{
    if 0x41 <= b && b <= 0x5a {
        b + 0x20
    } else {
        b
    }
}

/// Whether `bytes` are the bytes of `text`.
pub fn is_text(bytes: &[u8], text: &str) -> (r: bool)
    ensures
        r == (bytes@ == text.spec_bytes()),
{
    let other = text.as_bytes();
    if bytes.len() != other.len() {
        return false;
    }
    let mut i: usize = 0;
    while i < bytes.len()
        invariant
            i <= bytes@.len(),
            bytes@.len() == other@.len(),
            other@ == text.spec_bytes(),
            forall|k: int| 0 <= k < i ==> bytes@[k] == other@[k],
        decreases bytes@.len() - i,
    {
        if bytes[i] != other[i] {
            return false;
        }
        i = i + 1;
    }
    assert(bytes@ =~= other@);
    true
}

/// Appends the bytes of `src` from index `from` up to `to` to `out`.
pub fn append_range(out: &mut Vec<u8>, src: &[u8], from: usize, to: usize)
    requires
        from <= to <= src@.len(),
    ensures
        final(out)@ == old(out)@ + src@.subrange(from as int, to as int),
{
    let mut i: usize = from;
    while i < to
        invariant
            from <= i <= to <= src@.len(),
            out@ == old(out)@ + src@.subrange(from as int, i as int),
        decreases to - i,
    {
        out.push(src[i]);
        i = i + 1;
        assert(out@ =~= old(out)@ + src@.subrange(from as int, i as int));
    }
}

} // verus!
