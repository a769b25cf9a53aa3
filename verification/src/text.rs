//! Small helpers for building and inspecting ASCII text.
use vstd::prelude::*;

verus! {

/// The bytes of a character sequence, one byte per character.
///
/// This is the UTF-8 encoding of `s` exactly when every character of `s` is
/// ASCII; the library only applies it to such sequences.
pub open spec fn chars_to_bytes(s: Seq<char>) -> Seq<u8> {
    Seq::new(s.len(), |i: int| s[i] as u8)
}

/// Relies on std's `String::push`: appends one character at the end.
#[verifier::external_body]
pub(crate) fn push_char(s: &mut String, c: char)
    ensures
        final(s)@ == old(s)@.push(c),
{
    s.push(c);
}

/// Appends every byte of `bytes` to `s` as one ASCII character each.
pub fn push_ascii_bytes(s: &mut String, bytes: &Vec<u8>)
    requires
        forall|i: int| 0 <= i < bytes@.len() ==> #[trigger] bytes@[i] < 128,
    ensures
        final(s)@ == old(s)@ + Seq::new(bytes@.len(), |i: int| bytes@[i] as char),
{
    let ghost appended = Seq::new(bytes@.len(), |i: int| bytes@[i] as char);
    let mut i: usize = 0;
    while i < bytes.len()
        invariant
            i <= bytes@.len(),
            appended == Seq::new(bytes@.len(), |j: int| bytes@[j] as char),
            forall|j: int| 0 <= j < bytes@.len() ==> #[trigger] bytes@[j] < 128,
            s@ == old(s)@ + appended.take(i as int),
        decreases bytes@.len() - i,
    {
        let b = bytes[i];
        push_char(s, b as char);
        proof {
            assert(appended.take(i + 1) =~= appended.take(i as int).push(bytes@[i as int] as char));
        }
        i = i + 1;
    }
    proof {
        assert(appended.take(bytes@.len() as int) =~= appended);
    }
}

} // verus!
