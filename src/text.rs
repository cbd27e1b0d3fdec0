use vstd::prelude::*;

verus! {

/// Why a text could not be put into a code-unit buffer.
#[derive(Clone, Copy, Debug, PartialEq, Eq, Structural)]
pub enum EncodeError {
    /// The code units and the terminator do not fit in the buffer.
    Overflow,
    /// A character lies outside the basic multilingual plane and would need a
    /// surrogate pair.
    Unrepresentable,
}

/// A character that UTF-16 writes as a single code unit.
pub open spec fn is_bmp(c: char) -> bool {
    (c as u32) <= 0xFFFF
}

/// The number of UTF-16 code units in the text: one for a character of the
/// basic multilingual plane, two for any other.
pub open spec fn utf16_len(s: Seq<char>) -> nat
    decreases s.len(),
{
    if s.len() == 0 {
        0
    } else {
        utf16_len(s.drop_last()) + if is_bmp(s.last()) {
            1nat
        } else {
            2nat
        }
    }
}

/// Every character of the text is written as one code unit.
pub open spec fn all_bmp(s: Seq<char>) -> bool {
    forall|i: int| 0 <= i < s.len() ==> is_bmp(#[trigger] s[i])
}

/// The code units of a text whose characters all lie in the basic
/// multilingual plane: each character's scalar value.
pub open spec fn code_units(s: Seq<char>) -> Seq<u16> {
    s.map_values(|c: char| c as u32 as u16)
}

/// A buffer of `n` code units holding the text, then the terminator, then
/// zeros to the end.
pub open spec fn filled_buffer(s: Seq<char>, n: nat) -> Seq<u16> {
    code_units(s) + Seq::new((n - s.len()) as nat, |i: int| 0u16)
}

/// What encoding the text into a buffer of `n` code units gives: an overflow
/// when its code units and the terminator exceed `n`, else a failure when a
/// character needs a surrogate pair, else the filled buffer.
pub open spec fn encoding(s: Seq<char>, n: nat) -> Result<Seq<u16>, EncodeError> {
    if utf16_len(s) + 1 > n {
        Err(EncodeError::Overflow)
    } else if !all_bmp(s) {
        Err(EncodeError::Unrepresentable)
    } else {
        Ok(filled_buffer(s, n))
    }
}

/// A text has at least as many code units as each of its prefixes.
proof fn lemma_utf16_len_prefix(s: Seq<char>, k: int)
    requires
        0 <= k <= s.len(),
    ensures
        utf16_len(s.take(k)) <= utf16_len(s),
    decreases s.len() - k,
{
    if k < s.len() {
        lemma_utf16_len_prefix(s, k + 1);
        assert(s.take(k + 1).drop_last() =~= s.take(k));
    } else {
        assert(s.take(k) =~= s);
    }
}

/// Every character counts at least one code unit.
proof fn lemma_utf16_len_at_least_len(s: Seq<char>)
    ensures
        utf16_len(s) >= s.len(),
    decreases s.len(),
{
    if s.len() > 0 {
        lemma_utf16_len_at_least_len(s.drop_last());
    }
}

/// A text of characters from the basic multilingual plane has one code unit
/// per character.
proof fn lemma_utf16_len_all_bmp(s: Seq<char>)
    requires
        all_bmp(s),
    ensures
        utf16_len(s) == s.len(),
    decreases s.len(),
{
    if s.len() > 0 {
        assert(is_bmp(s[s.len() - 1]));
        lemma_utf16_len_all_bmp(s.drop_last());
    }
}

/// The character is an ASCII character.
pub open spec fn is_ascii_char(c: char) -> bool {
    (c as u32) < 128
}

/// An ASCII text shorter than the buffer encodes without fail: the buffer
/// holds each character's code in order, a single terminator right after the
/// last one, and zeros after that.
pub proof fn lemma_ascii_text_encodes(s: Seq<char>, n: nat)
    requires
        forall|i: int| 0 <= i < s.len() ==> is_ascii_char(#[trigger] s[i]),
        s.len() + 1 <= n,
    ensures
        encoding(s, n) is Ok,
        encoding(s, n)->Ok_0.len() == n,
        forall|i: int| 0 <= i < s.len() ==> (#[trigger] encoding(s, n)->Ok_0[i]) as u32 == s[i] as u32,
        encoding(s, n)->Ok_0[s.len() as int] == 0,
        forall|i: int| s.len() <= i < n ==> #[trigger] encoding(s, n)->Ok_0[i] == 0,
{
    assert(all_bmp(s)) by {
        assert forall|i: int| 0 <= i < s.len() implies is_bmp(#[trigger] s[i]) by {
            assert(is_ascii_char(s[i]));
        }
    }
    lemma_utf16_len_all_bmp(s);
    let b = filled_buffer(s, n);
    assert forall|i: int| 0 <= i < s.len() implies (#[trigger] b[i]) as u32 == s[i] as u32 by {
        assert(is_ascii_char(s[i]));
        assert(b[i] == s[i] as u32 as u16);
    }
}

/// Transcodes `text` into a zero-filled buffer of `N` UTF-16 code units, with
/// the terminator right after the last unit. Fails with `Overflow` when the
/// units and the terminator do not fit, and with `Unrepresentable` when a
/// character would need a surrogate pair; nothing is truncated.
pub fn encode_text<const N: usize>(text: &str) -> (r: Result<[u16; N], EncodeError>)
    ensures
        match r {
            Ok(buf) => encoding(text@, N as nat) == Ok::<Seq<u16>, EncodeError>(buf@),
            Err(e) => encoding(text@, N as nat) == Err::<Seq<u16>, EncodeError>(e),
        },
{
    if N == 0 {
        return Err(EncodeError::Overflow);
    }
    let count = text.unicode_len();
    let mut needed: usize = 0;
    let mut i: usize = 0;
    while i < count
        invariant
            count == text@.len(),
            i <= count,
            needed == utf16_len(text@.take(i as int)),
            needed < N,
        decreases count - i,
    {
        let c = text.get_char(i);
        let width: usize = if (c as u32) <= 0xFFFF {
            1
        } else {
            2
        };
        proof {
            assert(text@.take(i + 1).drop_last() =~= text@.take(i as int));
        }
        if width >= N - needed {
            proof {
                lemma_utf16_len_prefix(text@, i + 1);
            }
            return Err(EncodeError::Overflow);
        }
        needed = needed + width;
        i = i + 1;
    }
    proof {
        assert(text@.take(count as int) =~= text@);
        lemma_utf16_len_at_least_len(text@);
    }
    let mut buf: [u16; N] = [0u16; N];
    let mut j: usize = 0;
    while j < count
        invariant
            count == text@.len(),
            count < N,
            utf16_len(text@) < N,
            j <= count,
            buf@ =~= code_units(text@.take(j as int)) + Seq::new((N - j) as nat, |k: int| 0u16),
            all_bmp(text@.take(j as int)),
        decreases count - j,
    {
        let c = text.get_char(j);
        if (c as u32) > 0xFFFF {
            assert(!is_bmp(text@[j as int]));
            return Err(EncodeError::Unrepresentable);
        }
        buf[j] = c as u32 as u16;
        proof {
            assert(text@.take(j + 1) =~= text@.take(j as int).push(c));
        }
        j = j + 1;
    }
    proof {
        assert(text@.take(count as int) =~= text@);
    }
    Ok(buf)
}

} // verus!
