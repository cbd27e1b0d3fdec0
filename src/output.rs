use vstd::prelude::*;
use crate::text::{encode_text, encoding, utf16_len, EncodeError};

verus! {

/// Declares `uefi::Status` (defined in `uefi_raw`, re-exported by `uefi`): the
/// status code that the firmware's output routine returns. Values of it are
/// only carried through here, never inspected, so nothing is assumed of it.
#[verifier::external_type_specification]
#[verifier::external_body]
pub struct ExStatus(uefi::Status);

/// Encodes `text` into a fresh buffer of `N` code units and calls
/// `output_string` once with the capability reference `this` and that
/// buffer, as the firmware's calling protocol asks; the status it returns is
/// passed back unchanged. When the text cannot be encoded, the error comes
/// back and `output_string` is not called. Only a call on the encoded buffer
/// is asked to be admissible, and only when the text encodes, so no other
/// call can be made.
pub fn write_text<const N: usize, C, F>(output_string: F, this: C, text: &str) -> (r: Result<
    uefi::Status,
    EncodeError,
>) where F: FnOnce(C, &[u16; N]) -> uefi::Status
    requires
        forall|b: &[u16; N]|
            encoding(text@, N as nat) == Ok::<Seq<u16>, EncodeError>(b@)
                ==> #[trigger] output_string.requires((this, b)),
    ensures
        utf16_len(text@) + 1 > N ==> r == Err::<uefi::Status, EncodeError>(EncodeError::Overflow),
        match r {
            Ok(status) => exists|b: &[u16; N]|
                {
                    &&& encoding(text@, N as nat) == Ok::<Seq<u16>, EncodeError>(b@)
                    &&& #[trigger] output_string.ensures((this, b), status)
                },
            Err(e) => encoding(text@, N as nat) == Err::<Seq<u16>, EncodeError>(e),
        },
{
    match encode_text::<N>(text) {
        Ok(buf) => {
            let r: Result<uefi::Status, EncodeError> = Ok(output_string(this, &buf));
            assert(output_string.ensures((this, &buf), r->Ok_0));
            r
        },
        Err(e) => Err(e),
    }
}

/// The buffer handed to the firmware is rebuilt from the text alone: two
/// writes of the same text, into buffers of one capacity, hand over equal
/// buffers.
pub proof fn lemma_write_rebuilds_buffer<const N: usize>(
    text: Seq<char>,
    first: [u16; N],
    second: [u16; N],
)
    requires
        encoding(text, N as nat) == Ok::<Seq<u16>, EncodeError>(first@),
        encoding(text, N as nat) == Ok::<Seq<u16>, EncodeError>(second@),
    ensures
        first == second,
{
    broadcast use vstd::array::axiom_array_ext_equal;
    assert(first =~= second);
}

} // verus!
