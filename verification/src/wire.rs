//! Reading the parts of a byte string from its front.

use crate::bytes::{be_value, lemma_be_value_bound, lemma_span, read_be};
use crate::error::{CodecError, CodecErrorView};
use vstd::prelude::*;

verus! {

/// What a reader makes of a byte string: a value and the bytes behind it, or
/// an error.
pub type Parsed<T> = std::result::Result<(T, Seq<u8>), CodecErrorView>;

/// The first `n` bytes.
pub open spec fn first_bytes(input: Seq<u8>, n: int) -> Parsed<Seq<u8>> {
    if input.len() < n {
        Err(CodecErrorView::Truncated)
    } else {
        Ok((input.subrange(0, n), input.subrange(n, input.len() as int)))
    }
}

/// A big-endian number of `n` bytes.
pub open spec fn first_number(input: Seq<u8>, n: int) -> Parsed<nat> {
    match first_bytes(input, n) {
        Ok((bytes, rest)) => Ok((be_value(bytes), rest)),
        Err(e) => Err(e),
    }
}

/// What can be read from the front of a byte string can be read just so from
/// one that goes on behind it.
pub proof fn lemma_goes_on(input: Seq<u8>, n: int, extra: Seq<u8>)
    requires
        0 <= n,
    ensures
        first_bytes(input, n) matches Ok((bytes, rest)) ==> first_bytes(input + extra, n) == Ok::<
            _,
            CodecErrorView,
        >((bytes, rest + extra)),
        first_number(input, n) matches Ok((value, rest)) ==> first_number(input + extra, n) == Ok::<
            _,
            CodecErrorView,
        >((value, rest + extra)),
{
    if input.len() >= n {
        let longer = input + extra;
        assert(longer.subrange(0, n) =~= input.subrange(0, n));
        assert(longer.subrange(n, longer.len() as int) =~= input.subrange(n, input.len() as int)
            + extra);
    }
}

/// Takes the first `n` bytes off the input.
pub fn take<'a>(input: &mut &'a [u8], n: usize) -> (taken: std::result::Result<
    &'a [u8],
    CodecError,
>)
    ensures
        match taken {
            Ok(bytes) => first_bytes((*old(input))@, n as int) == Ok::<_, CodecErrorView>(
                (bytes@, (*final(input))@),
            ),
            Err(e) => first_bytes((*old(input))@, n as int) == Err::<(Seq<u8>, Seq<u8>), _>(e@),
        },
{
    if input.len() < n {
        return Err(CodecError::Truncated);
    }
    let (a, b) = input.split_at(n);
    *input = b;
    Ok(a)
}

/// Takes one byte off the input.
pub fn take_u8(input: &mut &[u8]) -> (taken: std::result::Result<u8, CodecError>)
    ensures
        match taken {
            Ok(value) => first_number((*old(input))@, 1) == Ok::<_, CodecErrorView>(
                (value as nat, (*final(input))@),
            ),
            Err(e) => first_number((*old(input))@, 1) == Err::<(nat, Seq<u8>), _>(e@),
        },
{
    match take(input, 1) {
        Ok(bytes) => {
            proof {
                reveal_with_fuel(be_value, 2);
                assert(bytes@.drop_last() == Seq::<u8>::empty());
            }
            Ok(bytes[0])
        },
        Err(e) => Err(e),
    }
}

/// Takes a 32-bit number off the input.
pub fn take_u32(input: &mut &[u8]) -> (taken: std::result::Result<u32, CodecError>)
    ensures
        match taken {
            Ok(value) => first_number((*old(input))@, 4) == Ok::<_, CodecErrorView>(
                (value as nat, (*final(input))@),
            ),
            Err(e) => first_number((*old(input))@, 4) == Err::<(nat, Seq<u8>), _>(e@),
        },
{
    match take(input, 4) {
        Ok(bytes) => {
            proof {
                lemma_be_value_bound(bytes@);
                lemma_span();
            }
            Ok(read_be(bytes) as u32)
        },
        Err(e) => Err(e),
    }
}

} // verus!
