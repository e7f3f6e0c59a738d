//! Reading the bodies of frontend messages.

use crate::bytes::{be_value, lemma_be_value_bound, lemma_span, read_be, signed, unwrap_i32};
use crate::error::{sql_error, SqlError, SqlErrorView};
use crate::text::{joined, utf8_text};
use vstd::prelude::*;
use vstd::string::*;
use vstd::utf8::{decode_utf8, valid_utf8};

verus! {

/// What reading a part of a message gives: the part and the place behind it,
/// or an error.
pub type Step<T> = Result<(T, int), SqlErrorView>;

/// The place of the first zero byte at or behind `at`.
pub open spec fn zero_from(body: Seq<u8>, at: int) -> Option<int>
    decreases body.len() - at,
{
    if at < 0 || at >= body.len() {
        None
    } else if body[at] == 0 {
        Some(at)
    } else {
        zero_from(body, at + 1)
    }
}

/// A text that a zero byte ends.
pub open spec fn text_at(body: Seq<u8>, at: int, what: Seq<char>) -> Step<Seq<char>> {
    match zero_from(body, at) {
        None => Err(sql_error("08P01"@, "unterminated "@ + what)),
        Some(end) => if valid_utf8(body.subrange(at, end)) {
            Ok((decode_utf8(body.subrange(at, end)), end + 1))
        } else {
            Err(sql_error("22021"@, "invalid UTF-8 in "@ + what))
        },
    }
}

/// A number of bytes.
pub open spec fn bytes_at(body: Seq<u8>, at: int, len: int, what: Seq<char>) -> Step<Seq<u8>> {
    if at + len > usize::MAX {
        Err(sql_error("08P01"@, what + " length overflow"@))
    } else if at + len > body.len() {
        Err(sql_error("08P01"@, "truncated "@ + what))
    } else {
        Ok((body.subrange(at, at + len), at + len))
    }
}

/// A big-endian number of `len` bytes.
pub open spec fn number_at(body: Seq<u8>, at: int, len: int, what: Seq<char>) -> Step<nat> {
    match bytes_at(body, at, len, what) {
        Ok((bytes, next)) => Ok((be_value(bytes), next)),
        Err(e) => Err(e),
    }
}

/// Whether the whole body was read.
pub open spec fn end_at(body: Seq<u8>, at: int, what: Seq<char>) -> Result<(), SqlErrorView> {
    if at == body.len() {
        Ok(())
    } else {
        Err(sql_error("08P01"@, "trailing bytes in "@ + what))
    }
}

/// The place of the first zero byte at or behind `at`.
pub fn find_zero(body: &[u8], at: usize) -> (end: Option<usize>)
    requires
        at <= body@.len(),
    ensures
        match end {
            Some(e) => zero_from(body@, at as int) == Some(e as int) && at <= e < body@.len(),
            None => zero_from(body@, at as int) is None,
        },
{
    let mut i: usize = at;
    while i < body.len()
        invariant
            at <= i <= body@.len(),
            zero_from(body@, at as int) == zero_from(body@, i as int),
        decreases body@.len() - i,
    {
        if body[i] == 0 {
            return Some(i);
        }
        i += 1;
    }
    None
}

/// A reader that walks over the body of a message.
pub struct Decoder<'a> {
    pub body: &'a [u8],
    pub pos: usize,
}

impl<'a> Decoder<'a> {
    pub open spec fn wf(self) -> bool {
        self.pos <= self.body@.len()
    }

    pub fn new(body: &'a [u8]) -> (decoder: Self)
        ensures
            decoder.wf(),
            decoder.body@ == body@,
            decoder.pos == 0,
    {
        Decoder { body, pos: 0 }
    }

    /// Reads a text that a zero byte ends.
    pub fn cstr(&mut self, what: &'static str) -> (result: Result<String, SqlError>)
        requires
            old(self).wf(),
        ensures
            final(self).wf(),
            final(self).body@ == old(self).body@,
            match result {
                Ok(text) => text_at(old(self).body@, old(self).pos as int, what@) == Ok::<
                    (Seq<char>, int),
                    SqlErrorView,
                >((text@, final(self).pos as int)),
                Err(e) => text_at(old(self).body@, old(self).pos as int, what@) == Err::<
                    (Seq<char>, int),
                    SqlErrorView,
                >(e@),
            },
    {
        let start = self.pos;
        let end = match find_zero(self.body, start) {
            Some(end) => end,
            None => {
                return Err(SqlError::new("08P01", joined("unterminated ", what).as_str()));
            },
        };
        let whole = self.body.len();
        assert(end < whole);
        self.pos = end + 1;
        match utf8_text(vstd::slice::slice_subrange(self.body, start, end)) {
            Some(text) => Ok(text),
            None => Err(SqlError::new("22021", joined("invalid UTF-8 in ", what).as_str())),
        }
    }

    /// Reads a number of bytes.
    pub fn take(&mut self, len: usize, what: &'static str) -> (result: Result<&'a [u8], SqlError>)
        requires
            old(self).wf(),
        ensures
            final(self).wf(),
            final(self).body@ == old(self).body@,
            match result {
                Ok(bytes) => bytes_at(
                    old(self).body@,
                    old(self).pos as int,
                    len as int,
                    what@,
                ) == Ok::<(Seq<u8>, int), SqlErrorView>((bytes@, final(self).pos as int))
                    && bytes@.len() == len,
                Err(e) => bytes_at(
                    old(self).body@,
                    old(self).pos as int,
                    len as int,
                    what@,
                ) == Err::<(Seq<u8>, int), SqlErrorView>(e@),
            },
    {
        let end = match self.pos.checked_add(len) {
            Some(end) => end,
            None => {
                return Err(SqlError::new("08P01", joined(what, " length overflow").as_str()));
            },
        };
        if end > self.body.len() {
            return Err(SqlError::new("08P01", joined("truncated ", what).as_str()));
        }
        let bytes = vstd::slice::slice_subrange(self.body, self.pos, end);
        self.pos = end;
        Ok(bytes)
    }

    /// Reads a number of bytes.
    pub fn bytes(&mut self, len: usize, what: &'static str) -> (result: Result<&'a [u8], SqlError>)
        requires
            old(self).wf(),
        ensures
            final(self).wf(),
            final(self).body@ == old(self).body@,
            match result {
                Ok(bytes) => bytes_at(
                    old(self).body@,
                    old(self).pos as int,
                    len as int,
                    what@,
                ) == Ok::<(Seq<u8>, int), SqlErrorView>((bytes@, final(self).pos as int)),
                Err(e) => bytes_at(
                    old(self).body@,
                    old(self).pos as int,
                    len as int,
                    what@,
                ) == Err::<(Seq<u8>, int), SqlErrorView>(e@),
            },
    {
        self.take(len, what)
    }

    /// Reads a 16-bit number.
    pub fn u16(&mut self, what: &'static str) -> (result: Result<u16, SqlError>)
        requires
            old(self).wf(),
        ensures
            final(self).wf(),
            final(self).body@ == old(self).body@,
            match result {
                Ok(value) => number_at(old(self).body@, old(self).pos as int, 2, what@) == Ok::<
                    (nat, int),
                    SqlErrorView,
                >((value as nat, final(self).pos as int)),
                Err(e) => number_at(old(self).body@, old(self).pos as int, 2, what@) == Err::<
                    (nat, int),
                    SqlErrorView,
                >(e@),
            },
    {
        match self.take(2, what) {
            Ok(bytes) => {
                proof {
                    lemma_be_value_bound(bytes@);
                    lemma_span();
                }
                Ok(read_be(bytes) as u16)
            },
            Err(e) => Err(e),
        }
    }

    /// Reads a 32-bit number.
    pub fn u32(&mut self, what: &'static str) -> (result: Result<u32, SqlError>)
        requires
            old(self).wf(),
        ensures
            final(self).wf(),
            final(self).body@ == old(self).body@,
            match result {
                Ok(value) => number_at(old(self).body@, old(self).pos as int, 4, what@) == Ok::<
                    (nat, int),
                    SqlErrorView,
                >((value as nat, final(self).pos as int)),
                Err(e) => number_at(old(self).body@, old(self).pos as int, 4, what@) == Err::<
                    (nat, int),
                    SqlErrorView,
                >(e@),
            },
    {
        match self.take(4, what) {
            Ok(bytes) => {
                proof {
                    lemma_be_value_bound(bytes@);
                    lemma_span();
                }
                Ok(read_be(bytes) as u32)
            },
            Err(e) => Err(e),
        }
    }

    /// Reads a signed 32-bit number.
    pub fn i32(&mut self, what: &'static str) -> (result: Result<i32, SqlError>)
        requires
            old(self).wf(),
        ensures
            final(self).wf(),
            final(self).body@ == old(self).body@,
            match result {
                Ok(value) => number_at(old(self).body@, old(self).pos as int, 4, what@) matches Ok(
                    (n, next),
                ) && value == signed(n, 4) && next == final(self).pos,
                Err(e) => number_at(old(self).body@, old(self).pos as int, 4, what@) == Err::<
                    (nat, int),
                    SqlErrorView,
                >(e@),
            },
    {
        match self.u32(what) {
            Ok(bits) => Ok(unwrap_i32(bits)),
            Err(e) => Err(e),
        }
    }

    /// Checks that the whole body was read.
    pub fn finish(&self, what: &'static str) -> (result: Result<(), SqlError>)
        ensures
            match result {
                Ok(()) => end_at(self.body@, self.pos as int, what@) == Ok::<(), SqlErrorView>(()),
                Err(e) => end_at(self.body@, self.pos as int, what@) == Err::<(), SqlErrorView>(e@),
            },
    {
        if self.pos == self.body.len() {
            Ok(())
        } else {
            Err(SqlError::new("08P01", joined("trailing bytes in ", what).as_str()))
        }
    }
}

} // verus!
