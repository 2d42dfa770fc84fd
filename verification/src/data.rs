//! The message that the client sends to the server, and its wire format:
//! `field1` (4 bytes), `field2` (2 bytes), the byte length of `field3`
//! (4 bytes), all in native byte order, then the UTF-8 bytes of `field3`.
use crate::wire::{
    lemma_native_u16, lemma_native_u32, native_u16, native_u32, string_from_utf8,
    u16_from_native, u16_from_ne_bytes, u16_to_ne_bytes, u32_from_native, u32_from_ne_bytes,
    u32_to_ne_bytes,
};
use vstd::prelude::*;
use vstd::utf8::{
    decode_utf8, decode_utf8_encode_utf8, encode_utf8, encode_utf8_decode_utf8,
    encode_utf8_valid_utf8, valid_utf8,
};

verus! {

/// Number of bytes before the text: `field1`, `field2` and the text length.
pub const HEADER_LEN: usize = 10;

/// A message: two numbers and a text.
#[derive(Debug)]
pub struct Data {
    pub field1: u32,
    pub field2: u16,
    pub field3: String,
}

impl View for Data {
    type V = (u32, u16, Seq<char>);

    open spec fn view(&self) -> (u32, u16, Seq<char>) {
        (self.field1, self.field2, self.field3@)
    }
}

/// Why bytes could not be read as a [`Data`].
#[derive(Debug, Clone, Copy, PartialEq, Eq, Structural)]
pub enum DataError {
    /// The bytes end before the message does.
    UnexpectedEof,
    /// The text bytes are not valid UTF-8.
    InvalidUtf8,
}

/// The bytes of the message `(field1, field2, text)`. The length field holds
/// the byte length of the text, cut to 32 bits.
pub open spec fn encoding(field1: u32, field2: u16, text: Seq<char>) -> Seq<u8> {
    native_u32(field1) + native_u16(field2) + native_u32(encode_utf8(text).len() as u32)
        + encode_utf8(text)
}

/// The text length that the header at the start of `b` declares.
pub open spec fn declared_len(b: Seq<u8>) -> int {
    u32_from_native(b.subrange(6, 10)) as int
}

/// The message at the start of `b`, or why there is none.
pub open spec fn decode(b: Seq<u8>) -> Result<(u32, u16, Seq<char>), DataError> {
    if b.len() < HEADER_LEN {
        Err(DataError::UnexpectedEof)
    } else if b.len() < HEADER_LEN + declared_len(b) {
        Err(DataError::UnexpectedEof)
    } else if !valid_utf8(b.subrange(10, 10 + declared_len(b))) {
        Err(DataError::InvalidUtf8)
    } else {
        Ok(
            (
                u32_from_native(b.subrange(0, 4)),
                u16_from_native(b.subrange(4, 6)),
                decode_utf8(b.subrange(10, 10 + declared_len(b))),
            ),
        )
    }
}

/// How many bytes of `b` reading a message takes: the whole message when
/// its bytes are all there (valid text or not), and all of `b` otherwise.
pub open spec fn consumed(b: Seq<u8>) -> int {
    if b.len() < HEADER_LEN || b.len() < HEADER_LEN + declared_len(b) {
        b.len() as int
    } else {
        HEADER_LEN + declared_len(b)
    }
}

/// A read position in a byte buffer.
pub struct ByteCursor {
    bytes: Vec<u8>,
    pos: usize,
}

impl ByteCursor {
    #[verifier::type_invariant]
    spec fn inv(self) -> bool {
        self.pos <= self.bytes@.len()
    }

    /// The whole buffer.
    pub closed spec fn content(self) -> Seq<u8> {
        self.bytes@
    }

    /// The read position.
    pub closed spec fn at(self) -> int {
        self.pos as int
    }

    /// The bytes not read yet.
    pub open spec fn remaining(self) -> Seq<u8> {
        self.content().subrange(self.at(), self.content().len() as int)
    }

    /// A cursor at the start of `bytes`.
    pub fn new(bytes: Vec<u8>) -> (c: Self)
        ensures
            c.content() == bytes@,
            c.at() == 0,
    {
        ByteCursor { bytes, pos: 0 }
    }

    /// The read position.
    pub fn position(&self) -> (p: usize)
        ensures
            p == self.at(),
    {
        self.pos
    }

    /// The buffer, read or not.
    pub fn get_ref(&self) -> (b: &Vec<u8>)
        ensures
            b@ == self.content(),
    {
        &self.bytes
    }

    /// Reads the next `n` bytes. When fewer are left, the cursor moves to the
    /// end and the read fails.
    pub fn read_exact(&mut self, n: usize) -> (r: Result<Vec<u8>, DataError>)
        ensures
            final(self).content() == old(self).content(),
            n <= old(self).remaining().len() ==> {
                &&& r matches Ok(v) && v@ == old(self).remaining().take(n as int)
                &&& final(self).at() == old(self).at() + n
            },
            n > old(self).remaining().len() ==> {
                &&& r == Err::<Vec<u8>, DataError>(DataError::UnexpectedEof)
                &&& final(self).at() == old(self).content().len()
            },
    {
        proof {
            use_type_invariant(&*self);
        }
        if n <= self.bytes.len() - self.pos {
            let mut out: Vec<u8> = Vec::new();
            let start = self.pos;
            let end = self.pos + n;
            let mut i = start;
            while i < end
                invariant
                    start <= i <= end <= self.bytes@.len(),
                    out@ == self.bytes@.subrange(start as int, i as int),
                decreases end - i,
            {
                out.push(self.bytes[i]);
                i = i + 1;
                assert(out@ =~= self.bytes@.subrange(start as int, i as int));
            }
            self.pos = end;
            assert(out@ =~= old(self).remaining().take(n as int));
            Ok(out)
        } else {
            self.pos = self.bytes.len();
            Err(DataError::UnexpectedEof)
        }
    }
}

/// Appends the bytes of `src` to `out`.
fn append_bytes(out: &mut Vec<u8>, src: &[u8])
    ensures
        final(out)@ == old(out)@ + src@,
{
    let mut i: usize = 0;
    while i < src.len()
        invariant
            i <= src@.len(),
            out@ == old(out)@ + src@.take(i as int),
        decreases src@.len() - i,
    {
        out.push(src[i]);
        i = i + 1;
        assert(out@ =~= old(out)@ + src@.take(i as int));
    }
    assert(src@.take(src@.len() as int) =~= src@);
}

impl Data {
    /// The bytes of this message.
    pub open spec fn spec_encoding(&self) -> Seq<u8> {
        encoding(self.field1, self.field2, self.field3@)
    }

    /// Writes this message in the wire format. Writing to memory cannot
    /// fail, so the result is always `Ok`.
    pub fn serialize(&self) -> (r: Result<Vec<u8>, DataError>)
        ensures
            r matches Ok(b) && b@ == self.spec_encoding(),
            r matches Ok(b) && b@ == encoding(self.field1, self.field2, self.field3@),
            r matches Ok(b) && b@.subrange(6, 10) == native_u32(
                encode_utf8(self.field3@).len() as u32,
            ),
            encode_utf8(self.field3@).len() <= u32::MAX ==> (r matches Ok(b) && decode(b@) == Ok::<
                (u32, u16, Seq<char>),
                DataError,
            >(self@) && consumed(b@) == b@.len()),
    {
        let mut bytes: Vec<u8> = Vec::new();
        let f1 = u32_to_ne_bytes(self.field1);
        append_bytes(&mut bytes, f1.as_slice());
        let f2 = u16_to_ne_bytes(self.field2);
        append_bytes(&mut bytes, f2.as_slice());
        let text = self.field3.as_str().as_bytes();
        let text_len = text.len() as u32;
        let len = u32_to_ne_bytes(text_len);
        append_bytes(&mut bytes, len.as_slice());
        append_bytes(&mut bytes, text);
        proof {
            lemma_native_u32(self.field1, seq![]);
            lemma_native_u16(self.field2, seq![]);
            lemma_native_u32(text_len, seq![]);
            assert(bytes@.subrange(6, 10) =~= native_u32(text_len));
            if encode_utf8(self.field3@).len() <= u32::MAX {
                lemma_decode_encoding(self.field1, self.field2, self.field3@, Seq::<u8>::empty());
                assert(bytes@ + Seq::<u8>::empty() =~= bytes@);
            }
        }
        Ok(bytes)
    }

    /// Reads one message at the cursor. On success the cursor moves past the
    /// message; on invalid text it moves past the text; when the bytes end
    /// early it moves to the end.
    pub fn deserialize(cursor: &mut ByteCursor) -> (r: Result<Data, DataError>)
        ensures
            final(cursor).content() == old(cursor).content(),
            final(cursor).at() == old(cursor).at() + consumed(old(cursor).remaining()),
            match decode(old(cursor).remaining()) {
                Ok(m) => r matches Ok(d) && d@ == m,
                Err(e) => r matches Err(e2) && e2 == e,
            },
    {
        let ghost b = cursor.remaining();
        proof {
            use_type_invariant(&*cursor);
        }
        let h1 = cursor.read_exact(4)?;
        let h2 = cursor.read_exact(2)?;
        let h3 = cursor.read_exact(4)?;
        assert(b.subrange(0, 4) =~= h1@);
        assert(b.subrange(4, 6) =~= h2@);
        assert(b.subrange(6, 10) =~= h3@);
        let a1 = [h1[0], h1[1], h1[2], h1[3]];
        let a2 = [h2[0], h2[1]];
        let a3 = [h3[0], h3[1], h3[2], h3[3]];
        assert(a1@ =~= h1@);
        assert(a2@ =~= h2@);
        assert(a3@ =~= h3@);
        let field1 = u32_from_ne_bytes(a1);
        let field2 = u16_from_ne_bytes(a2);
        let text_len = u32_from_ne_bytes(a3);
        let body = cursor.read_exact(text_len as usize)?;
        assert(body@ =~= b.subrange(10, 10 + declared_len(b)));
        match string_from_utf8(body) {
            Some(field3) => Ok(Data { field1, field2, field3 }),
            None => Err(DataError::InvalidUtf8),
        }
    }
}

/// Decoding the bytes of a message gives the message back, whatever bytes
/// follow it, and takes exactly its bytes, provided the UTF-8 form of the
/// text fits the 32-bit length field.
pub proof fn lemma_decode_encoding(field1: u32, field2: u16, text: Seq<char>, rest: Seq<u8>)
    requires
        encode_utf8(text).len() <= u32::MAX,
    ensures
        decode(encoding(field1, field2, text) + rest) == Ok::<(u32, u16, Seq<char>), DataError>(
            (field1, field2, text),
        ),
        consumed(encoding(field1, field2, text) + rest) == encoding(field1, field2, text).len(),
{
    let t = encode_utf8(text);
    let n = t.len() as u32;
    lemma_native_u32(field1, seq![]);
    lemma_native_u16(field2, seq![]);
    lemma_native_u32(n, seq![]);
    encode_utf8_valid_utf8(text);
    encode_utf8_decode_utf8(text);
    let e = encoding(field1, field2, text);
    let b = e + rest;
    assert(b.subrange(0, 4) =~= native_u32(field1));
    assert(b.subrange(4, 6) =~= native_u16(field2));
    assert(b.subrange(6, 10) =~= native_u32(n));
    assert(declared_len(b) == t.len());
    assert(b.subrange(10, 10 + declared_len(b)) =~= t);
}

/// Whatever message decoding finds at the start of `b`, its bytes are the
/// bytes that decoding took.
pub proof fn lemma_encoding_decode(b: Seq<u8>)
    requires
        decode(b) is Ok,
    ensures
        decode(b) matches Ok((f1, f2, text)) && encoding(f1, f2, text) == b.take(consumed(b)),
{
    let n = declared_len(b);
    let body = b.subrange(10, 10 + n);
    decode_utf8_encode_utf8(body);
    lemma_native_u32(0, b.subrange(0, 4));
    lemma_native_u16(0, b.subrange(4, 6));
    lemma_native_u32(0, b.subrange(6, 10));
    let f1 = u32_from_native(b.subrange(0, 4));
    let f2 = u16_from_native(b.subrange(4, 6));
    let text = decode_utf8(body);
    assert(encode_utf8(text) == body);
    assert((encode_utf8(text).len() as u32) == u32_from_native(b.subrange(6, 10)));
    assert(encoding(f1, f2, text) =~= b.take(consumed(b)));
}

/// The length field of a serialized message holds the full UTF-8 byte
/// length of its text (cut to 32 bits only when it does not fit), and
/// decoding the serialized bytes gives the message back, taking all of them,
/// for every text whose UTF-8 form fits that field.
pub proof fn law_serialized_message_reads_back(d: Data)
    ensures
        d.spec_encoding().len() == HEADER_LEN + encode_utf8(d.field3@).len(),
        d.spec_encoding().subrange(6, 10) == native_u32(encode_utf8(d.field3@).len() as u32),
        d.spec_encoding().subrange(10, d.spec_encoding().len() as int) == encode_utf8(d.field3@),
        encode_utf8(d.field3@).len() <= u32::MAX ==> decode(d.spec_encoding()) == Ok::<
            (u32, u16, Seq<char>),
            DataError,
        >(d@) && consumed(d.spec_encoding()) == d.spec_encoding().len(),
{
    let e = d.spec_encoding();
    let n = encode_utf8(d.field3@).len() as u32;
    lemma_native_u32(d.field1, seq![]);
    lemma_native_u16(d.field2, seq![]);
    lemma_native_u32(n, seq![]);
    assert(e.subrange(6, 10) =~= native_u32(n));
    assert(e.subrange(10, e.len() as int) =~= encode_utf8(d.field3@));
    if encode_utf8(d.field3@).len() <= u32::MAX {
        lemma_decode_encoding(d.field1, d.field2, d.field3@, Seq::<u8>::empty());
        assert(e + Seq::<u8>::empty() =~= e);
    }
}

} // verus!
