//! Character sources for the FXT parser.
use vstd::prelude::*;

use crate::cipher::{decode_byte, decode_spec};

verus! {

/// A source of decoded characters that knows how many it has handed out.
pub trait Decoder {
    /// The characters that are still to come, in order.
    spec fn remaining(&self) -> Seq<char>;

    /// The current position: how many characters were consumed so far.
    spec fn pos(&self) -> nat;

    fn position(&self) -> (r: usize)
        ensures
            r as nat == self.pos(),
    ;

    /// Hands out the next character, or `None` once the source is exhausted.
    fn next_char(&mut self) -> (r: Option<char>)
        ensures
            old(self).remaining().len() == 0 ==> {
                &&& r is None
                &&& final(self).remaining() == old(self).remaining()
                &&& final(self).pos() == old(self).pos()
            },
            old(self).remaining().len() > 0 ==> {
                &&& r == Some(old(self).remaining()[0])
                &&& final(self).remaining() == old(self).remaining().drop_first()
                &&& final(self).pos() == old(self).pos() + 1
            },
    ;
}

/// The character that the raw byte `b` at position `pos` stands for.
pub open spec fn decoded_char(b: u8, pos: nat) -> char {
    decode_spec(b, pos) as char
}

/// The text that the raw bytes `bytes` decode to, the first one being at
/// position `start`.
pub open spec fn decode_from(bytes: Seq<u8>, start: nat) -> Seq<char> {
    Seq::new(
        (if start <= bytes.len() { bytes.len() - start } else { 0 }) as nat,
        |i: int| decoded_char(bytes[start + i], (start + i) as nat),
    )
}

/// Decodes the raw bytes of an FXT resource, one character per byte.
pub struct FileDecoder {
    bytes: Vec<u8>,
    cur_pos: usize,
}

impl FileDecoder {
    pub closed spec fn bytes(&self) -> Seq<u8> {
        self.bytes@
    }

    /// A decoder positioned before the first of `bytes`.
    pub fn new(bytes: Vec<u8>) -> (r: FileDecoder)
        ensures
            r.bytes() == bytes@,
            r.pos() == 0,
            r.remaining() == decode_from(bytes@, 0),
    {
        FileDecoder { bytes, cur_pos: 0 }
    }
}

impl Decoder for FileDecoder {
    open spec fn remaining(&self) -> Seq<char> {
        decode_from(self.bytes(), self.pos())
    }

    closed spec fn pos(&self) -> nat {
        self.cur_pos as nat
    }

    fn position(&self) -> (r: usize) {
        self.cur_pos
    }

    fn next_char(&mut self) -> (r: Option<char>) {
        if self.cur_pos < self.bytes.len() {
            let b: u8 = decode_byte(self.bytes[self.cur_pos], self.cur_pos);
            self.cur_pos = self.cur_pos + 1;
            assert(self.remaining() =~= old(self).remaining().drop_first());
            Some(b as char)
        } else {
            None
        }
    }
}

/// Hands out already decoded characters, as a stand-in for a file.
pub struct TextDecoder {
    chars: Vec<char>,
    cur_pos: usize,
}

impl TextDecoder {
    pub closed spec fn chars(&self) -> Seq<char> {
        self.chars@
    }

    /// A decoder positioned before the first of `chars`.
    pub fn new(chars: Vec<char>) -> (r: TextDecoder)
        ensures
            r.chars() == chars@,
            r.pos() == 0,
            r.remaining() == chars@,
    {
        let r = TextDecoder { chars, cur_pos: 0 };
        assert(r.remaining() =~= chars@);
        r
    }
}

impl Decoder for TextDecoder {
    open spec fn remaining(&self) -> Seq<char> {
        if self.pos() <= self.chars().len() {
            self.chars().subrange(self.pos() as int, self.chars().len() as int)
        } else {
            Seq::empty()
        }
    }

    closed spec fn pos(&self) -> nat {
        self.cur_pos as nat
    }

    fn position(&self) -> (r: usize) {
        self.cur_pos
    }

    fn next_char(&mut self) -> (r: Option<char>) {
        if self.cur_pos < self.chars.len() {
            let c = self.chars[self.cur_pos];
            self.cur_pos = self.cur_pos + 1;
            assert(self.remaining() =~= old(self).remaining().drop_first());
            Some(c)
        } else {
            None
        }
    }
}

} // verus!
