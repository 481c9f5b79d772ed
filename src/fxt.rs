//! Tokenizing decoded FXT text into keys and values, and assembling them
//! into a mapping.
use vstd::prelude::*;

use crate::errors::FXTError;
use crate::file_decoder::{decode_from, Decoder, FileDecoder};
use crate::fxt_map::FxtMap;

verus! {

/// How the next character is read.
#[derive(Debug, Clone, Copy, PartialEq, Eq, Structural)]
pub enum State {
    /// Between records.
    NewToken,
    /// After an opening `[`.
    ParsingKey,
    /// After the `]` that closed a key.
    ParsingValue,
}

/// One parsed unit of the character stream.
enum FxtToken {
    Key(String),
    Value(String),
    End,
}

/// What a call for the next token yields, seen as plain values.
pub enum TokenView {
    Key(Seq<char>),
    Value(Seq<char>),
    End,
    /// A null character outside a value.
    Fatal,
}

/// The next token read from `s` in state `st` with `buf` gathered so far,
/// the state after it, and how many characters it takes. A `]` ends a key,
/// a null ends a value; `[` opens a key only between records, and every
/// other character, brackets inside a value included, is gathered. `End`
/// comes when `s` runs out first, having taken all of it.
pub open spec fn next_token(st: State, buf: Seq<char>, s: Seq<char>) -> (TokenView, State, nat)
    decreases s.len(),
{
    if s.len() == 0 {
        (TokenView::End, st, 0)
    } else {
        let c = s[0];
        if c == '[' && st == State::NewToken {
            let r = next_token(State::ParsingKey, buf, s.drop_first());
            (r.0, r.1, r.2 + 1)
        } else if c == ']' && st == State::ParsingKey {
            (TokenView::Key(buf), State::ParsingValue, 1)
        } else if c == '\0' {
            if st == State::ParsingValue {
                (TokenView::Value(buf), State::NewToken, 1)
            } else {
                (TokenView::Fatal, st, 1)
            }
        } else {
            let r = next_token(st, buf.push(c), s.drop_first());
            (r.0, r.1, r.2 + 1)
        }
    }
}

/// The outcome of a call for the next token, seen as plain values.
spec fn token_view(r: Result<FxtToken, FXTError>) -> TokenView {
    match r {
        Ok(FxtToken::Key(k)) => TokenView::Key(k@),
        Ok(FxtToken::Value(v)) => TokenView::Value(v@),
        Ok(FxtToken::End) => TokenView::End,
        Err(_) => TokenView::Fatal,
    }
}

/// The mapping after a value `v` arrives while `pending` is the key waiting
/// for one: stored under that key, or dropped when there is none.
pub open spec fn apply_value(
    pending: Option<Seq<char>>,
    m: Map<Seq<char>, Seq<char>>,
    v: Seq<char>,
) -> Map<Seq<char>, Seq<char>> {
    match pending {
        Some(k) => m.insert(k, v),
        None => m,
    }
}

/// The outcome of reading the characters `s`, the first at position `pos`,
/// in state `st`, with `buf` accumulated so far, `pending` the key awaiting a
/// value, and `m` the entries stored so far: the final mapping, or the
/// position just after a null byte found outside a value.
pub open spec fn run(
    st: State,
    buf: Seq<char>,
    pending: Option<Seq<char>>,
    m: Map<Seq<char>, Seq<char>>,
    s: Seq<char>,
    pos: nat,
) -> Result<Map<Seq<char>, Seq<char>>, nat>
    decreases s.len(),
{
    if s.len() == 0 {
        Ok(m)
    } else {
        let c = s[0];
        let rest = s.drop_first();
        let p = pos + 1;
        if c == '[' && st == State::NewToken {
            run(State::ParsingKey, buf, pending, m, rest, p)
        } else if c == ']' && st == State::ParsingKey {
            run(State::ParsingValue, Seq::empty(), Some(buf), m, rest, p)
        } else if c == '\0' {
            if st == State::ParsingValue {
                run(State::NewToken, Seq::empty(), None, apply_value(pending, m, buf), rest, p)
            } else {
                Err(p)
            }
        } else {
            run(st, buf.push(c), pending, m, rest, p)
        }
    }
}

/// What parsing the characters `s`, the first at position `pos`, yields.
pub open spec fn parse_spec(s: Seq<char>, pos: nat) -> Result<Map<Seq<char>, Seq<char>>, nat> {
    run(State::NewToken, Seq::empty(), None, Map::empty(), s, pos)
}

/// A parse result seen as a mapping or the position of the fault.
pub open spec fn outcome(r: Result<FxtMap, FXTError>) -> Result<Map<Seq<char>, Seq<char>>, nat> {
    match r {
        Ok(map) => Ok(map@),
        Err(FXTError::UnexpectedNullByte(p)) => Err(p as nat),
    }
}

pub open spec fn opt_view(o: Option<String>) -> Option<Seq<char>> {
    match o {
        Some(k) => Some(k@),
        None => None,
    }
}

/// Relies on String::push: appends `c` to the end of `s`.
#[verifier::external_body]
fn push_char(s: &mut String, c: char)
    ensures
        final(s)@ == old(s)@.push(c),
{
    s.push(c)
}

struct Parser<T: Decoder> {
    state: State,
    decoder: T,
}

impl<T: Decoder> Parser<T> {
    fn new(decoder: T) -> (r: Self)
        ensures
            r.state == State::NewToken,
            r.decoder == decoder,
    {
        Parser { state: State::NewToken, decoder }
    }

    fn get_position(&self) -> (r: usize)
        ensures
            r as nat == self.decoder.pos(),
    {
        self.decoder.position()
    }

    /// Reads characters until a key or a value is complete, or the source
    /// ends. The ghost `pending` and `m` stand for the assembler's state, so
    /// that the outcome of the rest of the stream is carried over.
    fn parse_token(
        &mut self,
        Ghost(pending): Ghost<Option<Seq<char>>>,
        Ghost(m): Ghost<Map<Seq<char>, Seq<char>>>,
    ) -> (r: Result<FxtToken, FXTError>)
        ensures
            ({
                let (tok, st, n) = next_token(
                    old(self).state,
                    Seq::empty(),
                    old(self).decoder.remaining(),
                );
                &&& token_view(r) == tok
                &&& final(self).state == st
                &&& n <= old(self).decoder.remaining().len()
                &&& final(self).decoder.remaining() == old(self).decoder.remaining().skip(n as int)
                &&& final(self).decoder.pos() == old(self).decoder.pos() + n
                &&& r matches Err(FXTError::UnexpectedNullByte(p)) ==> p == old(self).decoder.pos()
                    + n
                &&& r matches Ok(FxtToken::End) ==> final(self).decoder.remaining().len() == 0
            }),
            ({
                let before = run(
                    old(self).state,
                    Seq::empty(),
                    pending,
                    m,
                    old(self).decoder.remaining(),
                    old(self).decoder.pos(),
                );
                let rem = final(self).decoder.remaining();
                let pos = final(self).decoder.pos();
                match r {
                    Ok(FxtToken::Key(k)) => {
                        &&& before == run(final(self).state, Seq::empty(), Some(k@), m, rem, pos)
                        &&& rem.len() < old(self).decoder.remaining().len()
                    },
                    Ok(FxtToken::Value(v)) => {
                        &&& before == run(
                            final(self).state,
                            Seq::empty(),
                            None,
                            apply_value(pending, m, v@),
                            rem,
                            pos,
                        )
                        &&& rem.len() < old(self).decoder.remaining().len()
                    },
                    Ok(FxtToken::End) => before == Ok::<Map<Seq<char>, Seq<char>>, nat>(m),
                    Err(FXTError::UnexpectedNullByte(p)) => before == Err::<
                        Map<Seq<char>, Seq<char>>,
                        nat,
                    >(p as nat),
                }
            }),
    {
        let mut internal = String::new();
        assert(old(self).decoder.remaining().skip(0) =~= old(self).decoder.remaining());
        loop
            invariant
                run(
                    old(self).state,
                    Seq::empty(),
                    pending,
                    m,
                    old(self).decoder.remaining(),
                    old(self).decoder.pos(),
                ) == run(
                    self.state,
                    internal@,
                    pending,
                    m,
                    self.decoder.remaining(),
                    self.decoder.pos(),
                ),
                self.decoder.remaining().len() <= old(self).decoder.remaining().len(),
                ({
                    let k = old(self).decoder.remaining().len() - self.decoder.remaining().len();
                    let r = next_token(self.state, internal@, self.decoder.remaining());
                    &&& self.decoder.remaining() == old(self).decoder.remaining().skip(k)
                    &&& self.decoder.pos() == old(self).decoder.pos() + k
                    &&& next_token(old(self).state, Seq::empty(), old(self).decoder.remaining())
                        == (r.0, r.1, (r.2 + k) as nat)
                }),
            decreases self.decoder.remaining().len(),
        {
            let ghost k = old(self).decoder.remaining().len() - self.decoder.remaining().len();
            let ghost rem = self.decoder.remaining();
            let c = match self.decoder.next_char() {
                Some(c) => c,
                None => {
                    return Ok(FxtToken::End);
                },
            };
            assert(self.decoder.remaining() =~= old(self).decoder.remaining().skip(k + 1)) by {
                assert(rem.drop_first() =~= old(self).decoder.remaining().skip(k + 1));
            }
            if c == '[' {
                if self.state == State::NewToken {
                    self.state = State::ParsingKey;
                } else {
                    push_char(&mut internal, c);
                }
            } else if c == ']' {
                if self.state == State::ParsingKey {
                    self.state = State::ParsingValue;
                    return Ok(FxtToken::Key(internal));
                } else {
                    push_char(&mut internal, c);
                }
            } else if c == '\0' {
                if self.state != State::ParsingValue {
                    return Err(FXTError::UnexpectedNullByte(self.get_position()));
                }
                self.state = State::NewToken;
                return Ok(FxtToken::Value(internal));
            } else {
                push_char(&mut internal, c);
            }
        }
    }
}

/// Parses the characters that `decoder` hands out into a mapping of keys to
/// values. A key followed by another key, a value with no key before it, and
/// a key left open at the end are skipped; a null byte outside a value is
/// fatal.
pub fn parse_fxt_impl<T: Decoder>(decoder: T) -> (r: Result<FxtMap, FXTError>)
    ensures
        outcome(r) == parse_spec(decoder.remaining(), decoder.pos()),
        r matches Ok(map) ==> map.wf(),
{
    let ghost rem0 = decoder.remaining();
    let ghost pos0 = decoder.pos();
    let mut ret = FxtMap::new();
    let mut cur_key: Option<String> = None;
    let mut parser = Parser::new(decoder);
    loop
        invariant
            ret.wf(),
            rem0 == decoder.remaining(),
            pos0 == decoder.pos(),
            parse_spec(rem0, pos0) == run(
                parser.state,
                Seq::empty(),
                opt_view(cur_key),
                ret@,
                parser.decoder.remaining(),
                parser.decoder.pos(),
            ),
        decreases parser.decoder.remaining().len(),
    {
        let token = parser.parse_token(Ghost(opt_view(cur_key)), Ghost(ret@));
        match token {
            Err(e) => {
                return Err(e);
            },
            Ok(FxtToken::Key(key)) => {
                cur_key = Some(key);
            },
            Ok(FxtToken::Value(value)) => {
                match cur_key {
                    Some(key) => {
                        ret.insert(key, value);
                    },
                    None => {},
                }
                cur_key = None;
            },
            Ok(FxtToken::End) => {
                return Ok(ret);
            },
        }
    }
}

/// Decodes and parses the raw bytes of an FXT resource.
pub fn parse_fxt(bytes: Vec<u8>) -> (r: Result<FxtMap, FXTError>)
    ensures
        outcome(r) == parse_spec(decode_from(bytes@, 0), 0),
        r matches Ok(map) ==> map.wf(),
{
    parse_fxt_impl(FileDecoder::new(bytes))
}

} // verus!
