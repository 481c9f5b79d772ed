//! Bitmap fonts: a count of characters, their common height, each
//! character's width and palette indices, then a palette of 256 colours.
use vstd::prelude::*;

verus! {

/// Bytes in a palette: three colour components for each of 256 indices.
pub const PALETTE_LEN: usize = 768;

/// One character: its width and `width * height` palette indices.
pub struct Character {
    pub width: u8,
    pub data: Vec<u8>,
}

struct Palette(Vec<u8>);

pub struct Font {
    char_height: u8,
    chars: Vec<Character>,
    palette: Palette,
}

/// A cursor over the raw bytes of a font.
pub struct FontParser {
    bytes: Vec<u8>,
    pos: usize,
}

/// The character stored at `pos` for height `h`: its width, its indices and
/// the position after it.
pub open spec fn char_at(bytes: Seq<u8>, pos: nat, h: u8) -> Option<(u8, Seq<u8>, nat)> {
    if pos < bytes.len() && pos + 1 + h * bytes[pos as int] <= bytes.len() {
        let w = bytes[pos as int];
        Some((w, bytes.subrange(pos + 1 as int, pos + 1 + h * w), (pos + 1 + h * w) as nat))
    } else {
        None
    }
}

/// The first `n` characters stored from `pos`, and the position after them.
pub open spec fn chars_from(bytes: Seq<u8>, pos: nat, h: u8, n: nat) -> Option<
    (Seq<(u8, Seq<u8>)>, nat),
>
    decreases n,
{
    if n == 0 {
        Some((Seq::empty(), pos))
    } else {
        match chars_from(bytes, pos, h, (n - 1) as nat) {
            Some((cs, p)) => match char_at(bytes, p, h) {
                Some((w, d, q)) => Some((cs.push((w, d)), q)),
                None => None,
            },
            None => None,
        }
    }
}

/// The font stored from `pos`: height, characters, palette, and the
/// position after it; `None` when the bytes end too early.
pub open spec fn font_at(bytes: Seq<u8>, pos: nat) -> Option<
    (u8, Seq<(u8, Seq<u8>)>, Seq<u8>, nat),
> {
    if pos + 2 <= bytes.len() {
        let n = bytes[pos as int];
        let h = bytes[pos + 1 as int];
        match chars_from(bytes, pos + 2, h, n as nat) {
            Some((cs, q)) => if q + PALETTE_LEN <= bytes.len() {
                Some((h, cs, bytes.subrange(q as int, q + PALETTE_LEN), (q + PALETTE_LEN) as nat))
            } else {
                None
            },
            None => None,
        }
    } else {
        None
    }
}

/// The RGBA pixels for palette indices `data`: the index's three colour
/// components, then an alpha that is 0 for index 0 and 255 otherwise.
pub open spec fn bitmap_of(palette: Seq<u8>, data: Seq<u8>) -> Seq<u8> {
    Seq::new(
        4 * data.len(),
        |i: int|
            {
                let idx = data[i / 4];
                if i % 4 == 3 {
                    if idx == 0 {
                        0u8
                    } else {
                        0xffu8
                    }
                } else {
                    palette[3 * idx + i % 4]
                }
            },
    )
}

pub open spec fn char_view(c: Character) -> (u8, Seq<u8>) {
    (c.width, c.data@)
}

impl FontParser {
    pub closed spec fn bytes(&self) -> Seq<u8> {
        self.bytes@
    }

    pub closed spec fn pos(&self) -> nat {
        self.pos as nat
    }

    /// A cursor before the first of `bytes`.
    pub fn new(bytes: Vec<u8>) -> (r: FontParser)
        ensures
            r.bytes() == bytes@,
            r.pos() == 0,
    {
        FontParser { bytes, pos: 0 }
    }
}

/// Reads one byte.
fn read_byte(parser: &mut FontParser) -> (r: u8)
    requires
        old(parser).pos() < old(parser).bytes().len(),
    ensures
        final(parser).bytes() == old(parser).bytes(),
        r == old(parser).bytes()[old(parser).pos() as int],
        final(parser).pos() == old(parser).pos() + 1,
{
    let _len = parser.bytes.len();
    let b = parser.bytes[parser.pos];
    parser.pos = parser.pos + 1;
    b
}

/// Reads the next `n` bytes.
fn read_exact(parser: &mut FontParser, n: usize) -> (r: Vec<u8>)
    requires
        old(parser).pos() + n <= old(parser).bytes().len(),
    ensures
        final(parser).bytes() == old(parser).bytes(),
        r@ == old(parser).bytes().subrange(old(parser).pos() as int, old(parser).pos() + n),
        final(parser).pos() == old(parser).pos() + n,
{
    let _len = parser.bytes.len();
    let start = parser.pos;
    let mut out: Vec<u8> = Vec::new();
    let mut i: usize = 0;
    while i < n
        invariant
            start + n <= parser.bytes@.len() <= usize::MAX,
            i <= n,
            out@ == parser.bytes@.subrange(start as int, start + i),
        decreases n - i,
    {
        out.push(parser.bytes[start + i]);
        i = i + 1;
        assert(out@ =~= parser.bytes@.subrange(start as int, start + i));
    }
    parser.pos = start + n;
    out
}

impl FontParser {
    /// Whether a whole font is stored from the current position.
    pub fn has_font(&self) -> (r: bool)
        ensures
            r == font_at(self.bytes(), self.pos()) is Some,
    {
        let len = self.bytes.len();
        if self.pos > len || len - self.pos < 2 {
            return false;
        }
        let n = self.bytes[self.pos];
        let h = self.bytes[self.pos + 1];
        let mut p: usize = self.pos + 2;
        let mut i: u8 = 0;
        while i < n
            invariant
                len == self.bytes@.len(),
                self.pos + 2 <= len,
                n == self.bytes@[self.pos as int],
                h == self.bytes@[self.pos + 1 as int],
                i <= n,
                p <= len,
                chars_from(self.bytes@, (self.pos + 2) as nat, h, i as nat) matches Some((_, q)) && q
                    == p,
            decreases n - i,
        {
            if p >= len {
                proof {
                    lemma_chars_fail(self.bytes@, (self.pos + 2) as nat, h, (i + 1) as nat, n as nat);
                }
                return false;
            }
            let w = self.bytes[p];
            assert(h as int * w as int <= 255 * 255) by (nonlinear_arith)
                requires
                    h <= 255,
                    w <= 255,
            ;
            let size: usize = h as usize * w as usize;
            if len - p - 1 < size {
                proof {
                    lemma_chars_fail(self.bytes@, (self.pos + 2) as nat, h, (i + 1) as nat, n as nat);
                }
                return false;
            }
            p = p + 1 + size;
            i = i + 1;
        }
        len - p >= PALETTE_LEN
    }
}

impl Character {
    /// Reads one character of height `height`: its width, then its indices.
    pub fn new(parser: &mut FontParser, height: u8) -> (r: Character)
        requires
            char_at(old(parser).bytes(), old(parser).pos(), height) is Some,
        ensures
            final(parser).bytes() == old(parser).bytes(),
            char_at(old(parser).bytes(), old(parser).pos(), height) matches Some((w, d, q)) && r.width
                == w && r.data@ == d && final(parser).pos() == q,
    {
        let width = read_byte(parser);
        assert(height as int * width as int <= 255 * 255) by (nonlinear_arith)
            requires
                height <= 255,
                width <= 255,
        ;
        let length: usize = height as usize * width as usize;
        let data = read_exact(parser, length);
        Character { width, data }
    }
}

impl Palette {
    spec fn wf(&self) -> bool {
        self.0@.len() == PALETTE_LEN
    }

    fn new(parser: &mut FontParser) -> (r: Palette)
        requires
            old(parser).pos() + PALETTE_LEN <= old(parser).bytes().len(),
        ensures
            final(parser).bytes() == old(parser).bytes(),
            r.0@ == old(parser).bytes().subrange(
                old(parser).pos() as int,
                old(parser).pos() + PALETTE_LEN,
            ),
            final(parser).pos() == old(parser).pos() + PALETTE_LEN,
    {
        Palette(read_exact(parser, PALETTE_LEN))
    }

    fn apply(&self, data: &Vec<u8>) -> (r: Vec<u8>)
        requires
            self.wf(),
            4 * data@.len() <= usize::MAX,
        ensures
            r@ == bitmap_of(self.0@, data@),
    {
        let mut result: Vec<u8> = Vec::new();
        let mut k: usize = 0;
        while k < data.len()
            invariant
                self.wf(),
                k <= data@.len(),
                4 * data@.len() <= usize::MAX,
                result@ =~= bitmap_of(self.0@, data@.subrange(0, k as int)),
            decreases data@.len() - k,
        {
            let idx: usize = data[k] as usize * 3;
            result.push(self.0[idx]);
            result.push(self.0[idx + 1]);
            result.push(self.0[idx + 2]);
            if idx == 0 {
                result.push(0);
            } else {
                result.push(0xff);
            }
            proof {
                let next = bitmap_of(self.0@, data@.subrange(0, k + 1));
                assert forall|i: int| 0 <= i < next.len() implies result@[i] == next[i] by {
                    if i < 4 * k {
                        assert(data@.subrange(0, k + 1)[i / 4] == data@.subrange(0, k as int)[i
                            / 4]);
                    }
                }
            }
            k = k + 1;
        }
        assert(data@.subrange(0, data@.len() as int) =~= data@);
        result
    }
}

impl Font {
    pub closed spec fn height(&self) -> u8 {
        self.char_height
    }

    pub closed spec fn characters(&self) -> Seq<(u8, Seq<u8>)> {
        self.chars@.map_values(|c: Character| char_view(c))
    }

    pub closed spec fn palette(&self) -> Seq<u8> {
        self.palette.0@
    }

    /// A font holds a whole palette, and no character holds more indices
    /// than a width and a height of one byte each allow.
    pub closed spec fn wf(&self) -> bool {
        &&& self.palette.wf()
        &&& forall|i: int| 0 <= i < self.chars@.len() ==> #[trigger] self.chars@[i].data@.len() <= 255 * 255
    }

    /// Reads a whole font: the number of characters, their height, the
    /// characters, then the palette.
    pub fn new(parser: &mut FontParser) -> (r: Font)
        requires
            font_at(old(parser).bytes(), old(parser).pos()) is Some,
        ensures
            final(parser).bytes() == old(parser).bytes(),
            font_at(old(parser).bytes(), old(parser).pos()) matches Some((h, cs, pal, q)) && r.wf()
                && r.height() == h && r.characters() == cs && r.palette() == pal
                && final(parser).pos() == q,
    {
        let ghost bytes = parser.bytes();
        let ghost pos0 = parser.pos();
        let num_chars = read_byte(parser);
        let char_height = read_byte(parser);
        let mut chars: Vec<Character> = Vec::new();
        let mut i: u8 = 0;
        while i < num_chars
            invariant
                parser.bytes() == bytes,
                bytes == old(parser).bytes(),
                pos0 == old(parser).pos(),
                font_at(bytes, pos0) is Some,
                pos0 + 2 <= bytes.len(),
                num_chars == bytes[pos0 as int],
                char_height == bytes[pos0 + 1 as int],
                i <= num_chars,
                forall|j: int| 0 <= j < chars@.len() ==> #[trigger] chars@[j].data@.len() <= 255 * 255,
                chars_from(bytes, pos0 + 2, char_height, i as nat) == Some(
                    (chars@.map_values(|c: Character| char_view(c)), parser.pos()),
                ),
            decreases num_chars - i,
        {
            let ghost before = chars@;
            proof {
                if chars_from(bytes, pos0 + 2, char_height, (i + 1) as nat) is None {
                    lemma_chars_fail(bytes, pos0 + 2, char_height, (i + 1) as nat, num_chars as nat);
                }
            }
            let c = Character::new(parser, char_height);
            assert(c.data@.len() <= 255 * 255) by (nonlinear_arith)
                requires
                    c.data@.len() == char_height as int * c.width as int,
                    char_height <= 255,
                    c.width <= 255,
            ;
            chars.push(c);
            assert(chars@.map_values(|c: Character| char_view(c)) =~= before.map_values(
                |c: Character| char_view(c),
            ).push(char_view(c)));
            i = i + 1;
        }
        let palette = Palette::new(parser);
        Font { char_height, chars, palette }
    }

    /// The number of characters.
    pub fn character_count(&self) -> (r: usize)
        ensures
            r == self.characters().len(),
    {
        self.chars.len()
    }

    pub fn character_height(&self) -> (r: u8)
        ensures
            r == self.height(),
    {
        self.char_height
    }

    /// The width of the first character.
    pub fn character_width(&self) -> (r: u8)
        requires
            self.characters().len() > 0,
        ensures
            r == self.characters()[0].0,
    {
        self.chars[0].width
    }

    /// The RGBA pixels of character `idx`.
    pub fn character_bitmap(&self, idx: usize) -> (r: Vec<u8>)
        requires
            self.wf(),
            idx < self.characters().len(),
        ensures
            r@ == bitmap_of(self.palette(), self.characters()[idx as int].1),
    {
        let c = &self.chars[idx];
        assert(c.data@ == self.characters()[idx as int].1);
        self.palette.apply(&c.data)
    }
}

/// Once characters run out before the `n`-th, none of the later counts
/// succeeds either.
proof fn lemma_chars_fail(bytes: Seq<u8>, pos: nat, h: u8, n: nat, m: nat)
    requires
        n <= m,
        chars_from(bytes, pos, h, n) is None,
    ensures
        chars_from(bytes, pos, h, m) is None,
    decreases m - n,
{
    if n < m {
        lemma_chars_fail(bytes, pos, h, n + 1, m);
    }
}

} // verus!
