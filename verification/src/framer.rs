//! Byte-to-line framing.
//!
//! `CharAssembler` buffers transport bytes until they complete one
//! character under the UTF-8 leading-byte length rule; `LineReader` builds
//! complete lines out of those characters inside a fixed byte budget,
//! reporting one overflow per episode and resuming cleanly at the next
//! line end.

use vstd::prelude::*;

use crate::error::Error;

verus! {

/// How many bytes a UTF-8 sequence led by `b` occupies; zero when `b`
/// cannot lead a sequence.
pub open spec fn utf8_width(b: u8) -> int {
    if b < 0x80 {
        1
    } else if b < 0xC2 {
        0
    } else if b < 0xE0 {
        2
    } else if b < 0xF0 {
        3
    } else if b < 0xF5 {
        4
    } else {
        0
    }
}

/// The byte of `p` at `i`, reading zero past the end.
pub open spec fn byte_at(p: Seq<u8>, i: int) -> u8 {
    if 0 <= i < p.len() {
        p[i]
    } else {
        0
    }
}

/// The scalar value a completed sequence encodes under UTF-8: the
/// payload bits of the leading byte followed by the low six bits of
/// each continuation byte.
pub open spec fn utf8_scalar(p: Seq<u8>) -> int
    recommends
        p.len() == utf8_width(byte_at(p, 0)),
{
    if p.len() <= 1 {
        byte_at(p, 0) as int
    } else if p.len() == 2 {
        (byte_at(p, 0) - 0xC0) * 0x40 + byte_at(p, 1) % 0x40
    } else if p.len() == 3 {
        (byte_at(p, 0) - 0xE0) * 0x1000 + (byte_at(p, 1) % 0x40) * 0x40 + byte_at(p, 2) % 0x40
    } else {
        (byte_at(p, 0) - 0xF0) * 0x40000 + (byte_at(p, 1) % 0x40) * 0x1000 + (byte_at(p, 2)
            % 0x40) * 0x40 + byte_at(p, 3) % 0x40
    }
}

/// Whether a thirty-two-bit value is a Unicode scalar value.
pub open spec fn scalar_ok(v: int) -> bool {
    (0 <= v < 0xD800) || (0xE000 <= v <= 0x10FFFF)
}

/// Relies on `char::from_u32` from std: it returns `Some` exactly for
/// Unicode scalar values, and the character it returns casts back to the
/// value given.
#[verifier::external_body]
fn char_from_u32(v: u32) -> (r: Option<char>)
    ensures
        r is Some <==> scalar_ok(v as int),
        r is Some ==> r->0 as u32 == v,
{
    char::from_u32(v)
}

/// Assembles transport bytes into characters, one UTF-8 sequence at a
/// time.
pub struct CharAssembler {
    buf: Vec<u8>,
}

impl CharAssembler {
    /// The bytes waiting for the rest of their sequence.
    pub closed spec fn pending(&self) -> Seq<u8> {
        self.buf@
    }

    /// The pending bytes always form a strict prefix of one sequence:
    /// fewer bytes than the leading byte announces.
    pub closed spec fn wf(&self) -> bool {
        &&& self.buf@.len() <= 3
        &&& (self.buf@.len() > 0 ==> self.buf@.len() < utf8_width(self.buf@[0]))
    }

    /// A fresh assembler with nothing pending.
    pub fn new() -> (r: CharAssembler)
        ensures
            r.wf(),
            r.pending() == Seq::<u8>::empty(),
    {
        CharAssembler { buf: Vec::new() }
    }

    /// Takes one byte.  When it completes the announced sequence length,
    /// the buffered bytes are decoded as UTF-8 — leading-byte payload
    /// followed by the continuation bits — and the scalar is offered to
    /// `char::from_u32`; a value that is no Unicode scalar is dropped, as
    /// is a byte that cannot lead a sequence.
    pub fn handle_byte(&mut self, b: u8) -> (r: Option<char>)
        requires
            old(self).wf(),
        ensures
            final(self).wf(),
            ({
                let p = old(self).pending().push(b);
                let w = utf8_width(p[0]);
                if w == 0 {
                    final(self).pending() == Seq::<u8>::empty() && r is None
                } else if p.len() < w {
                    final(self).pending() == p && r is None
                } else {
                    &&& final(self).pending() == Seq::<u8>::empty()
                    &&& (r is Some <==> scalar_ok(utf8_scalar(p)))
                    &&& (r is Some ==> r->0 as u32 == utf8_scalar(p))
                }
            }),
    {
        self.buf.push(b);
        let w: usize = {
            let lead: u8 = self.buf[0];
            if lead < 0x80 {
                1
            } else if lead < 0xC2 {
                0
            } else if lead < 0xE0 {
                2
            } else if lead < 0xF0 {
                3
            } else if lead < 0xF5 {
                4
            } else {
                0
            }
        };
        if w == 0 {
            self.buf.clear();
            return None;
        }
        if self.buf.len() < w {
            return None;
        }
        let b0: u32 = self.buf[0] as u32;
        let b1: u32 = if self.buf.len() > 1 {
            self.buf[1] as u32
        } else {
            0
        };
        let b2: u32 = if self.buf.len() > 2 {
            self.buf[2] as u32
        } else {
            0
        };
        let b3: u32 = if self.buf.len() > 3 {
            self.buf[3] as u32
        } else {
            0
        };
        let val: u32 = if w == 1 {
            b0
        } else if w == 2 {
            (b0 - 0xC0) * 0x40 + b1 % 0x40
        } else if w == 3 {
            (b0 - 0xE0) * 0x1000 + (b1 % 0x40) * 0x40 + b2 % 0x40
        } else {
            (b0 - 0xF0) * 0x40000 + (b1 % 0x40) * 0x1000 + (b2 % 0x40) * 0x40 + b3 % 0x40
        };
        let ret = char_from_u32(val);
        self.buf.clear();
        ret
    }
}

/// How many bytes the UTF-8 form of `c` occupies.
pub open spec fn char_len(c: char) -> int {
    if (c as u32) < 0x80 {
        1
    } else if (c as u32) < 0x800 {
        2
    } else if (c as u32) < 0x10000 {
        3
    } else {
        4
    }
}

/// The UTF-8 byte length of a character sequence.
pub open spec fn chars_byte_len(s: Seq<char>) -> int
    decreases s.len(),
{
    if s.len() == 0 {
        0
    } else {
        chars_byte_len(s.drop_last()) + char_len(s.last())
    }
}

/// Line ends accepted by the framer.
pub open spec fn spec_is_newline(c: char) -> bool {
    c == '\n' || c == '\r'
}

/// What every line the framer hands out satisfies: it holds no line
/// end and its UTF-8 form fits the byte budget.
pub open spec fn line_ok(line: Seq<char>, cap: int) -> bool {
    &&& chars_byte_len(line) <= cap
    &&& forall|i: int| 0 <= i < line.len() ==> !spec_is_newline(#[trigger] line[i])
}

/// What one observes of a `LineReader`: the line gathered so far, whether
/// the current line overflowed, whether the next byte starts a fresh line,
/// and the bytes still waiting to complete a character.
pub struct FramerState {
    /// The characters of the line gathered so far.
    pub line: Seq<char>,
    /// True while characters of an overflowed line are being discarded.
    pub overflow: bool,
    /// True right after a line was returned: the next byte clears first.
    pub armed: bool,
    /// The bytes waiting to complete one character.
    pub pending: Seq<u8>,
}

/// One step of the framer on the character `c`, after the byte step
/// produced it: the new state, the line returned if any, and whether the
/// overflow error is reported.
pub open spec fn framer_char_step(line: Seq<char>, overflow: bool, c: char, cap: int) -> (
    Seq<char>,
    bool,
    Option<Seq<char>>,
    bool,
) {
    if overflow {
        if !spec_is_newline(c) {
            (line, true, None, false)
        } else {
            (Seq::empty(), false, None, true)
        }
    } else if spec_is_newline(c) {
        (line, false, Some(line), false)
    } else if chars_byte_len(line) + char_len(c) > cap {
        (line, true, None, false)
    } else {
        (line.push(c), false, None, false)
    }
}

/// Builds complete text lines from transport bytes within a byte budget
/// of `N`.
pub struct LineReader<const N: usize> {
    char_assembler: CharAssembler,
    buffer: String,
    byte_len: usize,
    in_overflow: bool,
    new_line: bool,
}

impl<const N: usize> LineReader<N> {
    /// The observable framing state.
    pub closed spec fn view_state(&self) -> FramerState {
        FramerState {
            line: self.buffer@,
            overflow: self.in_overflow,
            armed: self.new_line,
            pending: self.char_assembler.pending(),
        }
    }

    /// The byte counter always matches the buffered characters and stays
    /// within the budget.
    pub closed spec fn wf(&self) -> bool {
        &&& self.char_assembler.wf()
        &&& self.byte_len == chars_byte_len(self.buffer@)
        &&& self.byte_len <= N
        &&& forall|i: int|
            0 <= i < self.buffer@.len() ==> !spec_is_newline(#[trigger] self.buffer@[i])
    }

    /// A fresh reader with an empty line and nothing pending.
    pub fn new() -> (r: LineReader<N>)
        ensures
            r.wf(),
            r.view_state() == (FramerState {
                line: Seq::<char>::empty(),
                overflow: false,
                armed: false,
                pending: Seq::<u8>::empty(),
            }),
    {
        LineReader {
            char_assembler: CharAssembler::new(),
            buffer: String::new(),
            byte_len: 0,
            in_overflow: false,
            new_line: false,
        }
    }

    /// Takes one transport byte.  Returns the finished line on a line
    /// end, reports an overflow once per overflowed line, and otherwise
    /// keeps gathering.
    pub fn handle_byte(&mut self, b: u8) -> (r: Result<Option<String>, Error>)
        requires
            old(self).wf(),
        ensures
            final(self).wf(),
            r is Ok && r->Ok_0 is Some ==> line_ok((r->Ok_0->0)@, N as int),
            ({
                let pre = old(self).view_state();
                let cleared: Seq<char> = if pre.armed {
                    Seq::empty()
                } else {
                    pre.line
                };
                let p = pre.pending.push(b);
                let w = utf8_width(p[0]);
                let post = final(self).view_state();
                if w == 0 || p.len() < w || !scalar_ok(utf8_scalar(p)) {
                    // No character completed this step.
                    &&& post.line == cleared
                    &&& post.overflow == pre.overflow
                    &&& post.armed == false
                    &&& post.pending == (if w == 0 || !(p.len() < w) {
                        Seq::<u8>::empty()
                    } else {
                        p
                    })
                    &&& r is Ok && r->Ok_0 is None
                } else {
                    let c = ((utf8_scalar(p) as u32) as char);
                    let (line2, over2, out, err) = framer_char_step(
                        cleared,
                        pre.overflow,
                        c,
                        N as int,
                    );
                    &&& post.line == line2
                    &&& post.overflow == over2
                    &&& post.pending == Seq::<u8>::empty()
                    &&& (err ==> r == Err::<Option<String>, Error>(Error::InputBufferOverflow)
                        && post.armed == false)
                    &&& (!err && out is Some ==> r is Ok && r->Ok_0 is Some && (r->Ok_0->0)@
                        == out->0 && post.armed == true)
                    &&& (!err && out is None ==> r is Ok && r->Ok_0 is None && post.armed == false)
                }
            }),
    {
        if self.new_line {
            self.buffer = String::new();
            self.byte_len = 0;
            self.new_line = false;
        }
        let c: char = match self.char_assembler.handle_byte(b) {
            Some(c) => c,
            None => {
                return Ok(None);
            },
        };
        proof {
            vstd::utf8::char_u32_cast(c, c as u32);
        }
        if self.in_overflow {
            if !is_newline(c) {
                return Ok(None);
            }
            self.in_overflow = false;
            self.buffer = String::new();
            self.byte_len = 0;
            Err(Error::InputBufferOverflow)
        } else if is_newline(c) {
            let s: String = self.buffer.clone();
            self.new_line = true;
            Ok(Some(s))
        } else {
            let add: usize = char_len_exec(c);
            if self.byte_len > N || add > N - self.byte_len {
                self.in_overflow = true;
                return Ok(None);
            }
            let ghost before: Seq<char> = self.buffer@;
            crate::text::push_char(&mut self.buffer, c);
            proof {
                assert(self.buffer@.drop_last() =~= before);
                assert(self.buffer@.last() == c);
                assert(forall|i: int|
                    0 <= i < before.len() ==> self.buffer@[i] == #[trigger] before[i]);
            }
            self.byte_len = self.byte_len + add;
            Ok(None)
        }
    }
}

/// Whether `c` ends a line.
pub fn is_newline(c: char) -> (r: bool)
    ensures
        r == spec_is_newline(c),
{
    c == '\n' || c == '\r'
}

/// How many bytes the UTF-8 form of `c` occupies, computed.
fn char_len_exec(c: char) -> (n: usize)
    ensures
        n == char_len(c),
{
    let u: u32 = c as u32;
    if u < 0x80 {
        1
    } else if u < 0x800 {
        2
    } else if u < 0x10000 {
        3
    } else {
        4
    }
}

} // verus!
