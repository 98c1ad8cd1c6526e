//! In-place decoder for the packed resources.
//!
//! A packed stream is read backwards, one big-endian 32-bit word at a time,
//! from its trailer towards the start of the buffer; the output is written
//! backwards too, from its last byte down, into the same buffer.

use crate::bytes::{be_u32_at, get_be_u32};
use vstd::prelude::*;

verus! {

#[derive(Clone, Copy, Debug, PartialEq, Eq, Structural)]
pub enum UnpackError {
    /// The stream is cut short, points outside the buffer, or its checksum
    /// does not come out as zero.
    Corrupt,
}

/// The reading side of the decoder.
pub struct BitReader {
    /// Offset of the next word to load; negative once the buffer's start
    /// has been passed.
    pub src_pos: int,
    /// The bits not yet handed out, below a marker bit.
    pub bits: u32,
    /// The trailer's checksum, XORed with every word loaded so far.
    pub crc: u32,
    /// XOR of the words loaded from the stream so far.
    pub seen: u32,
}

/// The decoder between two commands.
pub struct Unpacker {
    pub buf: Seq<u8>,
    pub reader: BitReader,
    /// Bytes of output still to produce; the next one goes to offset
    /// `remaining - 1`.
    pub remaining: int,
}

/// Takes one bit: the lowest of the bit buffer. When that leaves only the
/// marker, the next word is loaded, its lowest bit is the one handed out,
/// and the marker goes on top of the rest. `None` when there is no word
/// left to load.
pub open spec fn next_bit(buf: Seq<u8>, r: BitReader) -> Option<(BitReader, bool)> {
    let rest = r.bits >> 1;
    if rest != 0 {
        Some((BitReader { bits: rest, ..r }, r.bits & 1 != 0))
    } else if 0 <= r.src_pos && r.src_pos + 4 <= buf.len() {
        let w = be_u32_at(buf, r.src_pos);
        Some(
            (
                BitReader {
                    src_pos: r.src_pos - 4,
                    bits: (1u32 << 31) | (w >> 1),
                    crc: r.crc ^ w,
                    seen: r.seen ^ w,
                },
                w & 1 != 0,
            ),
        )
    } else {
        None
    }
}

/// Takes `count` bits, the first one ending up highest.
pub open spec fn read_bits(buf: Seq<u8>, r: BitReader, count: nat) -> Option<(BitReader, u32)>
    decreases count,
{
    if count == 0 {
        Some((r, 0u32))
    } else {
        match read_bits(buf, r, (count - 1) as nat) {
            Some((r1, v)) => match next_bit(buf, r1) {
                Some((r2, b)) => Some(
                    (
                        r2,
                        (v << 1) | (if b {
                            1u32
                        } else {
                            0u32
                        }),
                    ),
                ),
                None => None,
            },
            None => None,
        }
    }
}

/// Writes `count` bytes, each taken as eight bits from the stream.
pub open spec fn literal_run(st: Unpacker, count: nat) -> Option<Unpacker>
    decreases count,
{
    if count == 0 {
        Some(st)
    } else {
        match literal_run(st, (count - 1) as nat) {
            Some(s1) => match read_bits(s1.buf, s1.reader, 8) {
                Some((r2, v)) => Some(
                    Unpacker {
                        buf: s1.buf.update(s1.remaining - 1, v as u8),
                        reader: r2,
                        remaining: s1.remaining - 1,
                    },
                ),
                None => None,
            },
            None => None,
        }
    }
}

/// Writes `count` bytes, each a copy of the byte `offset` places above the
/// one written. `None` when a copy would come from outside the buffer.
pub open spec fn copy_run(st: Unpacker, offset: int, count: nat) -> Option<Unpacker>
    decreases count,
{
    if count == 0 {
        Some(st)
    } else {
        match copy_run(st, offset, (count - 1) as nat) {
            Some(s1) => if s1.remaining - 1 + offset < s1.buf.len() {
                Some(
                    Unpacker {
                        buf: s1.buf.update(s1.remaining - 1, s1.buf[s1.remaining - 1 + offset]),
                        reader: s1.reader,
                        remaining: s1.remaining - 1,
                    },
                )
            } else {
                None
            },
            None => None,
        }
    }
}

/// A run never produces more than is still missing.
pub open spec fn capped(count: int, remaining: int) -> nat {
    if count <= remaining {
        count as nat
    } else {
        remaining as nat
    }
}

/// Reads an offset of `bits_count` bits and copies `count` bytes from there.
pub open spec fn back_ref(st: Unpacker, bits_count: nat, count: int) -> Option<Unpacker> {
    match read_bits(st.buf, st.reader, bits_count) {
        Some((r, offset)) => copy_run(
            Unpacker { reader: r, ..st },
            offset as int,
            capped(count, st.remaining),
        ),
        None => None,
    }
}

/// Reads a length of `bits_count` bits and writes that many literals, plus
/// `extra` and one.
pub open spec fn literals(st: Unpacker, bits_count: nat, extra: int) -> Option<Unpacker> {
    match read_bits(st.buf, st.reader, bits_count) {
        Some((r, n)) => literal_run(
            Unpacker { reader: r, ..st },
            capped(n + extra + 1, st.remaining),
        ),
        None => None,
    }
}

/// Decodes one command:
///
/// | prefix | meaning |
/// |--------|---------|
/// | `00`   | 1 to 8 literals (3-bit length) |
/// | `01`   | copy 2 bytes, 8-bit offset |
/// | `100`  | copy 3 bytes, 9-bit offset |
/// | `101`  | copy 4 bytes, 10-bit offset |
/// | `110`  | copy 1 to 256 bytes (8-bit length), 12-bit offset |
/// | `111`  | 9 to 264 literals (8-bit length) |
pub open spec fn command(st: Unpacker) -> Option<Unpacker> {
    match next_bit(st.buf, st.reader) {
        Some((r1, first)) => {
            let s1 = Unpacker { reader: r1, ..st };
            if !first {
                match next_bit(s1.buf, r1) {
                    Some((r2, second)) => {
                        let s2 = Unpacker { reader: r2, ..st };
                        if !second {
                            literals(s2, 3, 0)
                        } else {
                            back_ref(s2, 8, 2)
                        }
                    },
                    None => None,
                }
            } else {
                match read_bits(s1.buf, r1, 2) {
                    Some((r2, code)) => {
                        let s2 = Unpacker { reader: r2, ..st };
                        if code == 0 {
                            back_ref(s2, 9, 3)
                        } else if code == 1 {
                            back_ref(s2, 10, 4)
                        } else if code == 2 {
                            match read_bits(s2.buf, r2, 8) {
                                Some((r3, n)) => back_ref(
                                    Unpacker { reader: r3, ..st },
                                    12,
                                    n + 1,
                                ),
                                None => None,
                            }
                        } else {
                            literals(s2, 8, 8)
                        }
                    },
                    None => None,
                }
            }
        },
        None => None,
    }
}

/// Decodes commands until nothing is missing.
pub open spec fn run(st: Unpacker) -> Option<Unpacker>
    decreases st.remaining,
{
    if st.remaining <= 0 {
        Some(st)
    } else {
        match command(st) {
            Some(s1) => if 0 <= s1.remaining < st.remaining {
                run(s1)
            } else {
                None
            },
            None => None,
        }
    }
}

/// Whether a buffer holds a trailer that ends at `packed_len` and announces
/// an output that fits: three words, the unpacked length first from the end.
pub open spec fn has_trailer(buf: Seq<u8>, packed_len: int) -> bool {
    &&& 12 <= packed_len <= buf.len()
    &&& be_u32_at(buf, packed_len - 4) <= buf.len()
}

/// The decoder as the trailer sets it up: the checksum starts as the
/// trailer's, XORed with the trailer's first bits.
pub open spec fn start(buf: Seq<u8>, packed_len: int) -> Unpacker {
    let crc = be_u32_at(buf, packed_len - 8);
    let bits = be_u32_at(buf, packed_len - 12);
    Unpacker {
        buf,
        reader: BitReader { src_pos: packed_len - 16, bits, crc: crc ^ bits, seen: 0 },
        remaining: be_u32_at(buf, packed_len - 4) as int,
    }
}

/// Where decoding ends, if it gets through and the checksum is zero.
pub open spec fn outcome(buf: Seq<u8>, packed_len: int) -> Option<Unpacker> {
    if has_trailer(buf, packed_len) {
        match run(start(buf, packed_len)) {
            Some(end) => if end.reader.crc == 0 {
                Some(end)
            } else {
                None
            },
            None => None,
        }
    } else {
        None
    }
}

/// The buffer after unpacking the stream that ends at `packed_len`.
pub open spec fn unpacked(buf: Seq<u8>, packed_len: int) -> Option<Seq<u8>> {
    match outcome(buf, packed_len) {
        Some(end) => Some(end.buf),
        None => None,
    }
}

/// What the checksum and the words loaded so far amount to together. Loading
/// a word changes both by the same XOR, so this stays what it was.
pub open spec fn balance(r: BitReader) -> u32 {
    r.crc ^ r.seen
}

proof fn lemma_next_bit_balance(buf: Seq<u8>, r: BitReader)
    requires
        next_bit(buf, r) is Some,
    ensures
        balance((next_bit(buf, r)->0).0) == balance(r),
{
    let w = be_u32_at(buf, r.src_pos);
    let c = r.crc;
    let s = r.seen;
    assert((c ^ w) ^ (s ^ w) == c ^ s) by (bit_vector);
}

proof fn lemma_read_bits_balance(buf: Seq<u8>, r: BitReader, count: nat)
    requires
        read_bits(buf, r, count) is Some,
    ensures
        balance((read_bits(buf, r, count)->0).0) == balance(r),
    decreases count,
{
    if count > 0 {
        lemma_read_bits_balance(buf, r, (count - 1) as nat);
        lemma_next_bit_balance(buf, (read_bits(buf, r, (count - 1) as nat)->0).0);
    }
}

proof fn lemma_literal_run_balance(st: Unpacker, count: nat)
    requires
        literal_run(st, count) is Some,
    ensures
        balance(literal_run(st, count)->0.reader) == balance(st.reader),
    decreases count,
{
    if count > 0 {
        lemma_literal_run_balance(st, (count - 1) as nat);
        let s1 = literal_run(st, (count - 1) as nat)->0;
        lemma_read_bits_balance(s1.buf, s1.reader, 8);
    }
}

proof fn lemma_copy_run_balance(st: Unpacker, offset: int, count: nat)
    requires
        copy_run(st, offset, count) is Some,
    ensures
        balance(copy_run(st, offset, count)->0.reader) == balance(st.reader),
    decreases count,
{
    if count > 0 {
        lemma_copy_run_balance(st, offset, (count - 1) as nat);
    }
}

proof fn lemma_back_ref_balance(st: Unpacker, bits_count: nat, count: int)
    requires
        back_ref(st, bits_count, count) is Some,
    ensures
        balance(back_ref(st, bits_count, count)->0.reader) == balance(st.reader),
{
    lemma_read_bits_balance(st.buf, st.reader, bits_count);
    let (r, offset) = read_bits(st.buf, st.reader, bits_count)->0;
    lemma_copy_run_balance(Unpacker { reader: r, ..st }, offset as int, capped(count, st.remaining));
}

proof fn lemma_literals_balance(st: Unpacker, bits_count: nat, extra: int)
    requires
        literals(st, bits_count, extra) is Some,
    ensures
        balance(literals(st, bits_count, extra)->0.reader) == balance(st.reader),
{
    lemma_read_bits_balance(st.buf, st.reader, bits_count);
    let (r, n) = read_bits(st.buf, st.reader, bits_count)->0;
    lemma_literal_run_balance(Unpacker { reader: r, ..st }, capped(n + extra + 1, st.remaining));
}

proof fn lemma_command_balance(st: Unpacker)
    requires
        command(st) is Some,
    ensures
        balance(command(st)->0.reader) == balance(st.reader),
{
    lemma_next_bit_balance(st.buf, st.reader);
    let (r1, first) = next_bit(st.buf, st.reader)->0;
    if !first {
        lemma_next_bit_balance(st.buf, r1);
        let (r2, second) = next_bit(st.buf, r1)->0;
        let s2 = Unpacker { reader: r2, ..st };
        if !second {
            lemma_literals_balance(s2, 3, 0);
        } else {
            lemma_back_ref_balance(s2, 8, 2);
        }
    } else {
        lemma_read_bits_balance(st.buf, r1, 2);
        let (r2, code) = read_bits(st.buf, r1, 2)->0;
        let s2 = Unpacker { reader: r2, ..st };
        if code == 0 {
            lemma_back_ref_balance(s2, 9, 3);
        } else if code == 1 {
            lemma_back_ref_balance(s2, 10, 4);
        } else if code == 2 {
            lemma_read_bits_balance(st.buf, r2, 8);
            let (r3, n) = read_bits(st.buf, r2, 8)->0;
            lemma_back_ref_balance(Unpacker { reader: r3, ..st }, 12, n + 1);
        } else {
            lemma_literals_balance(s2, 8, 8);
        }
    }
}

proof fn lemma_run_balance(st: Unpacker)
    requires
        run(st) is Some,
        0 <= st.remaining,
    ensures
        balance(run(st)->0.reader) == balance(st.reader),
        run(st)->0.remaining == 0,
    decreases st.remaining,
{
    if st.remaining > 0 {
        lemma_command_balance(st);
        lemma_run_balance(command(st)->0);
    }
}

/// Checksum law: when a stream unpacks, the XOR of all the words that were
/// loaded from it equals the XOR of the trailer's checksum and the trailer's
/// first bits, and nothing is left to produce.
pub proof fn lemma_checksum_law(buf: Seq<u8>, packed_len: int)
    requires
        outcome(buf, packed_len) is Some,
    ensures
        outcome(buf, packed_len)->0.reader.seen == be_u32_at(buf, packed_len - 8) ^ be_u32_at(
            buf,
            packed_len - 12,
        ),
        outcome(buf, packed_len)->0.reader.crc == 0,
        outcome(buf, packed_len)->0.remaining == 0,
{
    let st = start(buf, packed_len);
    lemma_run_balance(st);
    let end = run(st)->0;
    let k = be_u32_at(buf, packed_len - 8) ^ be_u32_at(buf, packed_len - 12);
    let seen = end.reader.seen;
    assert(k ^ 0u32 == k) by (bit_vector);
    assert(0u32 ^ seen == seen) by (bit_vector);
}

struct Ctx {
    /// End of the next word to load: four more than its offset.
    src_end: usize,
    /// Bytes of output still to produce.
    len: usize,
    crc: u32,
    bits: u32,
    seen: Ghost<u32>,
}

impl Ctx {
    spec fn reader(&self) -> BitReader {
        BitReader {
            src_pos: self.src_end as int - 4,
            bits: self.bits,
            crc: self.crc,
            seen: self.seen@,
        }
    }

    spec fn state(&self, buf: Seq<u8>) -> Unpacker {
        Unpacker { buf, reader: self.reader(), remaining: self.len as int }
    }

    fn adjust_len(&self, count: usize) -> (n: usize)
        ensures
            n == capped(count as int, self.len as int),
    {
        if self.len >= count {
            count
        } else {
            self.len
        }
    }
}

/// Unpacks in place the stream that ends at offset `packed_len` of `buf`.
///
/// On success the first bytes of `buf` are the output, as many as the
/// trailer announces, all commands have been decoded and the running
/// checksum has come out as zero.
#[verifier::rlimit(40)]
pub fn unpack(buf: &mut [u8], packed_len: usize) -> (res: Result<(), UnpackError>)
    ensures
        final(buf)@.len() == old(buf)@.len(),
        match res {
            Ok(()) => unpacked(old(buf)@, packed_len as int) == Some(final(buf)@),
            Err(e) => e == UnpackError::Corrupt && unpacked(old(buf)@, packed_len as int)
                is None,
        },
        res is Ok ==> outcome(old(buf)@, packed_len as int)->0.remaining == 0 && outcome(
            old(buf)@,
            packed_len as int,
        )->0.reader.crc == 0,
{
    let n = buf.len();
    if packed_len < 12 || packed_len > n {
        return Err(UnpackError::Corrupt);
    }
    let len = get_be_u32(buf, packed_len - 4);
    if len as usize > n {
        return Err(UnpackError::Corrupt);
    }
    let crc = get_be_u32(buf, packed_len - 8);
    let bits = get_be_u32(buf, packed_len - 12);
    let mut ctx = Ctx {
        src_end: packed_len - 12,
        len: len as usize,
        crc: crc ^ bits,
        bits,
        seen: Ghost(0u32),
    };
    assert(ctx.state(buf@) == start(old(buf)@, packed_len as int));
    while ctx.len > 0
        invariant
            buf@.len() == old(buf)@.len(),
            ctx.len <= buf@.len(),
            ctx.src_end <= buf@.len(),
            has_trailer(old(buf)@, packed_len as int),
            run(ctx.state(buf@)) == run(start(old(buf)@, packed_len as int)),
        decreases ctx.len,
    {
        let ghost before = ctx.state(buf@);
        let ok = step(&mut ctx, buf);
        if !ok {
            return Err(UnpackError::Corrupt);
        }
        assert(ctx.state(buf@).remaining < before.remaining);
    }
    if ctx.crc != 0 {
        return Err(UnpackError::Corrupt);
    }
    Ok(())
}

/// Decodes one command; `false` when the stream breaks off or points
/// outside the buffer.
#[verifier::rlimit(40)]
fn step(ctx: &mut Ctx, buf: &mut [u8]) -> (ok: bool)
    requires
        0 < old(ctx).len <= old(buf)@.len(),
        old(ctx).src_end <= old(buf)@.len(),
    ensures
        final(buf)@.len() == old(buf)@.len(),
        final(ctx).len <= final(buf)@.len(),
        final(ctx).src_end <= final(buf)@.len(),
        ok ==> command(old(ctx).state(old(buf)@)) == Some(final(ctx).state(final(buf)@)),
        ok ==> final(ctx).len < old(ctx).len,
        !ok ==> command(old(ctx).state(old(buf)@)) is None,
{
    let Some(first) = next_bit_of(ctx, buf) else {
        return false;
    };
    if !first {
        let Some(second) = next_bit_of(ctx, buf) else {
            return false;
        };
        if !second {
            getd3chr(ctx, buf, 3, 0)
        } else {
            copyd3bytes(ctx, buf, 8, 2)
        }
    } else {
        let Some(code) = rdd1bits(ctx, buf, 2) else {
            return false;
        };
        if code == 0 {
            copyd3bytes(ctx, buf, 9, 3)
        } else if code == 1 {
            copyd3bytes(ctx, buf, 10, 4)
        } else if code == 2 {
            let Some(n) = rdd1bits(ctx, buf, 8) else {
                return false;
            };
            assert(pow2_u32(8) == 256) by (bit_vector);
            copyd3bytes(ctx, buf, 12, n as usize + 1)
        } else {
            getd3chr(ctx, buf, 8, 8)
        }
    }
}

/// Takes `count` bits from the stream.
#[verifier::rlimit(40)]
fn rdd1bits(ctx: &mut Ctx, buf: &[u8], count: usize) -> (r: Option<u32>)
    requires
        old(ctx).src_end <= buf@.len(),
        count <= 12,
    ensures
        final(ctx).src_end <= buf@.len(),
        final(ctx).len == old(ctx).len,
        match r {
            Some(v) => read_bits(buf@, old(ctx).reader(), count as nat) == Some(
                (final(ctx).reader(), v),
            ) && v < pow2_u32(count as u32),
            None => read_bits(buf@, old(ctx).reader(), count as nat) is None,
        },
{
    let mut output: u32 = 0;
    let mut i: usize = 0;
    assert(0 < pow2_u32(0)) by (bit_vector);
    while i < count
        invariant
            i <= count <= 12,
            ctx.src_end <= buf@.len(),
            ctx.len == old(ctx).len,
            read_bits(buf@, old(ctx).reader(), i as nat) == Some((ctx.reader(), output)),
            output < pow2_u32(i as u32),
        decreases count - i,
    {
        let Some(bit) = next_bit_of(ctx, buf) else {
            assert(read_bits(buf@, old(ctx).reader(), (i + 1) as nat) is None);
            proof {
                lemma_read_bits_fails_on(buf@, old(ctx).reader(), (i + 1) as nat, count as nat);
            }
            return None;
        };
        let ghost prev = output;
        output = (output << 1) | (if bit {
            1u32
        } else {
            0u32
        });
        assert(output < pow2_u32((i + 1) as u32)) by (bit_vector)
            requires
                i < 12,
                prev < pow2_u32(i as u32),
                output == (prev << 1) | (if bit {
                    1u32
                } else {
                    0u32
                }),
        ;
        i += 1;
    }
    Some(output)
}

/// Two to the power `n`.
spec fn pow2_u32(n: u32) -> u32 {
    1u32 << n
}

/// Once reading some bits fails, reading more fails too.
proof fn lemma_read_bits_fails_on(buf: Seq<u8>, r: BitReader, short: nat, long: nat)
    requires
        short <= long,
        read_bits(buf, r, short) is None,
    ensures
        read_bits(buf, r, long) is None,
    decreases long,
{
    if short < long {
        lemma_read_bits_fails_on(buf, r, short, (long - 1) as nat);
    }
}

/// Reads a run length and writes that many literals.
#[verifier::rlimit(40)]
fn getd3chr(ctx: &mut Ctx, buf: &mut [u8], bits_count: usize, input_len: usize) -> (ok: bool)
    requires
        0 < old(ctx).len <= old(buf)@.len(),
        old(ctx).src_end <= old(buf)@.len(),
        bits_count <= 12,
        input_len <= 8,
    ensures
        final(buf)@.len() == old(buf)@.len(),
        final(ctx).len <= final(buf)@.len(),
        final(ctx).src_end <= final(buf)@.len(),
        ok ==> literals(old(ctx).state(old(buf)@), bits_count as nat, input_len as int) == Some(
            final(ctx).state(final(buf)@),
        ),
        ok ==> final(ctx).len < old(ctx).len,
        !ok ==> literals(old(ctx).state(old(buf)@), bits_count as nat, input_len as int) is None,
{
    let Some(n) = rdd1bits(ctx, buf, bits_count) else {
        return false;
    };
    assert(n < 4096) by (bit_vector)
        requires
            n < pow2_u32(bits_count as u32),
            bits_count <= 12,
    ;
    let count = ctx.adjust_len(n as usize + input_len + 1);
    let ghost first = ctx.state(buf@);
    let mut i: usize = 0;
    while i < count
        invariant
            i <= count,
            count <= first.remaining,
            buf@.len() == old(buf)@.len(),
            first.remaining <= buf@.len(),
            ctx.len == first.remaining - i,
            ctx.src_end <= buf@.len(),
            literal_run(first, i as nat) == Some(ctx.state(buf@)),
            literals(old(ctx).state(old(buf)@), bits_count as nat, input_len as int)
                == literal_run(first, count as nat),
        decreases count - i,
    {
        let Some(v) = rdd1bits(ctx, buf, 8) else {
            proof {
                assert(literal_run(first, (i + 1) as nat) is None);
                lemma_literal_run_fails_on(first, (i + 1) as nat, count as nat);
            }
            return false;
        };
        assert(pow2_u32(8) == 256) by (bit_vector);
        buf[ctx.len - 1] = v as u8;
        ctx.len = ctx.len - 1;
        i += 1;
    }
    true
}

/// Once writing some literals fails, writing more fails too.
proof fn lemma_literal_run_fails_on(st: Unpacker, short: nat, long: nat)
    requires
        short <= long,
        literal_run(st, short) is None,
    ensures
        literal_run(st, long) is None,
    decreases long,
{
    if short < long {
        lemma_literal_run_fails_on(st, short, (long - 1) as nat);
    }
}

/// Reads an offset and copies `count` bytes from there.
#[verifier::rlimit(40)]
fn copyd3bytes(ctx: &mut Ctx, buf: &mut [u8], bits_count: usize, count: usize) -> (ok: bool)
    requires
        0 < old(ctx).len <= old(buf)@.len(),
        old(ctx).src_end <= old(buf)@.len(),
        bits_count <= 12,
        0 < count,
    ensures
        final(buf)@.len() == old(buf)@.len(),
        final(ctx).len <= final(buf)@.len(),
        final(ctx).src_end <= final(buf)@.len(),
        ok ==> back_ref(old(ctx).state(old(buf)@), bits_count as nat, count as int) == Some(
            final(ctx).state(final(buf)@),
        ),
        ok ==> final(ctx).len < old(ctx).len,
        !ok ==> back_ref(old(ctx).state(old(buf)@), bits_count as nat, count as int) is None,
{
    let run_len = ctx.adjust_len(count);
    let Some(offset) = rdd1bits(ctx, buf, bits_count) else {
        return false;
    };
    assert(offset < 4096) by (bit_vector)
        requires
            offset < pow2_u32(bits_count as u32),
            bits_count <= 12,
    ;
    let ghost first = ctx.state(buf@);
    let mut i: usize = 0;
    while i < run_len
        invariant
            i <= run_len,
            run_len <= first.remaining,
            offset < 4096,
            buf@.len() == old(buf)@.len(),
            first.remaining <= buf@.len(),
            ctx.len == first.remaining - i,
            ctx.src_end <= buf@.len(),
            copy_run(first, offset as int, i as nat) == Some(ctx.state(buf@)),
            back_ref(old(ctx).state(old(buf)@), bits_count as nat, count as int) == copy_run(
                first,
                offset as int,
                run_len as nat,
            ),
        decreases run_len - i,
    {
        let output_pos = ctx.len - 1;
        if offset as usize >= buf.len() - output_pos {
            proof {
                assert(copy_run(first, offset as int, (i + 1) as nat) is None);
                lemma_copy_run_fails_on(first, offset as int, (i + 1) as nat, run_len as nat);
            }
            return false;
        }
        let input_pos = output_pos + offset as usize;
        buf[output_pos] = buf[input_pos];
        ctx.len = ctx.len - 1;
        i += 1;
    }
    true
}

/// Once copying some bytes fails, copying more fails too.
proof fn lemma_copy_run_fails_on(st: Unpacker, offset: int, short: nat, long: nat)
    requires
        short <= long,
        copy_run(st, offset, short) is None,
    ensures
        copy_run(st, offset, long) is None,
    decreases long,
{
    if short < long {
        lemma_copy_run_fails_on(st, offset, short, (long - 1) as nat);
    }
}

/// Takes one bit from the stream.
fn next_bit_of(ctx: &mut Ctx, buf: &[u8]) -> (r: Option<bool>)
    requires
        old(ctx).src_end <= buf@.len(),
    ensures
        final(ctx).src_end <= buf@.len(),
        final(ctx).len == old(ctx).len,
        match r {
            Some(b) => next_bit(buf@, old(ctx).reader()) == Some((final(ctx).reader(), b)),
            None => next_bit(buf@, old(ctx).reader()) is None,
        },
{
    let carry = (ctx.bits & 1) != 0;
    let rest = ctx.bits >> 1;
    if rest != 0 {
        ctx.bits = rest;
        return Some(carry);
    }
    if ctx.src_end < 4 {
        return None;
    }
    let w = get_be_u32(buf, ctx.src_end - 4);
    ctx.src_end = ctx.src_end - 4;
    ctx.crc = ctx.crc ^ w;
    ctx.seen = Ghost(ctx.seen@ ^ w);
    ctx.bits = (1u32 << 31) | (w >> 1);
    Some((w & 1) != 0)
}

} // verus!
