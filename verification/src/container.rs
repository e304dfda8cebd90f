//! The PCM container writer: an in-memory byte sink with sequential write,
//! position query and absolute seek, little-endian field encoding, and the
//! fixed 44-byte header layout whose two size fields are backpatched once the
//! payload length is known.

use vstd::prelude::*;

verus! {

/// Little-endian bytes of a 16-bit value.
pub open spec fn le16(v: u16) -> Seq<u8> {
    seq![(v % 0x100) as u8, (v / 0x100) as u8]
}

/// Little-endian bytes of a 32-bit value.
pub open spec fn le32(v: u32) -> Seq<u8> {
    seq![
        (v % 0x100) as u8,
        ((v / 0x100) % 0x100) as u8,
        ((v / 0x10000) % 0x100) as u8,
        (v / 0x1000000) as u8,
    ]
}

/// The byte string after one byte is written at position `p`: a byte inside
/// the current length is overwritten, one at the end is appended.
pub open spec fn byte_written(s: Seq<u8>, p: int, b: u8) -> Seq<u8> {
    if p < s.len() {
        s.update(p, b)
    } else {
        s.push(b)
    }
}

/// The byte string after `bs` is written byte by byte starting at `p`.
pub open spec fn written(s: Seq<u8>, p: int, bs: Seq<u8>) -> Seq<u8>
    decreases bs.len(),
{
    if bs.len() == 0 {
        s
    } else {
        written(byte_written(s, p, bs.first()), p + 1, bs.drop_first())
    }
}

/// Writing at the end of the string appends.
pub proof fn lemma_written_appends(s: Seq<u8>, bs: Seq<u8>)
    ensures
        written(s, s.len() as int, bs) == s + bs,
    decreases bs.len(),
{
    if bs.len() == 0 {
        assert(s + bs =~= s);
    } else {
        let s1 = s.push(bs.first());
        lemma_written_appends(s1, bs.drop_first());
        assert(s1 + bs.drop_first() =~= s + bs);
    }
}

/// Writing strictly inside the string overwrites the covered range and keeps
/// every other byte.
pub proof fn lemma_written_patches(s: Seq<u8>, p: int, bs: Seq<u8>)
    requires
        0 <= p,
        p + bs.len() <= s.len(),
    ensures
        written(s, p, bs) == s.update_subrange_with(p, bs),
    decreases bs.len(),
{
    if bs.len() == 0 {
        assert(s.update_subrange_with(p, bs) =~= s);
    } else {
        let s1 = s.update(p, bs.first());
        lemma_written_patches(s1, p + 1, bs.drop_first());
        assert(s1.update_subrange_with(p + 1, bs.drop_first()) =~= s.update_subrange_with(p, bs));
    }
}

/// Writing over exactly the middle piece of a concatenation replaces it.
pub proof fn lemma_written_replaces_middle(a: Seq<u8>, m: Seq<u8>, z: Seq<u8>, bs: Seq<u8>)
    requires
        m.len() == bs.len(),
    ensures
        written(a + m + z, a.len() as int, bs) == a + bs + z,
{
    lemma_written_patches(a + m + z, a.len() as int, bs);
    assert((a + m + z).update_subrange_with(a.len() as int, bs) =~= a + bs + z);
}

/// The ASCII tag "RIFF" that opens the container.
pub open spec fn riff_tag() -> Seq<u8> {
    seq![0x52u8, 0x49u8, 0x46u8, 0x46u8]
}

/// The ASCII tag "WAVE" naming the container type.
pub open spec fn wave_tag() -> Seq<u8> {
    seq![0x57u8, 0x41u8, 0x56u8, 0x45u8]
}

/// The ASCII tag "fmt " that opens the format chunk.
pub open spec fn fmt_tag() -> Seq<u8> {
    seq![0x66u8, 0x6du8, 0x74u8, 0x20u8]
}

/// The ASCII tag "data" that opens the payload chunk.
pub open spec fn data_tag() -> Seq<u8> {
    seq![0x64u8, 0x61u8, 0x74u8, 0x61u8]
}

/// The value a size field holds before backpatching: four ASCII dashes.
pub const SIZE_PLACEHOLDER: u32 = 0x2d2d2d2d;

/// Bytes 8 through 39 of the header: the container type, the format chunk
/// describing uncompressed single-channel PCM at the given rate and depth,
/// and the "data" tag that opens the payload chunk.
pub open spec fn format_fields(sample_rate: u32, bit_depth: u16) -> Seq<u8> {
    wave_tag() + fmt_tag() + le32(16) + le16(1) + le16(1) + le32(sample_rate) + le32(
        (sample_rate * bit_depth / 8) as u32,
    ) + le16((bit_depth / 8) as u16) + le16(bit_depth) + data_tag()
}

/// The full 44-byte header: "RIFF", the overall size field (offset 4), the
/// format fields, and the payload size field (offset 40).
pub open spec fn header_bytes(
    sample_rate: u32,
    bit_depth: u16,
    riff_size: u32,
    data_size: u32,
) -> Seq<u8> {
    riff_tag() + le32(riff_size) + format_fields(sample_rate, bit_depth) + le32(data_size)
}

/// In-memory byte sink: the backing byte string and the write position, which
/// an absolute seek can move back over already written bytes.
pub struct ContainerWriter {
    buf: Vec<u8>,
    pos: usize,
}

impl ContainerWriter {
    /// The bytes written so far.
    pub closed spec fn bytes(self) -> Seq<u8> {
        self.buf@
    }

    /// The current write position.
    pub closed spec fn position(self) -> int {
        self.pos as int
    }

    /// The position never runs past the written bytes.
    pub open spec fn wf(self) -> bool {
        0 <= self.position() <= self.bytes().len()
    }

    /// A fresh, empty sink.
    pub fn new() -> (w: ContainerWriter)
        ensures
            w.wf(),
            w.bytes() == Seq::<u8>::empty(),
            w.position() == 0,
    {
        let w = ContainerWriter { buf: Vec::new(), pos: 0 };
        proof {
            assert(w.bytes() =~= Seq::<u8>::empty());
        }
        w
    }

    /// Write one byte at the current position and advance it.
    fn write_byte(&mut self, b: u8)
        requires
            old(self).wf(),
            old(self).bytes().len() < usize::MAX,
        ensures
            final(self).wf(),
            final(self).bytes() == byte_written(old(self).bytes(), old(self).position(), b),
            final(self).position() == old(self).position() + 1,
            old(self).bytes().len() <= final(self).bytes().len() <= old(self).bytes().len() + 1,
    {
        if self.pos < self.buf.len() {
            self.buf[self.pos] = b;
        } else {
            self.buf.push(b);
        }
        self.pos = self.pos + 1;
    }

    /// Write a 16-bit value, least significant byte first.
    pub fn write_2_bytes(&mut self, val: i16)
        requires
            old(self).wf(),
            old(self).bytes().len() + 2 <= usize::MAX,
        ensures
            final(self).wf(),
            final(self).bytes() == written(old(self).bytes(), old(self).position(), le16(val as u16)),
            final(self).position() == old(self).position() + 2,
            old(self).bytes().len() <= final(self).bytes().len() <= old(self).bytes().len() + 2,
            old(self).position() == old(self).bytes().len() ==> final(self).bytes() == old(
                self,
            ).bytes() + le16(val as u16),
    {
        let u: u16 = val as u16;
        self.write_byte((u % 0x100) as u8);
        self.write_byte((u / 0x100) as u8);
        proof {
            reveal_with_fuel(written, 3);
            let bs = le16(val as u16);
            assert(bs.drop_first() =~= seq![(u / 0x100) as u8]);
            assert(bs.drop_first().drop_first() =~= Seq::<u8>::empty());
            if old(self).position() == old(self).bytes().len() {
                lemma_written_appends(old(self).bytes(), bs);
            }
        }
    }

    /// Write a 32-bit value, least significant byte first.
    pub fn write_4_bytes(&mut self, val: i32)
        requires
            old(self).wf(),
            old(self).bytes().len() + 4 <= usize::MAX,
        ensures
            final(self).wf(),
            final(self).bytes() == written(old(self).bytes(), old(self).position(), le32(val as u32)),
            final(self).position() == old(self).position() + 4,
            old(self).bytes().len() <= final(self).bytes().len() <= old(self).bytes().len() + 4,
            old(self).position() == old(self).bytes().len() ==> final(self).bytes() == old(
                self,
            ).bytes() + le32(val as u32),
    {
        let u: u32 = val as u32;
        self.write_byte((u % 0x100) as u8);
        self.write_byte(((u / 0x100) % 0x100) as u8);
        self.write_byte(((u / 0x10000) % 0x100) as u8);
        self.write_byte((u / 0x1000000) as u8);
        proof {
            reveal_with_fuel(written, 5);
            let bs = le32(val as u32);
            assert(bs.drop_first() =~= seq![
                ((u / 0x100) % 0x100) as u8,
                ((u / 0x10000) % 0x100) as u8,
                (u / 0x1000000) as u8,
            ]);
            assert(bs.drop_first().drop_first() =~= seq![
                ((u / 0x10000) % 0x100) as u8,
                (u / 0x1000000) as u8,
            ]);
            assert(bs.drop_first().drop_first().drop_first() =~= seq![(u / 0x1000000) as u8]);
            assert(bs.drop_first().drop_first().drop_first().drop_first() =~= Seq::<u8>::empty());
            if old(self).position() == old(self).bytes().len() {
                lemma_written_appends(old(self).bytes(), bs);
            }
        }
    }

    /// Write a four-character ASCII tag.
    pub fn write_tag(&mut self, t0: u8, t1: u8, t2: u8, t3: u8)
        requires
            old(self).wf(),
            old(self).bytes().len() + 4 <= usize::MAX,
        ensures
            final(self).wf(),
            final(self).bytes() == written(
                old(self).bytes(),
                old(self).position(),
                seq![t0, t1, t2, t3],
            ),
            final(self).position() == old(self).position() + 4,
            old(self).bytes().len() <= final(self).bytes().len() <= old(self).bytes().len() + 4,
            old(self).position() == old(self).bytes().len() ==> final(self).bytes() == old(
                self,
            ).bytes() + seq![t0, t1, t2, t3],
    {
        self.write_byte(t0);
        self.write_byte(t1);
        self.write_byte(t2);
        self.write_byte(t3);
        proof {
            reveal_with_fuel(written, 5);
            let bs = seq![t0, t1, t2, t3];
            assert(bs.drop_first() =~= seq![t1, t2, t3]);
            assert(bs.drop_first().drop_first() =~= seq![t2, t3]);
            assert(bs.drop_first().drop_first().drop_first() =~= seq![t3]);
            assert(bs.drop_first().drop_first().drop_first().drop_first()
                =~= Seq::<u8>::empty());
            if old(self).position() == old(self).bytes().len() {
                lemma_written_appends(old(self).bytes(), bs);
            }
        }
    }

    /// The current write position, as the byte sink reports it.
    pub fn stream_position(&self) -> (p: usize)
        ensures
            p == self.position(),
    {
        self.pos
    }

    /// Move the write position to an absolute offset inside the written bytes.
    pub fn seek(&mut self, p: usize)
        requires
            old(self).wf(),
            p <= old(self).bytes().len(),
        ensures
            final(self).wf(),
            final(self).bytes() == old(self).bytes(),
            final(self).position() == p,
    {
        self.pos = p;
    }

    /// Hand the finished byte string over.
    pub fn into_bytes(self) -> (out: Vec<u8>)
        ensures
            out@ == self.bytes(),
    {
        self.buf
    }

    /// Write the header and format chunks onto a fresh sink, with the two
    /// size fields still holding their placeholders; afterwards the writer
    /// stands at byte 44, the start of the payload.
    pub fn write_header(&mut self, sample_rate: u32, bit_depth: u16)
        requires
            old(self).wf(),
            old(self).bytes().len() == 0,
            old(self).position() == 0,
            0 < sample_rate <= i32::MAX,
            1 <= bit_depth <= 16,
            sample_rate * bit_depth / 8 <= i32::MAX,
        ensures
            final(self).wf(),
            final(self).bytes() == header_bytes(
                sample_rate,
                bit_depth,
                SIZE_PLACEHOLDER,
                SIZE_PLACEHOLDER,
            ),
            final(self).bytes().len() == 44,
            final(self).position() == 44,
    {
        self.write_tag(0x52, 0x49, 0x46, 0x46);  // "RIFF"
        self.write_4_bytes(SIZE_PLACEHOLDER as i32);  // overall size, patched later
        self.write_tag(0x57, 0x41, 0x56, 0x45);  // "WAVE"
        self.write_tag(0x66, 0x6d, 0x74, 0x20);  // "fmt "
        self.write_4_bytes(16);  // format chunk size
        self.write_2_bytes(1);  // compression code: uncompressed PCM
        self.write_2_bytes(1);  // channel count
        self.write_4_bytes(sample_rate as i32);
        let byte_rate: u64 = (sample_rate as u64) * (bit_depth as u64) / 8;
        self.write_4_bytes(byte_rate as i32);
        self.write_2_bytes((bit_depth / 8) as i16);  // block align
        self.write_2_bytes(bit_depth as i16);
        self.write_tag(0x64, 0x61, 0x74, 0x61);  // "data"
        self.write_4_bytes(SIZE_PLACEHOLDER as i32);  // payload size, patched later
        proof {
            assert(self.bytes() =~= header_bytes(
                sample_rate,
                bit_depth,
                SIZE_PLACEHOLDER,
                SIZE_PLACEHOLDER,
            ));
        }
    }
}

} // verus!
