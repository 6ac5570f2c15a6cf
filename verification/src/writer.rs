//! Laying out a file: the header, the channel records as a linked list, and
//! the samples of each channel behind them.

use crate::error::{I2Error, I2Result};
use crate::format::{
    bare_image, block_size, channel_bytes, data_addr, end_of_writing, file_image, header_bytes,
    layout_fits, lemma_blocks_size_grows, meta_addr, samples_bytes, with_records, with_samples,
    Entry, CHANNEL_META_START, LD_HEADER_MARKER,
};
use crate::structs::{
    Channel, FileAddr, FileChannel, FileChannelView, Header, HeaderView, Sample,
};
use crate::wire::{
    push_i16, push_i32, push_text, push_u16, push_u32, push_zeros, put, text_field, u32_le,
    write_at,
};
use vstd::prelude::*;

verus! {

/// A buffer with a position, written as a seekable stream is: a write
/// replaces what stands at the position, lengthens the buffer where it
/// reaches beyond its end, and moves the position behind what was written.
#[derive(Debug)]
pub struct ByteSink {
    bytes: Vec<u8>,
    pos: usize,
}

impl ByteSink {
    /// What the buffer holds.
    pub closed spec fn bytes(&self) -> Seq<u8> {
        self.bytes@
    }

    /// The position at which the next write starts.
    pub closed spec fn position(&self) -> int {
        self.pos as int
    }

    /// A sink over `bytes`, positioned at their start.
    pub fn new(bytes: Vec<u8>) -> (r: ByteSink)
        ensures
            r.bytes() == bytes@,
            r.position() == 0,
    {
        ByteSink { bytes, pos: 0 }
    }

    /// The buffer, with all that was written into it.
    pub fn into_inner(self) -> (r: Vec<u8>)
        ensures
            r@ == self.bytes(),
    {
        self.bytes
    }

    /// Moves to position `pos`, which may lie beyond the end of the buffer.
    pub fn seek(&mut self, pos: usize)
        ensures
            final(self).bytes() == old(self).bytes(),
            final(self).position() == pos,
    {
        self.pos = pos;
    }

    /// Writes `data` at the position.
    pub fn write(&mut self, data: &[u8])
        requires
            old(self).position() + data@.len() <= usize::MAX,
        ensures
            final(self).bytes() == write_at(old(self).bytes(), old(self).position(), data@),
            final(self).position() == old(self).position() + data@.len(),
    {
        put(&mut self.bytes, self.pos, data);
        self.pos = self.pos + data.len();
    }

    /// Writes a string in a field up to `max_len`
    ///
    /// The I2 format (as far as we understand) stores strings as utf8 bytes with 0 bytes for padding
    pub fn write_string(&mut self, max_len: usize, string: &str)
        requires
            old(self).position() + max_len <= usize::MAX,
        ensures
            final(self).bytes() == write_at(
                old(self).bytes(),
                old(self).position(),
                text_field(string@, max_len as int),
            ),
            final(self).position() == old(self).position() + max_len,
    {
        let mut field: Vec<u8> = Vec::new();
        push_text(&mut field, max_len, string);
        assert(field@ =~= text_field(string@, max_len as int));
        assert(field@.len() == max_len) by {
            assert(text_field(string@, max_len as int).len() == max_len);
        }
        self.write(field.as_slice());
    }

    /// Writes the header record at the start of the buffer, with the three
    /// addresses that it carries.
    pub fn write_header(&mut self, hdr: &Header, channel_meta: u32, channel_data: u32, event: u32)
        ensures
            final(self).bytes() == write_at(
                old(self).bytes(),
                0,
                header_bytes(hdr@, channel_meta, channel_data, event),
            ),
            final(self).position() == 1762,
    {
        let record = header_record(hdr, channel_meta, channel_data, event);
        // Header is always at start
        self.seek(0);
        self.write(record.as_slice());
    }

    /// Writes a channel record at address `addr`.
    pub fn write_channel_metadata(
        &mut self,
        addr: u32,
        prev_addr: FileAddr,
        next_addr: FileAddr,
        data_addr: FileAddr,
        samples: u32,
        channel: &Channel,
    )
        requires
            addr + 124 <= usize::MAX,
        ensures
            final(self).bytes() == write_at(
                old(self).bytes(),
                addr as int,
                channel_bytes(
                    FileChannelView { prev_addr, next_addr, data_addr, samples, channel: channel@ },
                ),
            ),
            final(self).position() == addr + 124,
    {
        let record = channel_record(prev_addr, next_addr, data_addr, samples, channel);
        self.seek(addr as usize);
        self.write(record.as_slice());
    }

    /// Writes samples one after the other from address `addr` on.
    pub fn write_samples(&mut self, addr: u32, samples: &Vec<Sample>)
        requires
            addr + 4 * samples@.len() <= usize::MAX,
        ensures
            final(self).bytes() == write_at(old(self).bytes(), addr as int, samples_bytes(samples@)),
            final(self).position() == addr + samples_bytes(samples@).len(),
    {
        let block = sample_block(samples);
        self.seek(addr as usize);
        self.write(block.as_slice());
    }
}

/// A writer of one file: it collects a header and channels, then lays them
/// out in its buffer.
#[derive(Debug)]
pub struct LDWriter {
    sink: ByteSink,
    header: Header,
    channels: Vec<(Channel, Vec<Sample>)>,
}

impl LDWriter {
    /// What the buffer holds.
    pub closed spec fn sink(&self) -> Seq<u8> {
        self.sink.bytes()
    }

    /// The position in the buffer at which the next write starts.
    pub closed spec fn position(&self) -> int {
        self.sink.position()
    }

    /// The header that the file will start with.
    pub closed spec fn header(&self) -> HeaderView {
        self.header@
    }

    /// The channels added so far, each with its samples.
    pub closed spec fn entries(&self) -> Seq<Entry> {
        Seq::new(self.channels@.len(), |i: int| (self.channels@[i].0@, self.channels@[i].1@))
    }

    /// Whether the file can be addressed: every address in it is written as
    /// 32 bits, and no write may reach beyond what the machine can index.
    pub open spec fn can_write(&self) -> bool {
        &&& layout_fits(self.entries())
        &&& forall|i: int|
            0 <= i < self.entries().len() ==> data_addr(self.entries(), i) + 4
                * (#[trigger] self.entries()[i]).1.len() <= usize::MAX
    }

    /// A writer of a file with the header `header` and no channels yet, into
    /// the buffer `sink`.
    pub fn new(sink: Vec<u8>, header: Header) -> (r: LDWriter)
        ensures
            r.sink() == sink@,
            r.position() == 0,
            r.header() == header@,
            r.entries() == Seq::<Entry>::empty(),
    {
        let r = LDWriter { sink: ByteSink::new(sink), header, channels: Vec::new() };
        assert(r.entries() =~= Seq::<Entry>::empty());
        r
    }

    /// Adds a channel with its samples behind the channels added so far.
    pub fn with_channel(self, channel: Channel, data: Vec<Sample>) -> (r: LDWriter)
        ensures
            r.sink() == self.sink(),
            r.position() == self.position(),
            r.header() == self.header(),
            r.entries() == self.entries().push((channel@, data@)),
    {
        let mut r = self;
        r.channels.push((channel, data));
        assert(r.entries() =~= self.entries().push((channel@, data@)));
        r
    }

    /// The buffer, with all that was written into it.
    pub fn into_inner(self) -> (r: Vec<u8>)
        ensures
            r@ == self.sink(),
    {
        self.sink.into_inner()
    }

    /// Whether the file can be addressed, which `write` asks for.
    pub fn fits(&self) -> (r: bool)
        ensures
            r == self.can_write(),
    {
        let n = self.channels.len();
        let ghost entries = self.entries();
        proof {
            lemma_blocks_size_grows(entries, 0, n as int);
        }
        if n > u32::MAX as usize {
            return false;
        }
        let mut data_at: u64 = CHANNEL_META_START as u64 + FileChannel::ENTRY_SIZE as u64 * (
        n as u64);
        if data_at > u32::MAX as u64 {
            return false;
        }
        let mut i: usize = 0;
        while i < n
            invariant
                i <= n,
                n == self.channels@.len(),
                n == entries.len(),
                self.entries() == entries,
                data_at == data_addr(entries, i as int),
                data_at <= u32::MAX,
                forall|j: int|
                    0 <= j < i ==> (#[trigger] entries[j]).1.len() <= u32::MAX && data_addr(
                        entries,
                        j,
                    ) + 4 * entries[j].1.len() <= usize::MAX,
            decreases n - i,
        {
            let len = self.channels[i].1.len();
            let width = self.channels[i].0.datatype.size() as u64;
            assert(entries[i as int] == (self.channels@[i as int].0@, self.channels@[i as int].1@));
            if len > u32::MAX as usize {
                return false;
            }
            if data_at + 4 * (len as u64) > usize::MAX as u64 {
                return false;
            }
            assert(len * width == block_size(entries[i as int]));
            assert(len * width <= 4 * len) by (nonlinear_arith)
                requires
                    0 <= width <= 4,
                    0 <= len,
            ;
            data_at = data_at + (len as u64) * width;
            if data_at > u32::MAX as u64 {
                proof {
                    lemma_blocks_size_grows(entries, i as int + 1, n as int);
                }
                return false;
            }
            i += 1;
        }
        true
    }

    /// Writes the file: the header, then the channel records, then the
    /// samples. Without a channel only the header is written, and the call
    /// fails, as the header then has nothing to point at.
    pub fn write(&mut self) -> (r: I2Result<()>)
        requires
            old(self).can_write(),
        ensures
            final(self).header() == old(self).header(),
            final(self).entries() == old(self).entries(),
            old(self).entries().len() == 0 ==> r == Err::<(), I2Error>(I2Error::NoChannelsWritten)
                && final(self).sink() == bare_image(old(self).sink(), old(self).header()),
            old(self).entries().len() > 0 ==> r == Ok::<(), I2Error>(()) && final(self).sink()
                == file_image(old(self).sink(), old(self).header(), old(self).entries()),
            final(self).position() == end_of_writing(old(self).entries()),
    {
        let n = self.channels.len();
        if n == 0 {
            self.sink.write_header(&self.header, 0, 0, 0);
            return Err(I2Error::NoChannelsWritten);
        }
        proof {
            lemma_blocks_size_grows(self.entries(), 0, n as int);
        }
        let data_start: u32 = CHANNEL_META_START + FileChannel::ENTRY_SIZE * (n as u32);
        self.sink.write_header(&self.header, CHANNEL_META_START, data_start, 0);
        self.write_channels();
        Ok(())
    }

    /// Writes the channel records one behind the other, each pointing at its
    /// neighbours and at its samples, then the samples of each channel.
    fn write_channels(&mut self)
        requires
            old(self).can_write(),
            old(self).entries().len() > 0,
        ensures
            final(self).position() == end_of_writing(old(self).entries()),
            final(self).header() == old(self).header(),
            final(self).entries() == old(self).entries(),
            final(self).sink() == with_samples(
                with_records(
                    old(self).sink(),
                    old(self).entries(),
                    old(self).entries().len() as int,
                ),
                old(self).entries(),
                old(self).entries().len() as int,
            ),
    {
        let n = self.channels.len();
        let ghost entries = self.entries();
        let ghost start = self.sink();
        proof {
            lemma_blocks_size_grows(entries, 0, n as int);
        }
        let data_start: u32 = CHANNEL_META_START + FileChannel::ENTRY_SIZE * (n as u32);

        let mut data_at: u32 = data_start;
        let mut i: usize = 0;
        while i < n
            invariant
                i <= n,
                n == self.channels@.len(),
                n == entries.len(),
                self.entries() == entries,
                self.header() == old(self).header(),
                self.can_write(),
                data_start == meta_addr(n as int),
                data_at == data_addr(entries, i as int),
                self.sink() == with_records(start, entries, i as int),
            decreases n - i,
        {
            proof {
                lemma_blocks_size_grows(entries, i as int, n as int);
                lemma_blocks_size_grows(entries, i as int + 1, n as int);
            }
            let prev_addr = if i == 0 {
                FileAddr::zero()
            } else {
                FileAddr(CHANNEL_META_START + FileChannel::ENTRY_SIZE * ((i - 1) as u32))
            };
            let next_addr = if i + 1 < n {
                FileAddr(CHANNEL_META_START + FileChannel::ENTRY_SIZE * ((i + 1) as u32))
            } else {
                FileAddr::zero()
            };
            let meta_at: u32 = CHANNEL_META_START + FileChannel::ENTRY_SIZE * (i as u32);
            let channel = &self.channels[i].0;
            let samples = self.channels[i].1.len() as u32;
            let width = channel.datatype.size() as u32;
            assert(entries[i as int] == (self.channels@[i as int].0@, self.channels@[i as int].1@));
            assert(samples * width == block_size(entries[i as int]));
            self.sink.write_channel_metadata(
                meta_at,
                prev_addr,
                next_addr,
                FileAddr(data_at),
                samples,
                channel,
            );
            data_at = data_at + samples * width;
            i += 1;
        }

        let ghost records = self.sink();
        let mut data_at: u32 = data_start;
        let mut i: usize = 0;
        while i < n
            invariant
                i <= n,
                n == self.channels@.len(),
                n == entries.len(),
                self.entries() == entries,
                self.header() == old(self).header(),
                self.can_write(),
                data_start == meta_addr(n as int),
                data_at == data_addr(entries, i as int),
                self.sink() == with_samples(records, entries, i as int),
                i > 0 ==> self.position() == data_addr(entries, i - 1) + samples_bytes(
                    entries[i - 1].1,
                ).len(),
            decreases n - i,
        {
            proof {
                lemma_blocks_size_grows(entries, i as int, n as int);
                lemma_blocks_size_grows(entries, i as int + 1, n as int);
            }
            let samples = &self.channels[i].1;
            let width = self.channels[i].0.datatype.size() as u32;
            assert(entries[i as int] == (self.channels@[i as int].0@, self.channels@[i as int].1@));
            assert(samples@.len() * width == block_size(entries[i as int]));
            self.sink.write_samples(data_at, samples);
            data_at = data_at + (samples.len() as u32) * width;
            i += 1;
        }
    }

    /// Writes a string in a field up to `max_len`, at the position of the
    /// buffer.
    pub fn write_string(&mut self, max_len: usize, string: &str) -> (r: I2Result<()>)
        requires
            old(self).position() + max_len <= usize::MAX,
        ensures
            r == Ok::<(), I2Error>(()),
            final(self).header() == old(self).header(),
            final(self).entries() == old(self).entries(),
            final(self).sink() == write_at(
                old(self).sink(),
                old(self).position(),
                text_field(string@, max_len as int),
            ),
            final(self).position() == old(self).position() + max_len,
    {
        self.sink.write_string(max_len, string);
        Ok(())
    }
}

/// The bytes of a header record.
fn header_record(hdr: &Header, channel_meta: u32, channel_data: u32, event: u32) -> (r: Vec<u8>)
    ensures
        r@ == header_bytes(hdr@, channel_meta, channel_data, event),
        r@.len() == 1762,
{
    reveal(header_bytes);
    let mut out: Vec<u8> = Vec::new();
    push_u32(&mut out, LD_HEADER_MARKER);
    assert(out@ =~= u32_le(LD_HEADER_MARKER));
    push_u32(&mut out, 0x00000000);

    push_u32(&mut out, channel_meta);
    push_u32(&mut out, channel_data);

    push_zeros(&mut out, 20);

    push_u32(&mut out, event);

    push_zeros(&mut out, 24);

    push_u16(&mut out, 0x0000);
    push_u16(&mut out, 0x4240);
    push_u16(&mut out, 0x000F);

    push_u32(&mut out, hdr.device_serial);
    push_text(&mut out, 8, hdr.device_type.as_str());
    push_u16(&mut out, hdr.device_version);

    push_u16(&mut out, 0x0080);

    push_u32(&mut out, hdr.num_channels);
    push_u32(&mut out, 0x0001_0064);

    push_text(&mut out, 16, hdr.date_string.as_str());
    push_zeros(&mut out, 16);
    push_text(&mut out, 16, hdr.time_string.as_str());
    push_zeros(&mut out, 16);

    push_text(&mut out, 64, hdr.driver.as_str());
    push_text(&mut out, 64, hdr.vehicleid.as_str());
    push_zeros(&mut out, 64);
    push_text(&mut out, 64, hdr.venue.as_str());
    push_zeros(&mut out, 64);

    push_zeros(&mut out, 1024);

    push_u32(&mut out, 0xD20822);
    push_u16(&mut out, 0u16);

    push_text(&mut out, 64, hdr.session.as_str());
    push_text(&mut out, 64, hdr.short_comment.as_str());

    push_zeros(&mut out, 8);
    out.push(99u8);
    push_zeros(&mut out, 117);
    out
}

/// The bytes of a channel record.
fn channel_record(
    prev_addr: FileAddr,
    next_addr: FileAddr,
    data_addr: FileAddr,
    samples: u32,
    channel: &Channel,
) -> (r: Vec<u8>)
    ensures
        r@ == channel_bytes(
            FileChannelView { prev_addr, next_addr, data_addr, samples, channel: channel@ },
        ),
        r@.len() == 124,
{
    reveal(channel_bytes);
    let mut out: Vec<u8> = Vec::new();
    push_u32(&mut out, prev_addr.as_u32());
    assert(out@ =~= u32_le(prev_addr.0));
    push_u32(&mut out, next_addr.as_u32());
    push_u32(&mut out, data_addr.as_u32());
    push_u32(&mut out, samples);

    push_u16(&mut out, 4u16);

    push_u16(&mut out, channel.datatype._type());
    push_u16(&mut out, channel.datatype.size());

    push_u16(&mut out, channel.sample_rate);

    push_u16(&mut out, channel.offset);
    push_u16(&mut out, channel.mul);
    push_u16(&mut out, channel.scale);
    push_i16(&mut out, channel.dec_places);

    push_text(&mut out, 32, channel.name.as_str());
    push_text(&mut out, 8, channel.short_name.as_str());
    push_text(&mut out, 12, channel.unit.as_str());

    out.push(201u8);
    push_zeros(&mut out, 39);
    out
}

/// The bytes of samples, one after the other.
fn sample_block(samples: &Vec<Sample>) -> (r: Vec<u8>)
    ensures
        r@ == samples_bytes(samples@),
        r@.len() <= 4 * samples@.len(),
{
    let mut out: Vec<u8> = Vec::new();
    let mut i: usize = 0;
    while i < samples.len()
        invariant
            i <= samples@.len(),
            out@ == samples_bytes(samples@.take(i as int)),
            out@.len() <= 4 * i,
        decreases samples@.len() - i,
    {
        match samples[i] {
            Sample::I16(v) => push_i16(&mut out, v),
            Sample::I32(v) => push_i32(&mut out, v),
            Sample::F32(v) => push_u32(&mut out, v),
        }
        assert(samples@.take(i + 1).drop_last() =~= samples@.take(i as int));
        i += 1;
    }
    assert(samples@.take(samples@.len() as int) =~= samples@);
    out
}

} // verus!
