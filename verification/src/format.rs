//! The layout of the records of a file, as functions from a file image to the
//! records it holds and from records to their bytes.

use crate::error::{I2Error, IoErrorKind};
use crate::structs::{
    ChannelView, Datatype, EventView, FileAddr, FileChannelView, Header, HeaderView, Sample,
    VehicleView, VenueView,
};
use crate::wire::{
    i16_le, i32_le, le_i16, le_i32, le_u16, le_u32, text_field, text_of, text_ok, u16_le, u32_le,
    write_at, zeros,
};
use vstd::prelude::*;

verus! {

/// The marker that every file starts with.
pub const LD_HEADER_MARKER: u32 = 64;

/// Where a writer puts the first channel record.
pub const CHANNEL_META_START: u32 = 0x3448;

/// The error of a read that runs past the end of the file.
pub open spec fn short_read() -> I2Error {
    I2Error::IOError(IoErrorKind::UnexpectedEof)
}

/// The `width` bytes of `bytes` from position `at` on.
pub open spec fn field(bytes: Seq<u8>, at: int, width: int) -> Seq<u8> {
    bytes.subrange(at, at + width)
}

/// The little-endian unsigned 16-bit integer at position `at`.
pub open spec fn u16_at(bytes: Seq<u8>, at: int) -> u16 {
    le_u16(field(bytes, at, 2))
}

/// The little-endian signed 16-bit integer at position `at`.
pub open spec fn i16_at(bytes: Seq<u8>, at: int) -> i16 {
    le_i16(field(bytes, at, 2))
}

/// The little-endian unsigned 32-bit integer at position `at`.
pub open spec fn u32_at(bytes: Seq<u8>, at: int) -> u32 {
    le_u32(field(bytes, at, 4))
}

/// The little-endian signed 32-bit integer at position `at`.
pub open spec fn i32_at(bytes: Seq<u8>, at: int) -> i32 {
    le_i32(field(bytes, at, 4))
}

/// The text in the field of `width` bytes at position `at`.
pub open spec fn text_at(bytes: Seq<u8>, at: int, width: int) -> Seq<char> {
    text_of(field(bytes, at, width))
}

/// Whether the field of `width` bytes at position `at` lies within the file
/// and holds no text.
pub open spec fn bad_text(bytes: Seq<u8>, at: int, width: int) -> bool {
    at + width <= bytes.len() && !text_ok(field(bytes, at, width))
}

/// The addresses of the parts of a file. An address of zero says that the
/// part is absent.
#[derive(Debug, Clone, Copy, PartialEq, Eq, Hash, Structural)]
pub struct AddressTable {
    pub channel_meta: FileAddr,
    pub channel_data: FileAddr,
    pub event: FileAddr,
    pub venue: FileAddr,
    pub vehicle: FileAddr,
}

/// The addresses that the file `bytes` gives for its parts: three in the
/// header, that of the venue at the end of the event record, that of the
/// vehicle at the end of the venue record. Where a link is zero, what lies
/// behind it is absent.
pub open spec fn resolve(bytes: Seq<u8>) -> Result<AddressTable, I2Error> {
    let channel_meta = FileAddr(u32_at(bytes, 8));
    let channel_data = FileAddr(u32_at(bytes, 12));
    let event = u32_at(bytes, 36);
    let venue = u16_at(bytes, event + 1152);
    let vehicle = u16_at(bytes, venue + 1098);
    let zero = FileAddr(0);
    if bytes.len() < 40 {
        Err(short_read())
    } else if event == 0 {
        Ok(AddressTable { channel_meta, channel_data, event: zero, venue: zero, vehicle: zero })
    } else if bytes.len() < event + 1154 {
        Err(short_read())
    } else if venue == 0 {
        Ok(
            AddressTable {
                channel_meta,
                channel_data,
                event: FileAddr(event),
                venue: zero,
                vehicle: zero,
            },
        )
    } else if bytes.len() < venue + 1100 {
        Err(short_read())
    } else {
        Ok(
            AddressTable {
                channel_meta,
                channel_data,
                event: FileAddr(event),
                venue: FileAddr(venue as u32),
                vehicle: FileAddr(vehicle as u32),
            },
        )
    }
}

/// Whether one of the text fields of the header lies within the file and
/// holds no text.
pub open spec fn header_bad_text(bytes: Seq<u8>) -> bool {
    ||| bad_text(bytes, 74, 8)
    ||| bad_text(bytes, 94, 16)
    ||| bad_text(bytes, 126, 16)
    ||| bad_text(bytes, 158, 64)
    ||| bad_text(bytes, 222, 64)
    ||| bad_text(bytes, 350, 64)
    ||| bad_text(bytes, 1508, 64)
    ||| bad_text(bytes, 1572, 64)
}

/// The header that the file `bytes` starts with. A wrong marker is reported
/// whatever follows it; then a field that is no text, if one lies within the
/// file; then a file that ends before its header does.
pub open spec fn parse_header(bytes: Seq<u8>) -> Result<HeaderView, I2Error> {
    if bytes.len() < 4 {
        Err(short_read())
    } else if u32_at(bytes, 0) != LD_HEADER_MARKER {
        Err(I2Error::InvalidHeaderMarker { found: u32_at(bytes, 0), expected: LD_HEADER_MARKER })
    } else if header_bad_text(bytes) {
        Err(I2Error::NonUtf8String)
    } else if bytes.len() < 1762 {
        Err(short_read())
    } else {
        Ok(
            HeaderView {
                device_serial: u32_at(bytes, 70),
                device_type: text_at(bytes, 74, 8),
                device_version: u16_at(bytes, 82),
                num_channels: u32_at(bytes, 86),
                date_string: text_at(bytes, 94, 16),
                time_string: text_at(bytes, 126, 16),
                driver: text_at(bytes, 158, 64),
                vehicleid: text_at(bytes, 222, 64),
                venue: text_at(bytes, 350, 64),
                session: text_at(bytes, 1508, 64),
                short_comment: text_at(bytes, 1572, 64),
            },
        )
    }
}

/// The event record at position `at` of the file `bytes`.
pub open spec fn parse_event(bytes: Seq<u8>, at: int) -> Result<EventView, I2Error> {
    if bad_text(bytes, at, 64) || bad_text(bytes, at + 64, 64) || bad_text(bytes, at + 128, 1024) {
        Err(I2Error::NonUtf8String)
    } else if bytes.len() < at + 1152 {
        Err(short_read())
    } else {
        Ok(
            EventView {
                name: text_at(bytes, at, 64),
                session: text_at(bytes, at + 64, 64),
                comment: text_at(bytes, at + 128, 1024),
            },
        )
    }
}

/// The venue record at position `at` of the file `bytes`.
pub open spec fn parse_venue(bytes: Seq<u8>, at: int) -> Result<VenueView, I2Error> {
    if bad_text(bytes, at, 64) {
        Err(I2Error::NonUtf8String)
    } else if bytes.len() < at + 64 {
        Err(short_read())
    } else {
        Ok(VenueView { name: text_at(bytes, at, 64) })
    }
}

/// The vehicle record at position `at` of the file `bytes`.
pub open spec fn parse_vehicle(bytes: Seq<u8>, at: int) -> Result<VehicleView, I2Error> {
    if bad_text(bytes, at, 64) || bad_text(bytes, at + 196, 32) || bad_text(bytes, at + 228, 32) {
        Err(I2Error::NonUtf8String)
    } else if bytes.len() < at + 260 {
        Err(short_read())
    } else {
        Ok(
            VehicleView {
                id: text_at(bytes, at, 64),
                weight: u32_at(bytes, at + 192),
                _type: text_at(bytes, at + 196, 32),
                comment: text_at(bytes, at + 228, 32),
            },
        )
    }
}

/// The channel record at position `at` of the file `bytes`. A file that ends
/// before the datatype is reported first, then a datatype that is not known,
/// then a field that is no text, then a file that ends before the record does.
pub open spec fn parse_channel(bytes: Seq<u8>, at: int) -> Result<FileChannelView, I2Error> {
    let code = u16_at(bytes, at + 18);
    let width = u16_at(bytes, at + 20);
    if bytes.len() < at + 22 {
        Err(short_read())
    } else if Datatype::lookup(code, width) is None {
        Err(I2Error::UnrecognizedDatatype { _type: code, size: width })
    } else if bad_text(bytes, at + 32, 32) || bad_text(bytes, at + 64, 8) || bad_text(
        bytes,
        at + 72,
        12,
    ) {
        Err(I2Error::NonUtf8String)
    } else if bytes.len() < at + 124 {
        Err(short_read())
    } else {
        Ok(
            FileChannelView {
                prev_addr: FileAddr(u32_at(bytes, at)),
                next_addr: FileAddr(u32_at(bytes, at + 4)),
                data_addr: FileAddr(u32_at(bytes, at + 8)),
                samples: u32_at(bytes, at + 12),
                channel: ChannelView {
                    datatype: Datatype::lookup(code, width).unwrap(),
                    sample_rate: u16_at(bytes, at + 22),
                    offset: u16_at(bytes, at + 24),
                    mul: u16_at(bytes, at + 26),
                    scale: u16_at(bytes, at + 28),
                    dec_places: i16_at(bytes, at + 30),
                    name: text_at(bytes, at + 32, 32),
                    short_name: text_at(bytes, at + 64, 8),
                    unit: text_at(bytes, at + 72, 12),
                },
            },
        )
    }
}

/// The outcome of following the list of channel records from address `addr`
/// on, with `acc` holding the records met so far, where at most `fuel` more
/// records may be taken up. The list ends at address zero, or at the first
/// record that cannot be read. `None` says that `fuel` records did not lead to
/// the end.
pub open spec fn walk_channels(
    bytes: Seq<u8>,
    addr: FileAddr,
    acc: Seq<FileChannelView>,
    fuel: nat,
) -> Option<Result<Seq<FileChannelView>, I2Error>>
    decreases fuel,
{
    if addr@ == 0 {
        Some(Ok(acc))
    } else {
        match parse_channel(bytes, addr@) {
            Err(e) => Some(Err(e)),
            Ok(c) => if fuel == 0 {
                None
            } else {
                walk_channels(bytes, c.next_addr, acc.push(c), (fuel - 1) as nat)
            },
        }
    }
}

/// Whether the list of channel records that starts at address `head` ends:
/// whether following it leads to address zero, or to a record that cannot be
/// read.
pub open spec fn list_ends(bytes: Seq<u8>, head: FileAddr) -> bool {
    exists|fuel: nat| walk_channels(bytes, head, Seq::empty(), fuel) is Some
}

/// The list of channel records of the file `bytes` that starts at address
/// `head`: what following it to its end gives. A list that does not end runs
/// in a circle.
pub open spec fn channel_list(bytes: Seq<u8>, head: FileAddr) -> Result<
    Seq<FileChannelView>,
    I2Error,
> {
    if list_ends(bytes, head) {
        walk_channels(
            bytes,
            head,
            Seq::empty(),
            choose|fuel: nat| walk_channels(bytes, head, Seq::empty(), fuel) is Some,
        ).unwrap()
    } else {
        Err(I2Error::CyclicChannelList)
    }
}

/// The event of the file `bytes`, if it has one.
pub open spec fn file_event(bytes: Seq<u8>) -> Result<Option<EventView>, I2Error> {
    match resolve(bytes) {
        Err(e) => Err(e),
        Ok(t) => if t.event@ == 0 {
            Ok(None)
        } else {
            match parse_event(bytes, t.event@) {
                Ok(v) => Ok(Some(v)),
                Err(e) => Err(e),
            }
        },
    }
}

/// The venue of the file `bytes`, if it has one.
pub open spec fn file_venue(bytes: Seq<u8>) -> Result<Option<VenueView>, I2Error> {
    match resolve(bytes) {
        Err(e) => Err(e),
        Ok(t) => if t.venue@ == 0 {
            Ok(None)
        } else {
            match parse_venue(bytes, t.venue@) {
                Ok(v) => Ok(Some(v)),
                Err(e) => Err(e),
            }
        },
    }
}

/// The vehicle of the file `bytes`, if it has one.
pub open spec fn file_vehicle(bytes: Seq<u8>) -> Result<Option<VehicleView>, I2Error> {
    match resolve(bytes) {
        Err(e) => Err(e),
        Ok(t) => if t.vehicle@ == 0 {
            Ok(None)
        } else {
            match parse_vehicle(bytes, t.vehicle@) {
                Ok(v) => Ok(Some(v)),
                Err(e) => Err(e),
            }
        },
    }
}

/// The channel records of the file `bytes`, in the order of its list.
pub open spec fn file_channels(bytes: Seq<u8>) -> Result<Seq<FileChannelView>, I2Error> {
    match resolve(bytes) {
        Err(e) => Err(e),
        Ok(t) => channel_list(bytes, t.channel_meta),
    }
}

/// The sample of datatype `datatype` at position `at` of the file `bytes`.
pub open spec fn sample_at(bytes: Seq<u8>, at: int, datatype: Datatype) -> Sample {
    match datatype {
        Datatype::Beacon16 | Datatype::I16 => Sample::I16(i16_at(bytes, at)),
        Datatype::Beacon32 | Datatype::I32 => Sample::I32(i32_at(bytes, at)),
        _ => Sample::F32(u32_at(bytes, at)),
    }
}

/// The samples of the channel `channel` in the file `bytes`: as many as the
/// record counts, one after the other from its data address on.
pub open spec fn channel_samples(bytes: Seq<u8>, channel: FileChannelView) -> Result<
    Seq<Sample>,
    I2Error,
> {
    let width = channel.channel.datatype.spec_size();
    if channel.samples > 0 && bytes.len() < channel.data_addr@ + channel.samples * width {
        Err(short_read())
    } else {
        Ok(
            Seq::new(
                channel.samples as nat,
                |i: int| sample_at(bytes, channel.data_addr@ + i * width, channel.channel.datatype),
            ),
        )
    }
}

/// The bytes of the header record of `h`, with the three addresses that it
/// carries.
#[verifier::opaque]
pub open spec fn header_bytes(h: HeaderView, channel_meta: u32, channel_data: u32, event: u32) -> Seq<
    u8,
> {
    u32_le(LD_HEADER_MARKER) + u32_le(0) + u32_le(channel_meta) + u32_le(channel_data) + zeros(20)
        + u32_le(event) + zeros(24) + u16_le(0x0000) + u16_le(0x4240) + u16_le(0x000F) + u32_le(
        h.device_serial,
    ) + text_field(h.device_type, 8) + u16_le(h.device_version) + u16_le(0x0080) + u32_le(
        h.num_channels,
    ) + u32_le(0x0001_0064) + text_field(h.date_string, 16) + zeros(16) + text_field(
        h.time_string,
        16,
    ) + zeros(16) + text_field(h.driver, 64) + text_field(h.vehicleid, 64) + zeros(64)
        + text_field(h.venue, 64) + zeros(64) + zeros(1024) + u32_le(0xD20822) + u16_le(0)
        + text_field(h.session, 64) + text_field(h.short_comment, 64) + zeros(8) + seq![99u8]
        + zeros(117)
}

/// The bytes of the channel record `c`.
#[verifier::opaque]
pub open spec fn channel_bytes(c: FileChannelView) -> Seq<u8> {
    u32_le(c.prev_addr.0) + u32_le(c.next_addr.0) + u32_le(c.data_addr.0) + u32_le(c.samples)
        + u16_le(4) + u16_le(c.channel.datatype.spec_type()) + u16_le(
        c.channel.datatype.spec_size(),
    ) + u16_le(c.channel.sample_rate) + u16_le(c.channel.offset) + u16_le(c.channel.mul) + u16_le(
        c.channel.scale,
    ) + i16_le(c.channel.dec_places) + text_field(c.channel.name, 32) + text_field(
        c.channel.short_name,
        8,
    ) + text_field(c.channel.unit, 12) + seq![201u8] + zeros(39)
}

/// The bytes of one sample.
pub open spec fn sample_bytes(s: Sample) -> Seq<u8> {
    match s {
        Sample::I16(v) => i16_le(v),
        Sample::I32(v) => i32_le(v),
        Sample::F32(v) => u32_le(v),
    }
}

/// The bytes of the samples `samples`, one after the other.
pub open spec fn samples_bytes(samples: Seq<Sample>) -> Seq<u8>
    decreases samples.len(),
{
    if samples.len() == 0 {
        Seq::empty()
    } else {
        samples_bytes(samples.drop_last()) + sample_bytes(samples.last())
    }
}

/// What a writer is given for one channel: its description and its samples.
pub type Entry = (ChannelView, Seq<Sample>);

/// The address of the channel record with index `i`: the records stand one
/// behind the other.
pub open spec fn meta_addr(i: int) -> int {
    CHANNEL_META_START + 124 * i
}

/// Bytes that the samples of an entry are given in the layout: the width comes
/// from the channel's datatype.
pub open spec fn block_size(entry: Entry) -> int {
    entry.1.len() * entry.0.datatype.spec_size()
}

/// Bytes that the layout gives to the samples of the first `i` entries.
pub open spec fn blocks_size(entries: Seq<Entry>, i: int) -> int
    decreases i,
{
    if i <= 0 {
        0
    } else {
        blocks_size(entries, i - 1) + block_size(entries[i - 1])
    }
}

/// The address of the samples of the entry with index `i`: the samples follow
/// the last channel record, one channel behind the other.
pub open spec fn data_addr(entries: Seq<Entry>, i: int) -> int {
    meta_addr(entries.len() as int) + blocks_size(entries, i)
}

/// Whether every address of the layout of `entries`, and every count of
/// samples, can be written as 32 bits.
pub open spec fn layout_fits(entries: Seq<Entry>) -> bool {
    &&& data_addr(entries, entries.len() as int) <= u32::MAX
    &&& forall|i: int| 0 <= i < entries.len() ==> (#[trigger] entries[i]).1.len() <= u32::MAX
}

/// The layout only grows: the samples of the first `i` entries take no more
/// bytes than those of the first `j`, when `i` is at most `j`.
pub proof fn lemma_blocks_size_grows(entries: Seq<Entry>, i: int, j: int)
    requires
        0 <= i <= j,
    ensures
        0 <= blocks_size(entries, i) <= blocks_size(entries, j),
    decreases j,
{
    if j > 0 {
        assert(block_size(entries[j - 1]) >= 0) by (nonlinear_arith)
            requires
                block_size(entries[j - 1]) == entries[j - 1].1.len()
                    * entries[j - 1].0.datatype.spec_size(),
                entries[j - 1].0.datatype.spec_size() >= 0,
        ;
        if i < j {
            lemma_blocks_size_grows(entries, i, j - 1);
        } else {
            lemma_blocks_size_grows(entries, i - 1, j - 1);
        }
    }
}

/// The channel record that the layout makes of the entry with index `i`: it
/// points at its neighbours in the list and at its samples.
pub open spec fn placed(entries: Seq<Entry>, i: int) -> FileChannelView {
    FileChannelView {
        prev_addr: if i == 0 {
            FileAddr(0)
        } else {
            FileAddr(meta_addr(i - 1) as u32)
        },
        next_addr: if i + 1 < entries.len() {
            FileAddr(meta_addr(i + 1) as u32)
        } else {
            FileAddr(0)
        },
        data_addr: FileAddr(data_addr(entries, i) as u32),
        samples: entries[i].1.len() as u32,
        channel: entries[i].0,
    }
}

/// The channel records that the layout makes of `entries`, in their order.
pub open spec fn placed_records(entries: Seq<Entry>) -> Seq<FileChannelView> {
    Seq::new(entries.len(), |i: int| placed(entries, i))
}

/// `buf` after the channel records of the first `k` entries were written.
pub open spec fn with_records(buf: Seq<u8>, entries: Seq<Entry>, k: int) -> Seq<u8>
    decreases k,
{
    if k <= 0 {
        buf
    } else {
        write_at(
            with_records(buf, entries, k - 1),
            meta_addr(k - 1),
            channel_bytes(placed(entries, k - 1)),
        )
    }
}

/// `buf` after the samples of the first `k` entries were written.
pub open spec fn with_samples(buf: Seq<u8>, entries: Seq<Entry>, k: int) -> Seq<u8>
    decreases k,
{
    if k <= 0 {
        buf
    } else {
        write_at(
            with_samples(buf, entries, k - 1),
            data_addr(entries, k - 1),
            samples_bytes(entries[k - 1].1),
        )
    }
}

/// The position behind the last byte that writing the file of `entries` puts
/// down: behind the header where there is no entry, else behind the samples
/// of the last entry.
pub open spec fn end_of_writing(entries: Seq<Entry>) -> int {
    if entries.len() == 0 {
        Header::SIZE as int
    } else {
        data_addr(entries, entries.len() - 1) + samples_bytes(entries.last().1).len()
    }
}

/// `buf` after a header that names no channels was written.
pub open spec fn bare_image(buf: Seq<u8>, h: HeaderView) -> Seq<u8> {
    write_at(buf, 0, header_bytes(h, 0, 0, 0))
}

/// `buf` after a file of the header `h` and the channels `entries` was
/// written: the header, which points at the first channel record and at the
/// first samples, then the channel records, then the samples.
pub open spec fn file_image(buf: Seq<u8>, h: HeaderView, entries: Seq<Entry>) -> Seq<u8> {
    let n = entries.len() as int;
    let header = header_bytes(h, meta_addr(0) as u32, data_addr(entries, 0) as u32, 0);
    with_samples(with_records(write_at(buf, 0, header), entries, n), entries, n)
}

} // verus!
