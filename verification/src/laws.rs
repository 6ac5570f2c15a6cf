//! What holds of the codec as a whole: what a written file gives when it is
//! read, and how the reader treats a marker, a datatype and the end of a list.

use crate::chain::lemma_channel_list_found;
use crate::error::I2Error;
use crate::format::{
    bare_image, block_size, channel_bytes, channel_list, channel_samples, data_addr, field,
    file_channels, file_event, file_image, file_vehicle, file_venue, header_bytes, layout_fits,
    lemma_blocks_size_grows, meta_addr, parse_channel, parse_header, placed, placed_records,
    resolve, samples_bytes, u32_at, walk_channels, with_records, AddressTable, Entry,
    LD_HEADER_MARKER,
};
use crate::regions::{
    channel_fits, entries_fit, header_fits, lemma_channel_bytes_fields, lemma_channel_reads_back,
    lemma_field_of_field, lemma_header_bytes_fields, lemma_header_fields_of,
    lemma_header_reads_back, lemma_samples_read_back, lemma_with_records, lemma_with_records_kept,
    lemma_with_samples, lemma_with_samples_kept, lemma_write_at_written,
};
use crate::structs::{
    Datatype, EventView, FileAddr, FileChannel, FileChannelView, HeaderView, Sample, VehicleView,
    VenueView,
};
use crate::wire::write_at;
use vstd::prelude::*;

verus! {

/// A datatype that was found under a code and a width, and is not `Invalid`,
/// has that width, and is found again under its own code and width.
pub proof fn law_datatype_keeps_width(_type: u16, size: u16)
    requires
        Datatype::lookup(_type, size) is Some,
        !(Datatype::lookup(_type, size) == Some(Datatype::Invalid)),
    ensures
        Datatype::lookup(_type, size).unwrap().spec_size() == size,
        Datatype::lookup(
            Datatype::lookup(_type, size).unwrap().spec_type(),
            Datatype::lookup(_type, size).unwrap().spec_size(),
        ) == Datatype::lookup(_type, size),
{
}

/// A channel record whose next address is zero ends the list: the list that
/// starts with it holds that record alone, whatever else the file holds.
pub proof fn law_zero_address_ends_list(bytes: Seq<u8>, addr: FileAddr)
    requires
        addr@ != 0,
        parse_channel(bytes, addr@) is Ok,
        parse_channel(bytes, addr@).unwrap().next_addr@ == 0,
    ensures
        channel_list(bytes, addr) == Ok::<Seq<FileChannelView>, I2Error>(
            seq![parse_channel(bytes, addr@).unwrap()],
        ),
{
    let record = parse_channel(bytes, addr@).unwrap();
    let found = Seq::<FileChannelView>::empty().push(record);
    assert(walk_channels(bytes, record.next_addr, found, 0) == Some(
        Ok::<Seq<FileChannelView>, I2Error>(found),
    ));
    assert(found =~= seq![record]);
    lemma_channel_list_found(bytes, addr, 1);
}

/// A file of four bytes or more that does not start with the marker has no
/// header, whatever follows the four bytes.
pub proof fn law_wrong_marker_is_reported(bytes: Seq<u8>)
    requires
        bytes.len() >= 4,
        u32_at(bytes, 0) != LD_HEADER_MARKER,
    ensures
        parse_header(bytes) == Err::<HeaderView, I2Error>(
            I2Error::InvalidHeaderMarker { found: u32_at(bytes, 0), expected: LD_HEADER_MARKER },
        ),
{
}

/// Whether the record that the layout makes of the entry with index `i`
/// stands at its address in `bytes`.
spec fn record_stands(bytes: Seq<u8>, entries: Seq<Entry>, i: int) -> bool {
    field(bytes, meta_addr(i), 124) == channel_bytes(placed(entries, i))
}

/// Whether `bytes` holds the record with index `j` of `records` at its
/// address, and that record names the address of the one behind it, or none
/// where it is the last.
spec fn record_linked(bytes: Seq<u8>, records: Seq<FileChannelView>, j: int) -> bool {
    &&& parse_channel(bytes, meta_addr(j)) == Ok::<FileChannelView, I2Error>(records[j])
    &&& records[j].next_addr == if j + 1 < records.len() {
        FileAddr(meta_addr(j + 1) as u32)
    } else {
        FileAddr(0)
    }
}

/// In a written file the header record stands at the start and each channel
/// record at its address.
proof fn lemma_image_records(buf: Seq<u8>, h: HeaderView, entries: Seq<Entry>)
    requires
        entries.len() > 0,
    ensures
        file_image(buf, h, entries).len() >= meta_addr(entries.len() as int),
        field(file_image(buf, h, entries), 0, 1762) == header_bytes(
            h,
            meta_addr(0) as u32,
            data_addr(entries, 0) as u32,
            0,
        ),
        forall|i: int|
            0 <= i < entries.len() ==> #[trigger] record_stands(
                file_image(buf, h, entries),
                entries,
                i,
            ),
{
    let n = entries.len() as int;
    let header = header_bytes(h, meta_addr(0) as u32, data_addr(entries, 0) as u32, 0);
    let headed = write_at(buf, 0, header);
    let recorded = with_records(headed, entries, n);
    let image = file_image(buf, h, entries);
    lemma_header_bytes_fields(h, meta_addr(0) as u32, data_addr(entries, 0) as u32, 0);
    lemma_write_at_written(buf, 0, header);
    lemma_with_records_kept(headed, entries, n, 0, 1762);
    lemma_with_records(headed, entries, n, 0);
    lemma_with_samples_kept(recorded, entries, n, 0, 1762);
    assert forall|i: int| 0 <= i < n implies #[trigger] record_stands(image, entries, i) by {
        lemma_with_records(headed, entries, n, i);
        lemma_with_samples_kept(recorded, entries, n, meta_addr(i), 124);
    }
}

/// In a written file the samples of each entry stand at their address, when
/// they are held the way the datatype of their channel stores them.
proof fn lemma_image_samples(buf: Seq<u8>, h: HeaderView, entries: Seq<Entry>, i: int)
    requires
        entries_fit(entries),
        0 <= i < entries.len(),
    ensures
        file_image(buf, h, entries).len() >= data_addr(entries, i) + block_size(entries[i]),
        samples_bytes(entries[i].1).len() == block_size(entries[i]),
        field(file_image(buf, h, entries), data_addr(entries, i), block_size(entries[i]))
            == samples_bytes(entries[i].1),
{
    let n = entries.len() as int;
    let header = header_bytes(h, meta_addr(0) as u32, data_addr(entries, 0) as u32, 0);
    let recorded = with_records(write_at(buf, 0, header), entries, n);
    lemma_with_samples(recorded, entries, n, i);
    lemma_blocks_size_grows(entries, i + 1, n);
}

/// Following records that each name the next one leads through all of them.
proof fn lemma_walk_records(bytes: Seq<u8>, records: Seq<FileChannelView>, i: int, fuel: nat)
    requires
        0 <= i <= records.len(),
        fuel >= records.len() - i,
        meta_addr(records.len() as int) <= u32::MAX,
        forall|j: int| 0 <= j < records.len() ==> #[trigger] record_linked(bytes, records, j),
    ensures
        walk_channels(
            bytes,
            if i < records.len() {
                FileAddr(meta_addr(i) as u32)
            } else {
                FileAddr(0)
            },
            records.take(i),
            fuel,
        ) == Some(Ok::<Seq<FileChannelView>, I2Error>(records)),
    decreases records.len() - i,
{
    if i < records.len() {
        assert(record_linked(bytes, records, i));
        assert(records.take(i).push(records[i]) =~= records.take(i + 1));
        lemma_walk_records(bytes, records, i + 1, (fuel - 1) as nat);
    } else {
        assert(records.take(i) =~= records);
    }
}

/// A header that was written without channels reads back as it was written,
/// when each of its texts fits its field, and the file then has no channels
/// and no event, venue or vehicle.
pub proof fn law_bare_header_reads_back(buf: Seq<u8>, h: HeaderView)
    requires
        header_fits(h),
    ensures
        parse_header(bare_image(buf, h)) == Ok::<HeaderView, I2Error>(h),
        file_channels(bare_image(buf, h)) == Ok::<Seq<FileChannelView>, I2Error>(Seq::empty()),
        file_event(bare_image(buf, h)) == Ok::<Option<EventView>, I2Error>(None),
        file_venue(bare_image(buf, h)) == Ok::<Option<VenueView>, I2Error>(None),
        file_vehicle(bare_image(buf, h)) == Ok::<Option<VehicleView>, I2Error>(None),
{
    let image = bare_image(buf, h);
    lemma_header_bytes_fields(h, 0, 0, 0);
    lemma_write_at_written(buf, 0, header_bytes(h, 0, 0, 0));
    lemma_header_reads_back(image, h, 0, 0, 0);
    lemma_header_fields_of(image, h, 0, 0, 0);
    lemma_resolve_plain(image, 0, 0);
    lemma_channel_list_found(image, FileAddr(0), 0);
}

/// Reading the header of a written file gives the header that was written,
/// when each of its texts fits its field.
pub proof fn law_header_reads_back(buf: Seq<u8>, h: HeaderView, entries: Seq<Entry>)
    requires
        entries.len() > 0,
        header_fits(h),
    ensures
        parse_header(file_image(buf, h, entries)) == Ok::<HeaderView, I2Error>(h),
{
    lemma_image_records(buf, h, entries);
    lemma_header_reads_back(
        file_image(buf, h, entries),
        h,
        meta_addr(0) as u32,
        data_addr(entries, 0) as u32,
        0,
    );
}

/// A file whose header names no event has no event, venue or vehicle, and
/// its table holds the two addresses of the header.
proof fn lemma_resolve_plain(bytes: Seq<u8>, channel_meta: u32, channel_data: u32)
    requires
        bytes.len() >= 40,
        u32_at(bytes, 8) == channel_meta,
        u32_at(bytes, 12) == channel_data,
        u32_at(bytes, 36) == 0,
    ensures
        resolve(bytes) == Ok::<AddressTable, I2Error>(
            AddressTable {
                channel_meta: FileAddr(channel_meta),
                channel_data: FileAddr(channel_data),
                event: FileAddr(0),
                venue: FileAddr(0),
                vehicle: FileAddr(0),
            },
        ),
        file_event(bytes) == Ok::<Option<EventView>, I2Error>(None),
        file_venue(bytes) == Ok::<Option<VenueView>, I2Error>(None),
        file_vehicle(bytes) == Ok::<Option<VehicleView>, I2Error>(None),
        file_channels(bytes) == channel_list(bytes, FileAddr(channel_meta)),
{
}

/// A written file names the first channel record and the first samples in its
/// header, and has no event, venue or vehicle.
pub proof fn law_addresses_read_back(buf: Seq<u8>, h: HeaderView, entries: Seq<Entry>)
    requires
        entries.len() > 0,
    ensures
        resolve(file_image(buf, h, entries)) == Ok::<AddressTable, I2Error>(
            AddressTable {
                channel_meta: FileAddr(meta_addr(0) as u32),
                channel_data: FileAddr(data_addr(entries, 0) as u32),
                event: FileAddr(0),
                venue: FileAddr(0),
                vehicle: FileAddr(0),
            },
        ),
        file_event(file_image(buf, h, entries)) == Ok::<Option<EventView>, I2Error>(None),
        file_venue(file_image(buf, h, entries)) == Ok::<Option<VenueView>, I2Error>(None),
        file_vehicle(file_image(buf, h, entries)) == Ok::<Option<VehicleView>, I2Error>(None),
{
    let image = file_image(buf, h, entries);
    let channel_meta = meta_addr(0) as u32;
    let channel_data = data_addr(entries, 0) as u32;
    assert(image.len() >= 1762 && field(image, 0, 1762) == header_bytes(
        h,
        channel_meta,
        channel_data,
        0,
    )) by {
        lemma_image_records(buf, h, entries);
    }
    lemma_header_fields_of(image, h, channel_meta, channel_data, 0);
    lemma_resolve_plain(image, channel_meta, channel_data);
}

/// A file that holds the records of `entries` one behind the other has the
/// channels of `entries` as its list from the first record on.
proof fn lemma_channels_listed(bytes: Seq<u8>, entries: Seq<Entry>)
    requires
        entries.len() > 0,
        layout_fits(entries),
        forall|i: int| 0 <= i < entries.len() ==> channel_fits((#[trigger] entries[i]).0),
        bytes.len() >= meta_addr(entries.len() as int),
        forall|i: int| 0 <= i < entries.len() ==> #[trigger] record_stands(bytes, entries, i),
    ensures
        channel_list(bytes, FileAddr(meta_addr(0) as u32)) == Ok::<Seq<FileChannelView>, I2Error>(
            placed_records(entries),
        ),
{
    let n = entries.len() as int;
    let records = placed_records(entries);
    lemma_blocks_size_grows(entries, 0, n);
    assert forall|j: int| 0 <= j < n implies #[trigger] record_linked(bytes, records, j) by {
        assert(channel_fits(entries[j].0));
        assert(record_stands(bytes, entries, j));
        lemma_channel_reads_back(bytes, meta_addr(j), placed(entries, j));
    }
    lemma_walk_records(bytes, records, 0, bytes.len());
    assert(records.take(0) =~= Seq::<FileChannelView>::empty());
    lemma_channel_list_found(bytes, FileAddr(meta_addr(0) as u32), bytes.len());
}

/// Reading the channels of a written file gives the channels that were
/// written, in their order, each with the name, the sample rate and the
/// decode parameters it was given, when the texts of each fit their fields
/// and none has the datatype `Invalid`. Each record names the address of the
/// record behind it, the last one none, and each the address of its samples.
pub proof fn law_channels_read_back(buf: Seq<u8>, h: HeaderView, entries: Seq<Entry>)
    requires
        entries.len() > 0,
        layout_fits(entries),
        forall|i: int| 0 <= i < entries.len() ==> channel_fits((#[trigger] entries[i]).0),
    ensures
        file_channels(file_image(buf, h, entries)) == Ok::<Seq<FileChannelView>, I2Error>(
            placed_records(entries),
        ),
{
    let image = file_image(buf, h, entries);
    let channel_meta = meta_addr(0) as u32;
    let channel_data = data_addr(entries, 0) as u32;
    lemma_image_records(buf, h, entries);
    lemma_header_fields_of(image, h, channel_meta, channel_data, 0);
    lemma_resolve_plain(image, channel_meta, channel_data);
    lemma_channels_listed(image, entries);
}

/// Reading the samples of a channel of a written file gives the samples that
/// were written, when the samples of every channel are held the way its
/// datatype stores them.
pub proof fn law_samples_read_back(buf: Seq<u8>, h: HeaderView, entries: Seq<Entry>, i: int)
    requires
        layout_fits(entries),
        entries_fit(entries),
        0 <= i < entries.len(),
    ensures
        channel_samples(file_image(buf, h, entries), placed(entries, i)) == Ok::<
            Seq<Sample>,
            I2Error,
        >(entries[i].1),
{
    let n = entries.len() as int;
    lemma_image_samples(buf, h, entries, i);
    lemma_blocks_size_grows(entries, i, n);
    lemma_blocks_size_grows(entries, 0, i);
    assert(samples_bytes(entries[i].1).len() == block_size(entries[i]));
    lemma_samples_read_back(file_image(buf, h, entries), placed(entries, i), entries[i].1);
}

/// In a written file each channel record holds, as its next address, the
/// address of the record behind it, and none in the last record; and as its
/// data address the position from which its samples were written.
pub proof fn law_layout_links(buf: Seq<u8>, h: HeaderView, entries: Seq<Entry>, i: int)
    requires
        layout_fits(entries),
        0 <= i < entries.len(),
    ensures
        u32_at(file_image(buf, h, entries), meta_addr(i) + FileChannel::NEXT_ADDR_OFFSET) == if i
            + 1 < entries.len() {
            meta_addr(i + 1)
        } else {
            0
        },
        u32_at(file_image(buf, h, entries), meta_addr(i) + FileChannel::DATA_ADDR_OFFSET)
            == data_addr(entries, i),
        entries_fit(entries) ==> field(
            file_image(buf, h, entries),
            data_addr(entries, i),
            samples_bytes(entries[i].1).len() as int,
        ) == samples_bytes(entries[i].1),
{
    let n = entries.len() as int;
    let image = file_image(buf, h, entries);
    lemma_image_records(buf, h, entries);
    lemma_blocks_size_grows(entries, 0, n);
    lemma_blocks_size_grows(entries, i, n);
    lemma_blocks_size_grows(entries, 0, i);
    assert(record_stands(image, entries, i));
    lemma_channel_bytes_fields(placed(entries, i));
    lemma_field_of_field(image, meta_addr(i), 124, 4, 4);
    lemma_field_of_field(image, meta_addr(i), 124, 8, 4);
    if entries_fit(entries) {
        lemma_image_samples(buf, h, entries, i);
    }
}

} // verus!
