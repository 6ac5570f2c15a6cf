//! What the fields of an encoded record hold, and what a buffer holds after
//! writes into it.

use crate::error::I2Error;
use crate::format::{
    bad_text, block_size, channel_bytes, channel_samples, data_addr, field, header_bytes, i16_at,
    lemma_blocks_size_grows, meta_addr, parse_channel, parse_header, placed, sample_at,
    sample_bytes, samples_bytes, text_at, u16_at, u32_at, with_records, with_samples, Entry,
    LD_HEADER_MARKER,
};
use crate::structs::{ChannelView, Datatype, FileChannelView, HeaderView, Sample};
use crate::wire::{
    i16_le, lemma_le_i16_of_bytes, lemma_le_i32_of_bytes, lemma_le_u16_of_bytes,
    lemma_le_u32_of_bytes, lemma_text_len, text_bytes, text_field, text_of, text_ok, u16_le,
    u32_le, write_at,
};
use vstd::prelude::*;
use vstd::utf8::{
    char_is_scalar, encode_scalar, encode_utf8, encode_utf8_decode_utf8, encode_utf8_valid_utf8,
    is_scalar,
};

verus! {

/// Whether a field of `width` bytes can hold the text `s` whole: its UTF-8
/// bytes are no more than `width`, and it holds no character of code zero.
pub open spec fn text_fits(s: Seq<char>, width: int) -> bool {
    &&& encode_utf8(s).len() <= width
    &&& forall|i: int| 0 <= i < s.len() ==> s[i] as u32 != 0
}

/// The UTF-8 bytes of a character of a code other than zero are not zero.
proof fn lemma_scalar_bytes_not_zero(c: u32)
    requires
        is_scalar(c),
        c != 0,
    ensures
        forall|j: int| 0 <= j < encode_scalar(c).len() ==> encode_scalar(c)[j] != 0,
{
    assert(c != 0 && c <= 0x7F ==> (c & 0x7F) as u8 != 0) by (bit_vector);
    assert(0xC0u8 | ((c >> 6) & 0x1F) as u8 != 0) by (bit_vector);
    assert(0xE0u8 | ((c >> 12) & 0x0F) as u8 != 0) by (bit_vector);
    assert(0xF0u8 | ((c >> 18) & 0x7) as u8 != 0) by (bit_vector);
    assert(0x80u8 | (c & 0x3F) as u8 != 0) by (bit_vector);
    assert(0x80u8 | ((c >> 6) & 0x3F) as u8 != 0) by (bit_vector);
    assert(0x80u8 | ((c >> 12) & 0x3F) as u8 != 0) by (bit_vector);
}

/// The UTF-8 bytes of a text without a character of code zero hold no zero.
pub proof fn lemma_text_bytes_not_zero(s: Seq<char>)
    requires
        forall|i: int| 0 <= i < s.len() ==> s[i] as u32 != 0,
    ensures
        forall|j: int| 0 <= j < encode_utf8(s).len() ==> encode_utf8(s)[j] != 0,
    decreases s.len(),
{
    if s.len() > 0 {
        let first = encode_scalar(s[0] as u32);
        let rest = encode_utf8(s.drop_first());
        char_is_scalar(s[0]);
        lemma_scalar_bytes_not_zero(s[0] as u32);
        assert forall|i: int| 0 <= i < s.drop_first().len() implies s.drop_first()[i] as u32
            != 0 by {
            assert(s.drop_first()[i] == s[i + 1]);
        }
        lemma_text_bytes_not_zero(s.drop_first());
        assert(encode_utf8(s) == first + rest);
        assert forall|j: int| 0 <= j < encode_utf8(s).len() implies encode_utf8(s)[j] != 0 by {
            if j < first.len() {
                assert(encode_utf8(s)[j] == first[j]);
            } else {
                assert(encode_utf8(s)[j] == rest[j - first.len()]);
            }
        }
    }
}

/// A field that was made of a text that fits holds that text.
pub proof fn lemma_text_field_holds(s: Seq<char>, width: int)
    requires
        text_fits(s, width),
    ensures
        text_field(s, width).len() == width,
        text_ok(text_field(s, width)),
        text_of(text_field(s, width)) == s,
{
    let b = encode_utf8(s);
    let f = text_field(s, width);
    lemma_text_bytes_not_zero(s);
    lemma_text_len(f, b.len() as int);
    assert(text_bytes(f) =~= b);
    encode_utf8_valid_utf8(s);
    encode_utf8_decode_utf8(s);
}

/// The fields of a channel record hold what it was made of.
pub proof fn lemma_channel_bytes_fields(c: FileChannelView)
    ensures
        channel_bytes(c).len() == 124,
        u32_at(channel_bytes(c), 0) == c.prev_addr.0,
        u32_at(channel_bytes(c), 4) == c.next_addr.0,
        u32_at(channel_bytes(c), 8) == c.data_addr.0,
        u32_at(channel_bytes(c), 12) == c.samples,
        u16_at(channel_bytes(c), 18) == c.channel.datatype.spec_type(),
        u16_at(channel_bytes(c), 20) == c.channel.datatype.spec_size(),
        u16_at(channel_bytes(c), 22) == c.channel.sample_rate,
        u16_at(channel_bytes(c), 24) == c.channel.offset,
        u16_at(channel_bytes(c), 26) == c.channel.mul,
        u16_at(channel_bytes(c), 28) == c.channel.scale,
        i16_at(channel_bytes(c), 30) == c.channel.dec_places,
        field(channel_bytes(c), 32, 32) == text_field(c.channel.name, 32),
        field(channel_bytes(c), 64, 8) == text_field(c.channel.short_name, 8),
        field(channel_bytes(c), 72, 12) == text_field(c.channel.unit, 12),
{
    reveal(channel_bytes);
    let r = channel_bytes(c);
    assert(field(r, 0, 4) =~= u32_le(c.prev_addr.0));
    assert(field(r, 4, 4) =~= u32_le(c.next_addr.0));
    assert(field(r, 8, 4) =~= u32_le(c.data_addr.0));
    assert(field(r, 12, 4) =~= u32_le(c.samples));
    assert(field(r, 18, 2) =~= u16_le(c.channel.datatype.spec_type()));
    assert(field(r, 20, 2) =~= u16_le(c.channel.datatype.spec_size()));
    assert(field(r, 22, 2) =~= u16_le(c.channel.sample_rate));
    assert(field(r, 24, 2) =~= u16_le(c.channel.offset));
    assert(field(r, 26, 2) =~= u16_le(c.channel.mul));
    assert(field(r, 28, 2) =~= u16_le(c.channel.scale));
    assert(field(r, 30, 2) =~= i16_le(c.channel.dec_places));
    assert(field(r, 32, 32) =~= text_field(c.channel.name, 32));
    assert(field(r, 64, 8) =~= text_field(c.channel.short_name, 8));
    assert(field(r, 72, 12) =~= text_field(c.channel.unit, 12));
    lemma_le_u32_of_bytes(c.prev_addr.0);
    lemma_le_u32_of_bytes(c.next_addr.0);
    lemma_le_u32_of_bytes(c.data_addr.0);
    lemma_le_u32_of_bytes(c.samples);
    lemma_le_u16_of_bytes(c.channel.datatype.spec_type());
    lemma_le_u16_of_bytes(c.channel.datatype.spec_size());
    lemma_le_u16_of_bytes(c.channel.sample_rate);
    lemma_le_u16_of_bytes(c.channel.offset);
    lemma_le_u16_of_bytes(c.channel.mul);
    lemma_le_u16_of_bytes(c.channel.scale);
    lemma_le_i16_of_bytes(c.channel.dec_places);
}

/// The fields of a header record hold what it was made of.
pub proof fn lemma_header_bytes_fields(h: HeaderView, channel_meta: u32, channel_data: u32, event: u32)
    ensures
        header_bytes(h, channel_meta, channel_data, event).len() == 1762,
        u32_at(header_bytes(h, channel_meta, channel_data, event), 0) == LD_HEADER_MARKER,
        u32_at(header_bytes(h, channel_meta, channel_data, event), 8) == channel_meta,
        u32_at(header_bytes(h, channel_meta, channel_data, event), 12) == channel_data,
        u32_at(header_bytes(h, channel_meta, channel_data, event), 36) == event,
        u32_at(header_bytes(h, channel_meta, channel_data, event), 70) == h.device_serial,
        u16_at(header_bytes(h, channel_meta, channel_data, event), 82) == h.device_version,
        u32_at(header_bytes(h, channel_meta, channel_data, event), 86) == h.num_channels,
        field(header_bytes(h, channel_meta, channel_data, event), 74, 8) == text_field(
            h.device_type,
            8,
        ),
        field(header_bytes(h, channel_meta, channel_data, event), 94, 16) == text_field(
            h.date_string,
            16,
        ),
        field(header_bytes(h, channel_meta, channel_data, event), 126, 16) == text_field(
            h.time_string,
            16,
        ),
        field(header_bytes(h, channel_meta, channel_data, event), 158, 64) == text_field(
            h.driver,
            64,
        ),
        field(header_bytes(h, channel_meta, channel_data, event), 222, 64) == text_field(
            h.vehicleid,
            64,
        ),
        field(header_bytes(h, channel_meta, channel_data, event), 350, 64) == text_field(
            h.venue,
            64,
        ),
        field(header_bytes(h, channel_meta, channel_data, event), 1508, 64) == text_field(
            h.session,
            64,
        ),
        field(header_bytes(h, channel_meta, channel_data, event), 1572, 64) == text_field(
            h.short_comment,
            64,
        ),
{
    reveal(header_bytes);
    let r = header_bytes(h, channel_meta, channel_data, event);
    assert(r.len() == 1762);
    assert(field(r, 0, 4) =~= u32_le(LD_HEADER_MARKER));
    assert(field(r, 8, 4) =~= u32_le(channel_meta));
    assert(field(r, 12, 4) =~= u32_le(channel_data));
    assert(field(r, 36, 4) =~= u32_le(event));
    assert(field(r, 70, 4) =~= u32_le(h.device_serial));
    assert(field(r, 82, 2) =~= u16_le(h.device_version));
    assert(field(r, 86, 4) =~= u32_le(h.num_channels));
    assert(field(r, 74, 8) =~= text_field(h.device_type, 8));
    assert(field(r, 94, 16) =~= text_field(h.date_string, 16));
    assert(field(r, 126, 16) =~= text_field(h.time_string, 16));
    assert(field(r, 158, 64) =~= text_field(h.driver, 64));
    assert(field(r, 222, 64) =~= text_field(h.vehicleid, 64));
    assert(field(r, 350, 64) =~= text_field(h.venue, 64));
    assert(field(r, 1508, 64) =~= text_field(h.session, 64));
    assert(field(r, 1572, 64) =~= text_field(h.short_comment, 64));
    lemma_le_u32_of_bytes(LD_HEADER_MARKER);
    lemma_le_u32_of_bytes(channel_meta);
    lemma_le_u32_of_bytes(channel_data);
    lemma_le_u32_of_bytes(event);
    lemma_le_u32_of_bytes(h.device_serial);
    lemma_le_u16_of_bytes(h.device_version);
    lemma_le_u32_of_bytes(h.num_channels);
}

/// A field of a field is a field of the whole.
pub proof fn lemma_field_of_field(bytes: Seq<u8>, at: int, len: int, off: int, width: int)
    requires
        0 <= at,
        at + len <= bytes.len(),
        0 <= off,
        0 <= width,
        off + width <= len,
    ensures
        field(field(bytes, at, len), off, width) == field(bytes, at + off, width),
{
    assert(field(field(bytes, at, len), off, width) =~= field(bytes, at + off, width));
}

/// What was written stands where it was written.
pub proof fn lemma_write_at_written(buf: Seq<u8>, pos: int, data: Seq<u8>)
    requires
        0 <= pos,
    ensures
        write_at(buf, pos, data).len() >= pos + data.len(),
        write_at(buf, pos, data).len() >= buf.len(),
        field(write_at(buf, pos, data), pos, data.len() as int) == data,
{
    assert(field(write_at(buf, pos, data), pos, data.len() as int) =~= data);
}

/// A write leaves alone what stands before or behind it.
pub proof fn lemma_write_at_kept(buf: Seq<u8>, pos: int, data: Seq<u8>, at: int, width: int)
    requires
        0 <= pos,
        0 <= at,
        0 <= width,
        at + width <= buf.len(),
        at + width <= pos || pos + data.len() <= at,
    ensures
        field(write_at(buf, pos, data), at, width) == field(buf, at, width),
{
    assert(field(write_at(buf, pos, data), at, width) =~= field(buf, at, width));
}

/// Whether each of `samples` is held the way `datatype` stores samples.
pub open spec fn samples_fit(samples: Seq<Sample>, datatype: Datatype) -> bool {
    forall|k: int| 0 <= k < samples.len() ==> (#[trigger] samples[k]).fits(datatype)
}

/// Samples of one datatype take the datatype's width each, and the bytes of
/// the sample with index `k` stand behind those of the `k` before it.
pub proof fn lemma_samples_bytes(samples: Seq<Sample>, datatype: Datatype, k: int)
    requires
        samples_fit(samples, datatype),
        0 <= k < samples.len(),
    ensures
        samples_bytes(samples).len() == samples.len() * datatype.spec_size(),
        sample_bytes(samples[k]).len() == datatype.spec_size(),
        0 <= k * datatype.spec_size(),
        (k + 1) * datatype.spec_size() <= samples_bytes(samples).len(),
        field(samples_bytes(samples), k * datatype.spec_size(), datatype.spec_size() as int)
            == sample_bytes(samples[k]),
    decreases samples.len(),
{
    let w = datatype.spec_size() as int;
    let n = samples.len() as int;
    let front = samples.drop_last();
    lemma_samples_bytes_len(front, datatype);
    assert(samples.last().fits(datatype));
    assert(sample_bytes(samples.last()).len() == w);
    assert(samples[k].fits(datatype));
    assert((n - 1) * w + w == n * w) by (nonlinear_arith);
    assert(0 <= k * w && (k + 1) * w <= n * w && (k + 1) * w == k * w + w) by (nonlinear_arith)
        requires
            0 <= k < n,
            0 <= w,
    ;
    if k == n - 1 {
        assert(field(samples_bytes(samples), k * w, w) =~= sample_bytes(samples[k]));
    } else {
        lemma_samples_bytes(front, datatype, k);
        assert(front[k] == samples[k]);
        assert((k + 1) * w <= (n - 1) * w) by (nonlinear_arith)
            requires
                k + 1 <= n - 1,
                0 <= w,
        ;
        assert(field(samples_bytes(samples), k * w, w) =~= field(samples_bytes(front), k * w, w));
    }
}

/// Samples of one datatype take the datatype's width each.
pub proof fn lemma_samples_bytes_len(samples: Seq<Sample>, datatype: Datatype)
    requires
        samples_fit(samples, datatype),
    ensures
        samples_bytes(samples).len() == samples.len() * datatype.spec_size(),
    decreases samples.len(),
{
    let w = datatype.spec_size() as int;
    let n = samples.len() as int;
    if n > 0 {
        lemma_samples_bytes_len(samples.drop_last(), datatype);
        assert(samples.last().fits(datatype));
        assert((n - 1) * w + w == n * w) by (nonlinear_arith);
    } else {
        assert(n * w == 0) by (nonlinear_arith)
            requires
                n == 0,
        ;
    }
}

/// Whether the samples of each entry are held the way the datatype of its
/// channel stores samples.
pub open spec fn entries_fit(entries: Seq<Entry>) -> bool {
    forall|i: int|
        0 <= i < entries.len() ==> samples_fit(
            (#[trigger] entries[i]).1,
            entries[i].0.datatype,
        )
}

/// After the first `k` channel records were written, the record with index
/// `i` stands at its address.
pub proof fn lemma_with_records(buf: Seq<u8>, entries: Seq<Entry>, k: int, i: int)
    requires
        0 <= i < k <= entries.len(),
    ensures
        with_records(buf, entries, k).len() >= meta_addr(k),
        with_records(buf, entries, k).len() >= buf.len(),
        field(with_records(buf, entries, k), meta_addr(i), 124) == channel_bytes(
            placed(entries, i),
        ),
    decreases k,
{
    let before = with_records(buf, entries, k - 1);
    let record = channel_bytes(placed(entries, k - 1));
    lemma_channel_bytes_fields(placed(entries, k - 1));
    lemma_write_at_written(before, meta_addr(k - 1), record);
    lemma_with_records_kept(buf, entries, k - 1, 0, 0);
    if i < k - 1 {
        lemma_with_records(buf, entries, k - 1, i);
        lemma_write_at_kept(before, meta_addr(k - 1), record, meta_addr(i), 124);
    }
}

/// Writing channel records leaves alone what stands before the first of them.
pub proof fn lemma_with_records_kept(buf: Seq<u8>, entries: Seq<Entry>, k: int, at: int, width: int)
    requires
        0 <= at,
        0 <= width,
        at + width <= buf.len(),
        at + width <= meta_addr(0),
    ensures
        with_records(buf, entries, k).len() >= buf.len(),
        field(with_records(buf, entries, k), at, width) == field(buf, at, width),
    decreases k,
{
    if k > 0 {
        let before = with_records(buf, entries, k - 1);
        let record = channel_bytes(placed(entries, k - 1));
        lemma_with_records_kept(buf, entries, k - 1, at, width);
        lemma_write_at_written(before, meta_addr(k - 1), record);
        lemma_write_at_kept(before, meta_addr(k - 1), record, at, width);
    }
}

/// After the samples of the first `k` entries were written, those of the
/// entry with index `i` stand at their address.
pub proof fn lemma_with_samples(buf: Seq<u8>, entries: Seq<Entry>, k: int, i: int)
    requires
        entries_fit(entries),
        0 <= i < k <= entries.len(),
    ensures
        with_samples(buf, entries, k).len() >= data_addr(entries, k),
        with_samples(buf, entries, k).len() >= buf.len(),
        samples_bytes(entries[i].1).len() == block_size(entries[i]),
        field(with_samples(buf, entries, k), data_addr(entries, i), block_size(entries[i]))
            == samples_bytes(entries[i].1),
    decreases k,
{
    let before = with_samples(buf, entries, k - 1);
    let block = samples_bytes(entries[k - 1].1);
    lemma_samples_bytes_len(entries[k - 1].1, entries[k - 1].0.datatype);
    lemma_samples_bytes_len(entries[i].1, entries[i].0.datatype);
    lemma_blocks_size_grows(entries, 0, k - 1);
    lemma_blocks_size_grows(entries, i + 1, k - 1 + 1);
    lemma_blocks_size_grows(entries, i, i + 1);
    lemma_write_at_written(before, data_addr(entries, k - 1), block);
    lemma_with_samples_kept(buf, entries, k - 1, 0, 0);
    if i < k - 1 {
        lemma_with_samples(buf, entries, k - 1, i);
        lemma_blocks_size_grows(entries, i + 1, k - 1);
        lemma_write_at_kept(
            before,
            data_addr(entries, k - 1),
            block,
            data_addr(entries, i),
            block_size(entries[i]),
        );
    }
}

/// Writing samples leaves alone what stands before the first of them.
pub proof fn lemma_with_samples_kept(buf: Seq<u8>, entries: Seq<Entry>, k: int, at: int, width: int)
    requires
        0 <= at,
        0 <= width,
        at + width <= buf.len(),
        at + width <= data_addr(entries, 0),
    ensures
        with_samples(buf, entries, k).len() >= buf.len(),
        field(with_samples(buf, entries, k), at, width) == field(buf, at, width),
    decreases k,
{
    if k > 0 {
        let before = with_samples(buf, entries, k - 1);
        let block = samples_bytes(entries[k - 1].1);
        lemma_with_samples_kept(buf, entries, k - 1, at, width);
        lemma_blocks_size_grows(entries, 0, k - 1);
        lemma_write_at_written(before, data_addr(entries, k - 1), block);
        lemma_write_at_kept(before, data_addr(entries, k - 1), block, at, width);
    }
}

/// Whether each text of the header `h` fits its field.
pub open spec fn header_fits(h: HeaderView) -> bool {
    &&& text_fits(h.device_type, 8)
    &&& text_fits(h.date_string, 16)
    &&& text_fits(h.time_string, 16)
    &&& text_fits(h.driver, 64)
    &&& text_fits(h.vehicleid, 64)
    &&& text_fits(h.venue, 64)
    &&& text_fits(h.session, 64)
    &&& text_fits(h.short_comment, 64)
}

/// Whether a record of the channel `c` can be read back: each of its texts
/// fits its field, and its datatype has a code and a width of its own.
pub open spec fn channel_fits(c: ChannelView) -> bool {
    &&& text_fits(c.name, 32)
    &&& text_fits(c.short_name, 8)
    &&& text_fits(c.unit, 12)
    &&& !(c.datatype is Invalid)
}

/// A text field of `bytes` that holds a field made of a text that fits holds
/// that text.
proof fn lemma_text_at(bytes: Seq<u8>, at: int, width: int, s: Seq<char>)
    requires
        field(bytes, at, width) == text_field(s, width),
        text_fits(s, width),
    ensures
        !bad_text(bytes, at, width),
        text_at(bytes, at, width) == s,
{
    lemma_text_field_holds(s, width);
}

/// A file that starts with the header record of `h` has the header `h`.
pub proof fn lemma_header_reads_back(
    bytes: Seq<u8>,
    h: HeaderView,
    channel_meta: u32,
    channel_data: u32,
    event: u32,
)
    requires
        bytes.len() >= 1762,
        field(bytes, 0, 1762) == header_bytes(h, channel_meta, channel_data, event),
        header_fits(h),
    ensures
        parse_header(bytes) == Ok::<HeaderView, I2Error>(h),
{
    lemma_header_bytes_fields(h, channel_meta, channel_data, event);
    lemma_header_read_from(bytes, header_bytes(h, channel_meta, channel_data, event), h);
}

/// A file that starts with a record whose fields hold the numbers and the
/// texts of `h` has the header `h`.
proof fn lemma_header_read_from(bytes: Seq<u8>, record: Seq<u8>, h: HeaderView)
    requires
        bytes.len() >= 1762,
        field(bytes, 0, 1762) == record,
        header_fits(h),
        u32_at(record, 0) == LD_HEADER_MARKER,
        u32_at(record, 70) == h.device_serial,
        u16_at(record, 82) == h.device_version,
        u32_at(record, 86) == h.num_channels,
        field(record, 74, 8) == text_field(h.device_type, 8),
        field(record, 94, 16) == text_field(h.date_string, 16),
        field(record, 126, 16) == text_field(h.time_string, 16),
        field(record, 158, 64) == text_field(h.driver, 64),
        field(record, 222, 64) == text_field(h.vehicleid, 64),
        field(record, 350, 64) == text_field(h.venue, 64),
        field(record, 1508, 64) == text_field(h.session, 64),
        field(record, 1572, 64) == text_field(h.short_comment, 64),
    ensures
        parse_header(bytes) == Ok::<HeaderView, I2Error>(h),
{
    lemma_field_of_field(bytes, 0, 1762, 0, 4);
    lemma_field_of_field(bytes, 0, 1762, 70, 4);
    lemma_field_of_field(bytes, 0, 1762, 82, 2);
    lemma_field_of_field(bytes, 0, 1762, 86, 4);
    lemma_field_of_field(bytes, 0, 1762, 74, 8);
    lemma_field_of_field(bytes, 0, 1762, 94, 16);
    lemma_field_of_field(bytes, 0, 1762, 126, 16);
    lemma_field_of_field(bytes, 0, 1762, 158, 64);
    lemma_field_of_field(bytes, 0, 1762, 222, 64);
    lemma_field_of_field(bytes, 0, 1762, 350, 64);
    lemma_field_of_field(bytes, 0, 1762, 1508, 64);
    lemma_field_of_field(bytes, 0, 1762, 1572, 64);
    lemma_text_at(bytes, 74, 8, h.device_type);
    lemma_text_at(bytes, 94, 16, h.date_string);
    lemma_text_at(bytes, 126, 16, h.time_string);
    lemma_text_at(bytes, 158, 64, h.driver);
    lemma_text_at(bytes, 222, 64, h.vehicleid);
    lemma_text_at(bytes, 350, 64, h.venue);
    lemma_text_at(bytes, 1508, 64, h.session);
    lemma_text_at(bytes, 1572, 64, h.short_comment);
}

/// A file that starts with a header record carries the record's three
/// addresses in its header.
pub proof fn lemma_header_fields_of(
    bytes: Seq<u8>,
    h: HeaderView,
    channel_meta: u32,
    channel_data: u32,
    event: u32,
)
    requires
        bytes.len() >= 1762,
        field(bytes, 0, 1762) == header_bytes(h, channel_meta, channel_data, event),
    ensures
        u32_at(bytes, 8) == channel_meta,
        u32_at(bytes, 12) == channel_data,
        u32_at(bytes, 36) == event,
{
    lemma_header_bytes_fields(h, channel_meta, channel_data, event);
    lemma_field_of_field(bytes, 0, 1762, 8, 4);
    lemma_field_of_field(bytes, 0, 1762, 12, 4);
    lemma_field_of_field(bytes, 0, 1762, 36, 4);
}

/// Each datatype but `Invalid` is found again under its code and its width.
pub proof fn lemma_datatype_found(d: Datatype)
    requires
        !(d is Invalid),
    ensures
        Datatype::lookup(d.spec_type(), d.spec_size()) == Some(d),
{
}

/// A file that holds the record of the channel `c` at position `at` has the
/// channel `c` there.
pub proof fn lemma_channel_reads_back(bytes: Seq<u8>, at: int, c: FileChannelView)
    requires
        0 <= at,
        at + 124 <= bytes.len(),
        field(bytes, at, 124) == channel_bytes(c),
        channel_fits(c.channel),
    ensures
        parse_channel(bytes, at) == Ok::<FileChannelView, I2Error>(c),
{
    lemma_channel_bytes_fields(c);
    lemma_datatype_found(c.channel.datatype);
    lemma_field_of_field(bytes, at, 124, 0, 4);
    lemma_field_of_field(bytes, at, 124, 4, 4);
    lemma_field_of_field(bytes, at, 124, 8, 4);
    lemma_field_of_field(bytes, at, 124, 12, 4);
    lemma_field_of_field(bytes, at, 124, 18, 2);
    lemma_field_of_field(bytes, at, 124, 20, 2);
    lemma_field_of_field(bytes, at, 124, 22, 2);
    lemma_field_of_field(bytes, at, 124, 24, 2);
    lemma_field_of_field(bytes, at, 124, 26, 2);
    lemma_field_of_field(bytes, at, 124, 28, 2);
    lemma_field_of_field(bytes, at, 124, 30, 2);
    lemma_field_of_field(bytes, at, 124, 32, 32);
    lemma_field_of_field(bytes, at, 124, 64, 8);
    lemma_field_of_field(bytes, at, 124, 72, 12);
    lemma_text_at(bytes, at + 32, 32, c.channel.name);
    lemma_text_at(bytes, at + 64, 8, c.channel.short_name);
    lemma_text_at(bytes, at + 72, 12, c.channel.unit);
}

/// A file that holds the bytes of `samples` at the data address of the
/// channel `c` has those samples.
pub proof fn lemma_samples_read_back(bytes: Seq<u8>, c: FileChannelView, samples: Seq<Sample>)
    requires
        samples_fit(samples, c.channel.datatype),
        c.samples == samples.len(),
        c.data_addr@ + samples_bytes(samples).len() <= bytes.len(),
        field(bytes, c.data_addr@, samples_bytes(samples).len() as int) == samples_bytes(samples),
    ensures
        channel_samples(bytes, c) == Ok::<Seq<Sample>, I2Error>(samples),
{
    let datatype = c.channel.datatype;
    let w = datatype.spec_size() as int;
    let start = c.data_addr@;
    let block = samples_bytes(samples);
    lemma_samples_bytes_len(samples, datatype);
    let read = Seq::new(c.samples as nat, |i: int| sample_at(bytes, start + i * w, datatype));
    assert forall|k: int| 0 <= k < samples.len() implies read[k] == samples[k] by {
        lemma_samples_bytes(samples, datatype, k);
        lemma_field_of_field(bytes, start, block.len() as int, k * w, w);
        assert(samples[k].fits(datatype));
        match samples[k] {
            Sample::I16(v) => {
                lemma_le_i16_of_bytes(v);
            },
            Sample::I32(v) => {
                lemma_le_i32_of_bytes(v);
            },
            Sample::F32(v) => {
                lemma_le_u32_of_bytes(v);
            },
        }
    }
    assert(read =~= samples);
}

} // verus!
