//! Decoding a file image: the header, the optional event, venue and vehicle
//! records, the list of channel records, and the samples of a channel.

use crate::chain::lemma_channel_list_bounded;
use crate::error::{I2Error, I2Result, IoErrorKind};
use crate::format::{
    channel_samples, field, file_channels, file_event, file_vehicle, file_venue, i16_at, i32_at,
    parse_channel, parse_header, resolve, sample_at, short_read, text_at, u16_at, u32_at,
    walk_channels, AddressTable, LD_HEADER_MARKER,
};
use crate::structs::{
    channel_views, Channel, Datatype, Event, EventView, FileAddr, FileChannel, FileChannelView,
    Header, HeaderView, Sample, Vehicle, VehicleView, Venue, VenueView,
};
use crate::wire::{decode_text, read_i16, read_i32, read_u16, read_u32, text_ok};
use vstd::prelude::*;
use vstd::slice::slice_subrange;

verus! {

/// A reader over the bytes of one file. It keeps a position, as a stream
/// does, and remembers the addresses of the file's parts once they have been
/// resolved.
#[derive(Debug)]
pub struct LDReader<'a> {
    source: &'a [u8],
    pos: u64,
    addrs: Option<AddressTable>,
}

impl<'a> LDReader<'a> {
    /// The bytes of the file.
    pub closed spec fn source(&self) -> Seq<u8> {
        self.source@
    }

    /// The position at which the next read starts.
    spec fn position(&self) -> int {
        self.pos as int
    }

    /// The addresses that the reader remembers, if it has resolved them.
    pub closed spec fn resolved(&self) -> Option<AddressTable> {
        self.addrs
    }

    /// What the reader remembers is what the file holds.
    #[verifier::type_invariant]
    pub closed spec fn wf(&self) -> bool {
        self.addrs matches Some(t) ==> resolve(self.source@) == Ok::<AddressTable, I2Error>(t)
    }

    /// A reader over the file `source`, which has resolved nothing yet.
    pub fn new(source: &'a [u8]) -> (r: LDReader<'a>)
        ensures
            r.source() == source@,
            r.resolved() is None,
    {
        LDReader { source, pos: 0, addrs: None }
    }

    /// Moves to position `pos`, which may lie beyond the end of the file.
    fn seek(&mut self, pos: u64)
        ensures
            final(self).source() == old(self).source(),
            final(self).resolved() == old(self).resolved(),
            final(self).position() == pos,
    {
        proof {
            use_type_invariant(&*self);
        }
        self.pos = pos;
    }

    /// Reads the next `size` bytes. The position moves behind them; it stays
    /// where it is when the file ends before them.
    fn read_bytes(&mut self, size: usize) -> (r: I2Result<&'a [u8]>)
        ensures
            final(self).source() == old(self).source(),
            final(self).resolved() == old(self).resolved(),
            match r {
                Ok(b) => {
                    &&& old(self).position() + size <= old(self).source().len()
                    &&& b@ == field(old(self).source(), old(self).position(), size as int)
                    &&& final(self).position() == old(self).position() + size
                },
                Err(e) => {
                    &&& old(self).position() + size > old(self).source().len()
                    &&& e == short_read()
                    &&& final(self).position() == old(self).position()
                },
            },
    {
        let len = self.source.len();
        if self.pos > len as u64 || size > len - self.pos as usize {
            return Err(I2Error::from(IoErrorKind::UnexpectedEof));
        }
        let start = self.pos as usize;
        let bytes = slice_subrange(self.source, start, start + size);
        proof {
            use_type_invariant(&*self);
        }
        self.pos = (start + size) as u64;
        Ok(bytes)
    }

    /// Reads a string with a fixed size trimming null bytes
    fn read_string(&mut self, size: usize) -> (r: I2Result<String>)
        ensures
            final(self).source() == old(self).source(),
            final(self).resolved() == old(self).resolved(),
            match r {
                Ok(s) => {
                    &&& old(self).position() + size <= old(self).source().len()
                    &&& text_ok(field(old(self).source(), old(self).position(), size as int))
                    &&& s@ == text_at(old(self).source(), old(self).position(), size as int)
                    &&& final(self).position() == old(self).position() + size
                },
                Err(e) => if old(self).position() + size > old(self).source().len() {
                    e == short_read() && final(self).position() == old(self).position()
                } else {
                    &&& !text_ok(field(old(self).source(), old(self).position(), size as int))
                    &&& e == I2Error::NonUtf8String
                    &&& final(self).position() == old(self).position() + size
                },
            },
    {
        let bytes = self.read_bytes(size)?;
        decode_text(bytes)
    }

    /// Reads a little-endian unsigned 16-bit integer.
    fn read_u16(&mut self) -> (r: I2Result<u16>)
        ensures
            final(self).source() == old(self).source(),
            final(self).resolved() == old(self).resolved(),
            match r {
                Ok(v) => {
                    &&& old(self).position() + 2 <= old(self).source().len()
                    &&& v == u16_at(old(self).source(), old(self).position())
                    &&& final(self).position() == old(self).position() + 2
                },
                Err(e) => {
                    &&& old(self).position() + 2 > old(self).source().len()
                    &&& e == short_read()
                    &&& final(self).position() == old(self).position()
                },
            },
    {
        let bytes = self.read_bytes(2)?;
        Ok(read_u16(bytes))
    }

    /// Reads a little-endian signed 16-bit integer.
    fn read_i16(&mut self) -> (r: I2Result<i16>)
        ensures
            final(self).source() == old(self).source(),
            final(self).resolved() == old(self).resolved(),
            match r {
                Ok(v) => {
                    &&& old(self).position() + 2 <= old(self).source().len()
                    &&& v == i16_at(old(self).source(), old(self).position())
                    &&& final(self).position() == old(self).position() + 2
                },
                Err(e) => {
                    &&& old(self).position() + 2 > old(self).source().len()
                    &&& e == short_read()
                    &&& final(self).position() == old(self).position()
                },
            },
    {
        let bytes = self.read_bytes(2)?;
        Ok(read_i16(bytes))
    }

    /// Reads a little-endian unsigned 32-bit integer.
    fn read_u32(&mut self) -> (r: I2Result<u32>)
        ensures
            final(self).source() == old(self).source(),
            final(self).resolved() == old(self).resolved(),
            match r {
                Ok(v) => {
                    &&& old(self).position() + 4 <= old(self).source().len()
                    &&& v == u32_at(old(self).source(), old(self).position())
                    &&& final(self).position() == old(self).position() + 4
                },
                Err(e) => {
                    &&& old(self).position() + 4 > old(self).source().len()
                    &&& e == short_read()
                    &&& final(self).position() == old(self).position()
                },
            },
    {
        let bytes = self.read_bytes(4)?;
        Ok(read_u32(bytes))
    }

    /// Reads a little-endian signed 32-bit integer.
    fn read_i32(&mut self) -> (r: I2Result<i32>)
        ensures
            final(self).source() == old(self).source(),
            final(self).resolved() == old(self).resolved(),
            match r {
                Ok(v) => {
                    &&& old(self).position() + 4 <= old(self).source().len()
                    &&& v == i32_at(old(self).source(), old(self).position())
                    &&& final(self).position() == old(self).position() + 4
                },
                Err(e) => {
                    &&& old(self).position() + 4 > old(self).source().len()
                    &&& e == short_read()
                    &&& final(self).position() == old(self).position()
                },
            },
    {
        let bytes = self.read_bytes(4)?;
        Ok(read_i32(bytes))
    }

    /// Finds the addresses of the parts of the file, once: a later call
    /// answers from what the first one found.
    pub fn resolve_addresses(&mut self) -> (r: I2Result<AddressTable>)
        ensures
            final(self).source() == old(self).source(),
            match r {
                Ok(t) => {
                    &&& resolve(old(self).source()) == Ok::<AddressTable, I2Error>(t)
                    &&& final(self).resolved() == Some(t)
                },
                Err(e) => {
                    &&& resolve(old(self).source()) == Err::<AddressTable, I2Error>(e)
                    &&& final(self).resolved() == old(self).resolved()
                },
            },
    {
        proof {
            use_type_invariant(&*self);
        }
        if let Some(t) = self.addrs {
            return Ok(t);
        }
        let zero = FileAddr::zero();
        self.seek(Header::CHANNEL_META_OFFSET);
        let channel_meta = FileAddr(self.read_u32()?);
        self.seek(Header::CHANNEL_DATA_OFFSET);
        let channel_data = FileAddr(self.read_u32()?);
        self.seek(Header::EVENT_OFFSET);
        let event = FileAddr(self.read_u32()?);
        let mut venue = zero;
        let mut vehicle = zero;
        if !event.is_zero() {
            self.seek(event.seek() + Event::VENUE_ADDR_OFFSET);
            venue = FileAddr::from(self.read_u16()?);
            if !venue.is_zero() {
                self.seek(venue.seek() + Venue::VEHICLE_ADDR_OFFSET);
                vehicle = FileAddr::from(self.read_u16()?);
            }
        }
        let table = AddressTable { channel_meta, channel_data, event, venue, vehicle };
        proof {
            use_type_invariant(&*self);
        }
        self.addrs = Some(table);
        Ok(table)
    }

    /// Decodes the header record, which a file starts with.
    pub fn read_header(&mut self) -> (r: I2Result<Header>)
        ensures
            final(self).source() == old(self).source(),
            final(self).resolved() == old(self).resolved(),
            match r {
                Ok(h) => parse_header(old(self).source()) == Ok::<HeaderView, I2Error>(h@),
                Err(e) => parse_header(old(self).source()) == Err::<HeaderView, I2Error>(e),
            },
    {
        // Header is always at start
        self.seek(0);

        let ldmarker = self.read_u32()?;
        if ldmarker != LD_HEADER_MARKER {
            return Err(
                I2Error::InvalidHeaderMarker { found: ldmarker, expected: LD_HEADER_MARKER },
            );
        }
        let _unknown = self.read_u32()?;

        let _channel_meta_ptr = self.read_u32()?;
        let _channel_data_ptr = self.read_u32()?;

        let _unknown = self.read_bytes(20)?;

        let _event_ptr = self.read_u32()?;

        let _unknown = self.read_bytes(24)?;

        let _unknown_const_1 = self.read_u16()?;
        let _unknown_const_2 = self.read_u16()?;
        let _unknown_const_3 = self.read_u16()?;

        let device_serial = self.read_u32()?;
        let device_type = self.read_string(8)?;
        let device_version = self.read_u16()?;

        let _unknown_const_4 = self.read_u16()?;

        let num_channels = self.read_u32()?;
        let _unknown = self.read_u32()?;

        let date_string = self.read_string(16)?;
        let _unknown = self.read_bytes(16)?;
        let time_string = self.read_string(16)?;
        let _unknown = self.read_bytes(16)?;

        let driver = self.read_string(64)?;
        let vehicleid = self.read_string(64)?;
        let _unknown = self.read_bytes(64)?;
        let venue = self.read_string(64)?;
        let _unknown = self.read_bytes(64)?;

        let _unknown = self.read_bytes(1024)?;

        let _pro_logging_bytes = self.read_u32()?;

        let _unknown = self.read_bytes(2)?;
        let session = self.read_string(64)?;
        let short_comment = self.read_string(64)?;
        let _unknown = self.read_bytes(126)?;

        Ok(
            Header {
                device_serial,
                device_type,
                device_version,
                num_channels,
                date_string,
                time_string,
                driver,
                vehicleid,
                venue,
                session,
                short_comment,
            },
        )
    }

    /// Decodes the event record, if the file has one.
    pub fn read_event(&mut self) -> (r: I2Result<Option<Event>>)
        ensures
            final(self).source() == old(self).source(),
            final(self).resolved() == match resolve(old(self).source()) {
                Ok(t) => Some(t),
                Err(_) => old(self).resolved(),
            },
            match r {
                Ok(Some(v)) => file_event(old(self).source()) == Ok::<Option<EventView>, I2Error>(
                    Some(v@),
                ),
                Ok(None) => file_event(old(self).source()) == Ok::<Option<EventView>, I2Error>(
                    None,
                ),
                Err(e) => file_event(old(self).source()) == Err::<Option<EventView>, I2Error>(e),
            },
    {
        let table = self.resolve_addresses()?;
        if table.event.is_zero() {
            return Ok(None);
        }
        self.seek(table.event.seek());

        let name = self.read_string(64)?;
        let session = self.read_string(64)?;
        let comment = self.read_string(1024)?;

        Ok(Some(Event { name, session, comment }))
    }

    /// Decodes the venue record, if the file has one.
    pub fn read_venue(&mut self) -> (r: I2Result<Option<Venue>>)
        ensures
            final(self).source() == old(self).source(),
            final(self).resolved() == match resolve(old(self).source()) {
                Ok(t) => Some(t),
                Err(_) => old(self).resolved(),
            },
            match r {
                Ok(Some(v)) => file_venue(old(self).source()) == Ok::<Option<VenueView>, I2Error>(
                    Some(v@),
                ),
                Ok(None) => file_venue(old(self).source()) == Ok::<Option<VenueView>, I2Error>(
                    None,
                ),
                Err(e) => file_venue(old(self).source()) == Err::<Option<VenueView>, I2Error>(e),
            },
    {
        let table = self.resolve_addresses()?;
        if table.venue.is_zero() {
            return Ok(None);
        }
        self.seek(table.venue.seek());

        let name = self.read_string(64)?;

        Ok(Some(Venue { name }))
    }

    /// Decodes the vehicle record, if the file has one.
    pub fn read_vehicle(&mut self) -> (r: I2Result<Option<Vehicle>>)
        ensures
            final(self).source() == old(self).source(),
            final(self).resolved() == match resolve(old(self).source()) {
                Ok(t) => Some(t),
                Err(_) => old(self).resolved(),
            },
            match r {
                Ok(Some(v)) => file_vehicle(old(self).source()) == Ok::<
                    Option<VehicleView>,
                    I2Error,
                >(Some(v@)),
                Ok(None) => file_vehicle(old(self).source()) == Ok::<Option<VehicleView>, I2Error>(
                    None,
                ),
                Err(e) => file_vehicle(old(self).source()) == Err::<Option<VehicleView>, I2Error>(
                    e,
                ),
            },
    {
        let table = self.resolve_addresses()?;
        if table.vehicle.is_zero() {
            return Ok(None);
        }
        self.seek(table.vehicle.seek());

        let id = self.read_string(64)?;
        let _unknown = self.read_bytes(128)?;
        let weight = self.read_u32()?;
        let _type = self.read_string(32)?;
        let comment = self.read_string(32)?;

        Ok(Some(Vehicle { id, weight, _type, comment }))
    }

    /// Read the channel meta data blocks inside the ld file
    ///
    /// The channel metadata structs form a linked list with each metadata block pointing
    /// to the next block. A list that is longer than the file has bytes runs in a
    /// circle, and is refused.
    pub fn read_channels(&mut self) -> (r: I2Result<Vec<FileChannel>>)
        ensures
            final(self).source() == old(self).source(),
            final(self).resolved() == match resolve(old(self).source()) {
                Ok(t) => Some(t),
                Err(_) => old(self).resolved(),
            },
            match r {
                Ok(v) => file_channels(old(self).source()) == Ok::<Seq<FileChannelView>, I2Error>(
                    channel_views(v@),
                ),
                Err(e) => file_channels(old(self).source()) == Err::<
                    Seq<FileChannelView>,
                    I2Error,
                >(e),
            },
    {
        let table = self.resolve_addresses()?;
        let mut channels: Vec<FileChannel> = Vec::new();
        let mut next_addr = table.channel_meta;
        let mut fuel: usize = self.source.len();
        let ghost whole = walk_channels(
            self.source(),
            table.channel_meta,
            Seq::empty(),
            self.source().len(),
        );
        assert(channel_views(channels@) =~= Seq::empty());
        proof {
            lemma_channel_list_bounded(self.source(), table.channel_meta);
        }
        // A 0 addr means we are done searching this list
        while !next_addr.is_zero()
            invariant
                self.source() == old(self).source(),
                self.resolved() == Some(table),
                resolve(self.source()) == Ok::<AddressTable, I2Error>(table),
                whole == walk_channels(self.source(), next_addr, channel_views(channels@), fuel as nat),
                file_channels(self.source()) == match whole {
                    Some(r) => r,
                    None => Err(I2Error::CyclicChannelList),
                },
            decreases fuel,
        {
            let channel = self.read_channel_metadata(next_addr)?;
            if fuel == 0 {
                return Err(I2Error::CyclicChannelList);
            }
            fuel -= 1;
            next_addr = channel.next_addr;
            let ghost before = channel_views(channels@);
            let ghost record = channel@;
            channels.push(channel);
            assert(channel_views(channels@) =~= before.push(record));
        }
        Ok(channels)
    }

    /// Read the [FileChannel] block at file offset `addr`
    fn read_channel_metadata(&mut self, addr: FileAddr) -> (r: I2Result<FileChannel>)
        ensures
            final(self).source() == old(self).source(),
            final(self).resolved() == old(self).resolved(),
            match r {
                Ok(c) => parse_channel(old(self).source(), addr@) == Ok::<FileChannelView, I2Error>(
                    c@,
                ),
                Err(e) => parse_channel(old(self).source(), addr@) == Err::<
                    FileChannelView,
                    I2Error,
                >(e),
            },
    {
        self.seek(addr.seek());

        let prev_addr = FileAddr(self.read_u32()?);
        let next_addr = FileAddr(self.read_u32()?);
        let data_addr = FileAddr(self.read_u32()?);
        let samples = self.read_u32()?;

        let _unknown = self.read_u16()?;

        let datatype_type = self.read_u16()?;
        let datatype_size = self.read_u16()?;
        let datatype = Datatype::from_type_and_size(datatype_type, datatype_size)?;

        let sample_rate = self.read_u16()?;

        let offset = self.read_u16()?;
        let mul = self.read_u16()?;
        let scale = self.read_u16()?;
        let dec_places = self.read_i16()?;

        let name = self.read_string(32)?;
        let short_name = self.read_string(8)?;
        let unit = self.read_string(12)?;
        let _unknown = self.read_bytes(40)?;

        Ok(
            FileChannel {
                prev_addr,
                next_addr,
                data_addr,
                samples,
                channel: Channel {
                    datatype,
                    sample_rate,
                    offset,
                    mul,
                    scale,
                    dec_places,
                    name,
                    short_name,
                    unit,
                },
            },
        )
    }

    /// Returns the samples of a channel, in the order of the file. A channel
    /// that counts samples of a datatype that cannot be decoded is not
    /// accepted.
    pub fn channel_data(&mut self, channel: &FileChannel) -> (r: I2Result<Vec<Sample>>)
        requires
            channel.samples > 0 ==> channel.channel.datatype.decodable(),
        ensures
            final(self).source() == old(self).source(),
            final(self).resolved() == old(self).resolved(),
            match r {
                Ok(v) => channel_samples(old(self).source(), channel@) == Ok::<
                    Seq<Sample>,
                    I2Error,
                >(v@),
                Err(e) => channel_samples(old(self).source(), channel@) == Err::<
                    Seq<Sample>,
                    I2Error,
                >(e),
            },
    {
        self.seek(channel.data_addr.seek());

        // Data for a channel is stored in a contiguous manner at the addr ptr
        let datatype = channel.channel.datatype;
        let ghost width = datatype.spec_size() as int;
        let ghost start = channel.data_addr@;
        let mut data: Vec<Sample> = Vec::new();
        let mut i: u32 = 0;
        while i < channel.samples
            invariant
                i <= channel.samples,
                self.source() == old(self).source(),
                self.resolved() == old(self).resolved(),
                datatype == channel.channel.datatype,
                width == datatype.spec_size(),
                start == channel.data_addr@,
                channel.samples > 0 ==> datatype.decodable(),
                self.position() == start + i * width,
                i > 0 ==> start + i * width <= self.source().len(),
                data@ == Seq::new(i as nat, |k: int| sample_at(self.source(), start + k * width, datatype)),
            decreases channel.samples - i,
        {
            proof {
                assert((i + 1) * width == i * width + width) by (nonlinear_arith);
                assert((i + 1) * width <= channel.samples * width) by (nonlinear_arith)
                    requires
                        i + 1 <= channel.samples,
                        width >= 0,
                ;
            }
            let sample = match datatype {
                Datatype::Beacon16 | Datatype::I16 => Sample::I16(self.read_i16()?),
                Datatype::Beacon32 | Datatype::I32 => Sample::I32(self.read_i32()?),
                Datatype::F32 => Sample::F32(self.read_u32()?),
                Datatype::F16 | Datatype::Invalid => unreached(),
            };
            data.push(sample);
            i += 1;
            assert(data@ =~= Seq::new(
                i as nat,
                |k: int| sample_at(self.source(), start + k * width, datatype),
            ));
        }
        Ok(data)
    }
}

} // verus!
