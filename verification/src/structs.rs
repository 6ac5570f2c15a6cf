//! The records of a file and the values they are made of.

use crate::error::{I2Error, I2Result};
use core::ops::Add;
use vstd::prelude::*;
use vstd::std_specs::convert::FromSpecImpl;
use vstd::std_specs::ops::AddSpecImpl;

verus! {

/// An absolute byte position in a file image. Zero stands for "absent".
#[derive(Debug, Clone, Copy, PartialEq, Eq, PartialOrd, Ord, Hash, Structural)]
pub struct FileAddr(pub u32);

impl View for FileAddr {
    type V = int;

    open spec fn view(&self) -> int {
        self.0 as int
    }
}

impl FileAddr {
    /// The sentinel address.
    pub fn zero() -> (r: FileAddr)
        ensures
            r == FileAddr(0),
    {
        FileAddr(0)
    }

    /// The position as an offset from the start of the stream.
    pub fn seek(self) -> (r: u64)
        ensures
            r == self@,
    {
        self.0 as u64
    }

    /// Whether this is the sentinel address.
    pub fn is_zero(&self) -> (r: bool)
        ensures
            r == (self@ == 0),
    {
        self.0 == 0
    }

    /// The position as a number.
    pub fn as_u32(&self) -> (r: u32)
        ensures
            r == self@,
    {
        self.0
    }
}

impl Add<u32> for FileAddr {
    type Output = FileAddr;

    fn add(self, rhs: u32) -> (r: FileAddr) {
        FileAddr(self.0 + rhs)
    }
}

impl AddSpecImpl<u32> for FileAddr {
    open spec fn obeys_add_spec() -> bool {
        true
    }

    open spec fn add_req(self, rhs: u32) -> bool {
        self@ + rhs <= u32::MAX
    }

    open spec fn add_spec(self, rhs: u32) -> FileAddr {
        FileAddr((self@ + rhs) as u32)
    }
}

impl Add<u64> for FileAddr {
    type Output = FileAddr;

    fn add(self, rhs: u64) -> (r: FileAddr) {
        FileAddr(self.0 + rhs as u32)
    }
}

impl AddSpecImpl<u64> for FileAddr {
    open spec fn obeys_add_spec() -> bool {
        true
    }

    open spec fn add_req(self, rhs: u64) -> bool {
        self@ + rhs <= u32::MAX
    }

    open spec fn add_spec(self, rhs: u64) -> FileAddr {
        FileAddr((self@ + rhs) as u32)
    }
}

impl From<FileAddr> for u32 {
    fn from(addr: FileAddr) -> (r: u32) {
        addr.0
    }
}

impl FromSpecImpl<FileAddr> for u32 {
    open spec fn obeys_from_spec() -> bool {
        true
    }

    open spec fn from_spec(addr: FileAddr) -> u32 {
        addr.0
    }
}

impl From<u32> for FileAddr {
    fn from(addr: u32) -> (r: FileAddr) {
        FileAddr(addr)
    }
}

impl FromSpecImpl<u32> for FileAddr {
    open spec fn obeys_from_spec() -> bool {
        true
    }

    open spec fn from_spec(addr: u32) -> FileAddr {
        FileAddr(addr)
    }
}

impl From<u16> for FileAddr {
    fn from(addr: u16) -> (r: FileAddr) {
        FileAddr(addr as u32)
    }
}

impl FromSpecImpl<u16> for FileAddr {
    open spec fn obeys_from_spec() -> bool {
        true
    }

    open spec fn from_spec(addr: u16) -> FileAddr {
        FileAddr(addr as u32)
    }
}

/// How the samples of a channel are stored.
#[derive(Debug, Clone, Copy, PartialEq, Eq, Hash, Structural)]
pub enum Datatype {
    /// A beacon signal, laid out as a 16-bit integer.
    Beacon16,
    /// A beacon signal, laid out as a 32-bit integer.
    Beacon32,
    I16,
    I32,
    /// Recognised, but its samples cannot be decoded.
    F16,
    F32,
    /// A combination that marks a channel without usable data.
    Invalid,
}

impl Datatype {
    /// The datatype that a type code and a byte width stand for, if any.
    pub open spec fn lookup(_type: u16, size: u16) -> Option<Datatype> {
        if _type == 0 && size == 2 {
            Some(Datatype::Beacon16)
        } else if _type == 0 && size == 4 {
            Some(Datatype::Beacon32)
        } else if (_type == 3 || _type == 5) && size == 2 {
            Some(Datatype::I16)
        } else if (_type == 3 || _type == 5) && size == 4 {
            Some(Datatype::I32)
        } else if _type == 7 && size == 2 {
            Some(Datatype::F16)
        } else if _type == 7 && size == 4 {
            Some(Datatype::F32)
        } else if size == 5 && (_type == 17536 || _type == 6566 || _type == 29813 || _type == 0
            || _type == 15) {
            Some(Datatype::Invalid)
        } else {
            None
        }
    }

    /// Bytes that one sample of this datatype takes in a file.
    pub open spec fn spec_size(&self) -> u16 {
        match self {
            Datatype::Beacon16 | Datatype::I16 | Datatype::F16 => 2,
            Datatype::Beacon32 | Datatype::I32 | Datatype::F32 => 4,
            Datatype::Invalid => 0,
        }
    }

    /// The type code under which this datatype is written.
    pub open spec fn spec_type(&self) -> u16 {
        match self {
            Datatype::Beacon16 | Datatype::Beacon32 => 0,
            Datatype::I16 | Datatype::I32 => 3,
            Datatype::F16 | Datatype::F32 => 7,
            Datatype::Invalid => 999,
        }
    }

    /// Whether samples of this datatype can be read from a file.
    pub open spec fn decodable(&self) -> bool {
        !(self is F16) && !(self is Invalid)
    }

    /// Size in bytes that this datatype occupies on file
    #[verifier::when_used_as_spec(spec_size)]
    pub fn size(&self) -> (r: u16)
        ensures
            r == self.spec_size(),
    {
        match self {
            Datatype::Beacon16 | Datatype::I16 | Datatype::F16 => 2,
            Datatype::Beacon32 | Datatype::I32 | Datatype::F32 => 4,
            Datatype::Invalid => 0,
        }
    }

    /// The type code under which this datatype is written to a file
    #[verifier::when_used_as_spec(spec_type)]
    pub fn _type(&self) -> (r: u16)
        ensures
            r == self.spec_type(),
    {
        match self {
            Datatype::Beacon16 | Datatype::Beacon32 => 0,
            Datatype::I16 | Datatype::I32 => 3,
            Datatype::F16 | Datatype::F32 => 7,
            Datatype::Invalid => 999,
        }
    }

    /// The datatype that a type code and a byte width read from a file stand
    /// for.
    pub fn from_type_and_size(_type: u16, size: u16) -> (r: I2Result<Datatype>)
        ensures
            r == match Datatype::lookup(_type, size) {
                Some(d) => Ok::<Datatype, I2Error>(d),
                None => Err::<Datatype, I2Error>(I2Error::UnrecognizedDatatype { _type, size }),
            },
    {
        match (_type, size) {
            (0, 2) => Ok(Datatype::Beacon16),
            (0, 4) => Ok(Datatype::Beacon32),
            (3, 2) => Ok(Datatype::I16),
            (3, 4) => Ok(Datatype::I32),
            (5, 2) => Ok(Datatype::I16),
            (5, 4) => Ok(Datatype::I32),
            (7, 2) => Ok(Datatype::F16),
            (7, 4) => Ok(Datatype::F32),
            (17536, 5) | (6566, 5) | (29813, 5) => Ok(Datatype::Invalid),
            (0, 5) => Ok(Datatype::Invalid),
            (15, 5) => Ok(Datatype::Invalid),
            _ => Err(I2Error::UnrecognizedDatatype { _type, size }),
        }
    }
}

/// The fields of a file's header record.
#[derive(Debug, Clone, PartialEq, Hash)]
pub struct Header {
    pub device_serial: u32,
    pub device_type: String,
    pub device_version: u16,
    pub num_channels: u32,
    pub date_string: String,
    pub time_string: String,
    pub driver: String,
    pub vehicleid: String,
    pub venue: String,
    pub session: String,
    pub short_comment: String,
}

/// A header with its texts as character sequences.
pub struct HeaderView {
    pub device_serial: u32,
    pub device_type: Seq<char>,
    pub device_version: u16,
    pub num_channels: u32,
    pub date_string: Seq<char>,
    pub time_string: Seq<char>,
    pub driver: Seq<char>,
    pub vehicleid: Seq<char>,
    pub venue: Seq<char>,
    pub session: Seq<char>,
    pub short_comment: Seq<char>,
}

impl View for Header {
    type V = HeaderView;

    open spec fn view(&self) -> HeaderView {
        HeaderView {
            device_serial: self.device_serial,
            device_type: self.device_type@,
            device_version: self.device_version,
            num_channels: self.num_channels,
            date_string: self.date_string@,
            time_string: self.time_string@,
            driver: self.driver@,
            vehicleid: self.vehicleid@,
            venue: self.venue@,
            session: self.session@,
            short_comment: self.short_comment@,
        }
    }
}

impl Header {
    /// Offset from the start of this structure where channel metadata address exists
    pub const CHANNEL_META_OFFSET: u64 = 8;

    /// Offset from the start of this structure where channel data address exists
    pub const CHANNEL_DATA_OFFSET: u64 = 12;

    /// Offset from the start of this structure where event address exists
    pub const EVENT_OFFSET: u64 = 36;

    /// Size of the header record in bytes
    pub const SIZE: u64 = 1762;
}

/// One raw sample of a channel. A 32-bit float is held as its IEEE 754 bit
/// pattern.
#[derive(Debug, Clone, Copy, PartialEq, Eq, Hash, Structural)]
pub enum Sample {
    I16(i16),
    I32(i32),
    F32(u32),
}

impl Sample {
    /// Whether a channel of datatype `datatype` stores its samples the way
    /// this one is held.
    pub open spec fn fits(&self, datatype: Datatype) -> bool {
        match self {
            Sample::I16(_) => datatype is I16 || datatype is Beacon16,
            Sample::I32(_) => datatype is I32 || datatype is Beacon32,
            Sample::F32(_) => datatype is F32,
        }
    }
}

/// Metadata about a channel
#[derive(Debug, Clone, PartialEq, Hash)]
pub struct Channel {
    pub datatype: Datatype,
    /// Sample Rate in Hz
    pub sample_rate: u16,
    /// This number is added after the rest of the transformations have been applied
    pub offset: u16,
    pub mul: u16,
    pub scale: u16,
    pub dec_places: i16,
    pub name: String,
    pub short_name: String,
    pub unit: String,
}

/// A channel with its texts as character sequences.
pub struct ChannelView {
    pub datatype: Datatype,
    pub sample_rate: u16,
    pub offset: u16,
    pub mul: u16,
    pub scale: u16,
    pub dec_places: i16,
    pub name: Seq<char>,
    pub short_name: Seq<char>,
    pub unit: Seq<char>,
}

impl View for Channel {
    type V = ChannelView;

    open spec fn view(&self) -> ChannelView {
        ChannelView {
            datatype: self.datatype,
            sample_rate: self.sample_rate,
            offset: self.offset,
            mul: self.mul,
            scale: self.scale,
            dec_places: self.dec_places,
            name: self.name@,
            short_name: self.short_name@,
            unit: self.unit@,
        }
    }
}

/// Represents the metadata about a channel that is written on a file. This includes
/// the location in the file of the channel, as well as metadata present in [Channel]
#[derive(Debug, Clone, PartialEq, Hash)]
pub struct FileChannel {
    pub prev_addr: FileAddr,
    pub next_addr: FileAddr,
    pub data_addr: FileAddr,
    pub samples: u32,
    pub channel: Channel,
}

/// A channel record with its texts as character sequences.
pub struct FileChannelView {
    pub prev_addr: FileAddr,
    pub next_addr: FileAddr,
    pub data_addr: FileAddr,
    pub samples: u32,
    pub channel: ChannelView,
}

impl View for FileChannel {
    type V = FileChannelView;

    open spec fn view(&self) -> FileChannelView {
        FileChannelView {
            prev_addr: self.prev_addr,
            next_addr: self.next_addr,
            data_addr: self.data_addr,
            samples: self.samples,
            channel: self.channel@,
        }
    }
}

/// The channel records of `channels` with their texts as character sequences.
pub open spec fn channel_views(channels: Seq<FileChannel>) -> Seq<FileChannelView> {
    Seq::new(channels.len(), |i: int| channels[i]@)
}

impl FileChannelView {
    /// Bytes that the samples of this channel take in a file.
    pub open spec fn data_size(&self) -> int {
        self.samples * self.channel.datatype.spec_size()
    }
}

impl FileChannel {
    /// Size of a channel header entry in bytes
    pub const ENTRY_SIZE: u32 = 124;

    /// Offset of the next addr field from the start of this entry
    pub const NEXT_ADDR_OFFSET: u32 = 4;

    /// Offset of the data addr field from the start of this entry
    pub const DATA_ADDR_OFFSET: u32 = 8;

    /// Calculates the size in bytes of the data section for this channel
    pub fn data_size(&self) -> (r: u32)
        requires
            self@.data_size() <= u32::MAX,
        ensures
            r == self@.data_size(),
    {
        let width: u32 = self.channel.datatype.size() as u32;
        assert(self.samples * width <= u32::MAX) by (nonlinear_arith)
            requires
                self.samples * width == self@.data_size(),
                self@.data_size() <= u32::MAX,
        ;
        self.samples * width
    }
}

/// The event at which a log was recorded.
#[derive(Debug, Clone, PartialEq, Hash)]
pub struct Event {
    /// Max 64 chars
    pub name: String,
    /// Max 64 chars
    pub session: String,
    /// Max 1024 chars
    pub comment: String,
}

/// An event with its texts as character sequences.
pub struct EventView {
    pub name: Seq<char>,
    pub session: Seq<char>,
    pub comment: Seq<char>,
}

impl View for Event {
    type V = EventView;

    open spec fn view(&self) -> EventView {
        EventView { name: self.name@, session: self.session@, comment: self.comment@ }
    }
}

impl Event {
    /// Offset from the start of this structure where venue address exists
    pub const VENUE_ADDR_OFFSET: u64 = 1152;
}

/// The venue of an event.
#[derive(Debug, Clone, PartialEq, Hash)]
pub struct Venue {
    /// Max 64 chars
    pub name: String,
}

/// A venue with its name as a character sequence.
pub struct VenueView {
    pub name: Seq<char>,
}

impl View for Venue {
    type V = VenueView;

    open spec fn view(&self) -> VenueView {
        VenueView { name: self.name@ }
    }
}

impl Venue {
    /// Offset from the start of this structure where vehicle address exists
    pub const VEHICLE_ADDR_OFFSET: u64 = 1098;
}

/// The vehicle that was logged.
#[derive(Debug, Clone, PartialEq, Hash)]
pub struct Vehicle {
    /// Max 64 chars
    pub id: String,
    pub weight: u32,
    /// Max 32 chars
    pub _type: String,
    /// Max 32 chars
    pub comment: String,
}

/// A vehicle with its texts as character sequences.
pub struct VehicleView {
    pub id: Seq<char>,
    pub weight: u32,
    pub _type: Seq<char>,
    pub comment: Seq<char>,
}

impl View for Vehicle {
    type V = VehicleView;

    open spec fn view(&self) -> VehicleView {
        VehicleView { id: self.id@, weight: self.weight, _type: self._type@, comment: self.comment@ }
    }
}

} // verus!
