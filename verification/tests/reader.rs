use motec_i2::wire::{decode_text, push_u16};
use motec_i2::{
    AddressTable, ByteSink, Channel, Datatype, Event, FileAddr, FileChannel, Header, I2Error,
    IoErrorKind, LDReader, LDWriter, Sample, Vehicle, Venue,
};

fn header() -> Header {
    Header {
        device_serial: 0x2EE7,
        device_type: "ADL".to_string(),
        device_version: 0x01A4,
        num_channels: 0x4E,
        date_string: "23/11/2005".to_string(),
        time_string: "09:53:00".to_string(),
        driver: "".to_string(),
        vehicleid: "11A".to_string(),
        venue: "Calder".to_string(),
        session: "2".to_string(),
        short_comment: "second warmup".to_string(),
    }
}

fn channel(name: &str, datatype: Datatype) -> Channel {
    Channel {
        datatype,
        sample_rate: 2,
        offset: 0,
        mul: 1,
        scale: 1,
        dec_places: 1,
        name: name.to_string(),
        short_name: "Air Tem".to_string(),
        unit: "C".to_string(),
    }
}

/// The engineering value of a raw sample: divided by the scale, shifted by
/// the decimal places, multiplied, then offset.
fn engineering_value(sample: &Sample, channel: &Channel) -> f64 {
    let value = match sample {
        Sample::I16(v) => *v as f64,
        Sample::I32(v) => *v as f64,
        Sample::F32(bits) => f32::from_bits(*bits) as f64,
    };
    let value = value / channel.scale as f64;
    let value = value * (10.0f64.powi(-channel.dec_places as i32));
    let value = value * channel.mul as f64;
    value + channel.offset as f64
}

/// A file with a header, an event, a venue and a vehicle, each named by the
/// record before it.
fn file_with_event(event_at: u32, venue_at: u16, vehicle_at: u16) -> Vec<u8> {
    let mut sink = ByteSink::new(Vec::new());
    sink.write_header(&header(), 0, 0, event_at);

    sink.seek(event_at as usize);
    sink.write_string(64, "i2 data day");
    sink.write_string(64, "2");
    sink.write_string(1024, "Calder Park, 23/11/05, fine sunny day");
    let mut link = Vec::new();
    push_u16(&mut link, venue_at);
    sink.write(&link);

    if venue_at != 0 {
        sink.seek(venue_at as usize);
        sink.write_string(64, "Calder");
        sink.seek(venue_at as usize + 1098);
        let mut link = Vec::new();
        push_u16(&mut link, vehicle_at);
        sink.write(&link);
    }

    if vehicle_at != 0 {
        sink.seek(vehicle_at as usize);
        sink.write_string(64, "11A");
        sink.seek(vehicle_at as usize + 192);
        sink.write(&[0x2C, 0x01, 0, 0]);
        sink.write_string(32, "Car");
        sink.write_string(32, "");
    }
    sink.into_inner()
}

#[test]
fn header_round_trip() {
    let mut writer = LDWriter::new(Vec::new(), header())
        .with_channel(channel("Air Temp Inlet", Datatype::I16), vec![Sample::I16(199)]);
    writer.write().unwrap();
    let image = writer.into_inner();

    let mut reader = LDReader::new(&image);
    assert_eq!(reader.read_header().unwrap(), header());
    // a second call reads the same record again
    assert_eq!(reader.read_header().unwrap(), header());
}

#[test]
fn wrong_marker_is_reported_before_anything_else() {
    // four bytes are enough for the marker to be judged
    let mut reader_short = LDReader::new(&[65u8, 0, 0, 0]);
    assert_eq!(
        reader_short.read_header(),
        Err(I2Error::InvalidHeaderMarker { found: 65, expected: 64 })
    );

    let mut writer = LDWriter::new(Vec::new(), header())
        .with_channel(channel("Air Temp Inlet", Datatype::I16), vec![]);
    writer.write().unwrap();
    let mut image = writer.into_inner();
    image[3] = 1;
    assert_eq!(
        LDReader::new(&image).read_header(),
        Err(I2Error::InvalidHeaderMarker { found: 0x0100_0040, expected: 64 })
    );
}

#[test]
fn short_header_is_an_io_error() {
    assert_eq!(
        LDReader::new(&[64u8, 0, 0]).read_header(),
        Err(I2Error::IOError(IoErrorKind::UnexpectedEof))
    );

    let mut writer = LDWriter::new(Vec::new(), header());
    assert_eq!(writer.write(), Err(I2Error::NoChannelsWritten));
    let mut image = writer.into_inner();
    assert_eq!(image.len(), 1762);
    assert!(LDReader::new(&image).read_header().is_ok());
    image.pop();
    assert_eq!(
        LDReader::new(&image).read_header(),
        Err(I2Error::IOError(IoErrorKind::UnexpectedEof))
    );
}

#[test]
fn header_text_that_is_not_utf8_is_reported() {
    let mut writer = LDWriter::new(Vec::new(), header());
    let _ = writer.write();
    let mut image = writer.into_inner();
    // inside the venue field
    image[352] = 0xFF;
    assert_eq!(LDReader::new(&image).read_header(), Err(I2Error::NonUtf8String));

    // a file that ends behind the broken field reports the field, one that
    // ends within it the short read
    image.truncate(350 + 64);
    assert_eq!(LDReader::new(&image).read_header(), Err(I2Error::NonUtf8String));
    image.truncate(350 + 63);
    assert_eq!(
        LDReader::new(&image).read_header(),
        Err(I2Error::IOError(IoErrorKind::UnexpectedEof))
    );
}

#[test]
fn bytes_behind_the_first_zero_are_no_text() {
    let mut writer = LDWriter::new(Vec::new(), header());
    let _ = writer.write();
    let mut image = writer.into_inner();
    // "ADL\0" followed by bytes that are no UTF-8
    image[74 + 5] = 0xFF;
    assert_eq!(LDReader::new(&image).read_header().unwrap().device_type, "ADL");
}

#[test]
fn addresses_event_venue_vehicle() {
    let image = file_with_event(0x06E2, 0x1336, 0x1F54);
    let mut reader = LDReader::new(&image);

    assert_eq!(
        reader.resolve_addresses(),
        Ok(AddressTable {
            channel_meta: FileAddr(0),
            channel_data: FileAddr(0),
            event: FileAddr(0x06E2),
            venue: FileAddr(0x1336),
            vehicle: FileAddr(0x1F54),
        })
    );
    assert_eq!(
        reader.read_event().unwrap(),
        Some(Event {
            name: "i2 data day".to_string(),
            session: "2".to_string(),
            comment: "Calder Park, 23/11/05, fine sunny day".to_string(),
        })
    );
    assert_eq!(reader.read_venue().unwrap(), Some(Venue { name: "Calder".to_string() }));
    assert_eq!(
        reader.read_vehicle().unwrap(),
        Some(Vehicle {
            id: "11A".to_string(),
            weight: 300,
            _type: "Car".to_string(),
            comment: "".to_string(),
        })
    );
    assert_eq!(reader.read_channels().unwrap(), vec![]);
}

#[test]
fn zero_link_ends_the_chain_of_records() {
    let no_vehicle = file_with_event(1762, 4918, 0);
    let mut reader = LDReader::new(&no_vehicle);
    assert!(reader.read_event().unwrap().is_some());
    assert!(reader.read_venue().unwrap().is_some());
    assert_eq!(reader.read_vehicle().unwrap(), None);

    let no_venue = file_with_event(1762, 0, 0);
    let mut reader = LDReader::new(&no_venue);
    assert!(reader.read_event().unwrap().is_some());
    assert_eq!(reader.read_venue().unwrap(), None);
    assert_eq!(reader.read_vehicle().unwrap(), None);

    let mut writer = LDWriter::new(Vec::new(), header());
    let _ = writer.write();
    let no_event = writer.into_inner();
    let mut reader = LDReader::new(&no_event);
    assert_eq!(reader.read_event().unwrap(), None);
    assert_eq!(reader.read_venue().unwrap(), None);
    assert_eq!(reader.read_vehicle().unwrap(), None);
}

#[test]
fn event_link_beyond_the_file_is_an_io_error() {
    let mut image = file_with_event(1762, 0, 0);
    // the venue link is the last thing in the file
    assert_eq!(image.len(), 1762 + 1154);
    image.pop();
    let mut reader = LDReader::new(&image);
    assert_eq!(reader.read_event(), Err(I2Error::IOError(IoErrorKind::UnexpectedEof)));
    assert_eq!(reader.read_channels(), Err(I2Error::IOError(IoErrorKind::UnexpectedEof)));
    // the header itself is whole
    assert!(reader.read_header().is_ok());
}

#[test]
fn channels_round_trip() {
    let first = channel("Air Temp Inlet", Datatype::I16);
    let second = Channel {
        datatype: Datatype::I32,
        sample_rate: 10,
        offset: 1,
        mul: 2,
        scale: 2,
        dec_places: -2,
        name: "Engine temp".to_string(),
        short_name: "EngTemp".to_string(),
        unit: "C".to_string(),
    };
    let mut writer = LDWriter::new(Vec::new(), header())
        .with_channel(first.clone(), vec![Sample::I16(190), Sample::I16(-192)])
        .with_channel(second.clone(), vec![Sample::I32(387867788), Sample::I32(-10)]);
    writer.write().unwrap();
    let image = writer.into_inner();

    let mut reader = LDReader::new(&image);
    let channels = reader.read_channels().unwrap();
    assert_eq!(
        channels,
        vec![
            FileChannel {
                prev_addr: FileAddr(0),
                next_addr: FileAddr(13508),
                data_addr: FileAddr(13632),
                samples: 2,
                channel: first,
            },
            FileChannel {
                prev_addr: FileAddr(13384),
                next_addr: FileAddr(0),
                data_addr: FileAddr(13636),
                samples: 2,
                channel: second,
            },
        ]
    );
    assert_eq!(
        reader.channel_data(&channels[0]).unwrap(),
        vec![Sample::I16(190), Sample::I16(-192)]
    );
    assert_eq!(
        reader.channel_data(&channels[1]).unwrap(),
        vec![Sample::I32(387867788), Sample::I32(-10)]
    );
    assert_eq!(channels[0].data_size(), 4);
    assert_eq!(channels[1].data_size(), 8);
}

#[test]
fn float_and_beacon_samples_round_trip() {
    let floats = vec![Sample::F32(19.9f32.to_bits()), Sample::F32((-0.5f32).to_bits())];
    let beacons = vec![Sample::I16(-1), Sample::I16(258)];
    let wide = vec![Sample::I32(i32::MIN), Sample::I32(i32::MAX)];
    let mut writer = LDWriter::new(Vec::new(), header())
        .with_channel(channel("f", Datatype::F32), floats.clone())
        .with_channel(channel("b", Datatype::Beacon16), beacons.clone())
        .with_channel(channel("w", Datatype::Beacon32), wide.clone());
    writer.write().unwrap();
    let image = writer.into_inner();

    let mut reader = LDReader::new(&image);
    let channels = reader.read_channels().unwrap();
    assert_eq!(channels[0].channel.datatype, Datatype::F32);
    assert_eq!(channels[1].channel.datatype, Datatype::Beacon16);
    assert_eq!(channels[2].channel.datatype, Datatype::Beacon32);
    assert_eq!(reader.channel_data(&channels[0]).unwrap(), floats);
    assert_eq!(reader.channel_data(&channels[1]).unwrap(), beacons);
    assert_eq!(reader.channel_data(&channels[2]).unwrap(), wide);
}

#[test]
fn zero_next_address_ends_the_list() {
    let mut writer = LDWriter::new(Vec::new(), header())
        .with_channel(channel("only", Datatype::I16), vec![Sample::I16(1)]);
    writer.write().unwrap();
    let mut image = writer.into_inner();
    // what follows the record is no record: it is never looked at
    image.truncate(13384 + 124);
    image.extend_from_slice(&[0xFF; 300]);

    let channels = LDReader::new(&image).read_channels().unwrap();
    assert_eq!(channels.len(), 1);
    assert_eq!(channels[0].next_addr, FileAddr(0));
    assert_eq!(channels[0].channel.name, "only");
}

#[test]
fn empty_list_when_the_header_names_no_record() {
    let mut writer = LDWriter::new(Vec::new(), header());
    let _ = writer.write();
    let image = writer.into_inner();
    assert_eq!(LDReader::new(&image).read_channels().unwrap(), vec![]);
}

#[test]
fn list_that_runs_in_a_circle_is_refused() {
    let mut writer = LDWriter::new(Vec::new(), header())
        .with_channel(channel("a", Datatype::I16), vec![])
        .with_channel(channel("b", Datatype::I16), vec![]);
    writer.write().unwrap();
    let mut image = writer.into_inner();
    // the second record names the first as the one behind it
    image[13508 + 4..13508 + 8].copy_from_slice(&13384u32.to_le_bytes());
    assert_eq!(LDReader::new(&image).read_channels(), Err(I2Error::CyclicChannelList));

    // a record that names itself
    image[13384 + 4..13384 + 8].copy_from_slice(&13384u32.to_le_bytes());
    assert_eq!(LDReader::new(&image).read_channels(), Err(I2Error::CyclicChannelList));
}

#[test]
fn unknown_datatype_is_reported_with_code_and_width() {
    let mut writer = LDWriter::new(Vec::new(), header())
        .with_channel(channel("a", Datatype::I16), vec![]);
    writer.write().unwrap();
    let mut image = writer.into_inner();
    image[13384 + 18..13384 + 22].copy_from_slice(&[9, 0, 8, 0]);
    assert_eq!(
        LDReader::new(&image).read_channels(),
        Err(I2Error::UnrecognizedDatatype { _type: 9, size: 8 })
    );

    // the datatype is judged before the texts and before the end of the record
    image[13384 + 40] = 0xFF;
    image.truncate(13384 + 22);
    assert_eq!(
        LDReader::new(&image).read_channels(),
        Err(I2Error::UnrecognizedDatatype { _type: 9, size: 8 })
    );
    image.truncate(13384 + 21);
    assert_eq!(
        LDReader::new(&image).read_channels(),
        Err(I2Error::IOError(IoErrorKind::UnexpectedEof))
    );
}

#[test]
fn channel_written_as_invalid_is_not_read_back() {
    // its code and width are those of no datatype
    let mut writer = LDWriter::new(Vec::new(), header())
        .with_channel(channel("a", Datatype::Invalid), vec![]);
    writer.write().unwrap();
    let image = writer.into_inner();
    assert_eq!(
        LDReader::new(&image).read_channels(),
        Err(I2Error::UnrecognizedDatatype { _type: 999, size: 0 })
    );
}

#[test]
fn channel_text_that_is_not_utf8_is_reported() {
    let mut writer = LDWriter::new(Vec::new(), header())
        .with_channel(channel("a", Datatype::I16), vec![]);
    writer.write().unwrap();
    let mut image = writer.into_inner();
    image[13384 + 72] = 0x80;
    assert_eq!(LDReader::new(&image).read_channels(), Err(I2Error::NonUtf8String));
}

#[test]
fn channel_record_cut_short_is_an_io_error() {
    let mut writer = LDWriter::new(Vec::new(), header())
        .with_channel(channel("a", Datatype::I16), vec![]);
    writer.write().unwrap();
    let mut image = writer.into_inner();
    assert_eq!(image.len(), 13384 + 124);
    image.pop();
    assert_eq!(
        LDReader::new(&image).read_channels(),
        Err(I2Error::IOError(IoErrorKind::UnexpectedEof))
    );
}

#[test]
fn name_longer_than_its_field_is_cut() {
    let long = "0123456789012345678901234567890123456789";
    let mut writer = LDWriter::new(Vec::new(), header())
        .with_channel(channel(long, Datatype::I16), vec![]);
    writer.write().unwrap();
    let image = writer.into_inner();
    let channels = LDReader::new(&image).read_channels().unwrap();
    assert_eq!(channels[0].channel.name, &long[..32]);
    assert_eq!(channels[0].channel.short_name, "Air Tem");
}

#[test]
fn samples_beyond_the_file_are_an_io_error() {
    let mut writer = LDWriter::new(Vec::new(), header())
        .with_channel(channel("a", Datatype::I16), vec![Sample::I16(1), Sample::I16(2)]);
    writer.write().unwrap();
    let mut image = writer.into_inner();
    image.pop();

    let mut reader = LDReader::new(&image);
    let channels = reader.read_channels().unwrap();
    assert_eq!(
        reader.channel_data(&channels[0]),
        Err(I2Error::IOError(IoErrorKind::UnexpectedEof))
    );
}

#[test]
fn channel_without_samples_reads_as_empty() {
    let image = [0u8; 4];
    let mut reader = LDReader::new(&image);
    for datatype in [Datatype::I16, Datatype::F16, Datatype::Invalid, Datatype::F32] {
        let record = FileChannel {
            prev_addr: FileAddr(0),
            next_addr: FileAddr(0),
            // beyond the end of the file
            data_addr: FileAddr(1000),
            samples: 0,
            channel: channel("a", datatype),
        };
        assert_eq!(reader.channel_data(&record).unwrap(), vec![]);
    }
}

#[test]
fn samples_are_read_least_significant_byte_first() {
    let image = [0xFEu8, 0xFF, 0x34, 0x12, 0x00, 0x00, 0xC0, 0x3F];
    let mut reader = LDReader::new(&image);
    let record = |datatype: Datatype, data_addr: u32, samples: u32| FileChannel {
        prev_addr: FileAddr(0),
        next_addr: FileAddr(0),
        data_addr: FileAddr(data_addr),
        samples,
        channel: channel("a", datatype),
    };
    assert_eq!(
        reader.channel_data(&record(Datatype::I16, 0, 2)).unwrap(),
        vec![Sample::I16(-2), Sample::I16(0x1234)]
    );
    assert_eq!(
        reader.channel_data(&record(Datatype::I32, 0, 1)).unwrap(),
        vec![Sample::I32(0x1234_FFFE)]
    );
    assert_eq!(
        reader.channel_data(&record(Datatype::I32, 4, 1)).unwrap(),
        vec![Sample::I32(0x3FC0_0000)]
    );
    assert_eq!(
        reader.channel_data(&record(Datatype::F32, 4, 1)).unwrap(),
        vec![Sample::F32(1.5f32.to_bits())]
    );
    assert_eq!(
        reader.channel_data(&record(Datatype::Beacon16, 2, 1)).unwrap(),
        vec![Sample::I16(0x1234)]
    );
}

#[test]
fn decode_formula_raw_199_is_19_9() {
    let image = [199u8, 0, 199, 0, 201, 0];
    let record = FileChannel {
        prev_addr: FileAddr(0),
        next_addr: FileAddr(0),
        data_addr: FileAddr(0),
        samples: 3,
        channel: channel("Air Temp Inlet", Datatype::I16),
    };
    let data = LDReader::new(&image).channel_data(&record).unwrap();
    assert_eq!(data, vec![Sample::I16(199), Sample::I16(199), Sample::I16(201)]);

    assert!((engineering_value(&data[0], &record.channel) - 19.9).abs() <= 0.000001);
    assert!((engineering_value(&data[1], &record.channel) - 19.9).abs() <= 0.000001);
    assert!((engineering_value(&data[2], &record.channel) - 20.1).abs() <= 0.000001);

    // without decimal places the raw value is the value
    let plain = Channel { dec_places: 0, ..channel("Brake Temp FL", Datatype::I16) };
    assert_eq!(engineering_value(&Sample::I16(4540), &plain), 4540.0);
}

#[test]
fn end_to_end_air_temp_inlet() {
    let header = Header { num_channels: 1, ..header() };
    let air_temp = channel("Air Temp Inlet", Datatype::I16);
    let raw: Vec<i16> = vec![
        190, 190, 190, 190, 200, 200, 200, 200, 200, 200, 200, 200, 200, 190, 190, 190,
    ];
    let samples: Vec<Sample> = raw.iter().map(|v| Sample::I16(*v)).collect();

    let mut writer =
        LDWriter::new(Vec::new(), header.clone()).with_channel(air_temp.clone(), samples.clone());
    writer.write().unwrap();
    let image = writer.into_inner();

    let mut reader = LDReader::new(&image);
    assert_eq!(reader.read_header().unwrap(), header);
    let channels = reader.read_channels().unwrap();
    assert_eq!(channels.len(), 1);
    assert_eq!(channels[0].channel, air_temp);
    assert_eq!(channels[0].samples, 16);

    let data = reader.channel_data(&channels[0]).unwrap();
    assert_eq!(data, samples);
    let values: Vec<f64> =
        data.iter().map(|s| engineering_value(s, &channels[0].channel)).collect();
    let expected = [
        19.0, 19.0, 19.0, 19.0, 20.0, 20.0, 20.0, 20.0, 20.0, 20.0, 20.0, 20.0, 20.0, 19.0, 19.0,
        19.0,
    ];
    assert_eq!(values.len(), expected.len());
    for (value, wanted) in values.iter().zip(expected.iter()) {
        assert!((value - wanted).abs() <= 0.000001);
    }
}

#[test]
fn text_ends_at_the_first_zero_byte() {
    assert_eq!(decode_text(b"Calder\0\0").unwrap(), "Calder");
    assert_eq!(decode_text(b"Calder x").unwrap(), "Calder x");
    assert_eq!(decode_text(b"\0abc").unwrap(), "");
    assert_eq!(decode_text(b"").unwrap(), "");
    assert_eq!(decode_text("d\u{e9}g \u{20ac}".as_bytes()).unwrap(), "d\u{e9}g \u{20ac}");
    assert_eq!(decode_text(&[b'a', 0xC3]), Err(I2Error::NonUtf8String));
    assert_eq!(decode_text(&[b'a', 0, 0xC3]).unwrap(), "a");
}
