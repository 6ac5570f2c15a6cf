use motec_i2::wire::{push_i16, push_i32, push_u16, push_u32, push_zeros, put};
use motec_i2::{
    ByteSink, Channel, Datatype, FileAddr, Header, I2Error, LDReader, LDWriter, Sample,
};
use std::iter;

fn sample_header() -> Header {
    Header {
        device_serial: 12007,
        device_type: "ADL".to_string(),
        device_version: 420,
        num_channels: 1,
        date_string: "23/11/2005".to_string(),
        time_string: "09:53:00".to_string(),
        driver: "".to_string(),
        vehicleid: "11A".to_string(),
        venue: "Calder".to_string(),
        session: "2".to_string(),
        short_comment: "second warmup".to_string(),
    }
}

fn air_temp_inlet() -> Channel {
    Channel {
        datatype: Datatype::I16,
        sample_rate: 2,
        offset: 0,
        mul: 1,
        scale: 1,
        dec_places: 1,
        name: "Air Temp Inlet".to_string(),
        short_name: "Air Tem".to_string(),
        unit: "C".to_string(),
    }
}

#[test]
fn test_write_string() {
    let bytes: Vec<u8> = iter::repeat(1u8).take(8).collect();
    let mut writer = LDWriter::new(bytes, sample_header());

    writer.write_string(8, "OK").unwrap();

    let bytes = writer.into_inner();
    assert_eq!(bytes, [79, 75, 0, 0, 0, 0, 0, 0]);
}

#[test]
fn test_write_string_max_len() {
    let bytes: Vec<u8> = iter::repeat(1u8).take(8).collect();
    let mut writer = LDWriter::new(bytes, sample_header());

    writer.write_string(8, "test123456").unwrap();

    let bytes = writer.into_inner();
    assert_eq!(bytes, [116, 101, 115, 116, 49, 50, 51, 52]);
}

#[test]
fn test_write_single_channel() {
    let total_size = 13384 + 132; // header + 1 channel + samples
    let bytes: Vec<u8> = iter::repeat(0u8).take(total_size).collect();

    let channel = air_temp_inlet();

    let samples = vec![
        Sample::I16(0),
        Sample::I16(1),
        Sample::I16(2),
        Sample::I16(3),
    ];

    let mut writer = LDWriter::new(bytes, sample_header()).with_channel(channel, samples);
    writer.write().unwrap();

    const EXPECTED: [u8; 132] = [
        0x00, 0x00, 0x00, 0x00, // prev_addr
        0x00, 0x00, 0x00, 0x00, // next_addr
        0xC4, 0x34, 0x00, 0x00, // data_addr
        0x04, 0x00, 0x00, 0x00, // samples
        // Channel
        0x04, 0x00, 0x03, 0x00, 0x02, 0x00, 0x02, 0x00, 0x00, 0x00, 0x01, 0x00, 0x01, 0x00,
        0x01, 0x00, 0x41, 0x69, 0x72, 0x20, 0x54, 0x65, 0x6D, 0x70, 0x20, 0x49, 0x6E, 0x6C,
        0x65, 0x74, 0x00, 0x00, 0x00, 0x00, 0x00, 0x00, 0x00, 0x00, 0x00, 0x00, 0x00, 0x00,
        0x00, 0x00, 0x00, 0x00, 0x00, 0x00, 0x41, 0x69, 0x72, 0x20, 0x54, 0x65, 0x6D, 0x00,
        0x43, 0x00, 0x00, 0x00, 0x00, 0x00, 0x00, 0x00, 0x00, 0x00, 0x00, 0x00, 0xC9, 0x00,
        0x00, 0x00, 0x00, 0x00, 0x00, 0x00, 0x00, 0x00, 0x00, 0x00, 0x00, 0x00, 0x00, 0x00,
        0x00, 0x00, 0x00, 0x00, 0x00, 0x00, 0x00, 0x00, 0x00, 0x00, 0x00, 0x00, 0x00, 0x00,
        0x00, 0x00, 0x00, 0x00, 0x00, 0x00, 0x00, 0x00, 0x00, 0x00, // Channel end
        // Samples
        0x00, 0x00, // Sample 1
        0x01, 0x00, // Sample 2
        0x02, 0x00, // Sample 3
        0x03, 0x00, // Sample 4
    ];

    let channel_data = writer.into_inner();
    assert_eq!(channel_data[13384..], EXPECTED);
}

/// When writing multiple channels we have to go back and update the previous channels
#[test]
fn test_write_multi_channel() {
    let total_size = 13384 + 132 + 140; // header + 2 channel + samples
    let bytes: Vec<u8> = iter::repeat(0u8).take(total_size).collect();

    let channel0 = air_temp_inlet();
    let channel0_samples = vec![
        Sample::I16(190),
        Sample::I16(192),
        Sample::I16(195),
        Sample::I16(400),
    ];

    let channel1 = Channel {
        datatype: Datatype::I32,
        sample_rate: 10,
        offset: 1,
        mul: 2,
        scale: 2,
        dec_places: 2,
        name: "Engine temp".to_string(),
        short_name: "EngTemp".to_string(),
        unit: "C".to_string(),
    };
    let channel1_samples = vec![
        Sample::I32(387867788),
        Sample::I32(0),
        Sample::I32(10),
        Sample::I32(200),
    ];

    let mut writer = LDWriter::new(bytes, sample_header())
        .with_channel(channel0, channel0_samples)
        .with_channel(channel1, channel1_samples);
    writer.write().unwrap();

    const EXPECTED: [u8; 272] = [
        // Channel 1
        0x00, 0x00, 0x00, 0x00, // prev_addr
        0xC4, 0x34, 0x00, 0x00, // next_addr
        0x40, 0x35, 0x00, 0x00, // data_addr
        0x04, 0x00, 0x00, 0x00, // samples
        // Channel
        0x04, 0x00, 0x03, 0x00, 0x02, 0x00, 0x02, 0x00, 0x00, 0x00, 0x01, 0x00, 0x01, 0x00,
        0x01, 0x00, 0x41, 0x69, 0x72, 0x20, 0x54, 0x65, 0x6D, 0x70, 0x20, 0x49, 0x6E, 0x6C,
        0x65, 0x74, 0x00, 0x00, 0x00, 0x00, 0x00, 0x00, 0x00, 0x00, 0x00, 0x00, 0x00, 0x00,
        0x00, 0x00, 0x00, 0x00, 0x00, 0x00, 0x41, 0x69, 0x72, 0x20, 0x54, 0x65, 0x6D, 0x00,
        0x43, 0x00, 0x00, 0x00, 0x00, 0x00, 0x00, 0x00, 0x00, 0x00, 0x00, 0x00, 0xC9, 0x00,
        0x00, 0x00, 0x00, 0x00, 0x00, 0x00, 0x00, 0x00, 0x00, 0x00, 0x00, 0x00, 0x00, 0x00,
        0x00, 0x00, 0x00, 0x00, 0x00, 0x00, 0x00, 0x00, 0x00, 0x00, 0x00, 0x00, 0x00, 0x00,
        0x00, 0x00, 0x00, 0x00, 0x00, 0x00, 0x00, 0x00, 0x00, 0x00, // Channel end
        // Channel 2
        0x48, 0x34, 0x00, 0x00, // prev_addr
        0x00, 0x00, 0x00, 0x00, // next_addr
        0x48, 0x35, 0x00, 0x00, // data_addr
        0x04, 0x00, 0x00, 0x00, // samples
        // Channel
        0x04, 0x00, // unk
        0x03, 0x00, // datatype._type
        0x04, 0x00, // datatype.size
        0x0A, 0x00, // sample rate
        0x01, 0x00, // offset
        0x02, 0x00, // mul
        0x02, 0x00, // scale
        0x02, 0x00, // dec_places
        0x45, 0x6E, 0x67, 0x69, 0x6E, 0x65, 0x20, 0x74, 0x65, 0x6D, 0x70, 0x00, 0x00, 0x00,
        0x00, 0x00, 0x00, 0x00, 0x00, 0x00, 0x00, 0x00, 0x00, 0x00, 0x00, 0x00, 0x00, 0x00,
        0x00, 0x00, 0x00, 0x00, // channel name
        0x45, 0x6E, 0x67, 0x54, 0x65, 0x6D, 0x70, 0x00, // short name
        0x43, 0x00, 0x00, 0x00, 0x00, 0x00, 0x00, 0x00, 0x00, 0x00, 0x00, 0x00, // unit
        // Rest
        0xC9, 0x00, 0x00, 0x00, 0x00, 0x00, 0x00, 0x00, 0x00, 0x00, 0x00, 0x00, 0x00, 0x00,
        0x00, 0x00, 0x00, 0x00, 0x00, 0x00, 0x00, 0x00, 0x00, 0x00, 0x00, 0x00, 0x00, 0x00,
        0x00, 0x00, 0x00, 0x00, 0x00, 0x00, 0x00, 0x00, 0x00, 0x00, 0x00,
        0x00, // Channel end
        // Data Section
        0xBE, 0x00, // CH1S1
        0xC0, 0x00, // CH1S2
        0xC3, 0x00, // CH1S3
        0x90, 0x01, // CH1S4
        0x8C, 0x64, 0x1E, 0x17, // CH2S1
        0x00, 0x00, 0x00, 0x00, // CH2S2
        0x0A, 0x00, 0x00, 0x00, // CH2S3
        0xC8, 0x00, 0x00, 0x00, // CH2S4
    ];

    let channel_data = writer.into_inner();
    assert_eq!(channel_data[13384..], EXPECTED);
}

#[test]
fn write_header_layout() {
    let mut writer = LDWriter::new(Vec::new(), sample_header())
        .with_channel(air_temp_inlet(), vec![Sample::I16(7)]);
    writer.write().unwrap();
    let image = writer.into_inner();

    assert_eq!(image.len(), 13384 + 124 + 2);
    // the marker, then four reserved bytes
    assert_eq!(image[0..8], [64, 0, 0, 0, 0, 0, 0, 0]);
    // address of the first channel record, address of the first samples
    assert_eq!(image[8..12], [0x48, 0x34, 0, 0]);
    assert_eq!(image[12..16], [0xC4, 0x34, 0, 0]);
    // no event
    assert_eq!(image[36..40], [0, 0, 0, 0]);
    // the three constants in front of the serial number
    assert_eq!(image[64..70], [0x00, 0x00, 0x40, 0x42, 0x0F, 0x00]);
    // serial number 12007 = 0x2EE7
    assert_eq!(image[70..74], [0xE7, 0x2E, 0, 0]);
    assert_eq!(image[74..82], [b'A', b'D', b'L', 0, 0, 0, 0, 0]);
    // device version 420 = 0x01A4, then the constant 0x0080
    assert_eq!(image[82..86], [0xA4, 0x01, 0x80, 0x00]);
    // one channel, then the constant 0x00010064
    assert_eq!(image[86..94], [1, 0, 0, 0, 0x64, 0x00, 0x01, 0x00]);
    assert_eq!(image[94..104], *b"23/11/2005");
    assert_eq!(image[126..134], *b"09:53:00");
    assert_eq!(image[158], 0);
    assert_eq!(image[222..225], *b"11A");
    assert_eq!(image[350..356], *b"Calder");
    assert_eq!(image[1502..1508], [0x22, 0x08, 0xD2, 0x00, 0x00, 0x00]);
    assert_eq!(image[1508], b'2');
    assert_eq!(image[1572..1585], *b"second warmup");
    assert_eq!(image[1644], 99);
    assert!(image[1645..1762].iter().all(|b| *b == 0));
    // nothing was written between the header and the first channel record
    assert!(image[1762..13384].iter().all(|b| *b == 0));
}

#[test]
fn write_without_channels_fails_after_the_header() {
    let mut writer = LDWriter::new(vec![7u8; 4], sample_header());
    let outcome = writer.write();
    assert_eq!(outcome, Err(I2Error::NoChannelsWritten));

    let image = writer.into_inner();
    assert_eq!(image.len(), 1762);
    assert_eq!(image[0..4], [64, 0, 0, 0]);
    // the header points at nothing
    assert_eq!(image[8..16], [0; 8]);
    assert_eq!(
        LDReader::new(&image).read_header().unwrap(),
        sample_header()
    );
}

#[test]
fn write_keeps_what_the_sink_held_elsewhere() {
    let total_size = 13384 + 124 + 2 + 5;
    let mut writer = LDWriter::new(vec![0xEEu8; total_size], sample_header())
        .with_channel(air_temp_inlet(), vec![Sample::I16(-2)]);
    writer.write().unwrap();
    let image = writer.into_inner();

    assert_eq!(image.len(), total_size);
    assert!(image[1762..13384].iter().all(|b| *b == 0xEE));
    assert_eq!(image[13384 + 124..13384 + 126], [0xFE, 0xFF]);
    assert!(image[13384 + 126..].iter().all(|b| *b == 0xEE));
}

#[test]
fn written_links_name_the_neighbours() {
    let mut writer = LDWriter::new(Vec::new(), sample_header())
        .with_channel(air_temp_inlet(), vec![Sample::I16(1), Sample::I16(2)])
        .with_channel(
            Channel { datatype: Datatype::F32, ..air_temp_inlet() },
            vec![Sample::F32(1.5f32.to_bits())],
        )
        .with_channel(
            Channel { datatype: Datatype::Beacon32, ..air_temp_inlet() },
            vec![Sample::I32(-1), Sample::I32(5), Sample::I32(6)],
        );
    writer.write().unwrap();
    let image = writer.into_inner();

    let first = 13384u32;
    let data = first + 3 * 124;
    assert_eq!(image.len() as u32, data + 4 + 4 + 12);

    let mut reader = LDReader::new(&image);
    let channels = reader.read_channels().unwrap();
    assert_eq!(channels.len(), 3);

    assert_eq!(channels[0].prev_addr, FileAddr(0));
    assert_eq!(channels[0].next_addr, FileAddr(first + 124));
    assert_eq!(channels[0].data_addr, FileAddr(data));
    assert_eq!(channels[0].samples, 2);

    assert_eq!(channels[1].prev_addr, FileAddr(first));
    assert_eq!(channels[1].next_addr, FileAddr(first + 248));
    assert_eq!(channels[1].data_addr, FileAddr(data + 4));
    assert_eq!(channels[1].samples, 1);

    assert_eq!(channels[2].prev_addr, FileAddr(first + 124));
    assert_eq!(channels[2].next_addr, FileAddr(0));
    assert_eq!(channels[2].data_addr, FileAddr(data + 8));
    assert_eq!(channels[2].samples, 3);

    // the samples stand where the records say
    assert_eq!(image[(data + 4) as usize..(data + 8) as usize], 1.5f32.to_le_bytes());
    assert_eq!(image[(data + 8) as usize..(data + 12) as usize], [0xFF; 4]);
}

#[test]
fn push_integers_least_significant_byte_first() {
    let mut out = vec![9u8];
    push_u16(&mut out, 0x1234);
    push_i16(&mut out, -2);
    push_u32(&mut out, 0x89ABCDEF);
    push_i32(&mut out, -1_000_000);
    push_zeros(&mut out, 3);
    assert_eq!(
        out,
        [9, 0x34, 0x12, 0xFE, 0xFF, 0xEF, 0xCD, 0xAB, 0x89, 0xC0, 0xBD, 0xF0, 0xFF, 0, 0, 0]
    );
}

#[test]
fn put_fills_the_gap_with_zeros() {
    let mut sink = vec![1u8, 2, 3];
    put(&mut sink, 5, &[8, 9]);
    assert_eq!(sink, [1, 2, 3, 0, 0, 8, 9]);

    put(&mut sink, 1, &[7, 7]);
    assert_eq!(sink, [1, 7, 7, 0, 0, 8, 9]);

    put(&mut sink, 6, &[4, 5, 6]);
    assert_eq!(sink, [1, 7, 7, 0, 0, 8, 4, 5, 6]);

    put(&mut sink, 12, &[]);
    assert_eq!(sink, [1, 7, 7, 0, 0, 8, 4, 5, 6, 0, 0, 0]);
}

#[test]
fn sink_writes_move_the_position() {
    let mut sink = ByteSink::new(vec![0xAA; 6]);
    sink.seek(2);
    sink.write(&[1, 2]);
    sink.write_string(3, "héllo");
    // "hé" takes three bytes: the text is cut after them
    assert_eq!(sink.into_inner(), [0xAA, 0xAA, 1, 2, b'h', 0xC3, 0xA9]);
}

#[test]
fn sink_writes_samples_by_their_kind() {
    let mut sink = ByteSink::new(Vec::new());
    sink.write_samples(
        2,
        &vec![Sample::I16(-32768), Sample::I32(i32::MIN), Sample::F32(0x3FC0_0000), Sample::I16(258)],
    );
    assert_eq!(
        sink.into_inner(),
        [0, 0, 0x00, 0x80, 0x00, 0x00, 0x00, 0x80, 0x00, 0x00, 0xC0, 0x3F, 0x02, 0x01]
    );
}

#[test]
fn small_layouts_fit() {
    let writer = LDWriter::new(Vec::new(), sample_header());
    assert!(writer.fits());
    let writer = writer
        .with_channel(air_temp_inlet(), vec![Sample::I16(1); 1000])
        .with_channel(Channel { datatype: Datatype::Invalid, ..air_temp_inlet() }, vec![]);
    assert!(writer.fits());
}

#[test]
fn channel_count_is_that_of_the_list_not_of_the_header() {
    // the header declares one channel, the list holds three
    let mut writer = LDWriter::new(Vec::new(), sample_header())
        .with_channel(air_temp_inlet(), vec![])
        .with_channel(air_temp_inlet(), vec![])
        .with_channel(air_temp_inlet(), vec![]);
    writer.write().unwrap();
    let image = writer.into_inner();

    let mut reader = LDReader::new(&image);
    assert_eq!(reader.read_header().unwrap().num_channels, 1);
    assert_eq!(reader.read_channels().unwrap().len(), 3);
}
