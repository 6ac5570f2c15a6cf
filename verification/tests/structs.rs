use motec_i2::{Datatype, FileAddr, I2Error, Sample};

#[test]
fn datatype_table() {
    assert_eq!(Datatype::from_type_and_size(0, 2), Ok(Datatype::Beacon16));
    assert_eq!(Datatype::from_type_and_size(0, 4), Ok(Datatype::Beacon32));
    assert_eq!(Datatype::from_type_and_size(3, 2), Ok(Datatype::I16));
    assert_eq!(Datatype::from_type_and_size(3, 4), Ok(Datatype::I32));
    assert_eq!(Datatype::from_type_and_size(5, 2), Ok(Datatype::I16));
    assert_eq!(Datatype::from_type_and_size(5, 4), Ok(Datatype::I32));
    assert_eq!(Datatype::from_type_and_size(7, 2), Ok(Datatype::F16));
    assert_eq!(Datatype::from_type_and_size(7, 4), Ok(Datatype::F32));
    assert_eq!(Datatype::from_type_and_size(17536, 5), Ok(Datatype::Invalid));
    assert_eq!(Datatype::from_type_and_size(6566, 5), Ok(Datatype::Invalid));
    assert_eq!(Datatype::from_type_and_size(29813, 5), Ok(Datatype::Invalid));
    assert_eq!(Datatype::from_type_and_size(0, 5), Ok(Datatype::Invalid));
    assert_eq!(Datatype::from_type_and_size(15, 5), Ok(Datatype::Invalid));
}

#[test]
fn datatype_outside_the_table() {
    assert_eq!(
        Datatype::from_type_and_size(3, 5),
        Err(I2Error::UnrecognizedDatatype { _type: 3, size: 5 })
    );
    assert_eq!(
        Datatype::from_type_and_size(1, 2),
        Err(I2Error::UnrecognizedDatatype { _type: 1, size: 2 })
    );
    assert_eq!(
        Datatype::from_type_and_size(999, 0),
        Err(I2Error::UnrecognizedDatatype { _type: 999, size: 0 })
    );
    assert_eq!(
        Datatype::from_type_and_size(65535, 65535),
        Err(I2Error::UnrecognizedDatatype { _type: 65535, size: 65535 })
    );
}

#[test]
fn datatype_sizes_and_codes() {
    assert_eq!(Datatype::Beacon16.size(), 2);
    assert_eq!(Datatype::I16.size(), 2);
    assert_eq!(Datatype::F16.size(), 2);
    assert_eq!(Datatype::Beacon32.size(), 4);
    assert_eq!(Datatype::I32.size(), 4);
    assert_eq!(Datatype::F32.size(), 4);
    assert_eq!(Datatype::Invalid.size(), 0);

    assert_eq!(Datatype::Beacon16._type(), 0);
    assert_eq!(Datatype::Beacon32._type(), 0);
    assert_eq!(Datatype::I16._type(), 3);
    assert_eq!(Datatype::I32._type(), 3);
    assert_eq!(Datatype::F16._type(), 7);
    assert_eq!(Datatype::F32._type(), 7);
    assert_eq!(Datatype::Invalid._type(), 999);
}

#[test]
fn datatype_is_found_again_under_its_code_and_width() {
    for (code, width) in [(0u16, 2u16), (0, 4), (3, 2), (3, 4), (5, 2), (5, 4), (7, 2), (7, 4)] {
        let datatype = Datatype::from_type_and_size(code, width).unwrap();
        assert_eq!(datatype.size(), width);
        assert_eq!(
            Datatype::from_type_and_size(datatype._type(), datatype.size()),
            Ok(datatype)
        );
    }
    // the pairs that stand for no usable data do not keep their width
    assert_eq!(Datatype::from_type_and_size(0, 5).unwrap().size(), 0);
}

#[test]
fn file_addr_arithmetic() {
    assert!(FileAddr::zero().is_zero());
    assert!(!FileAddr::from(1u32).is_zero());
    assert_eq!(FileAddr::zero(), FileAddr(0));
    assert_eq!(FileAddr::from(13384u32) + 4u32, FileAddr(13388));
    assert_eq!(FileAddr::from(1762u32) + 1152u64, FileAddr(2914));
    assert_eq!(FileAddr::from(0x1336u16), FileAddr(4918));
    assert_eq!(FileAddr(u32::MAX - 1) + 1u32, FileAddr(u32::MAX));
    assert_eq!(u32::from(FileAddr(77)), 77);
    assert_eq!(FileAddr(77).as_u32(), 77);
    assert_eq!(FileAddr(0x3448).seek(), 13384u64);
    assert!(FileAddr(5) < FileAddr(6));
}

#[test]
fn sample_holds_a_float_as_its_bits() {
    let sample = Sample::F32(19.9f32.to_bits());
    match sample {
        Sample::F32(bits) => assert_eq!(f32::from_bits(bits), 19.9f32),
        _ => unreachable!(),
    }
    assert_ne!(Sample::I32(1), Sample::F32(1));
}
