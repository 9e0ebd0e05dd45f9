use sysctl::{decode_value, description_text, oidfmt, trim_oid, CtlInfo, CtlType, CtlValue};

fn info(ctl_type: CtlType, fmt: &str) -> CtlInfo {
    CtlInfo { ctl_type, fmt: fmt.to_string(), flags: 0 }
}

#[test]
fn decode_int_is_little_endian() {
    assert_eq!(
        decode_value(&info(CtlType::Int, "I\0"), vec![0x02, 0x0d, 0x00, 0x00]),
        Ok(CtlValue::Int(3330))
    );
    assert_eq!(
        decode_value(&info(CtlType::Int, "I\0"), vec![0xff, 0xff, 0xff, 0xff]),
        Ok(CtlValue::Int(-1))
    );
}

#[test]
fn decode_unsigned_types() {
    assert_eq!(
        decode_value(&info(CtlType::Uint, "IU"), vec![1, 2, 3, 4]),
        Ok(CtlValue::Uint(0x0403_0201))
    );
    assert_eq!(
        decode_value(&info(CtlType::U32, "IU"), vec![1, 2, 3, 4, 9]),
        Ok(CtlValue::U32(0x0403_0201))
    );
    assert_eq!(
        decode_value(&info(CtlType::U16, "Q\0"), vec![0x34, 0x12]),
        Ok(CtlValue::U16(0x1234))
    );
    assert_eq!(decode_value(&info(CtlType::U8, "C\0"), vec![0xfe]), Ok(CtlValue::U8(0xfe)));
    assert_eq!(
        decode_value(&info(CtlType::U64, "QU"), vec![1, 2, 3, 4, 5, 6, 7, 8]),
        Ok(CtlValue::U64(0x0807_0605_0403_0201))
    );
    assert_eq!(
        decode_value(&info(CtlType::Ulong, "LU"), vec![1, 0, 0, 0, 0, 0, 0, 0x80]),
        Ok(CtlValue::Ulong(0x8000_0000_0000_0001))
    );
    assert_eq!(
        decode_value(&info(CtlType::S64, "Q\0"), vec![0xff; 8]),
        Ok(CtlValue::S64(u64::MAX))
    );
}

#[test]
fn decode_signed_types() {
    assert_eq!(decode_value(&info(CtlType::S8, "C\0"), vec![0x80]), Ok(CtlValue::S8(-128)));
    assert_eq!(
        decode_value(&info(CtlType::S16, "S\0"), vec![0xfe, 0xff]),
        Ok(CtlValue::S16(-2))
    );
    assert_eq!(
        decode_value(&info(CtlType::S32, "I\0"), vec![0x00, 0x00, 0x00, 0x80]),
        Ok(CtlValue::S32(i32::MIN))
    );
    assert_eq!(
        decode_value(&info(CtlType::Long, "L\0"), vec![0xfd, 0xff, 0xff, 0xff, 0xff, 0xff, 0xff, 0xff]),
        Ok(CtlValue::Long(-3))
    );
}

#[test]
fn decode_string_drops_terminator() {
    assert_eq!(
        decode_value(&info(CtlType::String, "A\0"), b"13.2-RELEASE\0".to_vec()),
        Ok(CtlValue::String("13.2-RELEASE".to_string()))
    );
    assert_eq!(
        decode_value(&info(CtlType::String, "A\0"), vec![0]),
        Ok(CtlValue::String(String::new()))
    );
}

#[test]
fn decode_string_that_is_not_utf8() {
    assert_eq!(
        decode_value(&info(CtlType::String, "A\0"), vec![0xff, 0xfe, 0]),
        Err("Error parsing string".to_string())
    );
}

#[test]
fn decode_node_and_struct_keep_bytes() {
    assert_eq!(
        decode_value(&info(CtlType::Node, "N\0"), vec![1, 2, 3]),
        Ok(CtlValue::Node(vec![1, 2, 3]))
    );
    assert_eq!(
        decode_value(&info(CtlType::Struct, "S,clockinfo"), vec![9, 8]),
        Ok(CtlValue::Struct(vec![9, 8]))
    );
}

#[test]
fn decode_temperature_type_without_format_fails() {
    assert_eq!(
        decode_value(&info(CtlType::Temperature, "T\0"), vec![]),
        Err("No matching type for value".to_string())
    );
}

#[test]
fn decode_ik_format_is_a_temperature() {
    match decode_value(&info(CtlType::Int, "IK\0"), vec![0x02, 0x0d, 0, 0]) {
        Ok(CtlValue::Temperature(t)) => {
            assert_eq!(t.units(), 3330);
            assert_eq!(t.scale(), 10);
        }
        other => panic!("unexpected {:?}", other),
    }
}

#[test]
fn is_temperature_looks_at_first_two_bytes() {
    assert!(info(CtlType::Int, "IK").is_temperature());
    assert!(info(CtlType::Int, "IK3").is_temperature());
    assert!(!info(CtlType::Int, "I\0").is_temperature());
    assert!(!info(CtlType::Int, "KI").is_temperature());
}

#[test]
fn oidfmt_reads_kind_and_format() {
    // kind word 0x80000002: readable, type Int; then "I" and its terminator
    let buf = vec![0x02, 0x00, 0x00, 0x80, b'I', 0, 0xaa, 0xbb];
    let info = oidfmt(&buf, 6).unwrap();
    assert_eq!(info.ctl_type, CtlType::Int);
    assert_eq!(info.fmt, "I\0");
    assert_eq!(info.flags, 0x8000_0002);
    assert_eq!(info.flags & sysctl::consts::CTLFLAG_RD, sysctl::consts::CTLFLAG_RD);
    assert_eq!(info.flags & sysctl::consts::CTLFLAG_WR, 0);
}

#[test]
fn oidfmt_type_is_low_four_bits() {
    let buf = vec![0x03, 0x00, 0x00, 0xc0, b'A', 0];
    let info = oidfmt(&buf, 6).unwrap();
    assert_eq!(info.ctl_type, CtlType::String);
    assert_eq!(info.flags, 0xc000_0003);
    let buf = vec![0x01, 0x00, 0x00, 0x80, b'N', 0];
    assert_eq!(oidfmt(&buf, 6).unwrap().ctl_type, CtlType::Node);
    let buf = vec![0xff, 0x00, 0x00, 0x00];
    let info = oidfmt(&buf, 4).unwrap();
    assert_eq!(info.ctl_type, CtlType::U32);
    assert_eq!(info.fmt, "");
}

#[test]
fn oidfmt_rejects_format_that_is_not_utf8() {
    let buf = vec![0x02, 0x00, 0x00, 0x80, 0xff, 0];
    let e = oidfmt(&buf, 6).unwrap_err();
    assert_eq!(e, std::str::from_utf8(&[0xff, 0]).unwrap_err().to_string());
}

#[test]
fn description_drops_terminator() {
    let mut buf = b"Kernel version\0".to_vec();
    buf.resize(64, 0);
    assert_eq!(description_text(&buf, 15), Ok("Kernel version".to_string()));
}

#[test]
fn description_that_is_not_utf8() {
    let buf = vec![b'a', 0xc3, 0];
    let e = description_text(&buf, 3).unwrap_err();
    assert_eq!(e, std::str::from_utf8(&[b'a', 0xc3]).unwrap_err().to_string());
}

#[test]
fn trim_oid_keeps_filled_integers() {
    // kern.proc.pid is { CTL_KERN, KERN_PROC, KERN_PROC_PID }
    let mut res = vec![0i32; 24];
    res[0] = 1;
    res[1] = 14;
    res[2] = 1;
    assert_eq!(trim_oid(res, 12), vec![1, 14, 1]);
    assert_eq!(trim_oid(vec![5, 6], 100), vec![5, 6]);
    assert_eq!(trim_oid(vec![5, 6], 3), Vec::<i32>::new());
}

#[test]
fn ctl_type_of_value_and_code() {
    assert_eq!(CtlType::from(&CtlValue::Int(1)), CtlType::Int);
    assert_eq!(CtlType::from(&CtlValue::String("x".into())), CtlType::String);
    assert_eq!(CtlType::from(&CtlValue::Struct(vec![])), CtlType::Struct);
    assert_eq!(CtlType::from_code(1), CtlType::Node);
    assert_eq!(CtlType::from_code(15), CtlType::U32);
    assert_eq!(CtlType::from_code(16), CtlType::Temperature);
}
