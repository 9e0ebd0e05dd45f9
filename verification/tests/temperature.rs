use byteorder::{LittleEndian, WriteBytesExt};
use sysctl::{temperature, CtlInfo, CtlType, CtlValue, Temperature};

#[test]
fn ctl_temperature_ik() {
    let info = CtlInfo {
        ctl_type: CtlType::Int,
        fmt: "IK".into(),
        flags: 0,
    };
    let mut val = vec![];
    // Default value (IK) in deciKelvin integer
    val.write_i32::<LittleEndian>(3330)
        .expect("Error parsing value to byte array");

    let t = temperature(&info, &val).unwrap();
    if let CtlValue::Temperature(tt) = t {
        let kelvin = tt.units() as f32 / tt.scale() as f32;
        let celsius = kelvin - 273.15;
        let fahrenheit = 1.8 * celsius + 32.0;
        assert!(kelvin - 333.0 < 0.1);
        assert!(celsius - 59.85 < 0.1);
        assert!(fahrenheit - 139.73 < 0.1);
    } else {
        assert!(false);
    }
}

#[test]
fn ctl_temperature_ik3() {
    let info = CtlInfo {
        ctl_type: CtlType::Int,
        fmt: "IK3".into(),
        flags: 0,
    };
    let mut val = vec![];
    // Set value in milliKelvin
    val.write_i32::<LittleEndian>(333000)
        .expect("Error parsing value to byte array");

    let t = temperature(&info, &val).unwrap();
    if let CtlValue::Temperature(tt) = t {
        let kelvin = tt.units() as f32 / tt.scale() as f32;
        assert!(kelvin - 333.0 < 0.1);
    } else {
        assert!(false);
    }
}

#[test]
fn temperature_scale_is_ten_to_the_digit() {
    let info = CtlInfo { ctl_type: CtlType::Int, fmt: "IK3\0".into(), flags: 0 };
    let t = temperature(&info, &vec![0xc8, 0x14, 0x05, 0x00]).unwrap();
    assert_eq!(t, CtlValue::Temperature(Temperature::new(333_000, 1000)));
    match t {
        CtlValue::Temperature(tt) => {
            assert_eq!(tt.units(), 333_000);
            assert_eq!(tt.scale(), 1000);
        }
        _ => panic!("not a temperature"),
    }
}

#[test]
fn temperature_defaults_to_decikelvin() {
    // With the terminating byte after "IK", the third byte is no digit.
    let info = CtlInfo { ctl_type: CtlType::Int, fmt: "IK\0".into(), flags: 0 };
    match temperature(&info, &vec![0x02, 0x0d, 0, 0]).unwrap() {
        CtlValue::Temperature(tt) => {
            assert_eq!(tt.units(), 3330);
            assert_eq!(tt.scale(), 10);
        }
        _ => panic!("not a temperature"),
    }
    let info = CtlInfo { ctl_type: CtlType::Int, fmt: "IKx".into(), flags: 0 };
    match temperature(&info, &vec![0x02, 0x0d, 0, 0]).unwrap() {
        CtlValue::Temperature(tt) => assert_eq!(tt.scale(), 10),
        _ => panic!("not a temperature"),
    }
}

#[test]
fn temperature_with_zero_places_is_whole_kelvin() {
    let info = CtlInfo { ctl_type: CtlType::U16, fmt: "IK0".into(), flags: 0 };
    match temperature(&info, &vec![0x4d, 0x01]).unwrap() {
        CtlValue::Temperature(tt) => {
            assert_eq!(tt.units(), 333);
            assert_eq!(tt.scale(), 1);
        }
        _ => panic!("not a temperature"),
    }
}

#[test]
fn temperature_reads_signed_and_wide_types() {
    let info = CtlInfo { ctl_type: CtlType::S8, fmt: "IK".into(), flags: 0 };
    match temperature(&info, &vec![0xff]).unwrap() {
        CtlValue::Temperature(tt) => assert_eq!(tt.units(), -1),
        _ => panic!("not a temperature"),
    }
    let info = CtlInfo { ctl_type: CtlType::U64, fmt: "IK".into(), flags: 0 };
    match temperature(&info, &vec![0xff; 8]).unwrap() {
        CtlValue::Temperature(tt) => assert_eq!(tt.units(), u64::MAX as i128),
        _ => panic!("not a temperature"),
    }
    let info = CtlInfo { ctl_type: CtlType::Long, fmt: "IK".into(), flags: 0 };
    match temperature(&info, &vec![0xfe, 0xff, 0xff, 0xff, 0xff, 0xff, 0xff, 0xff]).unwrap() {
        CtlValue::Temperature(tt) => assert_eq!(tt.units(), -2),
        _ => panic!("not a temperature"),
    }
    let info = CtlInfo { ctl_type: CtlType::S16, fmt: "IK".into(), flags: 0 };
    match temperature(&info, &vec![0x00, 0x80]).unwrap() {
        CtlValue::Temperature(tt) => assert_eq!(tt.units(), -32768),
        _ => panic!("not a temperature"),
    }
}

#[test]
fn temperature_of_a_string_has_no_reading() {
    let info = CtlInfo { ctl_type: CtlType::String, fmt: "IK".into(), flags: 0 };
    assert_eq!(
        temperature(&info, &vec![b'a', 0]),
        Err("No matching type for value".to_string())
    );
    let info = CtlInfo { ctl_type: CtlType::Node, fmt: "IK".into(), flags: 0 };
    assert_eq!(
        temperature(&info, &vec![]),
        Err("No matching type for value".to_string())
    );
}

#[test]
fn temperatures_compare_in_single_precision_kelvin() {
    let a = Temperature::new(3330, 10);
    let b = Temperature::new(333_000, 1000);
    let c = Temperature::new(3331, 10);
    assert!(a == b);
    assert!(a != c);
    assert!(a < c);
    assert!(c > b);
    assert_eq!(a.partial_cmp(&b), Some(std::cmp::Ordering::Equal));
    // 2^24 + 1 is no f32: it rounds to 2^24
    assert!(Temperature::new(16_777_217, 1) == Temperature::new(16_777_216, 1));
    assert!(Temperature::new(16_777_219, 1) > Temperature::new(16_777_217, 1));
    assert!(Temperature::new(-1, 1) < Temperature::new(0, 10));
    assert!(Temperature::new(0, 1) == Temperature::new(0, 1000));
}

fn single_kelvin(t: &Temperature) -> f32 {
    t.units() as f32 / t.scale() as f32
}

#[test]
fn temperature_order_agrees_with_f32() {
    let units: Vec<i128> = vec![
        0, 1, -1, 2, 3, 7, 10, 333, 3330, 333_000, 16_777_215, 16_777_216, 16_777_217,
        16_777_218, 16_777_219, -16_777_217, 33_554_431, 123_456_789, 999_999_999,
        1_000_000_001, 9_007_199_254_740_993, -9_007_199_254_740_993,
        0xffff_ffff_ffff_ffff, -0xffff_ffff_ffff_ffff, 0x7fff_ffff_ffff_ffff,
        4_294_967_295, -2_147_483_648, 2_147_483_647, 12_345, 67_108_863, 67_108_865,
    ];
    let scales: Vec<u32> = vec![1, 10, 100, 1000, 10_000, 100_000, 1_000_000, 10_000_000, 100_000_000, 1_000_000_000];
    let mut temps = vec![];
    for u in &units {
        for s in &scales {
            temps.push(Temperature::new(*u, *s));
        }
    }
    for x in &temps {
        for y in &temps {
            let (fx, fy) = (single_kelvin(x), single_kelvin(y));
            assert_eq!(x == y, fx == fy, "{:?} {:?}", x, y);
            assert_eq!(x.partial_cmp(y), fx.partial_cmp(&fy), "{:?} {:?}", x, y);
        }
    }
}
