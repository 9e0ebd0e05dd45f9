use sysctl::{decode_value, encode_value, CtlInfo,
    description, set_value, value, value_as, value_oid, value_oid_as, Answer, CtlType, CtlValue,
    Goal, Query, Reply, Stage,
};

fn format_reply(kind: u32, fmt: &[u8]) -> Reply {
    let mut buf = kind.to_le_bytes().to_vec();
    buf.extend_from_slice(fmt);
    let len = buf.len();
    buf.resize(64, 0);
    Reply::Buffer(buf, len)
}

fn step(q: Query, r: Reply) -> Query {
    assert!(q.admits(&r));
    q.step(r)
}

fn done(q: &Query) -> &Result<Answer, String> {
    match &q.stage {
        Stage::Done(r) => r,
        _ => panic!("query not done"),
    }
}

#[test]
fn value_by_name_runs_lookup_format_size_fetch() {
    let q = value("kern.osrevision");
    assert!(matches!(&q.stage, Stage::Resolve(n) if n == "kern.osrevision"));
    let mut res = vec![0i32; 24];
    res[0] = 1;
    res[1] = 3;
    let q = step(q, Reply::Oid(res, 8));
    assert!(matches!(&q.stage, Stage::Format(oid) if *oid == vec![1, 3]));
    let q = step(q, format_reply(0x8000_0002, b"I\0"));
    match &q.stage {
        Stage::Size(oid, info) => {
            assert_eq!(*oid, vec![1, 3]);
            assert_eq!(info.ctl_type, CtlType::Int);
        }
        _ => panic!("expected size stage"),
    }
    let q = step(q, Reply::Size(4));
    assert!(matches!(&q.stage, Stage::Fetch(_, _, 4)));
    let q = step(q, Reply::Buffer(vec![0x5c, 0x8a, 0x14, 0x00], 4));
    assert_eq!(done(&q), &Ok(Answer::Value(CtlValue::Int(1_346_140))));
}

#[test]
fn value_oid_starts_at_format() {
    let q = value_oid(&vec![1, 1]);
    assert!(matches!(&q.stage, Stage::Format(oid) if *oid == vec![1, 1]));
    let q = step(q, format_reply(0x8000_0003, b"A\0"));
    let q = step(q, Reply::Size(8));
    let q = step(q, Reply::Buffer(b"FreeBSD\0".to_vec(), 8));
    assert_eq!(done(&q), &Ok(Answer::Value(CtlValue::String("FreeBSD".to_string()))));
}

#[test]
fn failed_call_is_the_answer() {
    let q = value("no.such.name");
    let q = step(q, Reply::Failed("errno 2: No such file or directory".to_string()));
    assert_eq!(done(&q), &Err("errno 2: No such file or directory".to_string()));
    let q = value_oid(&vec![1, 1]);
    let q = step(q, format_reply(0x8000_0002, b"I\0"));
    let q = step(q, Reply::Failed("errno 1".to_string()));
    assert_eq!(done(&q), &Err("errno 1".to_string()));
}

#[test]
fn done_query_takes_no_reply() {
    let q = value("x");
    let q = step(q, Reply::Failed("e".to_string()));
    assert!(!q.admits(&Reply::Stored));
    assert!(!q.admits(&Reply::Failed("again".to_string())));
}

#[test]
fn reply_must_fit_stage() {
    let q = value("x");
    assert!(!q.admits(&Reply::Size(4)));
    assert!(!q.admits(&Reply::Stored));
    assert!(q.admits(&Reply::Oid(vec![1], 4)));
}

#[test]
fn format_without_type_is_not_admitted() {
    let q = value_oid(&vec![1, 1]);
    assert!(!q.admits(&format_reply(0x8000_0000, b"I\0")));
    // too short to hold the kind word
    assert!(!q.admits(&Reply::Buffer(vec![1, 0, 0], 3)));
    // a format that is not UTF-8 ends the query before the type is looked at
    assert!(q.admits(&format_reply(0x8000_0000, &[0xff])));
}

#[test]
fn fetch_must_fill_the_requested_size() {
    let q = value_oid(&vec![1, 1]);
    let q = step(q, format_reply(0x8000_0002, b"I\0"));
    let q = step(q, Reply::Size(4));
    assert!(!q.admits(&Reply::Buffer(vec![1, 2, 3, 4], 3)));
    assert!(!q.admits(&Reply::Buffer(vec![1, 2, 3], 3)));
    assert!(q.admits(&Reply::Buffer(vec![1, 2, 3, 4], 4)));
}

#[test]
fn value_as_returns_struct_bytes() {
    let q = value_as::<[u32; 2]>("kern.clockrate");
    assert!(matches!(q.goal, Goal::ReadRaw(8)));
    let q = step(q, Reply::Oid(vec![1, 12, 0], 8));
    let q = step(q, format_reply(0x8000_0005, b"S,clockinfo\0"));
    let q = step(q, Reply::Size(8));
    // the wrong size is not taken
    assert!(!q.admits(&Reply::Buffer(vec![0; 4], 4)));
    let q = step(q, Reply::Buffer(vec![100, 0, 0, 0, 16, 39, 0, 0], 8));
    assert_eq!(done(&q), &Ok(Answer::Raw(vec![100, 0, 0, 0, 16, 39, 0, 0])));
}

#[test]
fn value_oid_as_refuses_non_struct() {
    let q = value_oid_as::<u32>(&vec![1, 3]);
    let q = step(q, format_reply(0x8000_0002, b"I\0"));
    let q = step(q, Reply::Size(4));
    let q = step(q, Reply::Buffer(vec![1, 0, 0, 0], 4));
    assert_eq!(done(&q), &Err("Error extracting value".to_string()));
}

#[test]
fn value_oid_as_takes_node_bytes() {
    let q = value_oid_as::<u16>(&vec![1]);
    let q = step(q, format_reply(0x8000_0001, b"N\0"));
    let q = step(q, Reply::Size(2));
    let q = step(q, Reply::Buffer(vec![7, 9], 2));
    assert_eq!(done(&q), &Ok(Answer::Raw(vec![7, 9])));
}

#[test]
fn set_value_writes_int_then_reads_back() {
    let q = set_value("hw.usb.debug", CtlValue::Int(1));
    let q = step(q, Reply::Oid(vec![6, 50, 2], 12));
    let q = step(q, format_reply(0xc000_0002, b"I\0"));
    match &q.stage {
        Stage::Store(name, oid, bytes) => {
            assert_eq!(name, "hw.usb.debug");
            assert_eq!(*oid, vec![6, 50, 2]);
            assert_eq!(*bytes, vec![1, 0, 0, 0]);
        }
        _ => panic!("expected store stage"),
    }
    let q = step(q, Reply::Stored);
    assert!(matches!(q.goal, Goal::Read));
    assert!(matches!(&q.stage, Stage::Resolve(n) if n == "hw.usb.debug"));
    let q = step(q, Reply::Oid(vec![6, 50, 2], 12));
    let q = step(q, format_reply(0xc000_0002, b"I\0"));
    let q = step(q, Reply::Size(4));
    let q = step(q, Reply::Buffer(vec![1, 0, 0, 0], 4));
    assert_eq!(done(&q), &Ok(Answer::Value(CtlValue::Int(1))));
}

#[test]
fn set_value_negative_int_bytes() {
    let q = set_value("a.b", CtlValue::Int(-2));
    let q = step(q, Reply::Oid(vec![9], 4));
    let q = step(q, format_reply(0xc000_0002, b"I\0"));
    match &q.stage {
        Stage::Store(_, _, bytes) => assert_eq!(*bytes, vec![0xfe, 0xff, 0xff, 0xff]),
        _ => panic!("expected store stage"),
    }
}

#[test]
fn set_value_of_string_writes_its_bytes() {
    let q = set_value("kern.hostname", CtlValue::String("box".to_string()));
    let q = step(q, Reply::Oid(vec![1, 10], 8));
    let q = step(q, format_reply(0xc000_0003, b"A\0"));
    match &q.stage {
        Stage::Store(name, oid, bytes) => {
            assert_eq!(name, "kern.hostname");
            assert_eq!(*oid, vec![1, 10]);
            assert_eq!(*bytes, b"box".to_vec());
        }
        _ => panic!("expected store stage"),
    }
    let q = step(q, Reply::Stored);
    assert!(matches!(q.goal, Goal::Read));
    assert!(matches!(&q.stage, Stage::Resolve(n) if n == "kern.hostname"));
}

#[test]
fn set_value_uint_writes_and_answers_new_value() {
    let q = set_value("vm.a", CtlValue::Uint(7));
    let q = step(q, Reply::Oid(vec![2, 3], 8));
    let q = step(q, format_reply(0xc000_0006, b"IU\0"));
    match &q.stage {
        Stage::Store(_, _, bytes) => assert_eq!(*bytes, vec![7, 0, 0, 0]),
        _ => panic!("expected store stage"),
    }
    let q = step(q, Reply::Stored);
    let q = step(q, Reply::Oid(vec![2, 3], 8));
    let q = step(q, format_reply(0xc000_0006, b"IU\0"));
    let q = step(q, Reply::Size(4));
    let q = step(q, Reply::Buffer(vec![7, 0, 0, 0], 4));
    assert_eq!(done(&q), &Ok(Answer::Value(CtlValue::Uint(7))));
}

#[test]
fn every_type_reads_back_what_is_written() {
    let cases: Vec<(CtlType, &str, CtlValue)> = vec![
        (CtlType::Int, "I\0", CtlValue::Int(-5)),
        (CtlType::S32, "I\0", CtlValue::S32(i32::MIN)),
        (CtlType::Uint, "IU", CtlValue::Uint(u32::MAX)),
        (CtlType::U32, "IU", CtlValue::U32(0x0102_0304)),
        (CtlType::Long, "L\0", CtlValue::Long(-3)),
        (CtlType::Ulong, "LU", CtlValue::Ulong(0x0102_0304_0506_0708)),
        (CtlType::U64, "QU", CtlValue::U64(u64::MAX)),
        (CtlType::S64, "Q\0", CtlValue::S64(42)),
        (CtlType::U16, "SU", CtlValue::U16(0xbeef)),
        (CtlType::S16, "S\0", CtlValue::S16(-300)),
        (CtlType::U8, "CU", CtlValue::U8(200)),
        (CtlType::S8, "C\0", CtlValue::S8(-100)),
        (CtlType::Node, "N\0", CtlValue::Node(vec![1, 2, 3])),
        (CtlType::Struct, "S,x", CtlValue::Struct(vec![4, 5])),
    ];
    for (t, fmt, v) in cases {
        let info = CtlInfo { ctl_type: t, fmt: fmt.to_string(), flags: 0 };
        let bytes = encode_value(&v);
        assert_eq!(decode_value(&info, bytes), Ok(v));
    }
    // a string comes back with the terminating byte the kernel keeps
    let info = CtlInfo { ctl_type: CtlType::String, fmt: "A\0".to_string(), flags: 0 };
    let mut bytes = encode_value(&CtlValue::String("héllo".to_string()));
    assert_eq!(bytes, "héllo".as_bytes().to_vec());
    bytes.push(0);
    assert_eq!(decode_value(&info, bytes), Ok(CtlValue::String("héllo".to_string())));
}

#[test]
fn encode_value_widths() {
    assert_eq!(encode_value(&CtlValue::U16(0x1234)), vec![0x34, 0x12]);
    assert_eq!(encode_value(&CtlValue::S16(-2)), vec![0xfe, 0xff]);
    assert_eq!(encode_value(&CtlValue::U32(0x0403_0201)), vec![1, 2, 3, 4]);
    assert_eq!(encode_value(&CtlValue::U64(0x0807_0605_0403_0201)), vec![1, 2, 3, 4, 5, 6, 7, 8]);
    assert_eq!(encode_value(&CtlValue::Long(-2)), vec![0xfe, 0xff, 0xff, 0xff, 0xff, 0xff, 0xff, 0xff]);
    assert_eq!(encode_value(&CtlValue::S8(-1)), vec![0xff]);
    assert_eq!(encode_value(&CtlValue::U8(9)), vec![9]);
}

#[test]
fn set_value_type_mismatch_is_not_admitted() {
    let q = set_value("kern.hostname", CtlValue::Int(3));
    let q = step(q, Reply::Oid(vec![1, 10], 8));
    assert!(!q.admits(&format_reply(0xc000_0003, b"A\0")));
}

#[test]
fn description_query_reads_text() {
    let q = description("kern.version");
    let q = step(q, Reply::Oid(vec![1, 4], 8));
    assert!(matches!(&q.stage, Stage::Describe(oid) if *oid == vec![1, 4]));
    let mut buf = b"Kernel version\0".to_vec();
    buf.resize(8192, 0);
    let q = step(q, Reply::Buffer(buf, 15));
    assert_eq!(done(&q), &Ok(Answer::Text("Kernel version".to_string())));
}

#[test]
fn description_needs_terminator() {
    let q = description("kern.version");
    let q = step(q, Reply::Oid(vec![1, 4], 8));
    assert!(!q.admits(&Reply::Buffer(vec![0; 16], 0)));
    assert!(!q.admits(&Reply::Buffer(vec![0; 4], 5)));
}

#[test]
fn temperature_query_scales_by_format() {
    let q = value_oid(&vec![7, 1, 0, 2]);
    let q = step(q, format_reply(0x8000_0002, b"IK3\0"));
    let q = step(q, Reply::Size(4));
    let q = step(q, Reply::Buffer(vec![0xc8, 0x14, 0x05, 0x00], 4));
    match done(&q) {
        Ok(Answer::Value(CtlValue::Temperature(t))) => {
            assert_eq!(t.units(), 333_000);
            assert_eq!(t.scale(), 1000);
        }
        other => panic!("unexpected {:?}", other.is_ok()),
    }
}

#[test]
fn written_int_reads_back() {
    for v in [0, 1, -1, -2, 3330, i32::MIN, i32::MAX] {
        let q = set_value("a.b", CtlValue::Int(v));
        let q = step(q, Reply::Oid(vec![9], 4));
        let q = step(q, format_reply(0xc000_0002, b"I\0"));
        let bytes = match &q.stage {
            Stage::Store(_, _, bytes) => bytes.clone(),
            _ => panic!("expected store stage"),
        };
        let info = CtlInfo { ctl_type: CtlType::Int, fmt: "I\0".to_string(), flags: 0 };
        assert_eq!(decode_value(&info, bytes), Ok(CtlValue::Int(v)));
    }
}

#[test]
fn lookup_then_value_is_value_oid() {
    let q = step(value("kern.ostype"), Reply::Oid(vec![1, 1, 0, 0], 8));
    assert_eq!(q, value_oid(&vec![1, 1]));
    let q = step(value_as::<u64>("kern.boottime"), Reply::Oid(vec![1, 21], 8));
    assert_eq!(q, value_oid_as::<u64>(&vec![1, 21]));
}

#[test]
fn set_value_is_done_within_seven_replies() {
    let mut q = set_value("hw.usb.debug", CtlValue::Int(1));
    let replies = vec![
        Reply::Oid(vec![6, 50, 2], 12),
        format_reply(0xc000_0002, b"I\0"),
        Reply::Stored,
        Reply::Oid(vec![6, 50, 2], 12),
        format_reply(0xc000_0002, b"I\0"),
        Reply::Size(4),
        Reply::Buffer(vec![1, 0, 0, 0], 4),
    ];
    let mut count = 0;
    for r in replies {
        q = step(q, r);
        count += 1;
    }
    assert_eq!(count, 7);
    assert_eq!(done(&q), &Ok(Answer::Value(CtlValue::Int(1))));
}
