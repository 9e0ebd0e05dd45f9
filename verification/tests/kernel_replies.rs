//! The original's tests against a live kernel, run on replies written by hand
//! in the shape that FreeBSD gives them.
use sysctl::consts::{CTLFLAG_RD, CTLFLAG_WR};
use sysctl::{description, oidfmt, value, Answer, CtlType, Reply, Stage};

/// A name lookup reply: `CTL_MAXNAME` integers, of which `oid` are filled.
fn lookup_reply(oid: &[i32]) -> Reply {
    let mut res = vec![0i32; 24];
    res[..oid.len()].copy_from_slice(oid);
    Reply::Oid(res, oid.len() * 4)
}

/// A format reply: the kind word, then the format string and its terminator.
fn format_buffer(kind: u32, fmt: &str) -> (Vec<u8>, usize) {
    let mut buf = kind.to_le_bytes().to_vec();
    buf.extend_from_slice(fmt.as_bytes());
    buf.push(0);
    let len = buf.len();
    buf.resize(1024, 0);
    (buf, len)
}

#[test]
fn ctl_mib() {
    // kern.proc.pid is { CTL_KERN, KERN_PROC, KERN_PROC_PID } = { 1, 14, 1 }
    let q = value("kern.proc.pid");
    let r = lookup_reply(&[1, 14, 1]);
    assert!(q.admits(&r));
    let q = q.step(r);
    match &q.stage {
        Stage::Format(oid) => {
            assert_eq!(oid.len(), 3);
            assert_eq!(oid[0], 1);
            assert_eq!(oid[1], 14);
            assert_eq!(oid[2], 1);
        }
        _ => panic!("expected the format stage"),
    }
}

#[test]
fn ctl_type() {
    // kern: a node
    let (buf, len) = format_buffer(0x8000_0001, "N");
    assert_eq!(oidfmt(&buf, len).unwrap().ctl_type, CtlType::Node);
    // kern.osrelease: a string
    let (buf, len) = format_buffer(0x8000_0003, "A");
    assert_eq!(oidfmt(&buf, len).unwrap().ctl_type, CtlType::String);
    // kern.osrevision: an int
    let (buf, len) = format_buffer(0x8000_0002, "I");
    assert_eq!(oidfmt(&buf, len).unwrap().ctl_type, CtlType::Int);
}

#[test]
fn ctl_flags() {
    // kern.osrelease: read-only string
    let (buf, len) = format_buffer(0x8000_0003 | 0x0004_0000, "A");
    let fmt = oidfmt(&buf, len).unwrap();
    assert_eq!(fmt.flags & CTLFLAG_RD, CTLFLAG_RD);
    assert_eq!(fmt.flags & CTLFLAG_WR, 0);
}

#[test]
fn ctl_description() {
    let q = description("kern.version");
    let q = q.step(lookup_reply(&[1, 4]));
    let mut buf = b"Kernel version\0".to_vec();
    buf.resize(1024, 0);
    let r = Reply::Buffer(buf, 15);
    assert!(q.admits(&r));
    let q = q.step(r);
    let s: String = match q.stage {
        Stage::Done(Ok(Answer::Text(s))) => s,
        _ => "...".into(),
    };
    assert_eq!(s, "Kernel version");
}
