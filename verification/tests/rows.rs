use guru::numbers::parse_u64;
use guru::rows::{
    breakpoint_row, decimal_text, frame_row, thread_title, BreakpointRow, FrameRow,
};
use guru::types::{Breakpoint, BreakpointDisposition, BreakpointType, Frame};

#[test]
fn number_as_text() {
    assert_eq!(decimal_text(0), "0");
    assert_eq!(decimal_text(7), "7");
    assert_eq!(decimal_text(10), "10");
    assert_eq!(decimal_text(398), "398");
    assert_eq!(decimal_text(1000), "1000");
    assert_eq!(decimal_text(u64::MAX), "18446744073709551615");
    for n in [0u64, 1, 9, 10, 11, 99, 100, 101, 12345, 4294967295, 4294967296, u64::MAX] {
        assert_eq!(decimal_text(n), n.to_string());
        assert_eq!(parse_u64(&decimal_text(n)), Some(n));
    }
}

fn breakpoint() -> Breakpoint {
    Breakpoint {
        number: 12,
        type_: BreakpointType::Breakpoint,
        disposition: BreakpointDisposition::Keep,
        enabled: true,
        address: "0x40052a".to_string(),
        original_location: "main".to_string(),
        file: Some("t.c".to_string()),
        fullname: Some("/tmp/t.c".to_string()),
        line: Some(5),
        cond: Some("x > 1".to_string()),
        hits: 3,
    }
}

#[test]
fn row_of_a_breakpoint() {
    assert_eq!(
        breakpoint_row(&breakpoint()),
        BreakpointRow {
            enabled: true,
            number: "12".to_string(),
            location: "main".to_string(),
            file: "t.c:5".to_string(),
            address: "0x40052a".to_string(),
            cond: "x > 1".to_string(),
            hits: "3".to_string(),
        }
    );
}

#[test]
fn row_of_a_breakpoint_without_source_and_condition() {
    let mut bp = breakpoint();
    bp.enabled = false;
    bp.cond = None;
    bp.line = None;
    let row = breakpoint_row(&bp);
    assert!(!row.enabled);
    assert_eq!(row.cond, "");
    assert_eq!(row.file, "");
    bp.line = Some(5);
    bp.file = None;
    assert_eq!(breakpoint_row(&bp).file, "");
    bp.line = None;
    assert_eq!(breakpoint_row(&bp).file, "");
    bp.file = Some("".to_string());
    bp.line = Some(0);
    bp.number = u32::MAX;
    bp.hits = 0;
    let row = breakpoint_row(&bp);
    assert_eq!(row.file, ":0");
    assert_eq!(row.number, "4294967295");
    assert_eq!(row.hits, "0");
}

#[test]
fn row_of_a_frame() {
    let frame = Frame {
        level: 3,
        addr: "0x0000000000701f08".to_string(),
        func: "hs_main".to_string(),
        file: Some("rts/RtsMain.c".to_string()),
        fullname: Some("/home/omer/haskell/ghc-gc/rts/RtsMain.c".to_string()),
        line: Some(57),
        from: None,
    };
    assert_eq!(
        frame_row(&frame),
        FrameRow {
            level: "#3".to_string(),
            addr: "0x0000000000701f08".to_string(),
            func: "hs_main".to_string(),
            loc: "rts/RtsMain.c:57".to_string(),
        }
    );
    let frame = Frame { level: 10, file: None, ..frame };
    assert_eq!(frame_row(&frame).level, "#10");
    assert_eq!(frame_row(&frame).loc, "");
    let frame = Frame { file: Some("a.c".to_string()), line: None, ..frame };
    assert_eq!(frame_row(&frame).loc, "");
}

#[test]
fn title_of_a_thread() {
    assert_eq!(thread_title(1, "Thread 0x7ffff7fbdb80 (LWP 19785)"), "#1 Thread 0x7ffff7fbdb80 (LWP 19785)");
    assert_eq!(thread_title(0, ""), "#0 ");
    assert_eq!(thread_title(-5, "t"), "#-5 t");
    assert_eq!(thread_title(i32::MAX, "t"), "#2147483647 t");
    assert_eq!(thread_title(i32::MIN, "t"), "#-2147483648 t");
    for id in [0, 1, -1, 42, -42, i32::MAX, i32::MIN] {
        assert_eq!(thread_title(id, "x y"), format!("#{} {}", id, "x y"));
    }
}
