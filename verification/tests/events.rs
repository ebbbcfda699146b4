use guru::columns::widest_columns;
use guru::mi::output_syntax::{OutOfBandResult, ResultOrOOB, Value as MiValue};
use guru::mi::parser::parse_output;
use guru::numbers::{parse_i32, parse_u64};
use guru::parsers::{
    parse_async_event, parse_thread_info_result, parse_thread_stack_result,
    parse_var_update_result,
};
use guru::types::{AsyncEvent, BreakpointDisposition, Change, Thread};

fn results(s: &str) -> Vec<(String, MiValue)> {
    match parse_output(s).unwrap().pop().unwrap() {
        ResultOrOOB::Result(r) => r.results,
        ResultOrOOB::OOB(_) => panic!("a result record was expected"),
    }
}

fn event(s: &str) -> AsyncEvent {
    match parse_output(s).unwrap().pop().unwrap() {
        ResultOrOOB::OOB(OutOfBandResult::ExecAsyncRecord(r))
        | ResultOrOOB::OOB(OutOfBandResult::StatusAsyncRecord(r))
        | ResultOrOOB::OOB(OutOfBandResult::NotifyAsyncRecord(r)) => parse_async_event(&r),
        _ => panic!("a notification was expected"),
    }
}

const BKPT: &str = "bkpt={number=\"3\",type=\"breakpoint\",disp=\"nokeep\",enabled=\"y\",\
                    addr=\"0x1\",times=\"0\",original-location=\"f\"}";

#[test]
fn created_or_modified_breakpoint() {
    for class in ["breakpoint-created", "breakpoint-modified"] {
        match event(&format!("={},{}\n", class, BKPT)) {
            AsyncEvent::BreakpointChanged(b) => {
                assert_eq!(b.number, 3);
                assert_eq!(b.disposition, BreakpointDisposition::NoKeep);
                assert!(b.enabled);
                assert_eq!(b.original_location, "f");
            }
            other => panic!("{:?}", other),
        }
    }
}

#[test]
fn breakpoint_that_does_not_read_asks_for_nothing() {
    assert_eq!(event("=breakpoint-created\n"), AsyncEvent::Other);
    assert_eq!(event("=breakpoint-created,bkpt={}\n"), AsyncEvent::Other);
    assert_eq!(event("=breakpoint-modified,bkpt=\"3\"\n"), AsyncEvent::Other);
    assert_eq!(event(&format!("=breakpoint-deleted,{}\n", BKPT)), AsyncEvent::Other);
}

#[test]
fn stopped_program() {
    assert_eq!(event("*stopped\n"), AsyncEvent::Stopped);
    assert_eq!(event("*stopped,reason=\"exited-normally\"\n"), AsyncEvent::Stopped);
    assert_eq!(event(&format!("=stopped,{}\n", BKPT)), AsyncEvent::Stopped);
}

#[test]
fn other_notifications_ask_for_nothing() {
    assert_eq!(event("*running,thread-id=\"all\"\n"), AsyncEvent::Other);
    assert_eq!(event("=thread-group-added,id=\"i1\"\n"), AsyncEvent::Other);
    assert_eq!(event("*Stopped\n"), AsyncEvent::Other);
    assert_eq!(event("*\n"), AsyncEvent::Other);
}

#[test]
fn threads_of_the_program() {
    let s = "^done,threads=[{id=\"1\",target-id=\"Thread 0x7ffff7fbdb80 (LWP 19785)\",\
             name=\"guru\",state=\"stopped\",core=\"4\"},\
             {id=\"2\",target-id=\"Thread 0x7fffed538700 (LWP 19789)\"}],\
             current-thread-id=\"1\"\n";
    assert_eq!(
        parse_thread_info_result(results(s)),
        Some(vec![
            Thread { id: 1, target_id: "Thread 0x7ffff7fbdb80 (LWP 19785)".to_string() },
            Thread { id: 2, target_id: "Thread 0x7fffed538700 (LWP 19789)".to_string() },
        ])
    );
    assert_eq!(parse_thread_info_result(results("^done,threads=[]\n")), Some(vec![]));
}

#[test]
fn threads_want_id_and_target_id() {
    assert_eq!(parse_thread_info_result(results("^done\n")), None);
    assert_eq!(parse_thread_info_result(results("^done,threads={}\n")), None);
    assert_eq!(parse_thread_info_result(results("^done,threads=[\"1\"]\n")), None);
    assert_eq!(parse_thread_info_result(results("^done,threads=[{id=\"1\"}]\n")), None);
    assert_eq!(parse_thread_info_result(results("^done,threads=[{target-id=\"t\"}]\n")), None);
    assert_eq!(
        parse_thread_info_result(results("^done,threads=[{id=\"one\",target-id=\"t\"}]\n")),
        None
    );
    assert_eq!(
        parse_thread_info_result(results("^done,threads=[{id=\"-1\",target-id=\"t\"}]\n")),
        Some(vec![Thread { id: -1, target_id: "t".to_string() }])
    );
}

#[test]
fn changes_of_an_update() {
    let s = "^done,changelist=[{name=\"var1\",value=\"3\",in_scope=\"true\"},\
             {name=\"var2.x\",value=\"{...}\"}]\n";
    assert_eq!(
        parse_var_update_result(results(s)),
        Some(vec![
            Change { name: "var1".to_string(), value: "3".to_string() },
            Change { name: "var2.x".to_string(), value: "{...}".to_string() },
        ])
    );
    assert_eq!(parse_var_update_result(results("^done,changelist=[]\n")), Some(vec![]));
}

#[test]
fn changes_want_name_and_value() {
    assert_eq!(parse_var_update_result(results("^done\n")), None);
    assert_eq!(parse_var_update_result(results("^done,changelist=\"x\"\n")), None);
    assert_eq!(parse_var_update_result(results("^done,changelist=[{name=\"v\"}]\n")), None);
    assert_eq!(parse_var_update_result(results("^done,changelist=[{value=\"1\"}]\n")), None);
    assert_eq!(parse_var_update_result(results("^done,changelist=[x={}]\n")), None);
}

#[test]
fn stack_of_a_thread() {
    let s = "^done,stack=[frame={level=\"0\",addr=\"0x1\",func=\"syscall\",\
             file=\"syscall.S\",line=\"38\"},frame={level=\"1\",addr=\"0x2\",func=\"??\",\
             from=\"/usr/lib/libglib-2.0.so.0\"}]\n";
    let bt = parse_thread_stack_result(results(s)).unwrap();
    assert_eq!(bt.0.len(), 2);
    assert_eq!(bt.0[0].func, "syscall");
    assert_eq!(bt.0[0].line, Some(38));
    assert_eq!(bt.0[1].level, 1);
    assert_eq!(bt.0[1].file, None);
    assert_eq!(bt.0[1].from, None);
}

#[test]
fn stack_wants_a_list_of_frames() {
    assert!(parse_thread_stack_result(results("^done\n")).is_none());
    assert!(parse_thread_stack_result(results("^done,stack=[]\n")).is_none());
    assert!(parse_thread_stack_result(results("^done,stack={}\n")).is_none());
    assert!(parse_thread_stack_result(results("^done,stack=[frame={}]\n")).is_none());
}

#[test]
fn signed_numbers() {
    assert_eq!(parse_i32("0"), Some(0));
    assert_eq!(parse_i32("-0"), Some(0));
    assert_eq!(parse_i32("+12"), Some(12));
    assert_eq!(parse_i32("-12"), Some(-12));
    assert_eq!(parse_i32("2147483647"), Some(i32::MAX));
    assert_eq!(parse_i32("2147483648"), None);
    assert_eq!(parse_i32("-2147483648"), Some(i32::MIN));
    assert_eq!(parse_i32("-2147483649"), None);
    assert_eq!(parse_i32("-"), None);
    assert_eq!(parse_i32("+-1"), None);
    assert_eq!(parse_i32("-+1"), None);
    assert_eq!(parse_i32("--1"), None);
    assert_eq!(parse_i32(""), None);
    assert_eq!(parse_i32("1-"), None);
    for s in ["7", "-7", "+7", "-", "+", "", "2147483648", "-2147483648", "-2147483649", "00-1"] {
        assert_eq!(parse_i32(s), s.parse::<i32>().ok());
    }
}

#[test]
fn tokens_as_numbers() {
    assert_eq!(parse_u64("0"), Some(0));
    assert_eq!(parse_u64("18446744073709551615"), Some(u64::MAX));
    assert_eq!(parse_u64("18446744073709551616"), None);
    assert_eq!(parse_u64("184467440737095516150"), None);
    assert_eq!(parse_u64("12x"), None);
}

#[test]
fn widest_of_each_column() {
    assert_eq!(widest_columns(&vec![]), (0, 0, 0, 0));
    assert_eq!(widest_columns(&vec![(1, 2, 3, 4)]), (1, 2, 3, 4));
    assert_eq!(
        widest_columns(&vec![(10, 2, 30, 4), (1, 20, 3, 40), (5, 5, 5, 5)]),
        (10, 20, 30, 40)
    );
    assert_eq!(widest_columns(&vec![(-1, -2, 0, 7), (-3, -1, -5, 6)]), (0, 0, 0, 7));
}
