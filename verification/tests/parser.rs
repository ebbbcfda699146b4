use guru::mi::output_syntax::{AsyncRecord, OutOfBandResult, ResultOrOOB, Value};
use guru::mi::parser::{
    parse_out_of_band, parse_output, parse_result, parse_token, parse_value, parse_variable,
};

#[test]
fn parser_parse_token_tests() {
    assert_eq!(parse_token(""), None);
    assert_eq!(parse_token("123*"), Some(("123".to_string(), "*")));
    assert_eq!(parse_token("*"), None);
}

#[test]
fn parser_parse_variable_tests() {
    assert_eq!(
        parse_variable("param=\"foo\""),
        Some(("param".to_string(), "=\"foo\""))
    );
}

#[test]
fn parser_parse_result_tests() {
    assert_eq!(
        parse_result("value=\"on\""),
        Some((("value".to_string(), Value::Const("on".to_string())), ""))
    );
}

#[test]
fn parser_parse_value_tests() {
    assert_eq!(
        parse_value("\"foo\""),
        Some((Value::Const("foo".to_string()), ""))
    );
    assert_eq!(parse_value("{}"), Some((Value::Tuple(vec![]), "")));
    assert_eq!(parse_value("[]"), Some((Value::ValueList(vec![]), "")));

    let input = "[frame={level=\"0\",addr=\"0x00000000006eff82\",func=\"initCapabilities\",file=\
                 \"rts/Capability.c\",fullname=\"/home/omer/haskell/ghc-gc/rts/Capability.c\",\
                 line=\"398\"},frame={level=\"1\",addr=\"0x00000000006ee476\",func=\"initScheduler\
                 \",file=\"rts/Schedule.c\",fullname=\"/home/omer/haskell/ghc-gc/rts/Schedule.c\
                 \",line=\"2680\"},frame={level=\"2\",addr=\"0x00000000006e8cc0\",\
                 func=\"hs_init_ghc\",file=\"rts/RtsStartup.c\",fullname=\
                 \"/home/omer/haskell/ghc-gc/rts/RtsStartup.c\",line=\"236\"},frame={level=\"3\"\
                 ,addr=\"0x0000000000701f08\",func=\"hs_main\",file=\"rts/RtsMain.c\",\
                 fullname=\"/home/omer/haskell/ghc-gc/rts/RtsMain.c\",line=\"57\"},\
                 frame={level=\"4\",addr=\"0x0000000000405366\",func=\"main\"}]";
    let out = parse_value(input);
    assert!(out.is_some());
}

#[test]
fn parser_parse_out_of_band_tests() {
    assert_eq!(
        parse_out_of_band("=thread-group-added\n"),
        Some((
            OutOfBandResult::NotifyAsyncRecord(AsyncRecord {
                token: None,
                class: "thread-group-added".to_string(),
                results: vec![]
            }),
            ""
        ))
    );
    assert_eq!(
        parse_out_of_band("=thread-group-added,id=\"i1\"\n"),
        Some((
            OutOfBandResult::NotifyAsyncRecord(AsyncRecord {
                token: None,
                class: "thread-group-added".to_string(),
                results: vec![("id".to_string(), Value::Const("i1".to_string()))]
            }),
            ""
        ))
    );
    assert_eq!(
        parse_out_of_band("*running,thread-id=\"5\"\n"),
        Some((
            OutOfBandResult::ExecAsyncRecord(AsyncRecord {
                token: None,
                class: "running".to_string(),
                results: vec![("thread-id".to_string(), Value::Const("5".to_string()))]
            }),
            ""
        ))
    )
}

#[test]
fn parser_parse_output_tests() {
    let out = vec![ResultOrOOB::OOB(OutOfBandResult::NotifyAsyncRecord(
        AsyncRecord {
            token: None,
            class: "thread-group-added".to_string(),
            results: vec![("id".to_string(), Value::Const("i1".to_string()))],
        },
    ))];
    assert_eq!(parse_output("=thread-group-added,id=\"i1\"\n"), Some(out));

    let out = vec![ResultOrOOB::OOB(OutOfBandResult::NotifyAsyncRecord(
        AsyncRecord {
            token: None,
            class: "cmd-param-changed".to_string(),
            results: vec![
                (
                    "param".to_string(),
                    Value::Const("history save".to_string()),
                ),
                ("value".to_string(), Value::Const("on".to_string())),
            ],
        },
    ))];
    assert_eq!(
        parse_output("=cmd-param-changed,param=\"history save\",value=\"on\"\n"),
        Some(out)
    );

    let s = "=thread-group-added,id=\"i1\"\n\
             =cmd-param-changed,param=\"history save\",value=\"on\"\n\
             =cmd-param-changed,param=\"confirm\",value=\"off\"\n\
             =cmd-param-changed,param=\"print pretty\",value=\"on\"\n\
             =cmd-param-changed,param=\"print array-indexes\",value=\"on\"\n\
             =cmd-param-changed,param=\"python print-stack\",value=\"full\"\n\
             =cmd-param-changed,param=\"pagination\",value=\"off\"\n";
    assert_eq!(parse_output(s).map(|r| r.len()), Some(7));

    let s = "~\"Reading symbols from gc_test...\"\n";
    let out = vec![ResultOrOOB::OOB(OutOfBandResult::ConsoleStreamRecord(
        "Reading symbols from gc_test...".to_string(),
    ))];
    assert_eq!(parse_output(s), Some(out));

    let s = "~\"\\\"\"\n";
    assert_eq!(parse_output(s).map(|t| t.len()), Some(1));

    let s = "^done\n";
    assert_eq!(parse_output(s).map(|t| t.len()), Some(1));

    let s = "^error,msg=\"Undefined command: \\\"halp\\\".  Try \\\"help\\\".\"\n";
    assert_eq!(parse_output(s).map(|t| t.len()), Some(1));

    let s = "^running\n*running,thread-id=\"all\"\n";
    assert_eq!(parse_output(s).map(|t| t.len()), Some(2));

    let s = "*stopped,frame={args=[{name=\"cap\",value=\"0x4de0c0 <MainCapability>\"},{name=\"idle_cap\",value=\"0x507670\"}]}\n";
    assert_eq!(parse_output(s).map(|t| t.len()), Some(1));

    let s = "~\"[Thread debugging using libthread_db enabled]\\n\"\n\
             *running,thread-id=\"3\"\n\
             =thread-created,id=\"4\",group-id=\"i1\"\n\
             *running,thread-id=\"4\"\n\
             =thread-created,id=\"5\",group-id=\"i1\"\n\
             ~\"[New Thread 0x7fffef7fe700 (LWP 4044)]\\n\"\n\
             *running,thread-id=\"5\"\n\n\n\n\
             ~\"[Thread 0x7fffef7fe700 (LWP 4044) exited]\\n\"\n\
             =thread-exited,id=\"5\",group-id=\"i1\"\n\
             ~\"[Thread 0x7fffeffff700 (LWP 4043) exited]\\n\"\n\
             =thread-exited,id=\"4\",group-id=\"i1\"\n\
             ~\"[Thread 0x7ffff4d2f700 (LWP 4042) exited]\\n\"\n\
             =thread-exited,id=\"3\",group-id=\"i1\"\n\
             ~\"[Thread 0x7ffff5530700 (LWP 4041) exited]\\n\"\n\
             =thread-exited,id=\"2\",group-id=\"i1\"\n\
             ~\"[Inferior 1 (process 4037) exited normally]\\n\"\n\
             =thread-exited,id=\"1\",group-id=\"i1\"\n\
             =thread-group-exited,id=\"i1\",exit-code=\"0\"\n\
             *stopped,reason=\"exited-normally\"\n";
    assert_eq!(parse_output(s).map(|t| t.len()), Some(19));
}
