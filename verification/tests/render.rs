use guru::mi::parser::{parse_output, parse_value};
use guru::render::{render_async_record, render_record, render_result, render_value, Piece};
use guru::mi::output_syntax::{AsyncRecord, Result, ResultClass, ResultOrOOB, Value};

/// The line as it is shown, with `escape` for what is plain text.
fn shown(pieces: &[Piece]) -> String {
    let mut ret = String::new();
    for piece in pieces {
        match piece {
            Piece::Markup(s) => ret.push_str(s),
            Piece::Text(s) => {
                ret.push('\u{ab}');
                ret.push_str(s);
                ret.push('\u{bb}');
            }
        }
    }
    ret
}

fn value(s: &str) -> Value {
    parse_value(s).unwrap().0
}

fn record(s: &str) -> ResultOrOOB {
    parse_output(s).unwrap().pop().unwrap()
}

#[test]
fn text_is_one_plain_piece() {
    assert_eq!(render_value(&value("\"a<b\"")), vec![Piece::Text("a<b".to_string())]);
    assert_eq!(render_value(&value("\"\"")), vec![Piece::Text("".to_string())]);
}

#[test]
fn tuple_stands_between_braces() {
    assert_eq!(shown(&render_value(&value("{}"))), "{}");
    assert_eq!(shown(&render_value(&value("{a=\"1\"}"))), "{a = «1»}");
    assert_eq!(shown(&render_value(&value("{a=\"1\",b=\"2\"}"))), "{a = «1», b = «2»}");
    assert_eq!(
        render_value(&value("{a=\"1\"}")),
        vec![
            Piece::Markup("{".to_string()),
            Piece::Markup("a".to_string()),
            Piece::Markup(" = ".to_string()),
            Piece::Text("1".to_string()),
            Piece::Markup("}".to_string()),
        ]
    );
}

#[test]
fn list_of_values_stands_between_brackets() {
    assert_eq!(shown(&render_value(&value("[]"))), "[]");
    assert_eq!(shown(&render_value(&value("[\"1\"]"))), "[«1»]");
    assert_eq!(shown(&render_value(&value("[\"1\",\"2\",{}]"))), "[«1», «2», {}]");
}

#[test]
fn list_of_fields_is_left_open() {
    assert_eq!(shown(&render_value(&value("[a=\"1\",a=\"2\"]"))), "[a = «1», a = «2»");
    assert_eq!(shown(&render_value(&value("{x=[a=\"1\"]}"))), "{x = [a = «1»}");
}

#[test]
fn values_are_rendered_inside_values() {
    assert_eq!(
        shown(&render_value(&value("{args=[{name=\"cap\",value=\"0x4de0c0 <Main>\"},{name=\"n\"}]}"))),
        "{args = [{name = «cap», value = «0x4de0c0 <Main>»}, {name = «n»}]}"
    );
}

#[test]
fn notification_has_its_class_in_bold() {
    let r = AsyncRecord { token: None, class: "stopped".to_string(), results: vec![] };
    assert_eq!(shown(&render_async_record(&r)), "<b>stopped</b> ");
    let r = AsyncRecord {
        token: Some("7".to_string()),
        class: "running".to_string(),
        results: vec![
            ("thread-id".to_string(), Value::Const("all".to_string())),
            ("x".to_string(), Value::Tuple(vec![])),
        ],
    };
    assert_eq!(shown(&render_async_record(&r)), "<b>running</b> thread-id = «all», x = {}");
}

#[test]
fn result_has_the_name_of_its_class() {
    let result = |class| Result { token: None, class, results: vec![] };
    assert_eq!(shown(&render_result(&result(ResultClass::Done))), "Done");
    assert_eq!(shown(&render_result(&result(ResultClass::Running))), "Running");
    assert_eq!(shown(&render_result(&result(ResultClass::Connected))), "Connected");
    assert_eq!(shown(&render_result(&result(ResultClass::Error))), "Error");
    assert_eq!(shown(&render_result(&result(ResultClass::Exit))), "Exit");
}

#[test]
fn result_with_fields_has_a_colon() {
    let r = Result {
        token: None,
        class: ResultClass::Error,
        results: vec![("msg".to_string(), Value::Const("No symbol \"x\"".to_string()))],
    };
    assert_eq!(shown(&render_result(&r)), "Error: msg = «No symbol \"x\"»");
}

#[test]
fn line_begins_with_the_tag_of_its_kind() {
    assert_eq!(
        shown(&render_record(&record("^done,a=\"1\"\n"))),
        "<span color=\"#6BDEB1\">[RESULT]</span> Done: a = «1»"
    );
    assert_eq!(
        shown(&render_record(&record("*stopped\n"))),
        "<span color=\"#505B70\">[EXEC]</span> <b>stopped</b> "
    );
    assert_eq!(
        shown(&render_record(&record("+download,section=\".text\"\n"))),
        "<span color=\"#3FBCA6\">[STATUS]</span> <b>download</b> section = «.text»"
    );
    assert_eq!(
        shown(&render_record(&record("=thread-group-added,id=\"i1\"\n"))),
        "<span color=\"#CBCE79\">[NOTIFY]</span> <b>thread-group-added</b> id = «i1»"
    );
    assert_eq!(
        shown(&render_record(&record("~\"a < b\\n\"\n"))),
        "<span color=\"#A1D490\">[CONSOLE]</span> «a < b\n»"
    );
    assert_eq!(
        shown(&render_record(&record("@\"out\"\n"))),
        "<span color=\"#90C3D4\">[TARGET]</span> «out»"
    );
    assert_eq!(
        shown(&render_record(&record("&\"log\"\n"))),
        "<span color=\"#D4A190\">[LOG]</span> «log»"
    );
}
