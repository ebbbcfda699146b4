use guru::mi::output_syntax::Value as MiValue;
use guru::mi::parser::{parse_output, parse_value};
use guru::mi::output_syntax::ResultOrOOB;
use guru::parsers::{
    _parse_asm_insts, parse_backtrace, parse_break_insert_result, parse_breakpoint, parse_expr,
    parse_frame, parse_var_create_result, parse_var_list_children_result,
};
use guru::types::{AsmInst, Breakpoint, BreakpointDisposition, BreakpointType, Frame, Value};

fn tuple(s: &str) -> Vec<(String, MiValue)> {
    let (value, rest) = parse_value(s).unwrap();
    assert_eq!(rest, "");
    value.get_tuple().unwrap()
}

fn results(s: &str) -> Vec<(String, MiValue)> {
    match parse_output(s).unwrap().pop().unwrap() {
        ResultOrOOB::Result(r) => r.results,
        ResultOrOOB::OOB(_) => panic!("a result record was expected"),
    }
}

#[test]
fn frame_with_all_its_fields() {
    let fields = tuple(
        "{level=\"0\",addr=\"0x00000000006eff82\",func=\"initCapabilities\",\
         file=\"rts/Capability.c\",fullname=\"/home/omer/haskell/ghc-gc/rts/Capability.c\",\
         line=\"398\"}",
    );
    assert_eq!(
        parse_frame(fields),
        Some(Frame {
            level: 0,
            addr: "0x00000000006eff82".to_string(),
            func: "initCapabilities".to_string(),
            file: Some("rts/Capability.c".to_string()),
            fullname: Some("/home/omer/haskell/ghc-gc/rts/Capability.c".to_string()),
            line: Some(398),
            from: None,
        })
    );
}

#[test]
fn frame_without_source() {
    let fields = tuple("{level=\"4\",addr=\"0x0000000000405366\",func=\"main\"}");
    assert_eq!(
        parse_frame(fields),
        Some(Frame {
            level: 4,
            addr: "0x0000000000405366".to_string(),
            func: "main".to_string(),
            file: None,
            fullname: None,
            line: None,
            from: None,
        })
    );
}

#[test]
fn frame_wants_level_addr_and_func() {
    assert_eq!(parse_frame(tuple("{addr=\"0x1\",func=\"main\"}")), None);
    assert_eq!(parse_frame(tuple("{level=\"0\",func=\"main\"}")), None);
    assert_eq!(parse_frame(tuple("{level=\"0\",addr=\"0x1\"}")), None);
    assert_eq!(parse_frame(tuple("{}")), None);
}

#[test]
fn frame_wants_its_fields_to_hold_what_they_should() {
    assert_eq!(parse_frame(tuple("{level=\"x\",addr=\"0x1\",func=\"main\"}")), None);
    assert_eq!(parse_frame(tuple("{level=\"-1\",addr=\"0x1\",func=\"main\"}")), None);
    assert_eq!(parse_frame(tuple("{level=[],addr=\"0x1\",func=\"main\"}")), None);
    assert_eq!(parse_frame(tuple("{level=\"0\",addr={},func=\"main\"}")), None);
    assert_eq!(parse_frame(tuple("{level=\"0\",addr=\"0x1\",func=\"main\",file=[]}")), None);
    assert_eq!(parse_frame(tuple("{level=\"0\",addr=\"0x1\",func=\"main\",fullname={}}")), None);
    assert_eq!(parse_frame(tuple("{level=\"0\",addr=\"0x1\",func=\"main\",line=\"a\"}")), None);
    assert_eq!(parse_frame(tuple("{level=\"0\",addr=\"0x1\",func=\"main\",line={}}")), None);
}

#[test]
fn backtrace_holds_its_frames_in_order() {
    let (value, _) = parse_value(
        "[frame={level=\"0\",addr=\"0x1\",func=\"f\"},frame={level=\"1\",addr=\"0x2\",func=\"g\",\
         line=\"7\"}]",
    )
    .unwrap();
    let backtrace = parse_backtrace(value.get_result_list().unwrap()).unwrap();
    assert_eq!(backtrace.0.len(), 2);
    assert_eq!(backtrace.0[0].level, 0);
    assert_eq!(backtrace.0[0].func, "f");
    assert_eq!(backtrace.0[1].level, 1);
    assert_eq!(backtrace.0[1].func, "g");
    assert_eq!(backtrace.0[1].line, Some(7));
}

#[test]
fn backtrace_without_frames() {
    assert_eq!(parse_backtrace(vec![]).map(|b| b.0), Some(vec![]));
}

#[test]
fn backtrace_wants_frames_only() {
    let list = |s: &str| parse_value(s).unwrap().0.get_result_list().unwrap();
    assert!(parse_backtrace(list("[frame={level=\"0\",addr=\"0x1\",func=\"f\"},other={}]")).is_none());
    assert!(parse_backtrace(list("[frame=\"0\"]")).is_none());
    assert!(parse_backtrace(list("[frame={level=\"0\",addr=\"0x1\",func=\"f\"},frame={}]")).is_none());
    assert!(parse_backtrace(list("[frame=[]]")).is_none());
}

const BKPT: &str = "{number=\"1\",type=\"breakpoint\",disp=\"keep\",enabled=\"y\",\
                    addr=\"0x000000000040052a\",func=\"main\",file=\"t.c\",\
                    fullname=\"/tmp/t.c\",line=\"5\",thread-groups=[\"i1\"],\
                    cond=\"x > 1\",times=\"3\",original-location=\"main\"}";

fn bkpt() -> Breakpoint {
    Breakpoint {
        number: 1,
        type_: BreakpointType::Breakpoint,
        disposition: BreakpointDisposition::Keep,
        enabled: true,
        address: "0x000000000040052a".to_string(),
        original_location: "main".to_string(),
        file: Some("t.c".to_string()),
        fullname: Some("/tmp/t.c".to_string()),
        line: Some(5),
        cond: Some("x > 1".to_string()),
        hits: 3,
    }
}

#[test]
fn breakpoint_with_all_its_fields() {
    assert_eq!(parse_breakpoint(tuple(BKPT)), Some(bkpt()));
}

#[test]
fn breakpoint_without_source_and_condition() {
    let fields = tuple(
        "{number=\"2\",type=\"breakpoint\",disp=\"nokeep\",enabled=\"n\",addr=\"<PENDING>\",\
         times=\"0\",original-location=\"foo\"}",
    );
    assert_eq!(
        parse_breakpoint(fields),
        Some(Breakpoint {
            number: 2,
            type_: BreakpointType::Breakpoint,
            disposition: BreakpointDisposition::NoKeep,
            enabled: false,
            address: "<PENDING>".to_string(),
            original_location: "foo".to_string(),
            file: None,
            fullname: None,
            line: None,
            cond: None,
            hits: 0,
        })
    );
}

fn without(field: &str) -> Vec<(String, MiValue)> {
    tuple(BKPT).into_iter().filter(|(name, _)| name != field).collect()
}

fn with(field: &str, value: &str) -> Vec<(String, MiValue)> {
    tuple(BKPT)
        .into_iter()
        .map(|(name, old)| {
            if name == field {
                (name, parse_value(value).unwrap().0)
            } else {
                (name, old)
            }
        })
        .collect()
}

#[test]
fn breakpoint_wants_its_fields() {
    for field in ["number", "type", "disp", "enabled", "addr", "original-location", "times"] {
        assert_eq!(parse_breakpoint(without(field)), None, "without {}", field);
    }
    for field in ["file", "fullname", "line", "cond", "func", "thread-groups"] {
        assert!(parse_breakpoint(without(field)).is_some(), "without {}", field);
    }
}

#[test]
fn breakpoint_wants_its_fields_to_hold_what_they_should() {
    assert_eq!(parse_breakpoint(with("number", "\"one\"")), None);
    assert_eq!(parse_breakpoint(with("number", "\"4294967296\"")), None);
    assert_eq!(parse_breakpoint(with("type", "\"watchpoint\"")), None);
    assert_eq!(parse_breakpoint(with("type", "\"hw watchpoint\"")), None);
    assert_eq!(parse_breakpoint(with("disp", "\"del\"")), None);
    assert_eq!(parse_breakpoint(with("enabled", "\"yes\"")), None);
    assert_eq!(parse_breakpoint(with("enabled", "\"\"")), None);
    assert_eq!(parse_breakpoint(with("addr", "[]")), None);
    assert_eq!(parse_breakpoint(with("original-location", "{}")), None);
    assert_eq!(parse_breakpoint(with("file", "{}")), None);
    assert_eq!(parse_breakpoint(with("fullname", "[]")), None);
    assert_eq!(parse_breakpoint(with("line", "\"five\"")), None);
    assert_eq!(parse_breakpoint(with("cond", "[]")), None);
    assert_eq!(parse_breakpoint(with("times", "\"-1\"")), None);
    assert_eq!(
        parse_breakpoint(with("number", "\"4294967295\"")).map(|b| b.number),
        Some(u32::MAX)
    );
}

#[test]
fn inserted_breakpoint_stands_under_bkpt() {
    let s = format!("^done,bkpt={}\n", BKPT);
    assert_eq!(parse_break_insert_result(results(&s)), Some(bkpt()));
    assert_eq!(parse_break_insert_result(results("^done\n")), None);
    assert_eq!(parse_break_insert_result(results("^done,bkpt=\"1\"\n")), None);
    assert_eq!(parse_break_insert_result(results("^done,bkpt={}\n")), None);
    let s = format!("^done,other={}\n", BKPT);
    assert_eq!(parse_break_insert_result(results(&s)), None);
}

#[test]
fn first_field_of_a_name_is_taken() {
    let s = format!("^done,bkpt={},bkpt={{}}\n", BKPT);
    assert_eq!(parse_break_insert_result(results(&s)), Some(bkpt()));
    let s = format!("^done,bkpt={{}},bkpt={}\n", BKPT);
    assert_eq!(parse_break_insert_result(results(&s)), None);
}

#[test]
fn created_variable() {
    let s = "^done,name=\"var1\",numchild=\"2\",value=\"{...}\",type=\"struct s\",has_more=\"0\"\n";
    let expected = Value {
        expr: None,
        value: "{...}".to_string(),
        name: "var1".to_string(),
        type_: "struct s".to_string(),
        n_children: 2,
    };
    assert_eq!(parse_var_create_result(results(s)), Some(expected));
    let expected = Value {
        expr: Some("x".to_string()),
        value: "1".to_string(),
        name: "var1.x".to_string(),
        type_: "int".to_string(),
        n_children: 0,
    };
    assert_eq!(
        parse_expr(tuple("{name=\"var1.x\",exp=\"x\",numchild=\"0\",value=\"1\",type=\"int\"}")),
        Some(expected)
    );
}

#[test]
fn variable_wants_its_fields() {
    assert_eq!(parse_expr(tuple("{numchild=\"0\",value=\"1\",type=\"int\"}")), None);
    assert_eq!(parse_expr(tuple("{name=\"v\",value=\"1\",type=\"int\"}")), None);
    assert_eq!(parse_expr(tuple("{name=\"v\",numchild=\"0\",type=\"int\"}")), None);
    assert_eq!(parse_expr(tuple("{name=\"v\",numchild=\"0\",value=\"1\"}")), None);
    assert_eq!(parse_expr(tuple("{name=\"v\",numchild=\"x\",value=\"1\",type=\"int\"}")), None);
    assert_eq!(
        parse_expr(tuple("{name=\"v\",exp=[],numchild=\"0\",value=\"1\",type=\"int\"}")),
        None
    );
    assert_eq!(parse_var_create_result(vec![]), None);
}

#[test]
fn children_of_a_variable() {
    let s = "^done,numchild=\"2\",children=[\
             child={name=\"v.a\",exp=\"a\",numchild=\"0\",value=\"1\",type=\"int\"},\
             child={name=\"v.b\",exp=\"b\",numchild=\"3\",value=\"{...}\",type=\"struct t\"}],\
             has_more=\"0\"\n";
    let children = parse_var_list_children_result(results(s)).unwrap();
    assert_eq!(children.len(), 2);
    assert_eq!(children[0].name, "v.a");
    assert_eq!(children[0].expr, Some("a".to_string()));
    assert_eq!(children[0].n_children, 0);
    assert_eq!(children[1].name, "v.b");
    assert_eq!(children[1].type_, "struct t");
    assert_eq!(children[1].n_children, 3);
}

#[test]
fn children_want_a_list_of_tuples() {
    assert_eq!(parse_var_list_children_result(results("^done,numchild=\"0\"\n")), None);
    assert_eq!(parse_var_list_children_result(results("^done,children=[]\n")), None);
    assert_eq!(parse_var_list_children_result(results("^done,children={}\n")), None);
    assert_eq!(parse_var_list_children_result(results("^done,children=[child=\"1\"]\n")), None);
    assert_eq!(parse_var_list_children_result(results("^done,children=[child={}]\n")), None);
}

#[test]
fn instructions_of_a_disassembly() {
    let (value, _) = parse_value(
        "[{address=\"0x4004f0\",func-name=\"main\",offset=\"0\",inst=\"push %rbp\"},\
         {address=\"0x4004f1\",func-name=\"main\",offset=\"1\",inst=\"mov %rsp,%rbp\"}]",
    )
    .unwrap();
    assert_eq!(
        _parse_asm_insts(value.get_value_list().unwrap()),
        Some(vec![
            AsmInst {
                offset: 0,
                func_name: "main".to_string(),
                inst: "push %rbp".to_string(),
                address: "0x4004f0".to_string(),
            },
            AsmInst {
                offset: 1,
                func_name: "main".to_string(),
                inst: "mov %rsp,%rbp".to_string(),
                address: "0x4004f1".to_string(),
            },
        ])
    );
    assert_eq!(_parse_asm_insts(vec![]), Some(vec![]));
}

#[test]
fn instructions_want_their_fields() {
    let list = |s: &str| parse_value(s).unwrap().0.get_value_list().unwrap();
    assert_eq!(_parse_asm_insts(list("[\"nop\"]")), None);
    assert_eq!(_parse_asm_insts(list("[{}]")), None);
    assert_eq!(
        _parse_asm_insts(list("[{address=\"0x1\",func-name=\"f\",offset=\"x\",inst=\"nop\"}]")),
        None
    );
    assert_eq!(_parse_asm_insts(list("[{address=\"0x1\",func-name=\"f\",inst=\"nop\"}]")), None);
    assert_eq!(_parse_asm_insts(list("[{address=\"0x1\",offset=\"0\",inst=\"nop\"}]")), None);
    assert_eq!(_parse_asm_insts(list("[{address=\"0x1\",func-name=\"f\",offset=\"0\"}]")), None);
    assert_eq!(_parse_asm_insts(list("[{func-name=\"f\",offset=\"0\",inst=\"nop\"}]")), None);
}
