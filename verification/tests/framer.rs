use guru::gdb::{Framer, Step, MI_MSG_SEP};
use guru::mi::output_syntax::{
    AsyncRecord, OutOfBandResult, ParseError, Result, ResultClass, ResultOrOOB, Value,
};
use guru::mi::parser::parse_output;

fn done() -> ResultOrOOB {
    ResultOrOOB::Result(Result { token: None, class: ResultClass::Done, results: vec![] })
}

#[test]
fn separator_has_a_space() {
    assert_eq!(MI_MSG_SEP, "(gdb) \n");
}

#[test]
fn empty_framer_asks_for_bytes() {
    let mut framer = Framer::new(MI_MSG_SEP);
    assert_eq!(framer.next(), Step::Read);
    assert_eq!(framer.next(), Step::Read);
}

#[test]
fn whole_message_is_delivered() {
    let mut framer = Framer::new(MI_MSG_SEP);
    assert!(framer.receive(b"=thread-group-added,id=\"i1\"\n(gdb) \n"));
    assert_eq!(
        framer.next(),
        Step::Deliver(vec![ResultOrOOB::OOB(OutOfBandResult::NotifyAsyncRecord(AsyncRecord {
            token: None,
            class: "thread-group-added".to_string(),
            results: vec![("id".to_string(), Value::Const("i1".to_string()))],
        }))])
    );
    assert_eq!(framer.next(), Step::Read);
}

#[test]
fn message_waits_for_its_separator() {
    let mut framer = Framer::new(MI_MSG_SEP);
    assert!(framer.receive(b"^done\n"));
    assert_eq!(framer.next(), Step::Read);
    assert!(framer.receive(b"(gdb"));
    assert_eq!(framer.next(), Step::Read);
    assert!(framer.receive(b") "));
    assert_eq!(framer.next(), Step::Read);
    assert!(framer.receive(b"\n"));
    assert_eq!(framer.next(), Step::Deliver(vec![done()]));
    assert_eq!(framer.next(), Step::Read);
}

#[test]
fn messages_come_out_in_order() {
    let mut framer = Framer::new(MI_MSG_SEP);
    assert!(framer.receive(b"^done\n(gdb) \n^running\n*running,thread-id=\"all\"\n(gdb) \n^ex"));
    assert_eq!(framer.next(), Step::Deliver(vec![done()]));
    assert_eq!(
        framer.next(),
        Step::Deliver(parse_output("^running\n*running,thread-id=\"all\"\n").unwrap())
    );
    assert_eq!(framer.next(), Step::Read);
    assert!(framer.receive(b"it\n(gdb) \n"));
    assert_eq!(
        framer.next(),
        Step::Deliver(vec![ResultOrOOB::Result(Result {
            token: None,
            class: ResultClass::Exit,
            results: vec![]
        })])
    );
    assert_eq!(framer.next(), Step::Read);
}

#[test]
fn empty_message_is_delivered_without_records() {
    let mut framer = Framer::new(MI_MSG_SEP);
    assert!(framer.receive(b"(gdb) \n"));
    assert_eq!(framer.next(), Step::Deliver(vec![]));
    assert_eq!(framer.next(), Step::Read);
}

#[test]
fn message_that_does_not_parse_is_discarded() {
    let mut framer = Framer::new(MI_MSG_SEP);
    assert!(framer.receive(b"~\"foo(gdb) \n^done\n(gdb) \n"));
    assert_eq!(framer.next(), Step::Discard("~\"foo".to_string(), ParseError::Syntax));
    assert_eq!(framer.next(), Step::Deliver(vec![done()]));
    assert_eq!(framer.next(), Step::Read);
}

#[test]
fn message_with_a_name_twice_in_a_tuple_is_discarded() {
    let mut framer = Framer::new(MI_MSG_SEP);
    assert!(framer.receive(b"^done,a={x=\"1\",x=\"2\"}\n(gdb) \n*stopped\n(gdb) \n"));
    assert_eq!(
        framer.next(),
        Step::Discard("^done,a={x=\"1\",x=\"2\"}\n".to_string(), ParseError::DuplicateField)
    );
    assert_eq!(
        framer.next(),
        Step::Deliver(parse_output("*stopped\n").unwrap())
    );
    assert_eq!(framer.next(), Step::Read);
}

#[test]
fn read_of_no_bytes_closes_the_stream() {
    let mut framer = Framer::new(MI_MSG_SEP);
    assert!(!framer.receive(b""));
    assert!(framer.receive(b"^done\n"));
    assert!(!framer.receive(&[]));
    assert_eq!(framer.next(), Step::Read);
    assert!(framer.receive(b"(gdb) \n"));
    assert_eq!(framer.next(), Step::Deliver(vec![done()]));
}

#[test]
fn character_split_over_two_reads() {
    let text = "~\"caf\u{e9} \u{2192} \u{1f600}\"\n(gdb) \n";
    let bytes = text.as_bytes();
    let expected = Step::Deliver(vec![ResultOrOOB::OOB(OutOfBandResult::ConsoleStreamRecord(
        "caf\u{e9} \u{2192} \u{1f600}".to_string(),
    ))]);

    let mut whole = Framer::new(MI_MSG_SEP);
    assert!(whole.receive(bytes));
    assert_eq!(whole.next(), expected);
    assert_eq!(whole.next(), Step::Read);

    for cut in 1..bytes.len() {
        let mut framer = Framer::new(MI_MSG_SEP);
        assert!(framer.receive(&bytes[..cut]));
        assert_eq!(framer.next(), Step::Read);
        assert!(framer.receive(&bytes[cut..]));
        assert_eq!(framer.next(), expected);
        assert_eq!(framer.next(), Step::Read);
    }
}

#[test]
fn bytes_that_are_no_text_wait() {
    let mut framer = Framer::new(MI_MSG_SEP);
    assert!(framer.receive(&[0xff, b'\n']));
    assert!(framer.receive(b"(gdb) \n"));
    assert_eq!(framer.next(), Step::Read);
    assert_eq!(framer.next(), Step::Read);
}

#[test]
fn what_follows_a_message_stays() {
    let mut framer = Framer::new(MI_MSG_SEP);
    assert!(framer.receive("^done\n(gdb) \n~\"\u{e9}".as_bytes()));
    assert_eq!(framer.next(), Step::Deliver(vec![done()]));
    assert_eq!(framer.next(), Step::Read);
    assert!(framer.receive(b"\"\n(gdb) \n"));
    assert_eq!(
        framer.next(),
        Step::Deliver(vec![ResultOrOOB::OOB(OutOfBandResult::ConsoleStreamRecord(
            "\u{e9}".to_string()
        ))])
    );
}

#[test]
fn separator_can_be_chosen() {
    let mut framer = Framer::new("(gdb)\n");
    assert!(framer.receive(b"^done\n(gdb) \n"));
    assert_eq!(framer.next(), Step::Read);
    assert!(framer.receive(b"(gdb)\n"));
    assert_eq!(
        framer.next(),
        Step::Discard("^done\n(gdb) \n".to_string(), ParseError::Syntax)
    );
    assert!(framer.receive(b"^done\n(gdb)\n"));
    assert_eq!(framer.next(), Step::Deliver(vec![done()]));
}
