use devterm_core::pty::reader::{
    after_read, deliver, OutputEvent, ReaderStep, EXIT_NOTICE, OUTPUT_EVENT, READ_CHUNK_BYTES,
};

fn delivered(step: ReaderStep) -> OutputEvent {
    match step {
        ReaderStep::Deliver(ev) => ev,
        _ => panic!("the step delivers nothing and reads on"),
    }
}

#[test]
fn reader_constants() {
    assert_eq!(READ_CHUNK_BYTES, 8192);
    assert_eq!(OUTPUT_EVENT, "terminal-output");
    assert_eq!(EXIT_NOTICE, "\r\n[Process exited]\r\n");
}

#[test]
fn output_is_delivered_as_text() {
    let ev = delivered(after_read("s1", Some(b"hi\r\n")));
    assert_eq!(ev.session_id, "s1");
    assert_eq!(ev.data, "hi\r\n");
    assert!(ev.data.contains("hi"));
}

#[test]
fn multi_byte_output_is_decoded() {
    let ev = delivered(after_read("s1", Some("gr\u{fc}n \u{2713}".as_bytes())));
    assert_eq!(ev.data, "gr\u{fc}n \u{2713}");
}

#[test]
fn ill_formed_output_becomes_replacement_characters() {
    let ev = delivered(after_read("s1", Some(&[b'a', 0xff, b'b'])));
    assert_eq!(ev.data, "a\u{fffd}b");
}

#[test]
fn character_cut_by_the_chunk_boundary_is_replaced() {
    let whole = "\u{2713}".as_bytes();
    let first = delivered(after_read("s1", Some(&whole[..1])));
    let second = delivered(after_read("s1", Some(&whole[1..])));
    assert_eq!(first.data, "\u{fffd}");
    assert_eq!(second.data, "\u{fffd}\u{fffd}");
}

#[test]
fn end_of_stream_delivers_the_exit_notice_and_stops() {
    match after_read("s9", Some(&[])) {
        ReaderStep::DeliverAndStop(ev) => {
            assert_eq!(ev.session_id, "s9");
            assert_eq!(ev.data, "\r\n[Process exited]\r\n");
        }
        _ => panic!("the task must deliver the exit notice and stop"),
    }
}

#[test]
fn failed_read_stops_without_an_event() {
    assert!(matches!(after_read("s9", None), ReaderStep::Stop));
}

#[test]
fn deliver_wraps_the_text_as_it_is() {
    let ev = delivered(deliver("abc", "x\u{fffd}y".to_string()));
    assert_eq!(ev.session_id, "abc");
    assert_eq!(ev.data, "x\u{fffd}y");
}
