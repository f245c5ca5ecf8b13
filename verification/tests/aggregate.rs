use sockonsole::aggregate::collect_batch;
use sockonsole::aggregate::collect_batches;
use sockonsole::aggregate::OutputEvent;
use sockonsole::session::session_downlink;

#[test]
fn lines_concatenate_without_separator() {
    // Lines "a" and "b" within the quiet period: the batch is "ab", not "a\nb".
    let lines: Vec<Vec<u8>> = vec![b"a".to_vec(), b"b".to_vec()];
    assert_eq!(collect_batch(&lines), b"ab".to_vec());
}

#[test]
fn empty_batch_from_no_lines() {
    let lines: Vec<Vec<u8>> = Vec::new();
    assert_eq!(collect_batch(&lines), Vec::<u8>::new());
}

#[test]
fn quiet_period_closes_a_batch() {
    // Lines closer together than the quiet period share a batch; a gap of
    // at least the quiet period splits batches.
    let events = vec![
        OutputEvent::Line(b"a".to_vec()),
        OutputEvent::Line(b"b".to_vec()),
        OutputEvent::Quiet,
        OutputEvent::Line(b"c".to_vec()),
        OutputEvent::Quiet,
    ];
    let batches = collect_batches(&events);
    assert_eq!(batches, vec![b"ab".to_vec(), b"c".to_vec()]);
}

#[test]
fn output_after_last_quiet_period_is_not_emitted() {
    // A line that no quiet period has closed yet leaks into the next
    // command's batch; on its own it produces nothing.
    let events = vec![
        OutputEvent::Line(b"a".to_vec()),
        OutputEvent::Quiet,
        OutputEvent::Line(b"late".to_vec()),
    ];
    let batches = collect_batches(&events);
    assert_eq!(batches, vec![b"a".to_vec()]);
}

#[test]
fn quiet_with_no_lines_emits_empty_batch() {
    let events = vec![OutputEvent::Quiet, OutputEvent::Quiet];
    let batches = collect_batches(&events);
    assert_eq!(batches, vec![Vec::<u8>::new(), Vec::<u8>::new()]);
}

#[test]
fn echo_scenario_downlink_bytes() {
    // Managed process echoes: the client sent `echo hi\n`, the process
    // emitted the line `hi`, then fell silent.
    let events = vec![OutputEvent::Line(b"hi".to_vec()), OutputEvent::Quiet];
    let wire = session_downlink(&events);
    assert_eq!(wire, b"hi\nEND_RESPONSE\n".to_vec());
}

#[test]
fn two_commands_give_two_ordered_batches() {
    // Two commands back to back: each command's triggered output is closed
    // by its own quiet period and framed separately, in order.
    let events = vec![
        OutputEvent::Line(b"first".to_vec()),
        OutputEvent::Quiet,
        OutputEvent::Line(b"second".to_vec()),
        OutputEvent::Quiet,
    ];
    let wire = session_downlink(&events);
    assert_eq!(
        wire,
        b"first\nEND_RESPONSE\nsecond\nEND_RESPONSE\n".to_vec()
    );
}
