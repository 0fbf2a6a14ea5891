use pico_cli::fifo_buffer::FifoBuffer;
use pico_cli::serial_io::{LineReader, ReadStep, SerialError, SerialHandle, WriteProgress};

/// Feeds bytes to a reader until it stops; returns the step and how many
/// bytes it took.
fn feed(bytes: &[u8], buf: &mut [u8]) -> (ReadStep, usize) {
    let mut r = LineReader::start(true).unwrap();
    for (i, b) in bytes.iter().enumerate() {
        match r.on_byte(*b, buf) {
            ReadStep::Continue => {}
            other => return (other, i + 1),
        }
    }
    (r.on_idle(false), bytes.len())
}

#[test]
fn a_line_that_fits() {
    let mut buf = [0u8; 8];
    let (step, used) = feed(b"pin\nrest", &mut buf);
    assert_eq!(step, ReadStep::Done(3));
    assert_eq!(used, 4);
    assert_eq!(&buf[..3], b"pin");
}

#[test]
fn an_over_long_line_overflows_and_the_next_starts_clean() {
    let mut buf = [0u8; 4];
    let input = b"abcdefgh\nok\n";
    let (step, used) = feed(input, &mut buf);
    assert_eq!(step, ReadStep::Fail(SerialError::BufferOverflow));
    assert_eq!(used, 9);
    assert_eq!(&buf, b"abcd");
    let (step, _) = feed(&input[used..], &mut buf);
    assert_eq!(step, ReadStep::Done(2));
    assert_eq!(&buf[..2], b"ok");
}

#[test]
fn a_line_of_exactly_the_capacity_fits() {
    let mut buf = [0u8; 4];
    let (step, _) = feed(b"abcd\n", &mut buf);
    assert_eq!(step, ReadStep::Done(4));
}

#[test]
fn disconnection_ends_reads() {
    assert!(matches!(LineReader::start(false), Err(SerialError::InvalidEndpoint)));
    let r = LineReader::start(true).unwrap();
    assert_eq!(r.on_idle(true), ReadStep::Continue);
    assert_eq!(r.on_idle(false), ReadStep::Fail(SerialError::InvalidEndpoint));
}

fn pending(bytes: &[u8]) -> FifoBuffer<64> {
    let mut b = FifoBuffer::new();
    b.append(bytes);
    b
}

#[test]
fn interrupt_character_latches_until_cleared() {
    let mut s = SerialHandle::new();
    assert!(!s.interrupt_cmd_triggered());
    let mut p = pending(b"abc");
    assert!(!s.poll_for_interrupt_char(&mut p));
    assert_eq!(p.get_data(), b"abc");
    assert!(!s.interrupt_cmd_triggered());
    let mut p = pending(b"ab~c pin x=1");
    assert!(s.poll_for_interrupt_char(&mut p));
    assert!(p.is_empty());
    assert!(s.interrupt_cmd_triggered());
    let mut p = pending(b"");
    assert!(!s.poll_for_interrupt_char(&mut p));
    assert!(s.interrupt_cmd_triggered());
    s.clear_interrupt_cmd();
    assert!(!s.interrupt_cmd_triggered());
}

#[test]
fn sampling_loop_stops_within_one_poll() {
    let mut s = SerialHandle::new();
    s.clear_interrupt_cmd();
    let chunks: [&[u8]; 4] = [b"", b"x", b"~rest", b"never read"];
    let mut samples = 0;
    let mut polls = 0;
    let mut log = Vec::new();
    while !s.interrupt_cmd_triggered() {
        samples += 1;
        let mut p = pending(chunks[polls]);
        if s.poll_for_interrupt_char(&mut p) {
            assert!(p.is_empty());
        }
        polls += 1;
    }
    log.push("Sampling Interrupted. Done!");
    assert_eq!(samples, 3);
    assert_eq!(polls, 3);
    assert_eq!(log, vec!["Sampling Interrupted. Done!"]);
}

#[test]
fn write_progress() {
    let mut w = WriteProgress::new(10);
    assert!(!w.is_done());
    w.on_written(4);
    assert_eq!(w.sent, 4);
    assert_eq!(w.on_would_block(true), Ok(()));
    assert_eq!(w.on_would_block(false), Err(SerialError::WouldBlock));
    w.on_written(100);
    assert_eq!(w.sent, 10);
    assert!(w.is_done());
}
