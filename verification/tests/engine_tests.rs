use gpio_remote::protocol::{Message, Response};
use gpio_remote::receive::Receiver;
use gpio_remote::send::Sender;
use gpio_remote::sim::SimInterface;
use gpio_remote::Error;

fn fresh() -> Receiver<SimInterface> {
    Receiver::new(SimInterface::new())
}

fn fresh_with_levels(levels: Vec<bool>) -> Receiver<SimInterface> {
    Receiver::new(SimInterface::with_levels(levels))
}

#[test]
fn open_once_single_hardware_call() {
    let mut r = fresh();
    assert_eq!(r.handle(Message::OpenIn { id: 5 }), Ok(()));
    assert_eq!(r.handle(Message::OpenIn { id: 5 }), Ok(()));
    // exactly one underlying open, and the handle identity is unchanged
    assert_eq!(r.interface().in_opens, vec![5]);
    let slot = r.input(5).unwrap();
    assert!(slot.is_some());
}

#[test]
fn open_once_output_side() {
    let mut r = fresh();
    assert_eq!(r.handle(Message::OpenOut { id: 9 }), Ok(()));
    assert_eq!(r.handle(Message::OpenOut { id: 9 }), Ok(()));
    assert_eq!(r.interface().out_opens, vec![9]);
}

#[test]
fn out_of_bounds_ids_are_refused_without_hardware_interaction() {
    let mut r = fresh();
    assert_eq!(r.handle(Message::OpenIn { id: 0 }), Err(Error::IDOutOfBounds));
    assert_eq!(r.handle(Message::OpenOut { id: 41 }), Err(Error::IDOutOfBounds));
    assert_eq!(r.handle(Message::RequestIn { id: 65535 }), Err(Error::IDOutOfBounds));
    assert_eq!(r.handle(Message::SetOut { id: 0, val: true }), Err(Error::IDOutOfBounds));
    assert!(r.interface().in_opens.is_empty());
    assert!(r.interface().out_opens.is_empty());
    assert!(r.execute_write().is_empty());
}

#[test]
fn boundary_identifiers_one_and_forty_are_valid() {
    let mut r = fresh();
    assert_eq!(r.handle(Message::OpenIn { id: 1 }), Ok(()));
    assert_eq!(r.handle(Message::OpenIn { id: 40 }), Ok(()));
    assert_eq!(r.interface().in_opens, vec![1, 40]);
    assert!(r.input(1).unwrap().is_some());
    assert!(r.input(40).unwrap().is_some());
    assert!(matches!(r.input(41), Err(Error::IDOutOfBounds)));
}

#[test]
fn missing_entry_is_tolerated_and_changes_nothing() {
    let mut r = fresh();
    assert_eq!(r.handle(Message::RequestIn { id: 8 }), Ok(()));
    assert_eq!(r.handle(Message::SetOut { id: 8, val: true }), Ok(()));
    assert!(r.interface().in_opens.is_empty());
    assert!(r.interface().out_opens.is_empty());
    // no response frame was produced
    assert!(r.execute_write().is_empty());
}

#[test]
fn gpio_open_failure_leaves_slot_empty() {
    let mut iface = SimInterface::new();
    iface.fail_opens = true;
    let mut r = Receiver::new(iface);
    assert_eq!(r.handle(Message::OpenIn { id: 2 }), Err(Error::GPIO));
    assert!(matches!(r.input(2), Ok(None)));
}

#[test]
fn request_ordering_two_reads_in_order() {
    let mut r = fresh_with_levels(vec![true, false]);
    assert_eq!(r.handle(Message::OpenIn { id: 5 }), Ok(()));
    assert_eq!(r.handle(Message::RequestIn { id: 5 }), Ok(()));
    assert_eq!(r.handle(Message::RequestIn { id: 5 }), Ok(()));
    let bytes = r.execute_write();
    // the flushed image holds the two readings, in request order
    let s = Sender::new();
    let (first, used) = s.check_for_resp(&bytes).unwrap();
    assert_eq!(first, Response::InValue { id: 5, val: true });
    let (second, used2) = s.check_for_resp(&bytes[used..]).unwrap();
    assert_eq!(second, Response::InValue { id: 5, val: false });
    assert_eq!(used + used2, bytes.len());
    // the queue was cleared by the flush
    assert!(r.execute_write().is_empty());
}

#[test]
fn set_out_scenario_drives_high_and_produces_no_response() {
    let mut r = fresh();
    assert_eq!(r.handle(Message::OpenOut { id: 3 }), Ok(()));
    assert_eq!(r.handle(Message::SetOut { id: 3, val: true }), Ok(()));
    assert_eq!(r.interface().out_opens, vec![3]);
    let slot = r.output(3).unwrap();
    let handle = slot.as_ref().unwrap();
    assert_eq!(handle.sets, vec![true]);
    assert!(r.execute_write().is_empty());
}

#[test]
fn execute_consumes_exactly_one_frame() {
    let mut s = Sender::new();
    s.open_in(5);
    let mut bytes = s.take_bytes();
    let frame_len = bytes.len();
    // trailing bytes of a following frame must be left untouched
    bytes.extend_from_slice(&[0xde, 0xad, 0xbe, 0xef]);
    let mut r = fresh();
    assert_eq!(r.execute(&bytes), Ok(frame_len));
    assert_eq!(r.interface().in_opens, vec![5]);
}

#[test]
fn execute_short_buffer_is_an_io_error() {
    let mut r = fresh();
    assert_eq!(r.execute(&[]), Err(Error::IO));
    assert_eq!(r.execute(&[0x05]), Err(Error::IO));
    // the prefix announces five payload bytes but only two follow
    assert_eq!(r.execute(&[0x05, 0x00, 0x01, 0x02]), Err(Error::IO));
    assert!(r.interface().in_opens.is_empty());
}

#[test]
fn execute_unknown_payload_is_a_protocol_error() {
    let mut r = fresh();
    assert_eq!(r.execute(&[0x03, 0x00, 0xff, 0xff, 0xff]), Err(Error::Protocol));
    assert!(r.interface().in_opens.is_empty());
}

#[test]
fn execute_out_of_bounds_command() {
    let mut s = Sender::new();
    s.open_in(41);
    let bytes = s.take_bytes();
    let mut r = fresh();
    assert_eq!(r.execute(&bytes), Err(Error::IDOutOfBounds));
    assert!(r.interface().in_opens.is_empty());
}

#[test]
fn full_session_over_the_wire() {
    // sender encodes a batch, receiver executes frame by frame, flushes,
    // sender reads the responses back
    let mut s = Sender::new();
    s.open_in(1);
    s.open_out(2);
    s.request_in(1);
    s.set_out(2, gpio_remote::GpioValue::High);
    s.request_in(1);
    let bytes = s.take_bytes();

    let mut r = fresh_with_levels(vec![false, true]);
    let mut at = 0;
    while at < bytes.len() {
        at += r.execute(&bytes[at..]).unwrap();
    }
    assert_eq!(at, bytes.len());

    let resp_bytes = r.execute_write();
    let (first, used) = s.check_for_resp(&resp_bytes).unwrap();
    let (second, used2) = s.check_for_resp(&resp_bytes[used..]).unwrap();
    assert_eq!(first, Response::InValue { id: 1, val: false });
    assert_eq!(second, Response::InValue { id: 1, val: true });
    assert_eq!(used + used2, resp_bytes.len());

    assert_eq!(r.interface().in_opens, vec![1]);
    assert_eq!(r.interface().out_opens, vec![2]);
    let out_slot = r.output(2).unwrap();
    assert_eq!(out_slot.as_ref().unwrap().sets, vec![true]);
}
