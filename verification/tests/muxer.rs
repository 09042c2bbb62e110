use cmail::muxer::{muxer, Input, Output};

#[test]
fn items_come_through_in_order_until_all_inputs_close() {
    let mut mux = muxer(2);
    assert!(!mux.is_closed());
    assert_eq!(mux.step(0, Input::Item("a")), Output::Item("a"));
    assert_eq!(mux.step(1, Input::Item("b")), Output::Item("b"));
    assert_eq!(mux.step::<&str>(0, Input::Closed), Output::Nothing);
    assert!(!mux.is_open(0));
    assert!(mux.is_open(1));
    assert!(!mux.is_closed());
    assert_eq!(mux.step(1, Input::Item("c")), Output::Item("c"));
    assert_eq!(mux.step::<&str>(1, Input::Closed), Output::Close);
    assert!(mux.is_closed());
}

#[test]
fn a_single_input_closes_the_output() {
    let mut mux = muxer(1);
    assert!(mux.is_open(0));
    assert!(!mux.is_open(1));
    assert_eq!(mux.step::<u8>(0, Input::Closed), Output::Close);
}

#[test]
fn no_inputs_are_closed_from_the_start() {
    assert!(muxer(0).is_closed());
    assert!(!muxer(0).is_open(0));
}
