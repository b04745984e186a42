use esp_qq_bot::channel::{recv_result, send_result, MyChannelProvider};
use futures::executor::block_on;
use futures::StreamExt;

#[test]
fn recv_maps_end_to_error() {
    assert_eq!(recv_result(Some(5)), Ok(5));
    assert_eq!(recv_result::<i32>(None), Err(()));
}

#[test]
fn send_maps_to_zero_or_unit_error() {
    assert_eq!(send_result::<String>(Ok(())), Ok(0));
    assert_eq!(send_result(Err("closed".to_string())), Err(()));
}

#[test]
fn every_subscriber_receives() {
    let (tx, mut rx) = MyChannelProvider::channel::<u32>(4);
    let mut rx2 = tx.subscribe();
    let sent = block_on(tx.handle().0.send(&7));
    assert_eq!(send_result(sent), Ok(0));
    assert_eq!(recv_result(block_on(rx.handle_mut().0.next())), Ok(7));
    assert_eq!(recv_result(block_on(rx2.handle_mut().0.next())), Ok(7));
}

#[test]
fn broadcast_in_send_order_to_every_receiver() {
    let (tx, mut rx) = MyChannelProvider::channel::<u32>(4);
    let mut rx2 = tx.subscribe();
    assert_eq!(send_result(block_on(tx.handle().0.send(&1))), Ok(0));
    assert_eq!(send_result(block_on(tx.handle().0.send(&2))), Ok(0));
    for r in [&mut rx, &mut rx2] {
        assert_eq!(recv_result(block_on(r.handle_mut().0.next())), Ok(1));
        assert_eq!(recv_result(block_on(r.handle_mut().0.next())), Ok(2));
    }
}

#[test]
fn late_subscriber_misses_earlier_values() {
    let (tx, mut rx) = MyChannelProvider::channel::<u32>(4);
    assert_eq!(send_result(block_on(tx.handle().0.send(&1))), Ok(0));
    let mut late = tx.subscribe();
    assert_eq!(send_result(block_on(tx.handle().0.send(&2))), Ok(0));
    assert_eq!(recv_result(block_on(rx.handle_mut().0.next())), Ok(1));
    assert_eq!(recv_result(block_on(late.handle_mut().0.next())), Ok(2));
}
