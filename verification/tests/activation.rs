use micro_platform::activation::{ActivationQueue, InputChangeQueue};
use micro_platform::ir::FunctionId;

#[test]
fn activations_are_shared_and_fifo() {
    let producer = ActivationQueue::default();
    let mut consumer = producer.clone();
    producer.push(FunctionId(4));
    producer.push(FunctionId(9));
    assert_eq!(consumer.pop(), Some(FunctionId(4)));
    assert_eq!(consumer.pop(), Some(FunctionId(9)));
    assert_eq!(consumer.pop(), None);
}

#[test]
fn input_changes_are_shared_and_fifo() {
    let producer = InputChangeQueue::default();
    let mut consumer = producer.clone();
    producer.push(FunctionId(1), "a".to_owned());
    producer.push(FunctionId(2), "bc".to_owned());
    assert_eq!(consumer.pop(), Some((FunctionId(1), "a".to_owned())));
    assert_eq!(consumer.pop(), Some((FunctionId(2), "bc".to_owned())));
    assert_eq!(consumer.pop(), None);
}
