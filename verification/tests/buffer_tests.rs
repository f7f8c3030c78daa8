use hiqlite_stream::buffer::{BufferRegistry, ClientBuffer};

#[test]
fn buffer_preserves_fifo_order() {
    let mut buf = ClientBuffer::new();
    buf.push_back(vec![1]);
    buf.push_back(vec![2]);
    buf.push_back(vec![3]);
    assert_eq!(buf.len(), 3);
    assert_eq!(buf.try_pop(), Some(vec![1]));
    assert_eq!(buf.try_pop(), Some(vec![2]));
    assert_eq!(buf.try_pop(), Some(vec![3]));
    assert_eq!(buf.try_pop(), None);
}

#[test]
fn push_front_restores_a_failed_delivery() {
    let mut buf = ClientBuffer::new();
    buf.push_back(vec![1]);
    buf.push_back(vec![2]);
    let popped = buf.try_pop().unwrap();
    assert_eq!(popped, vec![1]);
    // The send failed: the frame goes back to the front, order intact.
    buf.push_front(popped);
    assert_eq!(buf.try_pop(), Some(vec![1]));
    assert_eq!(buf.try_pop(), Some(vec![2]));
}

#[test]
fn registry_creates_on_first_use_and_is_idempotent() {
    let mut reg = BufferRegistry::new();
    assert!(!reg.contains(7));
    reg.ensure_buffer(7);
    assert!(reg.contains(7));
    reg.ensure_buffer(7);
    assert!(reg.contains(7));
    assert_eq!(reg.try_pop_from(7), None);
}

#[test]
fn registry_keeps_clients_apart() {
    let mut reg = BufferRegistry::new();
    reg.push_to(1, vec![11]);
    reg.push_to(2, vec![22]);
    reg.push_to(1, vec![12]);
    assert_eq!(reg.try_pop_from(1), Some(vec![11]));
    assert_eq!(reg.try_pop_from(2), Some(vec![22]));
    assert_eq!(reg.try_pop_from(1), Some(vec![12]));
    assert_eq!(reg.try_pop_from(1), None);
    assert_eq!(reg.try_pop_from(2), None);
}

#[test]
fn registry_pop_from_unknown_client_is_none() {
    let mut reg = BufferRegistry::new();
    assert_eq!(reg.try_pop_from(99), None);
}

#[test]
fn registry_front_requeue_keeps_order() {
    let mut reg = BufferRegistry::new();
    reg.push_to(5, vec![1]);
    reg.push_to(5, vec![2]);
    let first = reg.try_pop_from(5).unwrap();
    reg.push_front_to(5, first);
    assert_eq!(reg.try_pop_from(5), Some(vec![1]));
    assert_eq!(reg.try_pop_from(5), Some(vec![2]));
}
