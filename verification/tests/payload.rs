use socket_relay::payload::{PayloadQueue, PayloadType};

#[test]
fn payload_type_display_names() {
    assert_eq!(PayloadType::Wasm.to_string(), "Wasm");
    assert_eq!(PayloadType::Component.to_string(), "Component");
    assert_eq!(PayloadType::Json.to_string(), "Json");
}

#[test]
fn payload_type_names_are_distinct() {
    let all = [PayloadType::Wasm, PayloadType::Component, PayloadType::Json];
    for a in all {
        for b in all {
            assert_eq!(a.to_string() == b.to_string(), a == b);
        }
    }
}

#[test]
fn payload_queue_numbers_start_at_one() {
    let all = [
        PayloadQueue::Q1,
        PayloadQueue::Q2,
        PayloadQueue::Q3,
        PayloadQueue::Q4,
        PayloadQueue::Q5,
        PayloadQueue::Q6,
        PayloadQueue::Q7,
        PayloadQueue::Q8,
    ];
    for (i, q) in all.iter().enumerate() {
        assert_eq!(q.number() as usize, i + 1);
    }
}
