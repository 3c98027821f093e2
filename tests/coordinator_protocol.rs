use ekc::coordinator::{Coordinator, CoordinatorAction, WorkerStatus};
use ekc::wire::EkcImage;

fn result_payload() -> Vec<u8> {
    EkcImage { image_data: vec![9; 16], width: 2, height: 2 }.encode()
}

fn register(c: &mut Coordinator, id: &str) {
    match c.handle_message("ekc-reg", id.as_bytes()) {
        CoordinatorAction::Subscribe(topic) => assert_eq!(topic, format!("ekc-recv-{id}")),
        _ => panic!("registration must ask for a subscription"),
    }
}

#[test]
fn one_worker_takes_one_image_at_a_time() {
    let mut c = Coordinator::new(3);
    register(&mut c, "w1");
    let w1 = "w1".to_string();
    assert_eq!(c.status_of(&w1), Some(WorkerStatus::Ready));

    let d = c.next_dispatch().expect("first image goes out");
    assert_eq!(d.worker, "w1");
    assert_eq!(d.image, 0);
    assert_eq!(d.topic, "ekc-send-w1");
    assert_eq!(c.status_of(&w1), Some(WorkerStatus::Processing));
    assert!(c.next_dispatch().is_none());
    assert_eq!(c.outstanding_count(), 1);

    match c.handle_message("ekc-recv-w1", &result_payload()) {
        CoordinatorAction::Save { image, number } => {
            assert_eq!(number, 1);
            assert_eq!((image.width, image.height), (2, 2));
            assert_eq!(image.image_data, vec![9; 16]);
        },
        _ => panic!("result must be saved"),
    }
    assert_eq!(c.status_of(&w1), Some(WorkerStatus::Ready));

    let d = c.next_dispatch().expect("second image goes out");
    assert_eq!(d.image, 1);
    assert_eq!(d.worker, "w1");
    assert!(c.next_dispatch().is_none());
    assert!(!c.is_finished());
}

#[test]
fn two_workers_two_images_each_one_task() {
    let mut c = Coordinator::new(2);
    register(&mut c, "a");
    register(&mut c, "b");
    let first = c.next_dispatch().expect("first image");
    let second = c.next_dispatch().expect("second image");
    assert_eq!((first.worker.as_str(), first.image), ("a", 0));
    assert_eq!((second.worker.as_str(), second.image), ("b", 1));
    assert!(c.next_dispatch().is_none());
    assert_eq!(c.status_of(&"a".to_string()), Some(WorkerStatus::Processing));
    assert_eq!(c.status_of(&"b".to_string()), Some(WorkerStatus::Processing));

    assert!(matches!(c.handle_message("ekc-recv-b", &result_payload()), CoordinatorAction::Save { number: 1, .. }));
    assert!(matches!(c.handle_message("ekc-recv-a", &result_payload()), CoordinatorAction::Save { number: 2, .. }));
    assert!(c.is_finished());
    assert!(c.next_dispatch().is_none());
}

#[test]
fn bad_result_leaves_other_workers_alone() {
    let mut c = Coordinator::new(3);
    register(&mut c, "a");
    register(&mut c, "b");
    c.next_dispatch().expect("image for a");
    c.next_dispatch().expect("image for b");

    assert!(matches!(c.handle_message("ekc-recv-a", &[1, 2, 3]), CoordinatorAction::Discard(_)));
    assert_eq!(c.status_of(&"b".to_string()), Some(WorkerStatus::Processing));
    assert_eq!(c.status_of(&"a".to_string()), Some(WorkerStatus::Ready));
    assert_eq!(c.failed_count(), 1);

    assert!(matches!(c.handle_message("ekc-recv-b", &result_payload()), CoordinatorAction::Save { number: 1, .. }));
    assert_eq!(c.saved_count(), 1);
    let d = c.next_dispatch().expect("third image");
    assert_eq!((d.worker.as_str(), d.image), ("a", 2));
}

#[test]
fn unknown_or_idle_results_are_ignored() {
    let mut c = Coordinator::new(1);
    assert!(matches!(c.handle_message("ekc-recv-x", &result_payload()), CoordinatorAction::Ignore));
    register(&mut c, "x");
    assert!(matches!(c.handle_message("ekc-recv-x", &result_payload()), CoordinatorAction::Ignore));
    assert!(matches!(c.handle_message("other", &[]), CoordinatorAction::Ignore));
    assert!(matches!(c.handle_message("ekc-reg", &[0xff, 0xfe]), CoordinatorAction::Ignore));
    assert_eq!(c.saved_count(), 0);
    assert_eq!(c.dispatched_count(), 0);
}

#[test]
fn reregistration_while_processing_drops_the_task() {
    let mut c = Coordinator::new(2);
    register(&mut c, "w");
    c.next_dispatch().expect("image for w");
    register(&mut c, "w");
    assert_eq!(c.status_of(&"w".to_string()), Some(WorkerStatus::Ready));
    assert_eq!(c.outstanding_count(), 0);
    assert_eq!(c.failed_count(), 1);
    let d = c.next_dispatch().expect("second image");
    assert_eq!(d.image, 1);
}
