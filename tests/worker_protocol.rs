use ekc::worker::{finish_readback, plan_execution, PlanError, Worker, WorkerAction};
use ekc::wire::{DecodeError, EkcImage};

#[test]
fn worker_builds_pipeline_then_takes_images() {
    let mut w = Worker::new("abc".to_string());
    assert_eq!(w.send_topic(), "ekc-send-abc");
    let img = EkcImage { image_data: vec![5; 4], width: 1, height: 1 };
    assert!(matches!(w.handle_message("ekc-send-abc", &img.encode()), WorkerAction::Ignore));
    match w.handle_message("ekc-init", b"@compute fn main() {}") {
        WorkerAction::BuildPipeline(k) => assert_eq!(k, "@compute fn main() {}"),
        _ => panic!("kernel must be built"),
    }
    w.pipeline_built();
    assert!(w.is_ready());
    match w.handle_message("ekc-send-abc", &img.encode()) {
        WorkerAction::Execute(i) => assert_eq!(i.image_data, vec![5; 4]),
        _ => panic!("image must be executed"),
    }
    assert!(matches!(w.handle_message("ekc-send-abc", &[0; 3]), WorkerAction::Reject(DecodeError::Malformed)));
    assert!(matches!(w.handle_message("ekc-send-other", &img.encode()), WorkerAction::Ignore));
    assert!(matches!(w.handle_message("ekc-init", &[0xc3]), WorkerAction::Ignore));
}

#[test]
fn result_message_goes_to_result_topic() {
    let w = Worker::new("abc".to_string());
    let out = EkcImage { image_data: vec![1, 2, 3, 4], width: 1, height: 1 };
    let (topic, bytes) = w.result_message(&out);
    assert_eq!(topic, "ekc-recv-abc");
    let back = EkcImage::decode(&bytes).expect("result decodes");
    assert_eq!(back.image_data, vec![1, 2, 3, 4]);
}

#[test]
fn plan_for_odd_sizes() {
    let p = plan_execution(17, 3).expect("plan");
    assert_eq!((p.groups_x, p.groups_y), (2, 1));
    assert_eq!(p.unpadded_bytes_per_row, 68);
    assert_eq!(p.padded_bytes_per_row, 256);
    assert_eq!(p.readback_size, 768);
    assert!(matches!(plan_execution(0, 3), Err(PlanError::EmptyImage)));
    assert!(matches!(plan_execution(3, 0), Err(PlanError::EmptyImage)));
    assert!(matches!(plan_execution(u32::MAX, 1), Err(PlanError::TooWide)));
}

#[test]
fn readback_strips_padding() {
    let p = plan_execution(2, 2).expect("plan");
    let mut padded = vec![0u8; 512];
    padded[..8].copy_from_slice(&[1, 2, 3, 4, 5, 6, 7, 8]);
    padded[256..264].copy_from_slice(&[9, 10, 11, 12, 13, 14, 15, 16]);
    let out = finish_readback(&p, &padded).expect("size matches");
    assert_eq!(out.image_data, (1..=16).collect::<Vec<u8>>());
    assert_eq!((out.width, out.height), (2, 2));
    assert!(finish_readback(&p, &padded[..511]).is_none());
}
