use cctv_ingest::models::BatchImageEmbeddingResult;
use cctv_ingest::models::CctvImageData;
use cctv_ingest::models::CctvMetadataResponse;
use cctv_ingest::payload::extract_string;
use cctv_ingest::pipeline::build_metadata_request;
use cctv_ingest::pipeline::collect_image_paths;
use cctv_ingest::pipeline::plan_batch;
use cctv_ingest::pipeline::validate_embed_input;
use cctv_ingest::pipeline::PlanAction;

fn descriptor(id: u32, path: &str) -> CctvImageData {
    CctvImageData {
        id,
        cctv_id: "cctv08".to_string(),
        date: "2025-10-08".to_string(),
        time: "06:32:00".to_string(),
        frame: 1,
        vehicle_type: 2,
        yolo_id: 3,
        filename: format!("img{}.jpg", id),
        file_path: path.to_string(),
        ai_label: None,
        created_at: Some("2025-10-08T06:33:00Z".to_string()),
    }
}

fn ok_result(path: &str) -> BatchImageEmbeddingResult {
    BatchImageEmbeddingResult {
        path: path.to_string(),
        embedding: Some(vec![1, 2, 3]),
        error: None,
    }
}

fn err_result(path: &str, msg: &str) -> BatchImageEmbeddingResult {
    BatchImageEmbeddingResult {
        path: path.to_string(),
        embedding: None,
        error: Some(msg.to_string()),
    }
}

const NOW: &str = "2025-10-08T07:00:00Z";

#[test]
fn correlation_is_by_reference_not_position() {
    let images = vec![descriptor(1, "/a"), descriptor(2, "/b"), descriptor(3, "/c")];
    // Results arrive in a different order than the descriptors.
    let results = vec![ok_result("/c"), ok_result("/a"), ok_result("/b")];
    let plan = plan_batch(&images, &results, NOW);
    assert_eq!(plan.actions.len(), 3);
    let ids: Vec<u64> = plan
        .actions
        .iter()
        .map(|a| match a {
            PlanAction::Upsert { point, .. } => point.id,
            _ => panic!("expected a write"),
        })
        .collect();
    assert_eq!(ids, vec![3, 1, 2]);
    assert!(plan.unmatched.is_empty());
}

#[test]
fn unmatched_descriptor_gets_one_warning_and_no_write() {
    let images = vec![descriptor(1, "/a"), descriptor(2, "/b")];
    let results = vec![ok_result("/a")];
    let plan = plan_batch(&images, &results, NOW);
    assert_eq!(plan.actions.len(), 1);
    assert!(matches!(plan.actions[0], PlanAction::Upsert { .. }));
    assert_eq!(plan.unmatched, vec![1]);
}

#[test]
fn result_without_descriptor_is_skipped_with_warning() {
    let images = vec![descriptor(1, "/a")];
    let results = vec![ok_result("/a"), ok_result("/ghost")];
    let plan = plan_batch(&images, &results, NOW);
    assert!(matches!(plan.actions[0], PlanAction::Upsert { .. }));
    assert!(matches!(
        plan.actions[1],
        PlanAction::SkipNoDescriptor { result_index: 1 }
    ));
}

#[test]
fn one_failing_item_leaves_the_rest_written() {
    let images = vec![descriptor(1, "/a"), descriptor(2, "/b"), descriptor(3, "/c")];
    let results = vec![
        ok_result("/a"),
        err_result("/b", "decode failed"),
        ok_result("/c"),
    ];
    let plan = plan_batch(&images, &results, NOW);
    let writes = plan
        .actions
        .iter()
        .filter(|a| matches!(a, PlanAction::Upsert { .. }))
        .count();
    assert_eq!(writes, results.len() - 1);
    assert!(matches!(plan.actions[1], PlanAction::SkipError { result_index: 1 }));
}

#[test]
fn result_without_vector_is_skipped() {
    let images = vec![descriptor(1, "/a")];
    let results = vec![BatchImageEmbeddingResult {
        path: "/a".to_string(),
        embedding: None,
        error: None,
    }];
    let plan = plan_batch(&images, &results, NOW);
    assert!(matches!(
        plan.actions[0],
        PlanAction::SkipNoEmbedding { result_index: 0 }
    ));
}

#[test]
fn written_point_carries_the_result_vector_and_descriptor_payload() {
    let images = vec![descriptor(9, "/a")];
    let results = vec![ok_result("/a")];
    let plan = plan_batch(&images, &results, NOW);
    match &plan.actions[0] {
        PlanAction::Upsert { result_index, point } => {
            assert_eq!(*result_index, 0);
            assert_eq!(point.id, 9);
            assert_eq!(point.vector, vec![1, 2, 3]);
            assert_eq!(extract_string(&point.payload, "image"), "/a");
            assert_eq!(
                extract_string(&point.payload, "datetime"),
                "2025-10-08T06:32:00Z"
            );
        }
        _ => panic!("expected a write"),
    }
}

#[test]
fn clock_driven_plan_matches_the_deterministic_one() {
    let images = vec![descriptor(1, "/a"), descriptor(2, "/b")];
    let results = vec![ok_result("/b"), err_result("/a", "boom")];
    let plan = cctv_ingest::pipeline::plan_batch_at_now(&images, &results);
    assert_eq!(plan.actions.len(), 2);
    match &plan.actions[0] {
        PlanAction::Upsert { point, .. } => assert_eq!(point.id, 2),
        _ => panic!("expected a write"),
    }
    assert!(matches!(plan.actions[1], PlanAction::SkipError { result_index: 1 }));
}

#[test]
fn image_paths_are_collected_in_order() {
    let images = vec![descriptor(1, "/x"), descriptor(2, "/y")];
    let paths = collect_image_paths(&images);
    assert_eq!(paths, vec!["/x".to_string(), "/y".to_string()]);
}

#[test]
fn empty_batch_is_rejected_locally() {
    let empty: Vec<String> = vec![];
    let e = validate_embed_input(&empty).unwrap_err();
    assert_eq!(e, "no image paths to embed");
    assert!(validate_embed_input(&vec!["/a".to_string()]).is_ok());
}

#[test]
fn metadata_request_copies_the_window() {
    let w = cctv_ingest::datetime::ScheduleWindow {
        date_start: "2025-10-06 06:32:04".to_string(),
        date_stop: "2025-10-08 06:32:04".to_string(),
    };
    let r = build_metadata_request("cctv08", &w, 20);
    assert_eq!(r.cctv_id, "cctv08");
    assert_eq!(r.date_start, "2025-10-06 06:32:04");
    assert_eq!(r.date_stop, "2025-10-08 06:32:04");
    assert_eq!(r.limit, 20);
}

#[test]
fn application_failure_flag_is_an_error() {
    let resp = CctvMetadataResponse { success: false, count: 0, data: vec![] };
    assert_eq!(resp.into_result().unwrap_err(), "API returned success=false");
    let ok = CctvMetadataResponse {
        success: true,
        count: 1,
        data: vec![descriptor(1, "/a")],
    };
    assert_eq!(ok.into_result().unwrap().len(), 1);
}
