use cctv_ingest::models::AiLabel;
use cctv_ingest::models::CctvImageData;
use cctv_ingest::payload::build_point;
use cctv_ingest::payload::extract_string;
use cctv_ingest::payload::AttrValue;
use cctv_ingest::payload::PayloadBuilder;

fn descriptor() -> CctvImageData {
    CctvImageData {
        id: 17,
        cctv_id: "cctv08".to_string(),
        date: "2025-10-08".to_string(),
        time: "06:32:00".to_string(),
        frame: 3,
        vehicle_type: 2,
        yolo_id: 5,
        filename: "cctv08_2025-10-08_06-32_4.jpg".to_string(),
        file_path: "/data/cctv08_2025-10-08_06-32_4.jpg".to_string(),
        ai_label: None,
        created_at: Some("2025-10-08T06:33:00Z".to_string()),
    }
}

fn int_value(payload: &Vec<(String, AttrValue)>, key: &str) -> i64 {
    for (k, v) in payload.iter().rev() {
        if k == key {
            match v {
                AttrValue::Int(i) => return *i,
                _ => panic!("not an integer attribute"),
            }
        }
    }
    panic!("missing attribute")
}

fn double_bits(payload: &Vec<(String, AttrValue)>, key: &str) -> u64 {
    for (k, v) in payload.iter().rev() {
        if k == key {
            match v {
                AttrValue::Double(b) => return *b,
                _ => panic!("not a double attribute"),
            }
        }
    }
    panic!("missing attribute")
}

#[test]
fn test_payload_builder() {
    let payload = PayloadBuilder::new()
        .string("image", "test.jpg")
        .integer("frame", 42)
        .double("confidence", (0.95f64).to_bits())
        .build();

    assert_eq!(extract_string(&payload, "image"), "test.jpg");
}

#[test]
fn extract_string_defaults_to_empty() {
    let payload = PayloadBuilder::new().integer("frame", 1).build();
    assert_eq!(extract_string(&payload, "absent"), "");
    assert_eq!(extract_string(&payload, "frame"), "");
}

#[test]
fn later_insert_overwrites_earlier() {
    let payload = PayloadBuilder::new()
        .string("image", "a.jpg")
        .string("image", "b.jpg")
        .build();
    assert_eq!(extract_string(&payload, "image"), "b.jpg");
}

#[test]
fn optional_inserts_skip_on_none() {
    let payload = PayloadBuilder::new()
        .string_opt("a", Some("x"))
        .string_opt("b", None)
        .integer_opt("c", Some(9))
        .integer_opt("d", None)
        .build();
    assert_eq!(extract_string(&payload, "a"), "x");
    assert_eq!(extract_string(&payload, "b"), "");
    assert_eq!(int_value(&payload, "c"), 9);
    assert_eq!(payload.len(), 2);
}

#[test]
fn point_takes_descriptor_id_and_vector() {
    let img = descriptor();
    let vector: Vec<u32> = vec![1.0f32.to_bits(), 0.5f32.to_bits()];
    let p = build_point(&img, vector.clone(), "2025-10-08T07:00:00Z");
    assert_eq!(p.id, 17);
    assert_eq!(p.vector, vector);
}

#[test]
fn point_payload_holds_the_fixed_attributes() {
    let img = descriptor();
    let p = build_point(&img, vec![], "2025-10-08T07:00:00Z");
    assert_eq!(extract_string(&p.payload, "image"), img.file_path);
    assert_eq!(extract_string(&p.payload, "filename"), img.filename);
    assert_eq!(extract_string(&p.payload, "camera_id"), "cctv08");
    assert_eq!(extract_string(&p.payload, "datetime"), "2025-10-08T06:32:00Z");
    assert_eq!(int_value(&p.payload, "frame"), 3);
    assert_eq!(int_value(&p.payload, "vehicle_type"), 2);
    assert_eq!(int_value(&p.payload, "yolo_id"), 5);
    assert_eq!(extract_string(&p.payload, "created_at"), "2025-10-08T06:33:00Z");
    assert_eq!(extract_string(&p.payload, "vehicle_class"), "");
}

#[test]
fn created_at_falls_back_to_now() {
    let mut img = descriptor();
    img.created_at = None;
    let p = build_point(&img, vec![], "2025-10-08T07:00:00Z");
    assert_eq!(extract_string(&p.payload, "created_at"), "2025-10-08T07:00:00Z");
}

#[test]
fn classifier_label_adds_class_and_confidence() {
    let mut img = descriptor();
    img.ai_label = Some(AiLabel {
        class_name: "truck".to_string(),
        confidence: (0.875f64).to_bits(),
    });
    let p = build_point(&img, vec![], "2025-10-08T07:00:00Z");
    assert_eq!(extract_string(&p.payload, "vehicle_class"), "truck");
    assert_eq!(f64::from_bits(double_bits(&p.payload, "confidence")), 0.875);
}
