use std::collections::HashMap;

use oxify::nodes::{
    inline_image_bytes, parallel_outcome, vision_provider, ParallelOutcome, ParallelStrategy,
    TaskRecord, VisionProvider,
};

fn done(v: &[(&str, Result<&str, &str>)]) -> Vec<(String, Result<String, String>)> {
    v.iter()
        .map(|(k, r)| (k.to_string(), r.map(|s| s.to_string()).map_err(|e| e.to_string())))
        .collect()
}

fn as_map(o: ParallelOutcome) -> HashMap<String, TaskRecord> {
    match o {
        ParallelOutcome::Results(rs) => rs.into_iter().collect(),
        ParallelOutcome::Failed(m) => panic!("unexpected failure {m}"),
    }
}

#[test]
fn parallel_wait_all() {
    let ok = done(&[("a", Ok("1")), ("b", Ok("2"))]);
    let m = as_map(parallel_outcome(&ok, ParallelStrategy::WaitAll));
    assert_eq!(m.len(), 2);
    assert_eq!(m["a"], TaskRecord::Success("1".to_string()));
    let bad = done(&[("a", Ok("1")), ("b", Err("Variable not found: x")), ("c", Err("other"))]);
    match parallel_outcome(&bad, ParallelStrategy::WaitAll) {
        ParallelOutcome::Failed(m) => assert_eq!(m, "Parallel task failed: Variable not found: x"),
        _ => panic!("expected a failure"),
    }
}

#[test]
fn parallel_race_and_all_settled() {
    let d = done(&[("a", Err("e1")), ("b", Ok("2")), ("c", Err("e2"))]);
    let m = as_map(parallel_outcome(&d, ParallelStrategy::Race));
    assert_eq!(m.len(), 1);
    assert_eq!(m["failed_task"], TaskRecord::Error("e1".to_string()));
    let m = as_map(parallel_outcome(&d, ParallelStrategy::AllSettled));
    assert_eq!(m.len(), 2);
    assert_eq!(m["b"], TaskRecord::Success("2".to_string()));
    assert_eq!(m["failed_task"], TaskRecord::Error("e2".to_string()));
    assert!(as_map(parallel_outcome(&vec![], ParallelStrategy::Race)).is_empty());
}

#[test]
fn vision_inline_images() {
    assert_eq!(inline_image_bytes("data:image/png;base64,AAEC"), Some(vec![0u8, 1, 2]));
    assert_eq!(inline_image_bytes("data:image/png;base64,!!"), Some(vec![]));
    assert_eq!(inline_image_bytes("/tmp/picture.png"), None);
    let long = "A".repeat(1004);
    assert_eq!(inline_image_bytes(&long).map(|b| b.len()), Some(753));
}

#[test]
fn vision_providers() {
    assert_eq!(vision_provider("Mock", &None), Ok(VisionProvider::Mock));
    assert_eq!(vision_provider("TESSERACT", &None), Ok(VisionProvider::Tesseract));
    assert_eq!(
        vision_provider("surya", &Some("/m".to_string())),
        Ok(VisionProvider::Surya { model_path: "/m".to_string() })
    );
    assert_eq!(
        vision_provider("surya", &None),
        Err("Surya provider requires model_path configuration".to_string())
    );
    assert_eq!(
        vision_provider("paddle", &None),
        Err("PaddleOCR provider requires model_path configuration".to_string())
    );
    assert_eq!(vision_provider("gpt", &None), Err("Unsupported vision provider: gpt".to_string()));
}
