use medistore::errors::StoreError;
use medistore::events::Event;
use medistore::records::{FileMetadata, ModelMetadata};
use medistore::service::AppState;

const MODEL_MAX: usize = 10 * 1024 * 1024;
const SCAN_MAX: usize = 50 * 1024 * 1024;

fn upload_model_at(
    st: &mut AppState,
    name: &str,
    payload: Vec<u8>,
    is_public: bool,
    now: u64,
) -> Result<String, StoreError> {
    st.upload_model(
        name.to_string(),
        "a description".to_string(),
        "tumor_classifier".to_string(),
        "1.0".to_string(),
        payload,
        "alice".to_string(),
        is_public,
        now,
    )
}

fn upload_scan_at(
    st: &mut AppState,
    patient: &str,
    payload: Vec<u8>,
    now: u64,
) -> Result<String, StoreError> {
    st.upload_scan(
        patient.to_string(),
        "mri".to_string(),
        "head".to_string(),
        payload,
        "bob".to_string(),
        now,
    )
}

#[test]
fn upload_then_get_reports_exact_payload_size() {
    let mut st = AppState::init();
    let mid = upload_model_at(&mut st, "m1", vec![7u8; 1234], true, 5).unwrap();
    let model = st.get_model(&mid).unwrap();
    assert_eq!(model.file_size, 1234);
    assert_eq!(model.payload.len(), 1234);
    assert_eq!(model.name, "m1");
    assert_eq!(model.created_at, 5);

    let sid = upload_scan_at(&mut st, "ada", vec![1u8; 321], 6).unwrap();
    let scan = st.get_scan(&sid).unwrap();
    assert_eq!(scan.file_size, 321);
    assert_eq!(scan.patient_id, "ada");
    assert_eq!(scan.annotation_count, 0);
}

#[test]
fn model_ids_carry_prefix_timestamp_and_serial() {
    let mut st = AppState::init();
    let first = upload_model_at(&mut st, "m1", vec![0u8; 1], true, 5).unwrap();
    let second = upload_model_at(&mut st, "m2", vec![0u8; 1], true, 5).unwrap();
    assert_eq!(first, "model_5_0");
    assert_eq!(second, "model_5_1");
    assert_ne!(first, second);
    let sid = upload_scan_at(&mut st, "ada", vec![0u8; 1], 5).unwrap();
    assert_eq!(sid, "scan_5_2");
}

#[test]
fn oversized_model_is_refused_and_nothing_is_created() {
    let mut st = AppState::init();
    let kept = upload_model_at(&mut st, "kept", vec![0u8; 8], true, 1).unwrap();
    let r = upload_model_at(&mut st, "big", vec![0u8; MODEL_MAX + 1], true, 2);
    match r {
        Err(StoreError::FileTooLarge(size)) => assert_eq!(size, (MODEL_MAX + 1) as u64),
        _ => panic!("expected FileTooLarge"),
    }
    let stats = st.get_stats();
    assert_eq!(stats.total, 1);
    assert!(st.get_model(&kept).is_some());
    assert!(st.get_model(&"model_2_1".to_string()).is_none());
}

#[test]
fn model_at_exact_limit_is_accepted() {
    let mut st = AppState::init();
    let id = upload_model_at(&mut st, "edge", vec![0u8; MODEL_MAX], false, 1).unwrap();
    assert_eq!(st.get_model(&id).unwrap().file_size, MODEL_MAX as u64);
}

#[test]
fn scan_at_exact_limit_succeeds_and_one_byte_more_fails() {
    let mut st = AppState::init();
    let ok = upload_scan_at(&mut st, "ada", vec![0u8; SCAN_MAX], 1).unwrap();
    assert_eq!(st.get_scan(&ok).unwrap().file_size, SCAN_MAX as u64);
    let r = upload_scan_at(&mut st, "ada", vec![0u8; SCAN_MAX + 1], 2);
    match r {
        Err(StoreError::FileTooLarge(size)) => assert_eq!(size, (SCAN_MAX + 1) as u64),
        _ => panic!("expected FileTooLarge"),
    }
}

#[test]
fn sequential_downloads_count_accesses_and_stamp_last_time() {
    let mut st = AppState::init();
    let id = upload_model_at(&mut st, "m", vec![0u8; 9], true, 10).unwrap();
    assert_eq!(st.get_file_metadata(&id).unwrap().access_count, 0);
    assert_eq!(st.get_file_metadata(&id).unwrap().last_accessed, 10);
    let n = 5u64;
    for k in 0..n {
        let got = st.download_model(&id, "dana".to_string(), 100 + k).unwrap();
        assert_eq!(got.id, id);
    }
    let meta = st.get_file_metadata(&id).unwrap();
    assert_eq!(meta.access_count, n);
    assert_eq!(meta.last_accessed, 100 + n - 1);
    assert_eq!(meta.file_type, "model");
    assert_eq!(meta.file_id, id);
}

#[test]
fn download_of_missing_model_fails_without_change() {
    let mut st = AppState::init();
    let r = st.download_model(&"model_1_0".to_string(), "dana".to_string(), 5);
    match r {
        Err(StoreError::FileNotFound(id)) => assert_eq!(id, "model_1_0"),
        _ => panic!("expected FileNotFound"),
    }
    assert_eq!(st.get_stats().total, 0);
    assert!(st.events().is_empty());
}

#[test]
fn delete_removes_record_and_metadata_together() {
    let mut st = AppState::init();
    let id = upload_model_at(&mut st, "m", vec![0u8; 4], true, 3).unwrap();
    assert!(st.get_model(&id).is_some());
    assert!(st.get_file_metadata(&id).is_some());
    st.delete_file(&id, &"model".to_string()).unwrap();
    assert!(st.get_model(&id).is_none());
    assert!(st.get_file_metadata(&id).is_none());
}

#[test]
fn delete_of_absent_record_is_tolerated() {
    let mut st = AppState::init();
    st.delete_file(&"model_9_9".to_string(), &"model".to_string()).unwrap();
    st.delete_file(&"scan_9_9".to_string(), &"scan".to_string()).unwrap();
    assert_eq!(st.get_stats().total, 0);
}

#[test]
fn delete_with_bogus_type_fails_and_alters_nothing() {
    let mut st = AppState::init();
    let mid = upload_model_at(&mut st, "m", vec![0u8; 4], true, 3).unwrap();
    let sid = upload_scan_at(&mut st, "ada", vec![0u8; 6], 4).unwrap();
    let events_before = st.events().len();
    let r = st.delete_file(&mid, &"bogus".to_string());
    match r {
        Err(StoreError::InvalidFileType(t)) => assert_eq!(t, "bogus"),
        _ => panic!("expected InvalidFileType"),
    }
    assert!(st.get_model(&mid).is_some());
    assert!(st.get_scan(&sid).is_some());
    assert!(st.get_file_metadata(&mid).is_some());
    assert!(st.get_file_metadata(&sid).is_some());
    assert_eq!(st.events().len(), events_before);
}

#[test]
fn annotation_on_missing_scan_fails_and_on_existing_increments_by_one() {
    let mut st = AppState::init();
    let r = st.add_annotation(&"scan_1_0".to_string(), "note".to_string(), 2);
    assert!(matches!(r, Err(StoreError::FileNotFound(_))));

    let sid = upload_scan_at(&mut st, "ada", vec![0u8; 2], 1).unwrap();
    let a1 = st.add_annotation(&sid, "first".to_string(), 7).unwrap();
    assert_eq!(st.get_scan(&sid).unwrap().annotation_count, 1);
    // unrelated operations leave the counter alone
    upload_model_at(&mut st, "other", vec![0u8; 3], true, 8).unwrap();
    st.download_scan(&sid, "dana".to_string(), 9).unwrap();
    assert_eq!(st.get_scan(&sid).unwrap().annotation_count, 1);
    let a2 = st.add_annotation(&sid, "second".to_string(), 9).unwrap();
    assert_eq!(st.get_scan(&sid).unwrap().annotation_count, 2);
    assert_ne!(a1, a2);
    assert!(a1.starts_with("annotation_"));
}

#[test]
fn public_models_are_exactly_the_public_subset() {
    let mut st = AppState::init();
    let pub1 = upload_model_at(&mut st, "pub1", vec![0u8; 1], true, 1).unwrap();
    let priv1 = upload_model_at(&mut st, "priv1", vec![0u8; 1], false, 2).unwrap();
    let pub2 = upload_model_at(&mut st, "pub2", vec![0u8; 1], true, 3).unwrap();
    let got = st.get_public_models();
    let mut ids: Vec<String> = got.iter().map(|m| m.id.clone()).collect();
    ids.sort();
    let mut expected = vec![pub1.clone(), pub2.clone()];
    expected.sort();
    assert_eq!(ids, expected);
    assert!(!ids.contains(&priv1));
    assert!(got.iter().all(|m| m.is_public));
}

#[test]
fn scans_by_patient_filters_exactly() {
    let mut st = AppState::init();
    let s1 = upload_scan_at(&mut st, "alice", vec![0u8; 1], 1).unwrap();
    let _s2 = upload_scan_at(&mut st, "bob", vec![0u8; 1], 2).unwrap();
    let s3 = upload_scan_at(&mut st, "alice", vec![0u8; 1], 3).unwrap();
    let got = st.get_scans_by_patient(&"alice".to_string());
    let mut ids: Vec<String> = got.iter().map(|s| s.id.clone()).collect();
    ids.sort();
    let mut expected = vec![s1, s3];
    expected.sort();
    assert_eq!(ids, expected);
    assert!(st.get_scans_by_patient(&"carol".to_string()).is_empty());
}

#[test]
fn stats_total_is_models_plus_scans_through_uploads_and_deletes() {
    let mut st = AppState::init();
    let m1 = upload_model_at(&mut st, "m1", vec![0u8; 1], true, 1).unwrap();
    let _m2 = upload_model_at(&mut st, "m2", vec![0u8; 1], false, 2).unwrap();
    let s1 = upload_scan_at(&mut st, "ada", vec![0u8; 1], 3).unwrap();
    let stats = st.get_stats();
    assert_eq!(stats.models, 2);
    assert_eq!(stats.scans, 1);
    assert_eq!(stats.total, 3);
    assert_eq!(stats.total, stats.models + stats.scans);
    let all = st.get_all_metadata();
    assert_eq!(all.len(), 3);
    assert!(all.iter().any(|m| m.file_id == m1));
    assert!(all.iter().any(|m| m.file_id == s1));

    st.delete_file(&m1, &"model".to_string()).unwrap();
    st.delete_file(&s1, &"scan".to_string()).unwrap();
    let stats = st.get_stats();
    assert_eq!(stats.models, 1);
    assert_eq!(stats.scans, 0);
    assert_eq!(stats.total, 1);
    assert_eq!(stats.total, stats.models + stats.scans);
    assert_eq!(stats.summary(), "total=1 models=1 scans=0");
}

#[test]
fn events_are_logged_in_emission_order() {
    let mut st = AppState::init();
    let mid = upload_model_at(&mut st, "m", vec![0u8; 1], true, 1).unwrap();
    st.download_model(&mid, "dana".to_string(), 2).unwrap();
    st.delete_file(&mid, &"model".to_string()).unwrap();
    let events = st.take_events();
    assert_eq!(events.len(), 3);
    match &events[0] {
        Event::ModelUploaded { model_id, name } => {
            assert_eq!(model_id, &mid);
            assert_eq!(name, "m");
        }
        _ => panic!("expected ModelUploaded first"),
    }
    match &events[1] {
        Event::ModelDownloaded { model_id, downloader } => {
            assert_eq!(model_id, &mid);
            assert_eq!(downloader, "dana");
        }
        _ => panic!("expected ModelDownloaded second"),
    }
    match &events[2] {
        Event::FileDeleted { file_id, file_type } => {
            assert_eq!(file_id, &mid);
            assert_eq!(file_type, "model");
        }
        _ => panic!("expected FileDeleted third"),
    }
    assert!(st.events().is_empty());
}

#[test]
fn tags_can_be_added_once_and_removed() {
    let mut st = AppState::init();
    let id = upload_model_at(&mut st, "m", vec![0u8; 1], true, 1).unwrap();
    assert!(st.tracker.add_tag(&id, "radiology".to_string()));
    assert!(!st.tracker.add_tag(&id, "radiology".to_string()));
    assert!(st.tracker.add_tag(&id, "oncology".to_string()));
    let meta: &FileMetadata = st.get_file_metadata(&id).unwrap();
    assert_eq!(meta.tags, vec!["radiology".to_string(), "oncology".to_string()]);
    assert!(st.tracker.remove_tag(&id, &"radiology".to_string()));
    assert!(!st.tracker.remove_tag(&id, &"radiology".to_string()));
    assert_eq!(st.get_file_metadata(&id).unwrap().tags, vec!["oncology".to_string()]);
    assert!(!st.tracker.add_tag(&"model_9_9".to_string(), "x".to_string()));
}

#[test]
fn clock_driven_upload_uses_host_time() {
    let mut st = AppState::init();
    let id = st
        .upload_model_now(
            "m".to_string(),
            "d".to_string(),
            "t".to_string(),
            "1".to_string(),
            vec![0u8; 3],
            "alice".to_string(),
            true,
        )
        .unwrap();
    let model = st.get_model(&id).unwrap();
    assert_eq!(model.file_size, 3);
    assert!(model.created_at > 0);
    assert!(id.starts_with("model_"));
}

#[test]
fn decimal_rendering_is_exact() {
    assert_eq!(medistore::ids::dec_string(0), "0");
    assert_eq!(medistore::ids::dec_string(7), "7");
    assert_eq!(medistore::ids::dec_string(1234567890), "1234567890");
    assert_eq!(medistore::ids::dec_string(u64::MAX), "18446744073709551615");
    assert_eq!(medistore::ids::model_id(12, 34), "model_12_34");
    assert_eq!(medistore::ids::scan_id(0, 1), "scan_0_1");
    assert_eq!(medistore::ids::annotation_id(9, 8), "annotation_9_8");
}

#[test]
fn model_metadata_summary_type_round_trips() {
    let meta = ModelMetadata {
        prediction_accuracy: 93,
        date: 1700000000,
        model_params: "{\"layers\":12}".to_string(),
    };
    let copy = meta.clone();
    assert_eq!(copy.prediction_accuracy, 93);
    assert_eq!(copy.date, 1700000000);
    assert_eq!(copy.model_params, meta.model_params);
}

#[test]
fn cross_tier_delete_keeps_the_other_tiers_metadata() {
    let mut st = AppState::init();
    let sid = upload_scan_at(&mut st, "ada", vec![0u8; 2], 1).unwrap();
    // a model-typed delete of a scan identifier removes nothing
    st.delete_file(&sid, &"model".to_string()).unwrap();
    assert!(st.get_scan(&sid).is_some());
    assert!(st.get_file_metadata(&sid).is_some());
    assert_eq!(st.get_file_metadata(&sid).unwrap().file_type, "scan");
}
