use inference_cache::cache::{
    check_cache, interpret_insert, interpret_lookup, predict_and_write, CacheOutcome,
    ClassifyError, StoreReply,
};
use inference_cache::fingerprint;
use inference_cache::format::format_result;
use inference_cache::labels::LabelTable;
use inference_cache::scoring::{check_decode, select_class};
use inference_cache::store::{CacheEntry, Store};

fn three_labels() -> LabelTable {
    LabelTable::new(vec!["cat".to_string(), "dog".to_string(), "car".to_string()])
}

#[test]
fn cache_hit_returns_stored_value_without_scoring() {
    let bytes: Vec<u8> = b"a previously seen image".to_vec();
    let mut store = Store::new();
    store.insert(fingerprint(&bytes), "X".to_string());

    // The hit carries the stored value as is; the score vector is never
    // produced on this path, so the scoring engine cannot have run.
    match check_cache(&store, &bytes) {
        CacheOutcome::Hit(v) => assert_eq!(v, "X"),
        CacheOutcome::Miss(_) => panic!("expected a hit"),
    }
}

#[test]
fn cache_miss_computes_formats_and_writes_back() {
    let bytes: Vec<u8> = b"a fresh image".to_vec();
    let mut store = Store::new();
    let labels = three_labels();
    // The engine's output for this input: class 3 wins with confidence
    // 0.87, carried as hundredths of a percent.
    let scores: Vec<u32> = vec![1200, 3400, 8700];

    let key = match check_cache(&store, &bytes) {
        CacheOutcome::Miss(k) => k,
        CacheOutcome::Hit(_) => panic!("store was empty"),
    };
    assert_eq!(key, fingerprint(&bytes));

    let result = predict_and_write(&mut store, &key, &scores, &labels).unwrap();
    assert_eq!(result, "The image represents a car, with 87% accuracy");
    assert_eq!(store.lookup(&key), Some(result.clone()));

    // A second request for the same bytes is now a hit with that line.
    match check_cache(&store, &bytes) {
        CacheOutcome::Hit(v) => assert_eq!(v, result),
        CacheOutcome::Miss(_) => panic!("expected a hit after the write-back"),
    }
}

#[test]
fn decode_failure_leaves_the_store_untouched() {
    let bytes: Vec<u8> = vec![0x00, 0x01, 0x02];
    let store = Store::new();

    let key = match check_cache(&store, &bytes) {
        CacheOutcome::Miss(k) => k,
        CacheOutcome::Hit(_) => panic!("store was empty"),
    };
    assert_eq!(check_decode(&bytes), Err(ClassifyError::DecodeError));
    // The request fails before anything could be written.
    assert_eq!(store.lookup(&key), None);
}

#[test]
fn decode_accepts_a_real_image() {
    let img = image::RgbImage::new(2, 2);
    let mut bytes: Vec<u8> = Vec::new();
    img.write_to(&mut std::io::Cursor::new(&mut bytes), image::ImageFormat::Png).unwrap();
    assert_eq!(check_decode(&bytes), Ok(()));
}

#[test]
fn empty_score_vector_is_a_model_fault() {
    let scores: Vec<u32> = Vec::new();
    assert_eq!(select_class(&scores), Err(ClassifyError::ModelError));
}

#[test]
fn tie_breaks_to_the_lowest_class_index() {
    // Equal maxima at class indices 2 and 5.
    let scores: Vec<u32> = vec![1000, 9000, 3000, 4000, 9000, 2000];
    for _ in 0..10 {
        assert_eq!(select_class(&scores), Ok((2, 9000)));
    }
}

#[test]
fn winning_index_beyond_the_table_is_a_label_mismatch() {
    let mut store = Store::new();
    let labels = LabelTable::new(vec!["cat".to_string(), "dog".to_string()]);
    let scores: Vec<u32> = vec![100, 200, 900];
    let key = "SOMEKEY".to_string();
    let r = predict_and_write(&mut store, &key, &scores, &labels);
    assert_eq!(r, Err(ClassifyError::LookupError));
    assert_eq!(store.lookup(&key), None);
}

#[test]
fn formats_whole_and_fractional_percentages() {
    let dog = "dog".to_string();
    assert_eq!(format_result(&dog, 8700), "The image represents a dog, with 87% accuracy");
    assert_eq!(format_result(&dog, 8750), "The image represents a dog, with 87.5% accuracy");
    assert_eq!(format_result(&dog, 8756), "The image represents a dog, with 87.56% accuracy");
    assert_eq!(format_result(&dog, 10000), "The image represents a dog, with 100% accuracy");
    assert_eq!(format_result(&dog, 5), "The image represents a dog, with 0.05% accuracy");
    assert_eq!(format_result(&dog, 0), "The image represents a dog, with 0% accuracy");
}

#[test]
fn failed_write_back_is_a_hard_failure() {
    assert_eq!(interpret_insert(true), Ok(()));
    assert_eq!(interpret_insert(false), Err(ClassifyError::StoreUnavailable));
}

#[test]
fn transport_failure_is_not_a_miss() {
    assert_eq!(
        interpret_lookup(&StoreReply::Unreachable),
        Err(ClassifyError::StoreUnavailable)
    );
}

#[test]
fn no_matching_record_is_a_miss() {
    assert_eq!(interpret_lookup(&StoreReply::Records(Vec::new())), Ok(None));
}

#[test]
fn damaged_record_is_surfaced_not_recomputed() {
    assert_eq!(
        interpret_lookup(&StoreReply::Records(vec![None])),
        Err(ClassifyError::MalformedStoreRecord)
    );
}

#[test]
fn matching_record_is_a_hit() {
    let entry = CacheEntry { id: "K".to_string(), value: "stored line".to_string() };
    assert_eq!(
        interpret_lookup(&StoreReply::Records(vec![Some(entry)])),
        Ok(Some("stored line".to_string()))
    );
}
