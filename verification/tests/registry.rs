use bytes::BytesMut;
use histogram_metrics::binary64::Binary64;
use histogram_metrics::histogram::HistogramManager;
use histogram_metrics::metrics_key::{order_all_keys, MetricsKey};
use histogram_metrics::sink::{write_blocks, ExportError};

fn num(x: f64) -> Binary64 {
    Binary64::from_bits(x.to_bits())
}

fn nums(xs: &[f64]) -> Vec<Binary64> {
    xs.iter().map(|x| num(*x)).collect()
}

fn value(b: Binary64) -> f64 {
    f64::from_bits(b.to_bits())
}

fn pairs(buckets: Vec<(Binary64, u64)>) -> Vec<(f64, u64)> {
    buckets.into_iter().map(|(b, c)| (value(b), c)).collect()
}

#[test]
fn init_then_get_value_gives_zeroed_buckets() {
    let mut m = HistogramManager::new();
    let key = MetricsKey::HttpRequestDuration;
    m.init(key, &nums(&[0.5, 1.0, 2.5, 10.0]));
    let h = m.get_value(&key).expect("the key was initialized");
    assert_eq!(
        pairs(h.buckets()),
        vec![(0.5, 0), (1.0, 0), (2.5, 0), (10.0, 0)]
    );
    assert_eq!(h.count(), 0);
    assert_eq!(value(h.sum()), 0.0);
    assert_eq!(m.buckets(&key).len(), 4);
}

#[test]
fn init_with_empty_bounds_leaves_key_absent() {
    let mut m = HistogramManager::new();
    let key = MetricsKey::GrpcResponseSize;
    m.init(key, &[]);
    assert!(m.get_value(&key).is_none());
    m.init(key, &[]);
    assert!(m.get_value(&key).is_none());
}

#[test]
fn init_with_unordered_bounds_leaves_key_absent() {
    let mut m = HistogramManager::new();
    let key = MetricsKey::GrpcResponseSize;
    m.init(key, &nums(&[1.0, 5.0, 3.0]));
    assert!(m.get_value(&key).is_none());
    m.init(key, &nums(&[1.0, 1.0]));
    assert!(m.get_value(&key).is_none());
    m.init(key, &nums(&[2.0, 1.0]));
    assert!(m.get_value(&key).is_none());
    m.init(key, &nums(&[1.0, f64::NAN]));
    assert!(m.get_value(&key).is_none());
    m.init(key, &nums(&[-0.0, 0.0]));
    assert!(m.get_value(&key).is_none());
    assert_eq!(m.count(&key), 0);
    assert!(m.print_metrics().is_empty());
}

#[test]
fn init_after_rejected_bounds_still_works() {
    let mut m = HistogramManager::new();
    let key = MetricsKey::GrpcResponseSize;
    m.init(key, &nums(&[3.0, 2.0]));
    assert!(m.get_value(&key).is_none());
    m.init(key, &nums(&[2.0, 3.0]));
    assert_eq!(pairs(m.buckets(&key)), vec![(2.0, 0), (3.0, 0)]);
}

#[test]
fn init_twice_keeps_first_histogram() {
    let mut m = HistogramManager::new();
    let key = MetricsKey::StoreQueryDuration;
    m.init(key, &nums(&[1.0, 2.0]));
    m.record(&key, num(1.5));
    m.init(key, &nums(&[5.0, 10.0, 20.0]));
    assert_eq!(m.buckets(&key).len(), 2);
    assert_eq!(pairs(m.buckets(&key)), vec![(1.0, 0), (2.0, 1)]);
    assert_eq!(m.count(&key), 1);
}

#[test]
fn record_counts_every_bound_at_or_above_the_sample() {
    let mut m = HistogramManager::new();
    let key = MetricsKey::HttpResponseSize;
    m.init(key, &nums(&[1.0, 5.0, 10.0]));
    m.record(&key, num(3.0));
    assert_eq!(pairs(m.buckets(&key)), vec![(1.0, 0), (5.0, 1), (10.0, 1)]);
    assert_eq!(m.count(&key), 1);
    assert_eq!(value(m.sum(&key)), 3.0);
    m.record(&key, num(100.0));
    assert_eq!(pairs(m.buckets(&key)), vec![(1.0, 0), (5.0, 1), (10.0, 1)]);
    assert_eq!(m.count(&key), 2);
    assert_eq!(value(m.sum(&key)), 103.0);
    m.record(&key, num(-4.0));
    assert_eq!(pairs(m.buckets(&key)), vec![(1.0, 1), (5.0, 2), (10.0, 2)]);
    assert_eq!(m.count(&key), 3);
    assert_eq!(value(m.sum(&key)), 99.0);
}

#[test]
fn record_counts_a_sample_equal_to_a_bound() {
    let mut m = HistogramManager::new();
    let key = MetricsKey::HttpResponseSize;
    m.init(key, &nums(&[5.0]));
    m.record(&key, num(5.0));
    assert_eq!(pairs(m.buckets(&key)), vec![(5.0, 1)]);
}

#[test]
fn record_nan_counts_in_no_bucket() {
    let mut m = HistogramManager::new();
    let key = MetricsKey::HttpResponseSize;
    m.init(key, &nums(&[1.0, 2.0]));
    m.record(&key, num(f64::NAN));
    assert_eq!(pairs(m.buckets(&key)), vec![(1.0, 0), (2.0, 0)]);
    assert_eq!(m.count(&key), 1);
    assert!(value(m.sum(&key)).is_nan());
}

#[test]
fn record_infinities() {
    let mut m = HistogramManager::new();
    let key = MetricsKey::HttpResponseSize;
    m.init(key, &nums(&[f64::NEG_INFINITY, 0.0, f64::INFINITY]));
    m.record(&key, num(f64::INFINITY));
    m.record(&key, num(f64::NEG_INFINITY));
    m.record(&key, num(-0.0));
    m.record(&key, num(1e-300));
    assert_eq!(m.count(&key), 4);
    let b = m.buckets(&key);
    assert_eq!(b[0].1, 1);
    assert_eq!(b[1].1, 2);
    assert_eq!(b[2].1, 4);
}

#[test]
fn record_on_uninitialized_key_changes_nothing() {
    let mut m = HistogramManager::new();
    let key = MetricsKey::TaskQueueWait;
    m.record(&key, num(1.0));
    m.record_many(&key, &nums(&[1.0, 2.0]));
    assert!(m.get_value(&key).is_none());
    assert_eq!(m.count(&key), 0);
}

#[test]
fn record_touches_only_its_key() {
    let mut m = HistogramManager::new();
    let a = MetricsKey::HttpRequestDuration;
    let b = MetricsKey::GrpcRequestDuration;
    m.init(a, &nums(&[1.0]));
    m.init(b, &nums(&[1.0]));
    m.record(&a, num(0.5));
    assert_eq!(m.count(&a), 1);
    assert_eq!(m.count(&b), 0);
    assert_eq!(pairs(m.buckets(&b)), vec![(1.0, 0)]);
}

#[test]
fn record_many_is_record_one_by_one() {
    let samples = [0.25, 7.0, 1.0, f64::NAN, -3.0, 1e9, 2.5];
    let bounds = nums(&[0.5, 1.0, 2.5, 5.0]);
    let key = MetricsKey::TaskQueueWait;
    let mut many = HistogramManager::new();
    many.init(key, &bounds);
    many.record_many(&key, &nums(&samples));
    let mut single = HistogramManager::new();
    single.init(key, &bounds);
    for s in samples.iter() {
        single.record(&key, num(*s));
    }
    assert_eq!(pairs(many.buckets(&key)), pairs(single.buckets(&key)));
    assert_eq!(many.count(&key), single.count(&key));
    assert_eq!(many.sum(&key).to_bits(), single.sum(&key).to_bits());
    assert_eq!(
        pairs(many.buckets(&key)),
        vec![(0.5, 2), (1.0, 3), (2.5, 4), (5.0, 4)]
    );
    assert_eq!(many.count(&key), 7);
}

#[test]
fn record_many_counts_do_not_depend_on_order() {
    let bounds = nums(&[0.5, 1.0, 2.5, 5.0]);
    let key = MetricsKey::TaskQueueWait;
    let mut forward = HistogramManager::new();
    forward.init(key, &bounds);
    forward.record_many(&key, &nums(&[0.25, 7.0, 1.0, 3.0, 2.5]));
    let mut backward = HistogramManager::new();
    backward.init(key, &bounds);
    backward.record_many(&key, &nums(&[2.5, 3.0, 1.0, 7.0, 0.25]));
    assert_eq!(pairs(forward.buckets(&key)), pairs(backward.buckets(&key)));
    assert_eq!(forward.count(&key), backward.count(&key));
    assert_eq!(value(forward.sum(&key)), 13.75);
    assert_eq!(value(backward.sum(&key)), 13.75);
}

#[test]
fn uninitialized_key_has_zero_sum_count_and_no_buckets() {
    let m = HistogramManager::default();
    for key in order_all_keys() {
        assert_eq!(m.sum(&key).to_bits(), 0);
        assert_eq!(value(m.sum(&key)), 0.0);
        assert_eq!(m.count(&key), 0);
        assert!(m.buckets(&key).is_empty());
        assert!(m.get_value(&key).is_none());
    }
}

#[test]
fn print_metrics_follows_canonical_order() {
    let mut m = HistogramManager::new();
    m.init(MetricsKey::TaskQueueWait, &nums(&[1.0, 5.0]));
    m.init(MetricsKey::HttpRequestDuration, &nums(&[0.5]));
    m.init(MetricsKey::GrpcResponseSize, &nums(&[10.0]));
    m.record(&MetricsKey::TaskQueueWait, num(2.0));
    m.record(&MetricsKey::TaskQueueWait, num(0.5));
    m.record(&MetricsKey::GrpcResponseSize, num(11.0));
    assert_eq!(
        m.print_metrics(),
        vec![
            "[metrics_histogram]|http_request_duration:0.5:0|".to_string(),
            "[metrics_histogram]|grpc_response_size:10:0|".to_string(),
            "[metrics_histogram]|task_queue_wait:1:1,5:2|".to_string(),
        ]
    );
    let mut other = HistogramManager::new();
    other.init(MetricsKey::GrpcResponseSize, &nums(&[10.0]));
    other.init(MetricsKey::HttpRequestDuration, &nums(&[0.5]));
    other.init(MetricsKey::TaskQueueWait, &nums(&[1.0, 5.0]));
    other.record(&MetricsKey::GrpcResponseSize, num(11.0));
    other.record(&MetricsKey::TaskQueueWait, num(0.5));
    other.record(&MetricsKey::TaskQueueWait, num(2.0));
    assert_eq!(other.print_metrics(), m.print_metrics());
}

#[test]
fn print_metrics_of_empty_registry_is_empty() {
    let m = HistogramManager::new();
    assert!(m.print_metrics().is_empty());
}

#[test]
fn export_writes_a_block_for_each_key() {
    let mut m = HistogramManager::new();
    m.init(MetricsKey::HttpResponseSize, &nums(&[1.0, 5.0, 10.0]));
    m.init(MetricsKey::HttpRequestDuration, &nums(&[0.5]));
    m.record(&MetricsKey::HttpResponseSize, num(3.0));
    m.record(&MetricsKey::HttpRequestDuration, num(0.25));
    m.record(&MetricsKey::HttpRequestDuration, num(2.25));
    let mut buf = BytesMut::new();
    assert!(m.export(&mut buf).is_ok());
    let expected = "http_request_duration_bucket{le=\"0.5\"} 1\n\
                    http_request_duration_bucket{le=\"+Inf\"} 2\n\
                    http_request_duration_sum 2.5\n\
                    http_request_duration_count 2\n\
                    http_response_size_bucket{le=\"1\"} 0\n\
                    http_response_size_bucket{le=\"5\"} 1\n\
                    http_response_size_bucket{le=\"10\"} 1\n\
                    http_response_size_bucket{le=\"+Inf\"} 1\n\
                    http_response_size_sum 3\n\
                    http_response_size_count 1\n";
    assert_eq!(std::str::from_utf8(&buf[..]).unwrap(), expected);
}

#[test]
fn export_twice_appends() {
    let mut m = HistogramManager::new();
    m.init(MetricsKey::StoreQueryDuration, &nums(&[1.0]));
    m.record(&MetricsKey::StoreQueryDuration, num(1.0));
    let mut once = BytesMut::new();
    assert!(m.export(&mut once).is_ok());
    let first = once.to_vec();
    assert!(!first.is_empty());
    let mut buf = BytesMut::new();
    buf.extend_from_slice(b"# earlier\n");
    assert!(m.export(&mut buf).is_ok());
    m.record(&MetricsKey::StoreQueryDuration, num(7.0));
    let mut again = BytesMut::new();
    assert!(m.export(&mut again).is_ok());
    let second = again.to_vec();
    assert!(m.export(&mut buf).is_ok());
    let mut expected = b"# earlier\n".to_vec();
    expected.extend_from_slice(&first);
    expected.extend_from_slice(&second);
    assert_eq!(buf.to_vec(), expected);
    assert_eq!(
        std::str::from_utf8(&second).unwrap(),
        "store_query_duration_bucket{le=\"1\"} 1\n\
         store_query_duration_bucket{le=\"+Inf\"} 2\n\
         store_query_duration_sum 8\n\
         store_query_duration_count 2\n"
    );
}

#[test]
fn export_of_empty_registry_writes_nothing() {
    let mut m = HistogramManager::new();
    let mut buf = BytesMut::new();
    buf.extend_from_slice(b"kept");
    assert!(m.export(&mut buf).is_ok());
    assert_eq!(&buf[..], b"kept");
}

#[test]
fn export_leaves_the_registry_as_it_was() {
    let mut m = HistogramManager::new();
    let key = MetricsKey::StoreQueryDuration;
    m.init(key, &nums(&[1.0, 2.0]));
    m.record(&key, num(1.5));
    let mut buf = BytesMut::new();
    assert!(m.export(&mut buf).is_ok());
    assert_eq!(pairs(m.buckets(&key)), vec![(1.0, 0), (2.0, 1)]);
    assert_eq!(m.count(&key), 1);
}

#[test]
fn write_blocks_appends_in_order() {
    let mut buf = BytesMut::new();
    buf.extend_from_slice(b"a");
    let blocks = vec!["bc".to_string(), String::new(), "d\u{e9}".to_string()];
    assert_eq!(write_blocks(&mut buf, &blocks), Ok(()));
    assert_eq!(&buf[..], "abcd\u{e9}".as_bytes());
    assert_ne!(Err::<(), ExportError>(ExportError::SinkFull), Ok(()));
}
