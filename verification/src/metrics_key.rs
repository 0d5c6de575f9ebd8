//! The metrics that a histogram can be kept for, and their canonical order.

use vstd::prelude::*;

verus! {

/// How many metric keys there are.
pub const KEY_COUNT: u64 = 6;

/// Identifies a metric. The variants are declared in canonical order.
#[derive(Clone, Copy, Debug, PartialEq, Eq, PartialOrd, Ord, Hash)]
pub enum MetricsKey {
    HttpRequestDuration,
    HttpResponseSize,
    GrpcRequestDuration,
    GrpcResponseSize,
    StoreQueryDuration,
    TaskQueueWait,
}

impl MetricsKey {
    /// The position of the key in the canonical order.
    pub open spec fn ordinal(self) -> u64 {
        match self {
            MetricsKey::HttpRequestDuration => 0,
            MetricsKey::HttpResponseSize => 1,
            MetricsKey::GrpcRequestDuration => 2,
            MetricsKey::GrpcResponseSize => 3,
            MetricsKey::StoreQueryDuration => 4,
            MetricsKey::TaskQueueWait => 5,
        }
    }

    /// The name under which the key is reported.
    pub open spec fn name(self) -> Seq<char> {
        match self {
            MetricsKey::HttpRequestDuration => "http_request_duration"@,
            MetricsKey::HttpResponseSize => "http_response_size"@,
            MetricsKey::GrpcRequestDuration => "grpc_request_duration"@,
            MetricsKey::GrpcResponseSize => "grpc_response_size"@,
            MetricsKey::StoreQueryDuration => "store_query_duration"@,
            MetricsKey::TaskQueueWait => "task_queue_wait"@,
        }
    }

    /// Returns the position of the key in the canonical order.
    pub fn index(&self) -> (r: u64)
        ensures
            r == self.ordinal(),
            r < KEY_COUNT,
    {
        match self {
            MetricsKey::HttpRequestDuration => 0,
            MetricsKey::HttpResponseSize => 1,
            MetricsKey::GrpcRequestDuration => 2,
            MetricsKey::GrpcResponseSize => 3,
            MetricsKey::StoreQueryDuration => 4,
            MetricsKey::TaskQueueWait => 5,
        }
    }

    /// Returns the name under which the key is reported.
    pub fn get_key(&self) -> (r: &'static str)
        ensures
            r@ == self.name(),
    {
        match self {
            MetricsKey::HttpRequestDuration => "http_request_duration",
            MetricsKey::HttpResponseSize => "http_response_size",
            MetricsKey::GrpcRequestDuration => "grpc_request_duration",
            MetricsKey::GrpcResponseSize => "grpc_response_size",
            MetricsKey::StoreQueryDuration => "store_query_duration",
            MetricsKey::TaskQueueWait => "task_queue_wait",
        }
    }
}

/// Every key once, in canonical order.
pub open spec fn canonical_order() -> Seq<MetricsKey> {
    seq![
        MetricsKey::HttpRequestDuration,
        MetricsKey::HttpResponseSize,
        MetricsKey::GrpcRequestDuration,
        MetricsKey::GrpcResponseSize,
        MetricsKey::StoreQueryDuration,
        MetricsKey::TaskQueueWait,
    ]
}

/// The canonical order lists each key at the place of its ordinal, so it
/// holds every key exactly once.
pub proof fn canonical_order_is_complete()
    ensures
        canonical_order().len() == KEY_COUNT,
        forall|k: MetricsKey| #[trigger] canonical_order()[k.ordinal() as int] == k,
        forall|i: int|
            0 <= i < KEY_COUNT ==> (#[trigger] canonical_order()[i]).ordinal() == i,
{
}

/// No two keys share an ordinal.
pub proof fn ordinal_is_injective()
    ensures
        forall|a: MetricsKey, b: MetricsKey| #[trigger]
            a.ordinal() == #[trigger] b.ordinal() ==> a == b,
{
}

/// Returns every key once, in canonical order.
pub fn order_all_keys() -> (r: Vec<MetricsKey>)
    ensures
        r@ == canonical_order(),
{
    let r = vec![
        MetricsKey::HttpRequestDuration,
        MetricsKey::HttpResponseSize,
        MetricsKey::GrpcRequestDuration,
        MetricsKey::GrpcResponseSize,
        MetricsKey::StoreQueryDuration,
        MetricsKey::TaskQueueWait,
    ];
    assert(r@ =~= canonical_order());
    r
}

} // verus!
