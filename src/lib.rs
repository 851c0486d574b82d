//! Query-execution core: a bounded concurrent scan scheduler over enumerated
//! partitions, projection, partial aggregation and a processor pipeline,
//! together with the grant model used to authorise queries.

pub mod aggregate;
pub mod block;
pub mod pipeline;
pub mod privilege;
pub mod scan;
pub mod user_grant;
