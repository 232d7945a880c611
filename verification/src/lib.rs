//! Common-prefix length of two byte buffers, computed a dozen ways.
//!
//! Every variant returns the first index at which the two buffers diverge,
//! or the length of the shorter buffer when one is a prefix of the other.
//! All variants are proved equal to the one spec function
//! [`model::common_prefix_len`], so they agree with each other on every input.

pub mod chunked;
pub mod model;
pub mod scan;
pub mod wide;
pub mod words;

pub use chunked::bytes_diff_chunked;
pub use chunked::bytes_diff_chunked128;
pub use chunked::bytes_diff_chunked16;
pub use chunked::bytes_diff_chunked32;
pub use chunked::bytes_diff_chunked64;
pub use chunked::bytes_diff_chunked8;
pub use chunked::bytes_diff_chunked_original;
pub use chunked::bytes_diff_hybrid_original;
pub use scan::bytes_diff_functional;
pub use scan::bytes_diff_functional_naive;
pub use scan::bytes_diff_naive;
pub use wide::bytes_diff_bitwise;
pub use wide::bytes_diff_original;
pub use wide::bytes_diff_original_128;
