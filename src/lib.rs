//! A cache whose budget is the resident size of its values in bytes rather
//! than the number of its entries. Recency order and lookup are those of the
//! `lru` crate; this crate keeps the byte accounting and the eviction rule.

mod model;
mod resident;
mod store;
mod cache;

pub use cache::MemoryLruCache;
pub use cache::{grown_capacity, INITIAL_CAPACITY};
pub use model::{
    entries_total, evict_to_budget, holds_key, key_index, keys_unique, law_eviction_follows_insertion,
    law_mutation_accounting, law_promote_moves_to_most_recent, law_eviction_fits_budget, promote_with,
    put_entry, Entry,
};
pub use resident::ResidentSize;
