//! Pure planning decisions for a transfer run: which extraction filter to
//! use, how to clamp the cursor batch size, bulk versus one-by-one strategy,
//! ordered versus unordered writes, and the two concurrency limits. The
//! driver resolves command-line options into [`TransferOptions`] and queries
//! the stores; everything decided from those values is decided here.

use vstd::prelude::*;

verus! {

/// A document identity (`_id`): unique and totally ordered. A store's
/// 12-byte object identifier embeds into the low 96 bits, preserving its
/// byte-lexicographic order.
pub type DocId = u128;

/// The cursor batch size requested from the store is never allowed past
/// this hard cap.
pub const MAX_CURSOR_BATCH: u64 = 6400;

/// Bulk size used when none is configured.
pub const DEFAULT_BULK_SIZE: u64 = 2000;

/// Insert concurrency per collection: resume mode forces one batch in
/// flight at a time; otherwise this many run at once.
pub const DEFAULT_INSERT_CONCURRENCY: u64 = 4;

/// Collections transferred at once when no explicit thread count is given.
pub const DEFAULT_COLLECTION_CONCURRENCY: u64 = 4;

/// Which documents the source cursor should yield.
#[derive(Clone, Copy, Debug, PartialEq, Eq, Structural)]
pub enum Filter {
    /// Every document in the collection.
    All,
    /// Only documents whose identity is strictly greater than the marker —
    /// the resume filter.
    IdGreaterThan(DocId),
}

/// Whether a filter admits a given identity.
pub open spec fn filter_admits(f: Filter, id: DocId) -> bool {
    match f {
        Filter::All => true,
        Filter::IdGreaterThan(k) => id > k,
    }
}

/// How the expected total should be obtained before streaming.
#[derive(Clone, Copy, Debug, PartialEq, Eq, Structural)]
pub enum CountKind {
    /// Fast estimated cardinality of the whole collection.
    Estimated,
    /// Exact count of the documents the filter admits.
    Filtered,
}

/// How to open the source cursor for one collection.
#[derive(Clone, Copy, Debug, PartialEq, Eq, Structural)]
pub struct FindPlan {
    /// Cursor batch size to request, if bulk streaming is on.
    pub batch_size: Option<u64>,
    /// Which documents to extract, always in ascending identity order.
    pub filter: Filter,
    /// How to size the transfer before streaming.
    pub count_kind: CountKind,
}

/// Configuration resolved from the command line, already parsed into plain
/// values by the (unverified) option-loading collaborator.
#[derive(Clone, Copy, Debug, PartialEq, Eq, Structural)]
pub struct TransferOptions {
    /// Configured bulk size, if any.
    pub bulk_size: Option<u64>,
    /// Insert documents one by one instead of in batches.
    pub no_bulk: bool,
    /// Resume from the destination's newest identity instead of copying
    /// from scratch.
    pub continue_from: bool,
    /// Log per-item insert failures at error level instead of debug level.
    pub verbose: bool,
}

/// The strategy for one collection transfer.
#[derive(Clone, Copy, Debug, PartialEq, Eq, Structural)]
pub struct TransferPlan {
    /// Documents per submitted batch.
    pub bulk_size: u64,
    /// Insert one document per request instead of batching.
    pub single: bool,
    /// Derive the starting point from the destination's newest identity.
    pub resume: bool,
    /// Batches must be applied in document order. Mandatory under resume:
    /// it keeps the destination's newest identity a trustworthy boundary
    /// even if a batch is interrupted midway.
    pub ordered: bool,
    /// How many batch inserts may be in flight at once.
    pub insert_concurrency: u64,
    /// Carried through for the driver's insert-failure logging.
    pub verbose: bool,
}

/// Decide how one collection is transferred. Resume mode forces ordered
/// writes and one batch in flight at a time; otherwise writes are unordered
/// so the destination can parallelize and tolerate per-item rejections.
pub fn plan_transfer(o: &TransferOptions) -> (p: TransferPlan)
    ensures
        p.bulk_size == (match o.bulk_size {
            Some(b) => b,
            None => DEFAULT_BULK_SIZE,
        }),
        p.single == o.no_bulk,
        p.resume == o.continue_from,
        p.ordered == o.continue_from,
        p.insert_concurrency == (if o.continue_from { 1u64 } else { DEFAULT_INSERT_CONCURRENCY }),
        p.verbose == o.verbose,
{
    TransferPlan {
        bulk_size: match o.bulk_size {
            Some(b) => b,
            None => DEFAULT_BULK_SIZE,
        },
        single: o.no_bulk,
        resume: o.continue_from,
        ordered: o.continue_from,
        insert_concurrency: if o.continue_from { 1 } else { DEFAULT_INSERT_CONCURRENCY },
        verbose: o.verbose,
    }
}

/// Decide how the source cursor is opened: the resume marker (the
/// destination's newest identity, when resuming into a non-empty
/// collection) becomes a strict lower-bound filter and asks for an exact
/// count of what is left; otherwise everything is streamed against a fast
/// estimated count. The requested cursor batch size never exceeds
/// [`MAX_CURSOR_BATCH`].
pub fn plan_find(bulk_size: Option<u64>, resume_after: Option<DocId>) -> (p: FindPlan)
    ensures
        p.batch_size == (match bulk_size {
            Some(b) => Some(if b > MAX_CURSOR_BATCH { MAX_CURSOR_BATCH } else { b }),
            None => None::<u64>,
        }),
        p.filter == (match resume_after {
            Some(k) => Filter::IdGreaterThan(k),
            None => Filter::All,
        }),
        p.count_kind == (match resume_after {
            Some(_k) => CountKind::Filtered,
            None => CountKind::Estimated,
        }),
        forall|id: DocId| filter_admits(p.filter, id) <==> (match resume_after {
            Some(k) => id > k,
            None => true,
        }),
{
    let batch_size = match bulk_size {
        Some(b) => Some(if b > MAX_CURSOR_BATCH { MAX_CURSOR_BATCH } else { b }),
        None => None,
    };
    match resume_after {
        Some(k) => FindPlan {
            batch_size,
            filter: Filter::IdGreaterThan(k),
            count_kind: CountKind::Filtered,
        },
        None => FindPlan { batch_size, filter: Filter::All, count_kind: CountKind::Estimated },
    }
}

/// A startup configuration the fleet cannot run with.
#[derive(Clone, Copy, Debug, PartialEq, Eq, Structural)]
pub enum ConfigError {
    /// A destination collection rename was requested while more than one
    /// collection is in the working set: renaming many collections onto one
    /// name is invalid and must stop the run before any transfer starts.
    RenameWithManyCollections,
}

/// How the whole working set of collections is run.
#[derive(Clone, Copy, Debug, PartialEq, Eq, Structural)]
pub struct FleetPlan {
    /// How many whole-collection transfers may run at once.
    pub collection_concurrency: u64,
    /// Run the validation pass after each successful transfer.
    pub validate: bool,
}

/// Decide the fleet-wide run, or reject the configuration. An explicit
/// thread count wins; otherwise a requested collection rename forces the
/// transfers down to one at a time, and the default applies in the
/// remaining case.
pub fn plan_fleet(
    collections: u64,
    rename_collection: bool,
    threads: Option<u64>,
    validate: bool,
) -> (r: Result<FleetPlan, ConfigError>)
    ensures
        r is Err <==> rename_collection && collections > 1,
        r is Err ==> r == Err::<FleetPlan, ConfigError>(ConfigError::RenameWithManyCollections),
        r matches Ok(p) ==> p.collection_concurrency == (match threads {
            Some(t) => t,
            None => if rename_collection { 1u64 } else { DEFAULT_COLLECTION_CONCURRENCY },
        }) && p.validate == validate,
{
    if rename_collection && collections > 1 {
        return Err(ConfigError::RenameWithManyCollections);
    }
    let collection_concurrency = match threads {
        Some(t) => t,
        None => if rename_collection { 1 } else { DEFAULT_COLLECTION_CONCURRENCY },
    };
    Ok(FleetPlan { collection_concurrency, validate })
}

} // verus!
