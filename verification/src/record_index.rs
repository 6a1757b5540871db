//! Records that are found by their sequences and by their locators.

use crate::metadata::MetadataCommitRecord;
use crate::types::ArchiveLocator;
use std::collections::BTreeMap;
use vstd::prelude::*;

verus! {

/// Records by sequence and by locator. Records with one file offset share a bucket.
#[derive(Debug)]
pub struct RecordIndex {
    by_sequence: BTreeMap<u64, MetadataCommitRecord>,
    by_offset: BTreeMap<u64, Vec<MetadataCommitRecord>>,
}

/// The mathematical value of a [`RecordIndex`].
#[verifier::ext_equal]
pub struct RecordIndexModel {
    pub by_sequence: Map<u64, MetadataCommitRecord>,
    pub by_locator: Map<ArchiveLocator, MetadataCommitRecord>,
}

/// The last record with a locator.
spec fn newest(records: Seq<MetadataCommitRecord>, locator: ArchiveLocator) -> Option<
    MetadataCommitRecord,
>
    decreases records.len(),
{
    if records.len() == 0 {
        None
    } else if records.last().locator == locator {
        Some(records.last())
    } else {
        newest(records.drop_last(), locator)
    }
}

/// The records of all buckets by their locators.
spec fn located(buckets: Map<u64, Vec<MetadataCommitRecord>>) -> Map<
    ArchiveLocator,
    MetadataCommitRecord,
> {
    Map::new(
        |locator: ArchiveLocator|
            buckets.contains_key(locator.file_offset) && newest(
                buckets[locator.file_offset]@,
                locator,
            ) is Some,
        |locator: ArchiveLocator| newest(buckets[locator.file_offset]@, locator)->Some_0,
    )
}

/// A record that is found for a locator has that locator.
proof fn newest_has_locator(records: Seq<MetadataCommitRecord>, locator: ArchiveLocator)
    ensures
        newest(records, locator) matches Some(record) ==> record.locator == locator,
    decreases records.len(),
{
    if records.len() > 0 {
        newest_has_locator(records.drop_last(), locator);
    }
}

impl View for RecordIndex {
    type V = RecordIndexModel;

    closed spec fn view(&self) -> RecordIndexModel {
        RecordIndexModel {
            by_sequence: self.by_sequence@,
            by_locator: located(self.by_offset@),
        }
    }
}

impl RecordIndex {
    /// Every record stands under its own sequence.
    #[verifier::type_invariant]
    spec fn keyed(self) -> bool {
        forall|sequence: u64| #[trigger]
            self.by_sequence@.contains_key(sequence) ==> self.by_sequence@[sequence].sequence
                == sequence
    }

    /// Creates an index without records.
    pub fn new() -> (index: RecordIndex)
        ensures
            index@.by_sequence == Map::<u64, MetadataCommitRecord>::empty(),
            index@.by_locator == Map::<ArchiveLocator, MetadataCommitRecord>::empty(),
    {
        let index = RecordIndex { by_sequence: BTreeMap::new(), by_offset: BTreeMap::new() };
        assert(index@.by_locator =~= Map::empty());
        index
    }

    /// Takes in a record. It replaces one with the same sequence, and one with the same locator.
    pub fn with_record(self, record: MetadataCommitRecord) -> (index: RecordIndex)
        ensures
            index@.by_sequence == self@.by_sequence.insert(record.sequence, record),
            index@.by_locator == self@.by_locator.insert(record.locator, record),
    {
        proof {
            use_type_invariant(&self);
        }
        let ghost before = self.by_offset@;
        let offset: u64 = record.locator.file_offset;
        let mut by_sequence = self.by_sequence;
        let mut by_offset = self.by_offset;
        let _ = by_sequence.insert(record.sequence, record);
        let mut bucket: Vec<MetadataCommitRecord> = match by_offset.remove(&offset) {
            Some(bucket) => bucket,
            None => Vec::new(),
        };
        let ghost older = bucket@;
        bucket.push(record);
        let _ = by_offset.insert(offset, bucket);
        proof {
            let after = by_offset@;
            assert(after =~= before.insert(offset, bucket));
            assert(bucket@.drop_last() =~= older);
            assert forall|locator: ArchiveLocator| #[trigger] located(after).contains_key(locator)
                == located(before).insert(record.locator, record).contains_key(locator) by {
                assert(newest(bucket@, locator) == if locator == record.locator {
                    Some(record)
                } else {
                    newest(older, locator)
                });
            }
            assert(located(after) =~= located(before).insert(record.locator, record));
        }
        RecordIndex { by_sequence, by_offset }
    }

    /// Finds the record with a sequence.
    pub fn find_sequence(&self, sequence: u64) -> (found: Option<MetadataCommitRecord>)
        ensures
            match found {
                Some(record) => {
                    &&& self@.by_sequence.contains_key(sequence)
                    &&& self@.by_sequence[sequence] == record
                    &&& record.sequence == sequence
                },
                None => !self@.by_sequence.contains_key(sequence),
            },
    {
        proof {
            use_type_invariant(self);
        }
        match self.by_sequence.get(&sequence) {
            Some(record) => Some(*record),
            None => None,
        }
    }

    /// Finds the record with a locator.
    pub fn find_locator(&self, locator: ArchiveLocator) -> (found: Option<MetadataCommitRecord>)
        ensures
            match found {
                Some(record) => {
                    &&& self@.by_locator.contains_key(locator)
                    &&& self@.by_locator[locator] == record
                    &&& record.locator == locator
                },
                None => !self@.by_locator.contains_key(locator),
            },
    {
        let offset: u64 = locator.file_offset;
        match self.by_offset.get(&offset) {
            Some(bucket) => newest_record(bucket, locator),
            None => None,
        }
    }
}

/// Finds the last record with a locator.
fn newest_record(records: &Vec<MetadataCommitRecord>, locator: ArchiveLocator) -> (found: Option<
    MetadataCommitRecord,
>)
    ensures
        found == newest(records@, locator),
        found matches Some(record) ==> record.locator == locator,
{
    let mut n: usize = records.len();
    proof {
        newest_has_locator(records@, locator);
        assert(records@.subrange(0, n as int) =~= records@);
    }
    while n > 0
        invariant
            n <= records@.len(),
            newest(records@, locator) == newest(records@.subrange(0, n as int), locator),
        decreases n,
    {
        assert(records@.subrange(0, n as int).drop_last() =~= records@.subrange(0, n - 1));
        if records[n - 1].locator == locator {
            return Some(records[n - 1]);
        }
        n = n - 1;
    }
    None
}

} // verus!
