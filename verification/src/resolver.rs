//! The partition table and the resolution of a region against it.

use vstd::prelude::*;
use vstd::string::StringExecFns;
use crate::endpoint::{ResolvedEndpoint, ResolvedView};
use crate::partition::{ConfigurationError, Partition, PartitionView};
use crate::text::{all_distinct, texts};

verus! {

/// A partition table as plain values: its partitions, in table order.
pub struct TableView {
    pub partitions: Seq<PartitionView>,
}

impl TableView {
    /// The table that holds `base` and, after it, `rest`.
    pub open spec fn of(base: PartitionView, rest: Seq<PartitionView>) -> TableView {
        TableView { partitions: seq![base] + rest }
    }

    /// The ids of the partitions, in table order.
    pub open spec fn ids(self) -> Seq<Seq<char>> {
        self.partitions.map_values(|partition: PartitionView| partition.id)
    }

    /// Whether the table holds a partition, each partition is well formed,
    /// and no two have the same id.
    pub open spec fn well_formed(self) -> bool {
        &&& self.partitions.len() >= 1
        &&& forall|at: int|
            0 <= at < self.partitions.len() ==> (#[trigger] self.partitions[at]).well_formed()
        &&& self.ids().no_duplicates()
    }

    /// Whether the partition at `at` has a pattern that accepts `region`.
    pub open spec fn matches_at(self, region: Seq<char>, at: int) -> bool {
        0 <= at < self.partitions.len() && self.partitions[at].can_resolve(region)
    }

    /// Whether the partition at `at` is the first, in table order, with a
    /// pattern that accepts `region`.
    pub open spec fn first_match(self, region: Seq<char>, at: int) -> bool {
        &&& self.matches_at(region, at)
        &&& forall|before: int| 0 <= before < at ==> !self.matches_at(region, before)
    }

    /// The place of the partition that `region` is resolved in: the first
    /// with a pattern that accepts the region, and the first of the table
    /// where no pattern accepts it.
    pub open spec fn matching(self, region: Seq<char>) -> int {
        if exists|at: int| self.first_match(region, at) {
            choose|at: int| self.first_match(region, at)
        } else {
            0
        }
    }

    /// The endpoint for `region`.
    pub open spec fn resolve(self, region: Seq<char>) -> ResolvedView {
        self.partitions[self.matching(region)].resolve(region)
    }
}

/// The partitions as plain values.
pub open spec fn views(partitions: Seq<Partition>) -> Seq<PartitionView> {
    partitions.map_values(|partition: Partition| partition@)
}

/// A validated partition table, and the resolution against it.
#[derive(Debug)]
pub struct PartitionResolver {
    partitions: Vec<Partition>,
}

impl View for PartitionResolver {
    type V = TableView;

    closed spec fn view(&self) -> TableView {
        TableView { partitions: views(self.partitions@) }
    }
}

impl PartitionResolver {
    #[verifier::type_invariant]
    spec fn valid(&self) -> bool {
        self@.well_formed()
    }

    /// Makes a table of `base` and, after it, the partitions of `rest`. The
    /// table is refused when two of them have the same id.
    pub fn new(base: Partition, rest: Vec<Partition>) -> (made: Result<
        PartitionResolver,
        ConfigurationError,
    >)
        ensures
            match made {
                Ok(resolver) => {
                    &&& resolver@ == TableView::of(base@, views(rest@))
                    &&& resolver@.well_formed()
                },
                Err(error) => {
                    &&& error == ConfigurationError::DuplicatePartitionId
                    &&& !TableView::of(base@, views(rest@)).ids().no_duplicates()
                },
            },
    {
        let mut partitions = rest;
        partitions.insert(0, base);
        let ghost table = TableView { partitions: views(partitions@) };
        proof {
            assert(table.partitions =~= TableView::of(base@, views(rest@)).partitions);
        }
        let mut ids: Vec<String> = Vec::new();
        let mut at: usize = 0;
        while at < partitions.len()
            invariant
                at <= partitions.len(),
                ids.len() == at,
                table.partitions == views(partitions@),
                forall|i: int| 0 <= i < at ==> ids[i]@ == table.partitions[i].id,
                forall|i: int| 0 <= i < at ==> (#[trigger] table.partitions[i]).well_formed(),
            decreases partitions.len() - at,
        {
            let partition = &partitions[at];
            proof {
                use_type_invariant(partition);
                partition.lemma_valid();
            }
            ids.push(String::from_str(partition.id()));
            at += 1;
        }
        proof {
            assert(texts(ids@) =~= table.ids());
        }
        if !all_distinct(&ids) {
            return Err(ConfigurationError::DuplicatePartitionId);
        }
        Ok(PartitionResolver { partitions })
    }

    /// The partitions of the table, in table order. There is at least one,
    /// each is well formed, and no two have the same id.
    pub fn partitions(&self) -> (partitions: &Vec<Partition>)
        ensures
            views(partitions@) == self@.partitions,
            partitions.len() == self@.partitions.len(),
            self@.well_formed(),
    {
        proof {
            use_type_invariant(self);
        }
        &self.partitions
    }

    /// The partition that `region` is resolved in.
    pub fn matching_partition(&self, region: &str) -> (partition: &Partition)
        ensures
            partition@ == self@.partitions[self@.matching(region@)],
    {
        proof {
            use_type_invariant(self);
        }
        let mut at: usize = 0;
        while at < self.partitions.len()
            invariant
                at <= self.partitions.len(),
                self.partitions.len() >= 1,
                forall|before: int| 0 <= before < at ==> !self@.matches_at(region@, before),
            decreases self.partitions.len() - at,
        {
            if self.partitions[at].can_resolve(region) {
                proof {
                    assert(self@.first_match(region@, at as int));
                    let chosen = choose|i: int| self@.first_match(region@, i);
                    assert(chosen == at) by {
                        if chosen < at {
                            assert(self@.matches_at(region@, chosen));
                        }
                    }
                }
                return &self.partitions[at];
            }
            at += 1;
        }
        proof {
            assert forall|i: int| !self@.first_match(region@, i) by {
                if self@.first_match(region@, i) {
                    assert(self@.matches_at(region@, i));
                }
            }
        }
        &self.partitions[0]
    }

    /// The endpoint for `region`. Every region has one: a region that no
    /// pattern accepts is resolved in the first partition of the table.
    pub fn resolve(&self, region: &str) -> (endpoint: ResolvedEndpoint)
        ensures
            endpoint@ == self@.resolve(region@),
    {
        self.matching_partition(region).resolve(region)
    }
}

} // verus!
