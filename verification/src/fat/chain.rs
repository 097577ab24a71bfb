//! Cluster chains and the walk along them.

use crate::disk_access::{window_start, Read, SeekFrom};
use crate::fat::bpb::{lemma_multiple_of_sector, Bpb};
use crate::fat::table::{
    classify, classify_fat_entry, decode_fat_entry, entry_position, entry_value, entry_width,
    fat_entry_position, fat_entry_width, FatLookupError, FileFatEntry,
};
use vstd::arithmetic::mul::lemma_mul_upper_bound;
use vstd::prelude::*;

verus! {

/// A run of bytes on the volume that holds one cluster of a file.
#[derive(Clone, Copy, Debug, PartialEq, Eq, Structural)]
pub struct Cluster {
    /// The offset of the cluster's first byte, counted from the start of the
    /// volume.
    pub start_offset: u64,
    /// The size of the cluster in bytes.
    pub len_bytes: u32,
}

impl Bpb {
    /// The bytes of cluster `n`.
    pub open spec fn cluster(self, n: u32) -> Cluster {
        Cluster {
            start_offset: (self.clusters_offset() + (n - 2) * self.cluster_size()) as u64,
            len_bytes: self.cluster_size() as u32,
        }
    }

    /// The offset in the volume of the table entry of cluster `n`.
    pub open spec fn entry_offset(self, n: u32) -> int {
        self.table_offset() + entry_position(self.spec_fat_type(), n as int)
    }

    /// Whether the table entry of cluster `n` can be read from `medium`: the
    /// medium holds the two sectors from the start of the entry's sector on.
    pub open spec fn entry_readable(self, medium: Seq<u8>, n: u32) -> bool {
        window_start(self.entry_offset(n)) + 1024 <= medium.len()
    }

    /// The table entry of cluster `n` on `medium`.
    pub open spec fn entry(self, medium: Seq<u8>, n: u32) -> u32 {
        entry_value(
            self.spec_fat_type(),
            n as int,
            medium.subrange(
                self.entry_offset(n),
                self.entry_offset(n) + entry_width(self.spec_fat_type()),
            ),
        ) as u32
    }

    /// The clusters of the chain on `medium` that starts with the table entry
    /// `entry`, in the order of the chain, where at most `budget` clusters
    /// are followed.
    ///
    /// The chain fails where an entry names no cluster, where an entry
    /// cannot be read, and where it goes on after `budget` clusters.
    pub open spec fn chain(self, medium: Seq<u8>, entry: u32, budget: nat) -> Result<
        Seq<Cluster>,
        FatLookupError,
    >
        decreases budget,
    {
        match classify(self.spec_fat_type(), entry, self.max_cluster() as u32) {
            Err(error) => Err(error),
            Ok(FileFatEntry::EndOfFile) => Ok(Seq::empty()),
            Ok(FileFatEntry::AllocatedCluster(n)) => if budget == 0 {
                Err(FatLookupError::CircularChain)
            } else if !self.entry_readable(medium, n) {
                Err(FatLookupError::Device)
            } else {
                match self.chain(medium, self.entry(medium, n), (budget - 1) as nat) {
                    Err(error) => Err(error),
                    Ok(rest) => Ok(seq![self.cluster(n)] + rest),
                }
            },
        }
    }

    /// The table entry that is reached from `entry` after `k` clusters.
    pub open spec fn nth_entry(self, medium: Seq<u8>, entry: u32, k: nat) -> u32
        decreases k,
    {
        if k == 0 {
            entry
        } else {
            self.nth_entry(medium, self.entry(medium, entry), (k - 1) as nat)
        }
    }

    /// Whether the table entry `entry` names a cluster of the volume.
    pub open spec fn names_cluster(self, entry: u32) -> bool {
        classify(self.spec_fat_type(), entry, self.max_cluster() as u32) == Ok::<
            FileFatEntry,
            FatLookupError,
        >(FileFatEntry::AllocatedCluster(entry))
    }

    /// Whether the table entry `entry` ends a chain.
    pub open spec fn ends_chain(self, entry: u32) -> bool {
        classify(self.spec_fat_type(), entry, self.max_cluster() as u32) == Ok::<
            FileFatEntry,
            FatLookupError,
        >(FileFatEntry::EndOfFile)
    }
}

/// The place in a chain at which a walk over it stands.
#[derive(Clone, Copy, Debug, PartialEq, Eq, Structural)]
pub struct Traverser {
    /// The parameters of the volume.
    pub bpb: Bpb,
    /// The table entry that the walk has reached.
    pub current_entry: u32,
    /// The number of clusters that the walk may still deliver.
    pub budget: u32,
}

/// What a walk delivers next, and where the table says how it goes on.
#[derive(Clone, Copy, Debug, PartialEq, Eq, Structural)]
pub struct PendingCluster {
    /// The cluster that the walk delivers.
    pub cluster: Cluster,
    /// The number of the cluster.
    pub number: u32,
    /// The offset in the volume of the cluster's table entry.
    pub entry_offset: u64,
    /// The number of bytes to read there.
    pub entry_width: usize,
}

impl Traverser {
    /// The walk over the chain that starts with cluster `first_cluster`. It
    /// delivers no more clusters than the volume has.
    pub fn new(bpb: Bpb, first_cluster: u32) -> (walk: Traverser)
        requires
            bpb.valid(),
        ensures
            walk == (Traverser {
                bpb,
                current_entry: first_cluster,
                budget: bpb.cluster_count() as u32,
            }),
    {
        Traverser { bpb, current_entry: first_cluster, budget: bpb.count_of_clusters() }
    }

    /// The clusters that the walk has yet to deliver on `medium`.
    pub open spec fn rest(self, medium: Seq<u8>) -> Result<Seq<Cluster>, FatLookupError> {
        self.bpb.chain(medium, self.current_entry, self.budget as nat)
    }

    /// What the walk delivers next: nothing at the end of the chain, else the
    /// cluster that the current entry names and the place of that cluster's
    /// own entry.
    pub fn pending(&self) -> (r: Result<Option<PendingCluster>, FatLookupError>)
        requires
            self.bpb.valid(),
        ensures
            match classify(
                self.bpb.spec_fat_type(),
                self.current_entry,
                self.bpb.max_cluster() as u32,
            ) {
                Err(error) => r == Err::<Option<PendingCluster>, FatLookupError>(error),
                Ok(FileFatEntry::EndOfFile) => r == Ok::<Option<PendingCluster>, FatLookupError>(
                    None,
                ),
                Ok(FileFatEntry::AllocatedCluster(n)) => if self.budget == 0 {
                    r == Err::<Option<PendingCluster>, FatLookupError>(
                        FatLookupError::CircularChain,
                    )
                } else {
                    r == Ok::<Option<PendingCluster>, FatLookupError>(
                        Some(
                            PendingCluster {
                                cluster: self.bpb.cluster(n),
                                number: n,
                                entry_offset: self.bpb.entry_offset(n) as u64,
                                entry_width: entry_width(self.bpb.spec_fat_type()) as usize,
                            },
                        ),
                    )
                },
            },
            r is Ok && r->Ok_0 is Some ==> r->Ok_0->Some_0.entry_offset == self.bpb.entry_offset(
                r->Ok_0->Some_0.number,
            ),
    {
        let fat_type = self.bpb.fat_type();
        let entry = classify_fat_entry(
            fat_type,
            self.current_entry,
            self.bpb.maximum_valid_cluster(),
        )?;
        match entry {
            FileFatEntry::EndOfFile => Ok(None),
            FileFatEntry::AllocatedCluster(n) => {
                if self.budget == 0 {
                    return Err(FatLookupError::CircularChain);
                }
                let size: u32 = self.bpb.bytes_per_cluster();
                proof {
                    lemma_mul_upper_bound(n - 2, 0xffff_ffff, size as int, 0xfe_ff01);
                }
                let start: u64 = self.bpb.data_offset() + (n as u64 - 2) * size as u64;
                let entry_offset: u64 = self.bpb.fat_offset() + fat_entry_position(fat_type, n);
                Ok(
                    Some(
                        PendingCluster {
                            cluster: Cluster { start_offset: start, len_bytes: size },
                            number: n,
                            entry_offset,
                            entry_width: fat_entry_width(fat_type),
                        },
                    ),
                )
            },
        }
    }

    /// Moves the walk past the cluster `pending`, whose table entry holds the
    /// bytes `raw`.
    pub fn advance(&mut self, pending: &PendingCluster, raw: &[u8])
        requires
            old(self).bpb.valid(),
            old(self).budget > 0,
            raw@.len() >= entry_width(old(self).bpb.spec_fat_type()),
        ensures
            *final(self) == (Traverser {
                bpb: old(self).bpb,
                current_entry: entry_value(
                    old(self).bpb.spec_fat_type(),
                    pending.number as int,
                    raw@,
                ) as u32,
                budget: (old(self).budget - 1) as u32,
            }),
    {
        let fat_type = self.bpb.fat_type();
        self.current_entry = decode_fat_entry(fat_type, pending.number, raw);
        self.budget = self.budget - 1;
    }

    /// What one step of the walk on `medium` delivers, and the walk after it:
    /// at the end of the chain nothing; where the chain cannot be followed,
    /// the reason, with the walk left where it is; else the cluster that the
    /// current entry names, with the walk moved to that cluster's entry.
    pub open spec fn step(self, medium: Seq<u8>) -> (
        Result<Option<Cluster>, FatLookupError>,
        Traverser,
    ) {
        match classify(self.bpb.spec_fat_type(), self.current_entry, self.bpb.max_cluster() as u32) {
            Err(error) => (Err(error), self),
            Ok(FileFatEntry::EndOfFile) => (Ok(None), self),
            Ok(FileFatEntry::AllocatedCluster(n)) => if self.budget == 0 {
                (Err(FatLookupError::CircularChain), self)
            } else if !self.bpb.entry_readable(medium, n) {
                (Err(FatLookupError::Device), self)
            } else {
                (
                    Ok(Some(self.bpb.cluster(n))),
                    Traverser {
                        bpb: self.bpb,
                        current_entry: self.bpb.entry(medium, n),
                        budget: (self.budget - 1) as u32,
                    },
                )
            },
        }
    }

    /// Delivers the next cluster of the chain on `disk`, or nothing at its
    /// end, and moves on. A walk that fails stays where it is.
    pub fn next_cluster<D: Read>(&mut self, disk: &mut D) -> (r: Result<
        Option<Cluster>,
        FatLookupError,
    >)
        requires
            old(self).bpb.valid(),
        ensures
            final(disk).medium() == old(disk).medium(),
            r == old(self).step(old(disk).medium()).0,
            *final(self) == old(self).step(old(disk).medium()).1,
    {
        let ghost medium = disk.medium();
        let pending = match self.pending() {
            Ok(Some(pending)) => pending,
            Ok(None) => {
                return Ok(None);
            },
            Err(error) => {
                return Err(error);
            },
        };
        proof {
            disk.lemma_seek_keeps_medium(pending.entry_offset);
        }
        disk.seek(SeekFrom::Start(pending.entry_offset));
        let raw = match disk.read_exact(pending.entry_width) {
            Ok(raw) => raw,
            Err(_) => {
                return Err(FatLookupError::Device);
            },
        };
        self.advance(&pending, raw.as_slice());
        Ok(Some(pending.cluster))
    }
}

/// A chain is what the first step of a walk over it delivers, followed by
/// the chain that the walk has yet to deliver after that step.
pub proof fn lemma_step_unfolds_chain(walk: Traverser, medium: Seq<u8>)
    ensures
        walk.rest(medium) == match walk.step(medium).0 {
            Err(error) => Err::<Seq<Cluster>, FatLookupError>(error),
            Ok(None) => Ok(Seq::empty()),
            Ok(Some(cluster)) => match walk.step(medium).1.rest(medium) {
                Err(error) => Err(error),
                Ok(rest) => Ok(seq![cluster] + rest),
            },
        },
{
}

/// `prefix` followed by what `rest` delivers, or the failure of `rest`.
pub open spec fn prepend(prefix: Seq<Cluster>, rest: Result<Seq<Cluster>, FatLookupError>) -> Result<
    Seq<Cluster>,
    FatLookupError,
> {
    match rest {
        Err(error) => Err(error),
        Ok(clusters) => Ok(prefix + clusters),
    }
}

/// Following a chain for `i` clusters and then for `d` more is following it
/// for `i + d` clusters.
pub proof fn lemma_nth_entry_adds(bpb: Bpb, medium: Seq<u8>, entry: u32, i: nat, d: nat)
    ensures
        bpb.nth_entry(medium, entry, i + d) == bpb.nth_entry(
            medium,
            bpb.nth_entry(medium, entry, i),
            d,
        ),
    decreases i,
{
    if i > 0 {
        lemma_nth_entry_adds(bpb, medium, bpb.entry(medium, entry), (i - 1) as nat, d);
    }
}

/// A chain that is followed to its end has a cluster for each entry on the
/// way, and the entry behind the last cluster ends it.
pub proof fn lemma_chain_entries(bpb: Bpb, medium: Seq<u8>, entry: u32, budget: nat)
    requires
        bpb.chain(medium, entry, budget) is Ok,
    ensures
        ({
            let clusters = bpb.chain(medium, entry, budget)->Ok_0;
            &&& clusters.len() <= budget
            &&& forall|k: nat|
                k < clusters.len() ==> bpb.names_cluster(#[trigger] bpb.nth_entry(medium, entry, k))
                    && clusters[k as int] == bpb.cluster(bpb.nth_entry(medium, entry, k))
            &&& bpb.ends_chain(bpb.nth_entry(medium, entry, clusters.len()))
        }),
    decreases budget,
{
    let clusters = bpb.chain(medium, entry, budget)->Ok_0;
    match classify(bpb.spec_fat_type(), entry, bpb.max_cluster() as u32) {
        Ok(FileFatEntry::AllocatedCluster(n)) => {
            let next = bpb.entry(medium, n);
            lemma_chain_entries(bpb, medium, next, (budget - 1) as nat);
            let rest = bpb.chain(medium, next, (budget - 1) as nat)->Ok_0;
            assert(clusters =~= seq![bpb.cluster(n)] + rest);
            assert forall|k: nat| k < clusters.len() implies bpb.names_cluster(
                #[trigger] bpb.nth_entry(medium, entry, k),
            ) && clusters[k as int] == bpb.cluster(bpb.nth_entry(medium, entry, k)) by {
                if k > 0 {
                    let before = (k - 1) as nat;
                    assert(bpb.nth_entry(medium, entry, k) == bpb.nth_entry(medium, next, before));
                    assert(bpb.names_cluster(bpb.nth_entry(medium, next, before)));
                }
            }
            assert(bpb.nth_entry(medium, entry, clusters.len()) == bpb.nth_entry(
                medium,
                next,
                rest.len(),
            ));
        },
        _ => {},
    }
}

/// Two clusters of a volume with different numbers lie at different places.
pub proof fn lemma_clusters_differ(bpb: Bpb, first: u32, second: u32)
    requires
        bpb.valid(),
        bpb.names_cluster(first),
        bpb.names_cluster(second),
        first != second,
    ensures
        bpb.cluster(first).start_offset != bpb.cluster(second).start_offset,
{
    let size = bpb.cluster_size();
    let base = bpb.clusters_offset();
    assert(512 <= size <= 0xfe_ff01) by (nonlinear_arith)
        requires
            size == bpb.bytes_per_sector * bpb.sectors_per_cluster,
            512 <= bpb.bytes_per_sector <= 0xffff,
            1 <= bpb.sectors_per_cluster <= 0xff,
    ;
    assert(0 <= base <= 0xffff_ffff * 0xffff) by (nonlinear_arith)
        requires
            base == bpb.first_data_sector() * bpb.bytes_per_sector,
            0 <= bpb.first_data_sector() <= 0xffff_ffff,
            0 <= bpb.bytes_per_sector <= 0xffff,
    ;
    assert(0 <= (first - 2) * size <= 0xffff_ffff * 0xfe_ff01 && 0 <= (second - 2) * size
        <= 0xffff_ffff * 0xfe_ff01 && (first - 2) * size != (second - 2) * size)
        by (nonlinear_arith)
        requires
            2 <= first <= 0xffff_ffff,
            2 <= second <= 0xffff_ffff,
            first != second,
            512 <= size <= 0xfe_ff01,
    ;
}

/// A chain that is followed to its end holds no cluster twice, and no more
/// clusters than it was given as budget.
pub proof fn lemma_chain_has_no_cycle(bpb: Bpb, medium: Seq<u8>, entry: u32, budget: nat)
    requires
        bpb.valid(),
        bpb.chain(medium, entry, budget) is Ok,
    ensures
        ({
            let clusters = bpb.chain(medium, entry, budget)->Ok_0;
            &&& clusters.len() <= budget
            &&& forall|i: int, j: int|
                0 <= i < j < clusters.len() ==> clusters[i].start_offset != clusters[j].start_offset
        }),
{
    let clusters = bpb.chain(medium, entry, budget)->Ok_0;
    lemma_chain_entries(bpb, medium, entry, budget);
    assert forall|i: int, j: int| 0 <= i < j < clusters.len() implies clusters[i].start_offset
        != clusters[j].start_offset by {
        let at_i = bpb.nth_entry(medium, entry, i as nat);
        let at_j = bpb.nth_entry(medium, entry, j as nat);
        assert(bpb.names_cluster(at_i) && clusters[i] == bpb.cluster(at_i));
        assert(bpb.names_cluster(at_j) && clusters[j] == bpb.cluster(at_j));
        if at_i == at_j {
            lemma_circular_chain_is_rejected(bpb, medium, entry, budget, i as nat, j as nat);
        } else {
            lemma_clusters_differ(bpb, at_i, at_j);
        }
    }
}

/// A chain that comes back to a cluster it has passed is rejected: where
/// the chain reaches its entry after `j` clusters, and that entry is the one
/// it had after `i` clusters, with `i` before `j`, following the chain fails,
/// whatever the budget.
pub proof fn lemma_circular_chain_is_rejected(
    bpb: Bpb,
    medium: Seq<u8>,
    entry: u32,
    budget: nat,
    i: nat,
    j: nat,
)
    requires
        i < j,
        bpb.nth_entry(medium, entry, i) == bpb.nth_entry(medium, entry, j),
        forall|k: nat| k <= j ==> bpb.names_cluster(#[trigger] bpb.nth_entry(medium, entry, k)),
    ensures
        bpb.chain(medium, entry, budget) is Err,
{
    if bpb.chain(medium, entry, budget) is Ok {
        let clusters = bpb.chain(medium, entry, budget)->Ok_0;
        let end = clusters.len();
        lemma_chain_entries(bpb, medium, entry, budget);
        if end <= j {
            assert(bpb.names_cluster(bpb.nth_entry(medium, entry, end)));
        } else {
            let d = (end - j) as nat;
            lemma_nth_entry_adds(bpb, medium, entry, i, d);
            lemma_nth_entry_adds(bpb, medium, entry, j, d);
            assert(bpb.nth_entry(medium, entry, i + d) == bpb.nth_entry(medium, entry, end));
            assert(bpb.names_cluster(bpb.nth_entry(medium, entry, i + d)));
        }
    }
}

/// Every cluster of a chain starts with a sector, is a whole number of
/// sectors long, and ends below 2^64.
pub proof fn lemma_chain_clusters_are_aligned(bpb: Bpb, medium: Seq<u8>, entry: u32, budget: nat)
    requires
        bpb.valid(),
        bpb.chain(medium, entry, budget) is Ok,
    ensures
        ({
            let clusters = bpb.chain(medium, entry, budget)->Ok_0;
            forall|k: int|
                0 <= k < clusters.len() ==> (#[trigger] clusters[k]).start_offset % 512 == 0
                    && clusters[k].len_bytes % 512 == 0 && clusters[k].len_bytes
                    == bpb.cluster_size() && clusters[k].len_bytes > 0
                    && clusters[k].start_offset + clusters[k].len_bytes <= u64::MAX
        }),
{
    let clusters = bpb.chain(medium, entry, budget)->Ok_0;
    lemma_chain_entries(bpb, medium, entry, budget);
    assert forall|k: int| 0 <= k < clusters.len() implies (#[trigger] clusters[k]).start_offset
        % 512 == 0 && clusters[k].len_bytes % 512 == 0 && clusters[k].len_bytes
        == bpb.cluster_size() && clusters[k].len_bytes > 0 && clusters[k].start_offset
        + clusters[k].len_bytes <= u64::MAX by {
        let n = bpb.nth_entry(medium, entry, k as nat);
        assert(bpb.names_cluster(n) && clusters[k] == bpb.cluster(n));
        lemma_cluster_is_aligned(bpb, n);
    }
}

/// A cluster of a volume starts with a sector, is a whole number of sectors
/// long, and ends below 2^64.
pub proof fn lemma_cluster_is_aligned(bpb: Bpb, n: u32)
    requires
        bpb.valid(),
        bpb.names_cluster(n),
    ensures
        bpb.cluster(n).start_offset == bpb.clusters_offset() + (n - 2) * bpb.cluster_size(),
        bpb.cluster(n).len_bytes == bpb.cluster_size(),
        bpb.cluster(n).start_offset % 512 == 0,
        bpb.cluster(n).len_bytes % 512 == 0,
        bpb.cluster(n).len_bytes > 0,
        bpb.cluster(n).start_offset + bpb.cluster(n).len_bytes <= u64::MAX,
{
    let size = bpb.cluster_size();
    let base = bpb.clusters_offset();
    let sector = bpb.bytes_per_sector as int;
    assert(512 <= size <= 0xfe_ff01) by (nonlinear_arith)
        requires
            size == bpb.bytes_per_sector * bpb.sectors_per_cluster,
            512 <= bpb.bytes_per_sector <= 0xffff,
            1 <= bpb.sectors_per_cluster <= 0xff,
    ;
    assert(0 <= base <= 0xffff_ffff * 0xffff) by (nonlinear_arith)
        requires
            base == bpb.first_data_sector() * bpb.bytes_per_sector,
            0 <= bpb.first_data_sector() <= 0xffff_ffff,
            0 <= bpb.bytes_per_sector <= 0xffff,
    ;
    assert(0 <= (n - 2) * size <= 0xffff_ffff * 0xfe_ff01) by (nonlinear_arith)
        requires
            2 <= n <= 0xffff_ffff,
            512 <= size <= 0xfe_ff01,
    ;
    lemma_multiple_of_sector(bpb.first_data_sector(), sector);
    lemma_multiple_of_sector(bpb.sectors_per_cluster as int, sector);
    assert(size == bpb.sectors_per_cluster * sector) by (nonlinear_arith)
        requires
            size == sector * bpb.sectors_per_cluster,
    ;
    lemma_multiple_of_sector(n - 2, size);
}

} // verus!
