//! A volume that is read through the disk access layer.

use crate::disk_access::{AlignedBuffer, Read, ReadError, SeekFrom, ADDRESSABLE_LIMIT};
use crate::fat::bpb::{Bpb, FatType, BOOT_SECTOR_SIZE};
use crate::fat::chain::{
    lemma_chain_clusters_are_aligned, lemma_step_unfolds_chain, prepend, Cluster, Traverser,
};
use crate::fat::directory::{find_in_directory, is_search_result, File};
use crate::fat::table::FatLookupError;
use vstd::prelude::*;
use vstd::slice::slice_subrange;

verus! {

impl Bpb {
    /// The root directory on `medium` as a search can read it through a
    /// buffer of `capacity` bytes.
    ///
    /// On a FAT12 or FAT16 volume the directory lies before the clusters.
    /// There is none where its sectors do not fit the buffer or cannot be
    /// addressed by one read, and none where the medium ends before it does.
    /// On a FAT32 volume the directory is the chain of clusters that starts
    /// with the root cluster. There is none where the buffer cannot hold a
    /// sector, where the chain cannot be followed, and where the medium does
    /// not hold all its clusters.
    pub open spec fn root_directory(self, medium: Seq<u8>, capacity: int) -> Option<Seq<u8>> {
        if self.spec_fat_type() == FatType::Fat32 {
            if capacity < 512 {
                None
            } else {
                match self.chain(medium, self.root_cluster, self.cluster_count() as nat) {
                    Err(_) => None,
                    Ok(clusters) => if clusters_on_medium(medium, clusters) {
                        Some(chain_bytes(medium, clusters))
                    } else {
                        None
                    },
                }
            }
        } else if self.root_read_len() > capacity || self.root_read_len() > ADDRESSABLE_LIMIT {
            None
        } else if self.root_offset() + self.root_read_len() > medium.len() {
            None
        } else {
            Some(medium.subrange(self.root_offset(), self.root_offset() + self.root_size()))
        }
    }
}

/// The bytes of `cluster` on `medium`.
pub open spec fn cluster_bytes(medium: Seq<u8>, cluster: Cluster) -> Seq<u8> {
    medium.subrange(cluster.start_offset as int, cluster.start_offset + cluster.len_bytes)
}

/// Whether `medium` holds all of `clusters`.
pub open spec fn clusters_on_medium(medium: Seq<u8>, clusters: Seq<Cluster>) -> bool {
    forall|i: int|
        0 <= i < clusters.len() ==> (#[trigger] clusters[i]).start_offset + clusters[i].len_bytes
            <= medium.len()
}

/// The bytes of `clusters` on `medium`, one cluster after the other.
pub open spec fn chain_bytes(medium: Seq<u8>, clusters: Seq<Cluster>) -> Seq<u8>
    decreases clusters.len(),
{
    if clusters.len() == 0 {
        Seq::empty()
    } else {
        chain_bytes(medium, clusters.drop_last()) + cluster_bytes(medium, clusters.last())
    }
}

/// The number of bytes that one read through a buffer of `capacity` bytes
/// fetches at most: as many whole sectors as the buffer holds and one read
/// can address.
pub open spec fn run_capacity(capacity: int) -> int {
    if capacity >= ADDRESSABLE_LIMIT {
        ADDRESSABLE_LIMIT as int
    } else {
        capacity - capacity % 512
    }
}

impl Cluster {
    /// The number of bytes of the run that is read at `offset` of the
    /// cluster through a buffer of `capacity` bytes: what is left of the
    /// cluster, or what one read fetches at most.
    pub open spec fn run_len(self, offset: int, capacity: int) -> int {
        if self.len_bytes - offset < run_capacity(capacity) {
            self.len_bytes - offset
        } else {
            run_capacity(capacity)
        }
    }

    /// Where on the volume the run at `offset` of the cluster starts, and
    /// how many bytes it has, when it is read through a buffer of `capacity`
    /// bytes.
    pub fn next_run(&self, offset: u64, capacity: usize) -> (run: (u64, usize))
        requires
            offset < self.len_bytes,
            capacity >= 512,
            self.start_offset + self.len_bytes <= u64::MAX,
        ensures
            run.0 == self.start_offset + offset,
            run.1 == self.run_len(offset as int, capacity as int),
            0 < run.1 <= capacity,
            run.1 <= ADDRESSABLE_LIMIT,
            offset + run.1 <= self.len_bytes,
            offset % 512 == 0 && self.len_bytes % 512 == 0 ==> run.1 % 512 == 0,
    {
        let chunk: usize = if capacity >= ADDRESSABLE_LIMIT as usize {
            ADDRESSABLE_LIMIT as usize
        } else {
            capacity - capacity % 512
        };
        let left: u64 = self.len_bytes as u64 - offset;
        let len: usize = if left < chunk as u64 {
            left as usize
        } else {
            chunk
        };
        (self.start_offset + offset, len)
    }
}

/// Appends the first `count` bytes of `source` to `dst`.
fn append_bytes(dst: &mut Vec<u8>, source: &[u8], count: usize)
    requires
        count <= source@.len(),
    ensures
        final(dst)@ == old(dst)@ + source@.subrange(0, count as int),
{
    let mut i: usize = 0;
    while i < count
        invariant
            i <= count,
            count <= source@.len(),
            dst@ == old(dst)@ + source@.subrange(0, i as int),
        decreases count - i,
    {
        dst.push(source[i]);
        i += 1;
        assert(dst@ =~= old(dst)@ + source@.subrange(0, i as int));
    }
}

/// Appends the bytes of `cluster` on `disk` to `dst`, reading them through
/// `buffer` in runs of whole sectors.
///
/// The bytes are all there if the medium holds the cluster. Else the read
/// fails, and `dst` has gained the bytes before the run that failed.
fn load_cluster<D: Read, B: AlignedBuffer>(
    disk: &mut D,
    cluster: &Cluster,
    buffer: &mut B,
    dst: &mut Vec<u8>,
) -> (r: Result<(), ReadError>)
    requires
        cluster.start_offset % 512 == 0,
        cluster.len_bytes % 512 == 0,
        cluster.len_bytes > 0,
        cluster.start_offset + cluster.len_bytes <= u64::MAX,
        old(buffer).view().len() >= 512,
    ensures
        final(disk).medium() == old(disk).medium(),
        final(buffer).view().len() == old(buffer).view().len(),
        r is Ok <==> cluster.start_offset + cluster.len_bytes <= old(disk).medium().len(),
        r is Ok ==> final(dst)@ == old(dst)@ + cluster_bytes(old(disk).medium(), *cluster),
{
    let ghost medium = disk.medium();
    let capacity: usize = buffer.slice().len();
    let total: u64 = cluster.len_bytes as u64;
    let mut offset: u64 = 0;
    let ghost mut got: Seq<u8> = Seq::empty();
    assert(dst@ =~= old(dst)@ + got);
    while offset < total
        invariant
            offset <= total,
            total == cluster.len_bytes,
            offset % 512 == 0,
            cluster.start_offset % 512 == 0,
            cluster.len_bytes % 512 == 0,
            cluster.start_offset + cluster.len_bytes <= u64::MAX,
            capacity >= 512,
            capacity == buffer.view().len(),
            capacity == old(buffer).view().len(),
            disk.medium() == medium,
            medium == old(disk).medium(),
            total > 0,
            offset > 0 ==> cluster.start_offset + offset <= medium.len(),
            offset > 0 ==> got == medium.subrange(
                cluster.start_offset as int,
                cluster.start_offset + offset,
            ),
            offset == 0 ==> got == Seq::<u8>::empty(),
            dst@ == old(dst)@ + got,
        decreases total - offset,
    {
        let (position, len) = cluster.next_run(offset, capacity);
        proof {
            disk.lemma_seek_keeps_medium(position);
        }
        disk.seek(SeekFrom::Start(position));
        match disk.read_exact_into(len, buffer) {
            Ok(()) => {},
            Err(error) => {
                return Err(error);
            },
        }
        append_bytes(dst, buffer.slice(), len);
        offset = offset + len as u64;
        proof {
            got = medium.subrange(cluster.start_offset as int, cluster.start_offset + offset);
            assert(dst@ =~= old(dst)@ + got);
        }
    }
    Ok(())
}

/// A volume that is read through `disk`.
pub struct FileSystem<D> {
    /// The cursor on the volume.
    pub disk: D,
    /// The parameters of the volume.
    pub bpb: Bpb,
}

impl<D: Read> FileSystem<D> {
    /// Whether the parameters describe a volume.
    pub open spec fn wf(self) -> bool {
        self.bpb.valid()
    }

    /// Opens the volume on `disk`: reads the boot sector and takes the
    /// volume's parameters from it.
    ///
    /// There is no volume if the boot sector cannot be read, lacks the
    /// signature, or holds parameters that describe no volume.
    pub fn parse(disk: D) -> (r: Option<FileSystem<D>>)
        ensures
            r is Some <==> 1024 <= disk.medium().len() && Bpb::signed(
                disk.medium().subrange(0, 512),
            ) && Bpb::of(disk.medium().subrange(0, 512)).valid(),
            r is Some ==> {
                let fs = r->Some_0;
                &&& fs.wf()
                &&& fs.bpb == Bpb::of(disk.medium().subrange(0, 512))
                &&& fs.disk.medium() == disk.medium()
            },
    {
        let mut disk = disk;
        proof {
            disk.lemma_seek_keeps_medium(0);
        }
        disk.seek(SeekFrom::Start(0));
        let sector = match disk.read_exact(BOOT_SECTOR_SIZE) {
            Ok(sector) => sector,
            Err(_) => {
                return None;
            },
        };
        match Bpb::parse(sector.as_slice()) {
            Some(bpb) => Some(FileSystem { disk, bpb }),
            None => None,
        }
    }

    /// Searches the root directory for the file `name`, reading the
    /// directory through `buffer`.
    ///
    /// Where the root directory cannot be read there is no file; else the
    /// result is that of the search in the directory's bytes. On a FAT12 or
    /// FAT16 volume a buffer that was read into holds the directory's sectors
    /// at its front.
    pub fn find_file_in_root_dir<B: AlignedBuffer>(&mut self, name: &str, buffer: &mut B) -> (found:
        Option<File>)
        requires
            old(self).wf(),
        ensures
            final(self).bpb == old(self).bpb,
            final(self).disk.medium() == old(self).disk.medium(),
            final(buffer).view().len() == old(buffer).view().len(),
            ({
                let bpb = old(self).bpb;
                let medium = old(self).disk.medium();
                let before = old(buffer).view();
                let after = final(buffer).view();
                match bpb.root_directory(medium, before.len() as int) {
                    Some(directory) => {
                        &&& is_search_result(directory, name@, found)
                        &&& bpb.spec_fat_type() != FatType::Fat32 ==> after == medium.subrange(
                            bpb.root_offset(),
                            bpb.root_offset() + bpb.root_read_len(),
                        ) + before.subrange(bpb.root_read_len(), before.len() as int)
                    },
                    None => found is None && (bpb.spec_fat_type() != FatType::Fat32 ==> after
                        == before),
                }
            }),
    {
        let ghost medium = self.disk.medium();
        match self.bpb.fat_type() {
            FatType::Fat32 => {
                let capacity: usize = buffer.slice().len();
                if capacity < 512 {
                    return None;
                }
                let clusters = match self.chain_from(self.bpb.root_cluster) {
                    Ok(clusters) => clusters,
                    Err(_) => {
                        return None;
                    },
                };
                proof {
                    lemma_chain_clusters_are_aligned(
                        self.bpb,
                        medium,
                        self.bpb.root_cluster,
                        self.bpb.cluster_count() as nat,
                    );
                }
                let mut directory: Vec<u8> = Vec::new();
                match self.read_clusters(&clusters, buffer, &mut directory) {
                    Ok(()) => {},
                    Err(_) => {
                        return None;
                    },
                }
                assert(directory@ =~= chain_bytes(medium, clusters@));
                return find_in_directory(directory.as_slice(), name);
            },
            _ => {},
        }
        let capacity: usize = buffer.slice().len();
        let size: usize = self.bpb.root_directory_size();
        let read_len: u64 = self.bpb.root_directory_read_len();
        if read_len > capacity as u64 || read_len > ADDRESSABLE_LIMIT as u64 {
            return None;
        }
        let offset: u64 = self.bpb.root_directory_offset();
        proof {
            self.disk.lemma_seek_keeps_medium(offset);
        }
        self.disk.seek(SeekFrom::Start(offset));
        match self.disk.read_exact_into(read_len as usize, buffer) {
            Ok(()) => {},
            Err(_) => {
                return None;
            },
        }
        let directory = slice_subrange(buffer.slice(), 0, size);
        assert(directory@ =~= medium.subrange(
            self.bpb.root_offset(),
            self.bpb.root_offset() + self.bpb.root_size(),
        ));
        find_in_directory(directory, name)
    }

    /// The clusters of `file`, in the order of its chain.
    ///
    /// The chain is followed for as many clusters as the volume has, so a
    /// chain that runs in a circle fails instead of going on for ever.
    pub fn file_clusters(&mut self, file: &File) -> (r: Result<Vec<Cluster>, FatLookupError>)
        requires
            old(self).wf(),
        ensures
            final(self).bpb == old(self).bpb,
            final(self).disk.medium() == old(self).disk.medium(),
            match old(self).bpb.chain(
                old(self).disk.medium(),
                file.first_cluster,
                old(self).bpb.cluster_count() as nat,
            ) {
                Ok(clusters) => r is Ok && r->Ok_0@ == clusters,
                Err(error) => r == Err::<Vec<Cluster>, FatLookupError>(error),
            },
    {
        self.chain_from(file.first_cluster)
    }

    /// The clusters of the chain that starts with `first_cluster`, in the
    /// order of the chain, followed for as many clusters as the volume has.
    pub fn chain_from(&mut self, first_cluster: u32) -> (r: Result<Vec<Cluster>, FatLookupError>)
        requires
            old(self).wf(),
        ensures
            final(self).bpb == old(self).bpb,
            final(self).disk.medium() == old(self).disk.medium(),
            match old(self).bpb.chain(
                old(self).disk.medium(),
                first_cluster,
                old(self).bpb.cluster_count() as nat,
            ) {
                Ok(clusters) => r is Ok && r->Ok_0@ == clusters,
                Err(error) => r == Err::<Vec<Cluster>, FatLookupError>(error),
            },
    {
        let ghost medium = self.disk.medium();
        let ghost whole = self.bpb.chain(medium, first_cluster, self.bpb.cluster_count() as nat);
        let mut walk = Traverser::new(self.bpb, first_cluster);
        let mut clusters: Vec<Cluster> = Vec::new();
        assert(Seq::<Cluster>::empty() + walk.rest(medium)->Ok_0 =~= walk.rest(medium)->Ok_0);
        loop
            invariant
                self.bpb == old(self).bpb,
                self.bpb.valid(),
                walk.bpb == self.bpb,
                self.disk.medium() == medium,
                medium == old(self).disk.medium(),
                whole == old(self).bpb.chain(
                    medium,
                    first_cluster,
                    old(self).bpb.cluster_count() as nat,
                ),
                whole == prepend(clusters@, walk.rest(medium)),
            decreases walk.budget,
        {
            proof {
                lemma_step_unfolds_chain(walk, medium);
            }
            let ghost before = clusters@;
            match walk.next_cluster(&mut self.disk) {
                Ok(Some(cluster)) => {
                    clusters.push(cluster);
                    proof {
                        let rest = walk.rest(medium);
                        if rest is Ok {
                            assert(before + (seq![cluster] + rest->Ok_0) =~= clusters@
                                + rest->Ok_0);
                        }
                    }
                },
                Ok(None) => {
                    assert(clusters@ + Seq::<Cluster>::empty() =~= clusters@);
                    return Ok(clusters);
                },
                Err(error) => {
                    return Err(error);
                },
            }
        }
    }

    /// Appends the bytes of `clusters`, one cluster after the other, to
    /// `dst`, reading them through `buffer` in runs of whole sectors.
    ///
    /// The bytes are read if the medium holds every cluster. Else `dst`
    /// stays as it is.
    pub fn read_clusters<B: AlignedBuffer>(
        &mut self,
        clusters: &Vec<Cluster>,
        buffer: &mut B,
        dst: &mut Vec<u8>,
    ) -> (r: Result<(), ReadError>)
        requires
            old(buffer).view().len() >= 512,
            forall|k: int|
                0 <= k < clusters@.len() ==> (#[trigger] clusters@[k]).start_offset % 512 == 0
                    && clusters@[k].len_bytes % 512 == 0 && clusters@[k].len_bytes > 0
                    && clusters@[k].start_offset + clusters@[k].len_bytes <= u64::MAX,
        ensures
            final(self).bpb == old(self).bpb,
            final(self).disk.medium() == old(self).disk.medium(),
            final(buffer).view().len() == old(buffer).view().len(),
            r is Ok <==> clusters_on_medium(old(self).disk.medium(), clusters@),
            r is Ok ==> final(dst)@ == old(dst)@ + chain_bytes(old(self).disk.medium(), clusters@),
            r is Err ==> final(dst)@ == old(dst)@,
    {
        let ghost medium = self.disk.medium();
        let mut loaded: Vec<u8> = Vec::new();
        let mut i: usize = 0;
        assert(clusters@.subrange(0, 0) =~= Seq::<Cluster>::empty());
        while i < clusters.len()
            invariant
                i <= clusters@.len(),
                buffer.view().len() == old(buffer).view().len(),
                buffer.view().len() >= 512,
                self.disk.medium() == medium,
                medium == old(self).disk.medium(),
                self.bpb == old(self).bpb,
                dst@ == old(dst)@,
                forall|k: int|
                    0 <= k < clusters@.len() ==> (#[trigger] clusters@[k]).start_offset % 512
                        == 0 && clusters@[k].len_bytes % 512 == 0 && clusters@[k].len_bytes > 0
                        && clusters@[k].start_offset + clusters@[k].len_bytes <= u64::MAX,
                clusters_on_medium(medium, clusters@.subrange(0, i as int)),
                loaded@ == chain_bytes(medium, clusters@.subrange(0, i as int)),
            decreases clusters@.len() - i,
        {
            let cluster = clusters[i];
            match load_cluster(&mut self.disk, &cluster, buffer, &mut loaded) {
                Ok(()) => {},
                Err(error) => {
                    assert(!clusters_on_medium(medium, clusters@)) by {
                        assert(clusters@[i as int] == cluster);
                    }
                    return Err(error);
                },
            }
            proof {
                let done = clusters@.subrange(0, i + 1);
                assert(done.drop_last() =~= clusters@.subrange(0, i as int));
                assert(done.last() == cluster);
            }
            i += 1;
        }
        assert(clusters@.subrange(0, i as int) =~= clusters@);
        dst.append(&mut loaded);
        Ok(())
    }
}

} // verus!
