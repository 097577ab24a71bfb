//! Loading a file of the boot volume into memory.

use crate::disk_access::{AlignedBuffer, Read};
use crate::fat::bpb::Bpb;
use crate::fat::chain::lemma_chain_clusters_are_aligned;
use crate::fat::directory::search;
use crate::fat::table::FatLookupError;
use crate::fat::volume::{chain_bytes, clusters_on_medium, FileSystem};
use vstd::prelude::*;

verus! {

/// Why a file was not loaded.
#[derive(Clone, Copy, Debug, PartialEq, Eq, Structural)]
pub enum LoadError {
    /// The buffer cannot hold a sector.
    BufferTooSmall,
    /// The root directory cannot be read or holds no such file.
    NotFound,
    /// The file's chain cannot be followed.
    Chain(FatLookupError),
    /// A cluster of the file is not on the medium.
    Device,
}

/// What loading the file `name` from the volume on `medium` gives, with a
/// buffer of `capacity` bytes: the file's size and the bytes of its
/// clusters, or the reason why there are none.
pub open spec fn load_outcome(bpb: Bpb, medium: Seq<u8>, name: Seq<char>, capacity: int) -> Result<
    (u64, Seq<u8>),
    LoadError,
> {
    if capacity < 512 {
        Err(LoadError::BufferTooSmall)
    } else {
        match bpb.root_directory(medium, capacity) {
            None => Err(LoadError::NotFound),
            Some(directory) => match search(directory, name) {
                None => Err(LoadError::NotFound),
                Some((first_cluster, file_size)) => match bpb.chain(
                    medium,
                    first_cluster,
                    bpb.cluster_count() as nat,
                ) {
                    Err(error) => Err(LoadError::Chain(error)),
                    Ok(clusters) => if clusters_on_medium(medium, clusters) {
                        Ok((file_size as u64, chain_bytes(medium, clusters)))
                    } else {
                        Err(LoadError::Device)
                    },
                },
            },
        }
    }
}

/// Loads the file `file_name` from the root directory of `fs`: appends the
/// bytes of the file's clusters, which are whole clusters and so may be more
/// than the file's size, to `dst`, and returns the file's size.
///
/// The root directory and then each run of sectors are read into
/// `disk_buffer`. Where the file cannot be loaded, `dst` stays as it is.
pub fn try_load_file<D: Read, B: AlignedBuffer>(
    file_name: &str,
    dst: &mut Vec<u8>,
    fs: &mut FileSystem<D>,
    disk_buffer: &mut B,
) -> (r: Result<u64, LoadError>)
    requires
        old(fs).wf(),
    ensures
        final(fs).bpb == old(fs).bpb,
        final(fs).disk.medium() == old(fs).disk.medium(),
        final(disk_buffer).view().len() == old(disk_buffer).view().len(),
        match load_outcome(
            old(fs).bpb,
            old(fs).disk.medium(),
            file_name@,
            old(disk_buffer).view().len() as int,
        ) {
            Ok((size, bytes)) => r == Ok::<u64, LoadError>(size) && final(dst)@ == old(dst)@
                + bytes,
            Err(error) => r == Err::<u64, LoadError>(error) && final(dst)@ == old(dst)@,
        },
{
    let ghost medium = fs.disk.medium();
    let capacity: usize = disk_buffer.slice().len();
    if capacity < 512 {
        return Err(LoadError::BufferTooSmall);
    }
    let file = match fs.find_file_in_root_dir(file_name, disk_buffer) {
        Some(file) => file,
        None => {
            return Err(LoadError::NotFound);
        },
    };
    let clusters = match fs.file_clusters(&file) {
        Ok(clusters) => clusters,
        Err(error) => {
            return Err(LoadError::Chain(error));
        },
    };
    proof {
        lemma_chain_clusters_are_aligned(
            fs.bpb,
            medium,
            file.first_cluster,
            fs.bpb.cluster_count() as nat,
        );
    }
    match fs.read_clusters(&clusters, disk_buffer, dst) {
        Ok(()) => Ok(file.file_size() as u64),
        Err(_) => Err(LoadError::Device),
    }
}

/// Loads the file `file_name`, which has to be one that can be loaded, as
/// `try_load_file` does, and returns its size.
pub fn load_file<D: Read, B: AlignedBuffer>(
    file_name: &str,
    dst: &mut Vec<u8>,
    fs: &mut FileSystem<D>,
    disk_buffer: &mut B,
) -> (size: u64)
    requires
        old(fs).wf(),
        load_outcome(
            old(fs).bpb,
            old(fs).disk.medium(),
            file_name@,
            old(disk_buffer).view().len() as int,
        ) is Ok,
    ensures
        final(fs).bpb == old(fs).bpb,
        final(fs).disk.medium() == old(fs).disk.medium(),
        final(disk_buffer).view().len() == old(disk_buffer).view().len(),
        ({
            let outcome = load_outcome(
                old(fs).bpb,
                old(fs).disk.medium(),
                file_name@,
                old(disk_buffer).view().len() as int,
            )->Ok_0;
            size == outcome.0 && final(dst)@ == old(dst)@ + outcome.1
        }),
{
    match try_load_file(file_name, dst, fs, disk_buffer) {
        Ok(size) => size,
        Err(_) => 0,
    }
}

} // verus!
