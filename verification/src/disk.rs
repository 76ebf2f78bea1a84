//! Whether the disk of the output directory has room for the result.

use vstd::prelude::*;
use vstd::utf8::encode_utf8;

use crate::paths::{lies_under, starts_with};

verus! {

/// A mounted disk and the bytes that are free on it.
#[derive(Debug, PartialEq, Eq)]
pub struct DiskInfo {
    pub mount_point: String,
    pub available: u64,
}

/// The answer to whether the output fits: the free bytes where the disk of the
/// output directory is known.
#[derive(Debug, PartialEq, Eq)]
pub struct DiskCheck {
    pub ok: bool,
    pub free_bytes: Option<u64>,
    pub required_bytes: u64,
}

/// The length of a mount point in bytes.
pub open spec fn mount_len(disk: DiskInfo) -> usize {
    encode_utf8(disk.mount_point@).len() as usize
}

/// The disk at `i` holds the directory and is mounted deepest of those that
/// do; of several mounted equally deep it is the last.
pub open spec fn deepest(disks: Seq<DiskInfo>, holds: Seq<bool>, i: int) -> bool {
    &&& 0 <= i < disks.len()
    &&& holds[i]
    &&& forall|j: int|
        0 <= j < disks.len() && #[trigger] holds[j] ==> mount_len(disks[j]) < mount_len(disks[i])
            || (mount_len(disks[j]) == mount_len(disks[i]) && j <= i)
}

/// The answer to a disk check, where `holds` says which disks hold the output
/// directory: the free bytes are those of the deepest such disk, and the
/// output fits unless they are known to be too few.
pub open spec fn disk_answer(
    disks: Seq<DiskInfo>,
    holds: Seq<bool>,
    required_bytes: u64,
    r: DiskCheck,
) -> bool {
    &&& r.required_bytes == required_bytes
    &&& match r.free_bytes {
        Some(free) => {
            &&& exists|i: int| #[trigger] deepest(disks, holds, i) && disks[i].available == free
            &&& r.ok == (free >= required_bytes)
        },
        None => {
            &&& forall|i: int| 0 <= i < disks.len() ==> !#[trigger] holds[i]
            &&& r.ok
        },
    }
}

/// Answers a disk check from the disks and from whether each holds the output
/// directory.
pub fn judge_disks(disks: &Vec<DiskInfo>, holds: &Vec<bool>, required_bytes: u64) -> (r: DiskCheck)
    requires
        holds@.len() == disks@.len(),
    ensures
        disk_answer(disks@, holds@, required_bytes, r),
{
    let mut best: Option<usize> = None;
    let mut i: usize = 0;
    while i < disks.len()
        invariant
            i <= disks.len(),
            holds@.len() == disks@.len(),
            match best {
                Some(b) => {
                    &&& b < i
                    &&& holds@[b as int]
                    &&& forall|j: int|
                        0 <= j < i && #[trigger] holds@[j] ==> mount_len(disks@[j]) < mount_len(
                            disks@[b as int],
                        ) || (mount_len(disks@[j]) == mount_len(disks@[b as int]) && j <= b)
                },
                None => forall|j: int| 0 <= j < i ==> !#[trigger] holds@[j],
            },
        decreases disks.len() - i,
    {
        if holds[i] {
            match best {
                Some(b) => {
                    if disks[i].mount_point.as_str().len() >= disks[b].mount_point.as_str().len() {
                        best = Some(i);
                    }
                },
                None => {
                    best = Some(i);
                },
            }
        }
        i += 1;
    }
    match best {
        Some(b) => {
            assert(deepest(disks@, holds@, b as int));
            let free: u64 = disks[b].available;
            DiskCheck { ok: free >= required_bytes, free_bytes: Some(free), required_bytes }
        },
        None => DiskCheck { ok: true, free_bytes: None, required_bytes },
    }
}

/// Checks whether the disk of a directory has the required room.
pub fn disk_check(output_dir: &str, disks: &Vec<DiskInfo>, required_bytes: u64) -> (r: DiskCheck)
    ensures
        exists|holds: Seq<bool>|
            {
                &&& holds.len() == disks@.len()
                &&& forall|i: int|
                    0 <= i < disks@.len() ==> lies_under(
                        output_dir@,
                        disks@[i].mount_point@,
                        #[trigger] holds[i],
                    )
                &&& #[trigger] disk_answer(disks@, holds, required_bytes, r)
            },
{
    let mut holds: Vec<bool> = Vec::new();
    let mut i: usize = 0;
    while i < disks.len()
        invariant
            i <= disks.len(),
            holds@.len() == i,
            forall|j: int|
                0 <= j < i ==> lies_under(
                    output_dir@,
                    disks@[j].mount_point@,
                    #[trigger] holds@[j],
                ),
        decreases disks.len() - i,
    {
        holds.push(starts_with(output_dir, disks[i].mount_point.as_str()));
        i += 1;
    }
    judge_disks(disks, &holds, required_bytes)
}

// ---------------------------------------------------------------------------
// Laws
// ---------------------------------------------------------------------------

/// At most one disk is the deepest, so an answer is settled by the disks and
/// by which of them hold the directory.
pub proof fn the_answer_is_settled(
    disks: Seq<DiskInfo>,
    holds: Seq<bool>,
    required_bytes: u64,
    one: DiskCheck,
    other: DiskCheck,
)
    requires
        holds.len() == disks.len(),
        disk_answer(disks, holds, required_bytes, one),
        disk_answer(disks, holds, required_bytes, other),
    ensures
        one == other,
{
    if one.free_bytes is Some {
        let i = choose|i: int| #[trigger]
            deepest(disks, holds, i) && disks[i].available == one.free_bytes.unwrap();
        assert(holds[i]);
        if other.free_bytes is Some {
            let j = choose|j: int| #[trigger]
                deepest(disks, holds, j) && disks[j].available == other.free_bytes.unwrap();
            assert(holds[j]);
            assert(i == j);
        }
    } else if other.free_bytes is Some {
        let j = choose|j: int| #[trigger]
            deepest(disks, holds, j) && disks[j].available == other.free_bytes.unwrap();
        assert(holds[j]);
    }
}

/// An output that needs no more than another fits wherever the other does.
pub proof fn a_smaller_output_fits_too(
    disks: Seq<DiskInfo>,
    holds: Seq<bool>,
    small: u64,
    large: u64,
    for_small: DiskCheck,
    for_large: DiskCheck,
)
    requires
        holds.len() == disks.len(),
        small <= large,
        disk_answer(disks, holds, small, for_small),
        disk_answer(disks, holds, large, for_large),
        for_large.ok,
    ensures
        for_small.ok,
        for_small.free_bytes == for_large.free_bytes,
{
    let large_answer = DiskCheck {
        ok: match for_small.free_bytes {
            Some(free) => free >= large,
            None => true,
        },
        free_bytes: for_small.free_bytes,
        required_bytes: large,
    };
    if for_small.free_bytes is Some {
        let i = choose|i: int| #[trigger]
            deepest(disks, holds, i) && disks[i].available == for_small.free_bytes.unwrap();
        assert(deepest(disks, holds, i) && disks[i].available
            == large_answer.free_bytes.unwrap());
    }
    assert(disk_answer(disks, holds, large, large_answer));
    the_answer_is_settled(disks, holds, large, for_large, large_answer);
}

/// What a disk check answers, where disk `i` holds the output directory and no
/// disk that does has a longer mount point, nor an equally long one behind it:
/// the room on that disk, and whether it is enough.
pub proof fn the_room_is_that_of_the_deepest_disk(
    disks: Seq<DiskInfo>,
    holds: Seq<bool>,
    required_bytes: u64,
    r: DiskCheck,
    i: int,
)
    requires
        holds.len() == disks.len(),
        disk_answer(disks, holds, required_bytes, r),
        0 <= i < disks.len(),
        holds[i],
        forall|j: int|
            0 <= j < disks.len() && #[trigger] holds[j] ==> ({
                let there = encode_utf8(disks[j].mount_point@).len() as usize;
                let here = encode_utf8(disks[i].mount_point@).len() as usize;
                there < here || (there == here && j <= i)
            }),
    ensures
        r.free_bytes == Some(disks[i].available),
        r.ok <==> disks[i].available >= required_bytes,
        r.required_bytes == required_bytes,
{
    if r.free_bytes is Some {
        let k = choose|k: int| #[trigger]
            deepest(disks, holds, k) && disks[k].available == r.free_bytes.unwrap();
        assert(holds[k]);
        assert(k == i);
    }
}

/// Where no disk holds the output directory, the room is not known, and the
/// output is taken to fit.
pub proof fn an_unknown_disk_has_room(
    disks: Seq<DiskInfo>,
    holds: Seq<bool>,
    required_bytes: u64,
    r: DiskCheck,
)
    requires
        holds.len() == disks.len(),
        disk_answer(disks, holds, required_bytes, r),
        forall|j: int| 0 <= j < disks.len() ==> !#[trigger] holds[j],
    ensures
        r.free_bytes is None,
        r.ok,
        r.required_bytes == required_bytes,
{
    if r.free_bytes is Some {
        let k = choose|k: int| #[trigger]
            deepest(disks, holds, k) && disks[k].available == r.free_bytes.unwrap();
        assert(holds[k]);
    }
}

} // verus!
