//! Free space left on the filesystem that holds the capture root, as shown
//! on each stats line.
use vstd::prelude::*;

verus! {

/// Space figures of one mounted filesystem, in bytes.
#[derive(Debug, Clone)]
pub struct MountSpace {
    pub mounted_on: String,
    pub avail: u64,
    pub total: u64,
}

/// Whole percent of `total` that `avail` is, held at 255; zero when the
/// total is zero, as for a filesystem whose size could not be read.
pub open spec fn free_percent_spec(avail: u64, total: u64) -> u8 {
    if total == 0 {
        0
    } else if avail * 100 / (total as int) > 255 {
        255
    } else {
        (avail * 100 / (total as int)) as u8
    }
}

/// Free percentage of the first filesystem in `mounts` mounted on `root`,
/// or zero when none is.
pub open spec fn disk_free_spec(mounts: Seq<MountSpace>, root: Seq<char>) -> u8
    decreases mounts.len(),
{
    if mounts.len() == 0 {
        0
    } else if mounts[0].mounted_on@ == root {
        free_percent_spec(mounts[0].avail, mounts[0].total)
    } else {
        disk_free_spec(mounts.drop_first(), root)
    }
}

pub fn free_percent(avail: u64, total: u64) -> (r: u8)
    ensures
        r == free_percent_spec(avail, total),
{
    if total == 0 {
        return 0;
    }
    let pct: u128 = (avail as u128) * 100 / (total as u128);
    if pct > 255 {
        255
    } else {
        pct as u8
    }
}

/// Free percentage of the filesystem mounted on `root`; zero when no
/// filesystem in `mounts` is mounted there.
pub fn disk_free_percent(mounts: &Vec<MountSpace>, root: &String) -> (r: u8)
    ensures
        r == disk_free_spec(mounts@, root@),
{
    let mut i: usize = 0;
    assert(mounts@.subrange(0, mounts@.len() as int) =~= mounts@);
    while i < mounts.len()
        invariant
            i <= mounts@.len(),
            disk_free_spec(mounts@.subrange(i as int, mounts@.len() as int), root@)
                == disk_free_spec(mounts@, root@),
        decreases mounts@.len() - i,
    {
        let m = &mounts[i];
        let ghost rest = mounts@.subrange(i as int, mounts@.len() as int);
        assert(rest[0] == mounts@[i as int]);
        if m.mounted_on == *root {
            return free_percent(m.avail, m.total);
        }
        assert(rest.drop_first() =~= mounts@.subrange(i + 1, mounts@.len() as int));
        i += 1;
    }
    0
}

} // verus!
