use vstd::prelude::*;

verus! {

/// A Windows (NTFS) file time: hundreds of nanoseconds since
/// 1601-01-01 00:00:00 UTC.
#[derive(Debug, Default, Clone, Copy, PartialEq, Eq, Structural, PartialOrd, Ord, Hash)]
pub struct FileTime(u64);

/// Seconds from the NTFS epoch (1601) to the UNIX epoch (1970).
pub const NTFS_UNIX_EPOCH_SECS: u64 = 11_644_473_600;

impl FileTime {
    /// The number of hundreds of nanoseconds since the NTFS epoch.
    pub closed spec fn spec_raw(self) -> u64 {
        self.0
    }

    /// The file time with the given raw NTFS value.
    #[inline]
    pub fn from_raw(ntfs: u64) -> (t: Self)
        ensures
            t.spec_raw() == ntfs,
    {
        FileTime(ntfs)
    }

    /// The raw NTFS value.
    pub fn raw(self) -> (r: u64)
        ensures
            r == self.spec_raw(),
    {
        self.0
    }

    /// The file time of an instant `secs` seconds and `subsec_nanos`
    /// nanoseconds after the NTFS epoch, truncated to hundreds of
    /// nanoseconds. Instants whose nanosecond count does not fit in 64
    /// bits are left out.
    pub fn from_ntfs_duration(secs: u64, subsec_nanos: u32) -> (t: Self)
        requires
            secs * 1_000_000_000 + subsec_nanos <= u64::MAX,
        ensures
            t.spec_raw() == (secs * 1_000_000_000 + subsec_nanos) / 100,
    {
        let nanos = secs * 1_000_000_000 + subsec_nanos as u64;
        if nanos == 0 {
            return FileTime(0);
        }
        FileTime(nanos / 100)
    }

    /// The number of nanoseconds since the NTFS epoch. Times whose
    /// nanosecond count does not fit in 64 bits are left out.
    pub fn ntfs_nanos(self) -> (n: u64)
        requires
            self.spec_raw() * 100 <= u64::MAX,
        ensures
            n == self.spec_raw() * 100,
    {
        self.0 * 100
    }
}

impl From<u64> for FileTime {
    fn from(value: u64) -> (t: Self)
        ensures
            t.spec_raw() == value,
    {
        Self::from_raw(value)
    }
}

impl vstd::std_specs::convert::FromSpecImpl<u64> for FileTime {
    open spec fn obeys_from_spec() -> bool {
        true
    }

    closed spec fn from_spec(value: u64) -> Self {
        FileTime(value)
    }
}

impl From<i64> for FileTime {
    #[inline]
    fn from(value: i64) -> (t: Self)
        ensures
            t.spec_raw() == value as u64,
    {
        Self::from_raw(value as u64)
    }
}

impl vstd::std_specs::convert::FromSpecImpl<i64> for FileTime {
    open spec fn obeys_from_spec() -> bool {
        true
    }

    closed spec fn from_spec(value: i64) -> Self {
        FileTime(value as u64)
    }
}

impl From<FileTime> for u64 {
    fn from(t: FileTime) -> (r: u64)
        ensures
            r == t.spec_raw(),
    {
        t.0
    }
}

impl vstd::std_specs::convert::FromSpecImpl<FileTime> for u64 {
    open spec fn obeys_from_spec() -> bool {
        true
    }

    closed spec fn from_spec(t: FileTime) -> u64 {
        t.0
    }
}

/// Turning an instant into a file time and back loses less than 100
/// nanoseconds and never moves it later: the file time of an instant `x`
/// nanoseconds after the NTFS epoch stands for a count of nanoseconds in
/// `(x - 100, x]`.
pub proof fn lemma_file_time_truncates(secs: u64, subsec_nanos: u32, t: FileTime)
    requires
        secs * 1_000_000_000 + subsec_nanos <= u64::MAX,
        t.spec_raw() == (secs * 1_000_000_000 + subsec_nanos) / 100,
    ensures
        t.spec_raw() * 100 <= secs * 1_000_000_000 + subsec_nanos,
        secs * 1_000_000_000 + subsec_nanos < t.spec_raw() * 100 + 100,
        t.spec_raw() * 100 <= u64::MAX,
{
    let x: int = secs * 1_000_000_000 + subsec_nanos;
    assert(x == (x / 100) * 100 + x % 100) by (nonlinear_arith);
}

} // verus!
