//! A byte cursor over a device that only transfers whole sectors.
//!
//! The adapter keeps a logical offset and, for a transfer of any length at
//! that offset, names the smallest run of whole sectors that holds the
//! bytes asked for: the window. Its caller owns the device. For a read it
//! reads the window into a staging buffer and lets [`SectorAlignedIO::read`]
//! pick the bytes asked for. For a write it reads the window, lets
//! [`SectorAlignedIO::stage`] lay the new bytes over the staged ones, writes
//! the window back where it came from, makes it durable, and reports that
//! with [`SectorAlignedIO::written`].
//!
//! The end of the device is noted once, when the adapter is made, and never
//! again: a seek relative to the end goes by that value even if the device
//! has grown or shrunk since.

use vstd::prelude::*;
use vstd::arithmetic::div_mod::{
    lemma_fundamental_div_mod,
    lemma_fundamental_div_mod_converse,
    lemma_mod_add_multiples_vanish,
    lemma_mod_bound,
    lemma_mod_decreases,
    lemma_mod_multiples_basic,
    lemma_small_mod,
    lemma_sub_mod_noop,
};
use vstd::arithmetic::mul::lemma_mul_is_commutative;

verus! {

/// Where a seek moves the cursor.
#[derive(Debug, Clone, Copy, PartialEq, Eq, Structural)]
pub enum Position {
    /// To this offset.
    Start(u64),
    /// To the end of the device, as noted when the adapter was made, plus
    /// this many bytes.
    End(i64),
    /// To the offset the cursor has now plus this many bytes.
    Current(i64),
}

/// The run of whole sectors that one transfer reads or writes.
#[derive(Debug, Clone, Copy, PartialEq, Eq, Structural)]
pub struct Window {
    /// Offset on the device of the first byte of the window.
    pub start: u64,
    /// Bytes of the window that lie before the first byte asked for.
    pub slop_start: usize,
    /// Bytes of the window that lie after the last byte asked for.
    pub slop_end: usize,
    /// Bytes in the window: both slops and the length asked for.
    pub size: usize,
}

/// The adapter as the contracts see it.
pub struct Cursor {
    /// The logical offset.
    pub offset: u64,
    /// The sector size, fixed when the adapter is made.
    pub sector_size: usize,
    /// The end of the device, noted when the adapter is made.
    pub end: u64,
}

/// Bytes between the sector boundary at or below `offset` and `offset`.
pub open spec fn slop_before(offset: int, sector: int) -> int {
    offset % sector
}

/// Bytes between `end` and the sector boundary at or above it: none where
/// `end` is on a boundary.
pub open spec fn slop_after(end: int, sector: int) -> int {
    if end % sector == 0 {
        0
    } else {
        sector - end % sector
    }
}

/// Where the window of a transfer at `offset` starts.
pub open spec fn window_start(offset: int, sector: int) -> int {
    offset - slop_before(offset, sector)
}

/// Where the window of a transfer of `len` bytes at `offset` ends.
pub open spec fn window_end(offset: int, len: int, sector: int) -> int {
    offset + len + slop_after(offset + len, sector)
}

/// The target of a seek, brought into the range of offsets: below zero it
/// is zero, above the largest offset it is the largest offset.
pub open spec fn clamped(target: int) -> u64 {
    if target < 0 {
        0
    } else if target > u64::MAX {
        u64::MAX
    } else {
        target as u64
    }
}

/// `base` with `patch` laid over it from index `at` on.
pub open spec fn overlay(base: Seq<u8>, at: int, patch: Seq<u8>) -> Seq<u8> {
    Seq::new(
        base.len(),
        |i: int|
            if at <= i < at + patch.len() {
                patch[i - at]
            } else {
                base[i]
            },
    )
}

impl Cursor {
    /// The cursor after a seek to `position`.
    pub open spec fn moved(self, position: Position) -> Cursor {
        Cursor {
            offset: match position {
                Position::Start(offset) => offset,
                Position::End(delta) => clamped(self.end + delta),
                Position::Current(delta) => clamped(self.offset + delta),
            },
            ..self
        }
    }

    /// Whether a transfer of `len` bytes at the cursor can be planned: the
    /// sector size is not zero, the transfer ends at an offset that exists,
    /// and its window is no larger than a buffer can be.
    pub open spec fn can_transfer(self, len: int) -> bool {
        &&& self.sector_size > 0
        &&& self.offset + len <= u64::MAX
        &&& window_end(self.offset as int, len, self.sector_size as int) - window_start(
            self.offset as int,
            self.sector_size as int,
        ) <= usize::MAX
    }

    /// The window of a transfer of `len` bytes at the cursor.
    pub open spec fn window(self, len: int) -> Window {
        let start = window_start(self.offset as int, self.sector_size as int);
        let end = window_end(self.offset as int, len, self.sector_size as int);
        Window {
            start: start as u64,
            slop_start: slop_before(self.offset as int, self.sector_size as int) as usize,
            slop_end: slop_after(self.offset + len, self.sector_size as int) as usize,
            size: (end - start) as usize,
        }
    }

    /// The cursor after a transfer of `len` bytes.
    pub open spec fn advanced(self, len: int) -> Cursor {
        Cursor { offset: (self.offset + len) as u64, ..self }
    }

    /// What a read of `len` bytes at the cursor gives on `device`: the
    /// window is read, and the bytes asked for are picked from it.
    pub open spec fn read_from(self, device: Seq<u8>, len: int) -> Seq<u8> {
        let window = self.window(len);
        let staging = device.subrange(window.start as int, window.start + window.size);
        staging.subrange(window.slop_start as int, window.slop_start + len)
    }

    /// What a write of `data` at the cursor makes of `device`: the window
    /// is read, `data` is laid over the staged bytes, and the window is
    /// written back where it was read.
    pub open spec fn written_to(self, device: Seq<u8>, data: Seq<u8>) -> Seq<u8> {
        let window = self.window(data.len() as int);
        let staging = device.subrange(window.start as int, window.start + window.size);
        overlay(device, window.start as int, overlay(staging, window.slop_start as int, data))
    }
}

/// The cursor of the sector-aligned adapter. The device itself stays with
/// the caller.
pub struct SectorAlignedIO {
    off: u64,
    sector_size: usize,
    end_off: u64,
}

impl View for SectorAlignedIO {
    type V = Cursor;

    closed spec fn view(&self) -> Cursor {
        Cursor { offset: self.off, sector_size: self.sector_size, end: self.end_off }
    }
}

impl SectorAlignedIO {
    /// An adapter at offset 0 for a device of sectors of `sector_size`
    /// bytes that ends at `end_off`, the offset that a seek to the end of
    /// the device gave.
    pub fn new(sector_size: usize, end_off: u64) -> (io: SectorAlignedIO)
        ensures
            io@ == (Cursor { offset: 0, sector_size, end: end_off }),
    {
        SectorAlignedIO { off: 0, sector_size, end_off }
    }

    /// The logical offset.
    pub fn offset(&self) -> (offset: u64)
        ensures
            offset == self@.offset,
    {
        self.off
    }

    /// The sector size.
    pub fn sector_size(&self) -> (sector_size: usize)
        ensures
            sector_size == self@.sector_size,
    {
        self.sector_size
    }

    /// The end of the device, as noted when the adapter was made.
    pub fn end_offset(&self) -> (end: u64)
        ensures
            end == self@.end,
    {
        self.end_off
    }

    /// Moves the cursor and returns the new offset.
    pub fn seek(&mut self, position: Position) -> (offset: u64)
        ensures
            final(self)@ == old(self)@.moved(position),
            offset == final(self)@.offset,
    {
        let offset = match position {
            Position::Start(offset) => offset,
            Position::End(delta) => shifted(self.end_off, delta),
            Position::Current(delta) => shifted(self.off, delta),
        };
        self.off = offset;
        offset
    }

    /// Tells whether a transfer of `len` bytes at the cursor can be
    /// planned.
    pub fn fits(&self, len: usize) -> (fits: bool)
        ensures
            fits == self@.can_transfer(len as int),
    {
        if self.sector_size == 0 {
            return false;
        }
        let sector = self.sector_size as u64;
        let end = match self.off.checked_add(len as u64) {
            Some(end) => end,
            None => {
                return false;
            },
        };
        let slop_start = (self.off % sector) as usize;
        let slop_end = slop_to_boundary(end, self.sector_size);
        match len.checked_add(slop_start) {
            Some(sum) => sum.checked_add(slop_end).is_some(),
            None => false,
        }
    }

    /// Plans a transfer of `len` bytes at the cursor: the window that the
    /// device has to read, and for a write to write back.
    pub fn window(&self, len: usize) -> (window: Window)
        requires
            self@.can_transfer(len as int),
        ensures
            window == self@.window(len as int),
    {
        let sector = self.sector_size as u64;
        let end = self.off + len as u64;
        let slop_start = (self.off % sector) as usize;
        let slop_end = slop_to_boundary(end, self.sector_size);
        proof {
            lemma_mod_decreases(self.off as nat, sector as nat);
        }
        Window {
            start: self.off - slop_start as u64,
            slop_start,
            slop_end,
            size: len + slop_start + slop_end,
        }
    }

    /// Completes a read: picks the bytes asked for out of `staging`, the
    /// window as the device gave it, into `buf`, and moves the cursor past
    /// them. The length asked for is that of `buf`. Returns that length.
    pub fn read(&mut self, staging: &[u8], buf: &mut [u8]) -> (count: usize)
        requires
            old(self)@.can_transfer(old(buf)@.len() as int),
            staging@.len() == old(self)@.window(old(buf)@.len() as int).size,
        ensures
            count == old(buf)@.len(),
            final(buf)@ == staging@.subrange(
                old(self)@.window(count as int).slop_start as int,
                old(self)@.window(count as int).slop_start + count,
            ),
            final(self)@ == old(self)@.advanced(count as int),
    {
        let len = buf.len();
        let window = self.window(len);
        let mut i: usize = 0;
        while i < len
            invariant
                i <= len == buf@.len(),
                window.slop_start + len <= window.size == staging@.len(),
                forall|j: int| 0 <= j < i ==> buf@[j] == staging@[window.slop_start + j],
            decreases len - i,
        {
            buf[i] = staging[window.slop_start + i];
            i += 1;
        }
        assert(buf@ =~= staging@.subrange(
            window.slop_start as int,
            window.slop_start + len,
        ));
        self.off = self.off + len as u64;
        len
    }

    /// Prepares a write: lays `data` over `staging`, the window as the
    /// device gave it, where the bytes to write lie in the window. What
    /// `staging` then holds is what the device has to take at the window's
    /// start. The cursor stays where it is.
    pub fn stage(&self, staging: &mut [u8], data: &[u8])
        requires
            self@.can_transfer(data@.len() as int),
            old(staging)@.len() == self@.window(data@.len() as int).size,
        ensures
            final(staging)@ == overlay(
                old(staging)@,
                self@.window(data@.len() as int).slop_start as int,
                data@,
            ),
    {
        let len = data.len();
        let window = self.window(len);
        let mut i: usize = 0;
        while i < len
            invariant
                i <= len == data@.len(),
                window.slop_start + len <= window.size == staging@.len() == old(staging)@.len(),
                forall|j: int|
                    0 <= j < staging@.len() ==> staging@[j] == if window.slop_start <= j
                        < window.slop_start + i {
                        data@[j - window.slop_start]
                    } else {
                        old(staging)@[j]
                    },
            decreases len - i,
        {
            staging[window.slop_start + i] = data[i];
            i += 1;
        }
        assert(staging@ =~= overlay(old(staging)@, window.slop_start as int, data@));
    }

    /// Completes a write of `len` bytes: the staged window has reached the
    /// device and is durable there, so the cursor moves past the bytes
    /// written. Returns `len`, the number of bytes accepted.
    pub fn written(&mut self, len: usize) -> (count: usize)
        requires
            old(self)@.offset + len <= u64::MAX,
        ensures
            count == len,
            final(self)@ == old(self)@.advanced(len as int),
    {
        self.off = self.off + len as u64;
        len
    }

    /// Does nothing: every write is durable before it is reported as
    /// written.
    pub fn flush(&mut self)
        ensures
            final(self)@ == old(self)@,
    {
    }
}

/// Whether `x` lies on a sector boundary.
pub open spec fn aligned(x: int, sector: int) -> bool {
    x % sector == 0
}

/// Rounding `x` down to a sector boundary gives the start of the sector
/// that holds byte `x`.
proof fn lemma_round_down(x: int, sector: int)
    requires
        0 <= x,
        0 < sector,
    ensures
        x - x % sector == (x / sector) * sector,
        aligned(x - x % sector, sector),
        0 <= x % sector < sector,
        0 <= x - x % sector,
{
    lemma_fundamental_div_mod(x, sector);
    lemma_mod_bound(x, sector);
    lemma_mod_decreases(x as nat, sector as nat);
    lemma_mul_is_commutative(sector, x / sector);
    lemma_mod_multiples_basic(x / sector, sector);
}

/// A sector boundary above another is at least one sector above it.
proof fn lemma_boundaries_are_a_sector_apart(low: int, high: int, sector: int)
    requires
        0 < sector,
        aligned(low, sector),
        aligned(high, sector),
        low < high,
    ensures
        low + sector <= high,
{
    if high - low < sector {
        lemma_sub_mod_noop(high, low, sector);
        lemma_small_mod((high - low) as nat, sector as nat);
        lemma_small_mod(0, sector as nat);
    }
}

/// The window of a transfer starts and ends on sector boundaries and holds
/// every byte asked for.
pub proof fn lemma_window_is_aligned_and_covers(offset: int, len: int, sector: int)
    requires
        0 <= offset,
        0 <= len,
        0 < sector,
    ensures
        aligned(window_start(offset, sector), sector),
        aligned(window_end(offset, len, sector), sector),
        0 <= window_start(offset, sector) <= offset,
        offset + len <= window_end(offset, len, sector),
        0 <= slop_before(offset, sector) < sector,
        0 <= slop_after(offset + len, sector) < sector,
{
    let end = offset + len;
    lemma_round_down(offset, sector);
    lemma_round_down(end, sector);
    if end % sector != 0 {
        lemma_mod_add_multiples_vanish(end - end % sector, sector);
    }
}

/// The window is the smallest run of whole sectors that holds every byte
/// asked for: any other starts no later and ends no earlier.
pub proof fn lemma_window_is_smallest(offset: int, len: int, sector: int, start: int, end: int)
    requires
        0 <= offset,
        0 <= len,
        0 < sector,
        aligned(start, sector),
        aligned(end, sector),
        start <= offset,
        offset + len <= end,
    ensures
        start <= window_start(offset, sector),
        window_end(offset, len, sector) <= end,
{
    lemma_window_is_aligned_and_covers(offset, len, sector);
    if window_start(offset, sector) < start {
        lemma_boundaries_are_a_sector_apart(window_start(offset, sector), start, sector);
    }
    if end < window_end(offset, len, sector) {
        lemma_boundaries_are_a_sector_apart(end, window_end(offset, len, sector), sector);
    }
}

/// A transfer of at least one byte touches the sectors from the one that
/// holds its first byte to the one that holds its last byte, and no other:
/// its window starts where the first of them starts and ends where the
/// last of them ends.
pub proof fn lemma_window_is_the_sectors_touched(offset: int, len: int, sector: int)
    requires
        0 <= offset,
        0 < len,
        0 < sector,
    ensures
        window_start(offset, sector) == (offset / sector) * sector,
        window_end(offset, len, sector) == ((offset + len - 1) / sector + 1) * sector,
        window_end(offset, len, sector) - window_start(offset, sector) == ((offset + len - 1)
            / sector - offset / sector + 1) * sector,
{
    let end = offset + len;
    let first = offset / sector;
    let last = (end - 1) / sector;
    lemma_round_down(offset, sector);
    lemma_round_down(end, sector);
    lemma_fundamental_div_mod(end, sector);
    let q = end / sector;
    if end % sector == 0 {
        assert(end - 1 == (q - 1) * sector + (sector - 1)) by (nonlinear_arith)
            requires
                end == sector * q,
        ;
        lemma_fundamental_div_mod_converse(end - 1, sector, q - 1, sector - 1);
    } else {
        assert(end - 1 == q * sector + (end % sector - 1)) by (nonlinear_arith)
            requires
                end == sector * q + end % sector,
        ;
        lemma_fundamental_div_mod_converse(end - 1, sector, q, end % sector - 1);
        assert(end + (sector - end % sector) == (q + 1) * sector) by (nonlinear_arith)
            requires
                end == sector * q + end % sector,
        ;
    }
    assert((last + 1) * sector - first * sector == (last - first + 1) * sector)
        by (nonlinear_arith);
}

/// Under the sector-aligned read-modify-write, a write puts `data` where
/// it was asked to and changes no other byte of the device: not in the
/// sectors it touches, and not elsewhere.
pub proof fn lemma_write_changes_the_range_only(cursor: Cursor, device: Seq<u8>, data: Seq<u8>)
    requires
        cursor.can_transfer(data.len() as int),
        cursor.window(data.len() as int).start + cursor.window(data.len() as int).size
            <= device.len(),
    ensures
        cursor.written_to(device, data) == overlay(device, cursor.offset as int, data),
        cursor.written_to(device, data).len() == device.len(),
        forall|i: int|
            0 <= i < device.len() && !(cursor.offset <= i < cursor.offset + data.len())
                ==> cursor.written_to(device, data)[i] == device[i],
        forall|i: int|
            0 <= i < data.len() ==> cursor.written_to(device, data)[cursor.offset + i] == data[i],
{
    lemma_window_is_aligned_and_covers(
        cursor.offset as int,
        data.len() as int,
        cursor.sector_size as int,
    );
    assert(cursor.written_to(device, data) =~= overlay(device, cursor.offset as int, data));
}

/// Under the sector-aligned read, a read gives the bytes of the device
/// from the cursor on, as many as were asked for.
pub proof fn lemma_read_gives_the_range(cursor: Cursor, device: Seq<u8>, len: int)
    requires
        0 <= len,
        cursor.can_transfer(len),
        cursor.window(len).start + cursor.window(len).size <= device.len(),
    ensures
        cursor.read_from(device, len) == device.subrange(
            cursor.offset as int,
            cursor.offset + len,
        ),
{
    lemma_window_is_aligned_and_covers(cursor.offset as int, len, cursor.sector_size as int);
    assert(cursor.read_from(device, len) =~= device.subrange(
        cursor.offset as int,
        cursor.offset + len,
    ));
}

/// A write followed by a read of the same length at the same offset gives
/// back exactly what was written, wherever the range lies relative to the
/// sector boundaries.
pub proof fn lemma_read_after_write(cursor: Cursor, device: Seq<u8>, data: Seq<u8>)
    requires
        cursor.can_transfer(data.len() as int),
        cursor.window(data.len() as int).start + cursor.window(data.len() as int).size
            <= device.len(),
    ensures
        cursor.read_from(cursor.written_to(device, data), data.len() as int) == data,
{
    let after = cursor.written_to(device, data);
    lemma_window_is_aligned_and_covers(
        cursor.offset as int,
        data.len() as int,
        cursor.sector_size as int,
    );
    lemma_write_changes_the_range_only(cursor, device, data);
    lemma_read_gives_the_range(cursor, after, data.len() as int);
    assert(after.subrange(cursor.offset as int, cursor.offset + data.len()) =~= data);
}

/// Bytes from `end` up to the sector boundary at or above it.
fn slop_to_boundary(end: u64, sector_size: usize) -> (slop: usize)
    requires
        sector_size > 0,
    ensures
        slop == slop_after(end as int, sector_size as int),
{
    let rest = (end % (sector_size as u64)) as usize;
    if rest == 0 {
        0
    } else {
        sector_size - rest
    }
}

/// `base` moved by `delta`, kept within the range of offsets.
fn shifted(base: u64, delta: i64) -> (offset: u64)
    ensures
        offset == clamped(base + delta),
{
    match base.checked_add_signed(delta) {
        Some(offset) => offset,
        None => if delta < 0 {
            0
        } else {
            u64::MAX
        },
    }
}

} // verus!
