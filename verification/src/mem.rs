//! The resource pager: the index of resources, the bank images they are
//! loaded from, and the arena they are loaded into.

use crate::bytekiller::{unpack, unpacked};
use crate::bytes::{be_u32_at, get_be_u32};
use crate::video::{bitmap_image, copy_bitmap, VideoContext, VideoView};
use crate::video::soft::StateView;
use crate::{Error, Game, GameView};
use vstd::prelude::*;

verus! {

pub const STATUS_EMPTY: u8 = 0;

pub const STATUS_READY: u8 = 1;

pub const STATUS_PENDING: u8 = 2;

pub const KIND_SOUND: u8 = 0;

pub const KIND_MUSIC: u8 = 1;

pub const KIND_BITMAP: u8 = 2;

/// Size of the arena.
pub const DATA_SIZE: usize = 0x100000;

/// Where the arena's bitmap scratch area starts; everything else is loaded
/// below it.
pub const DATA_BMP_OFFSET: usize = 0xF8000;

/// Size of a record of the index.
pub const ENTRY_SIZE: usize = 20;

/// One resource of the index.
#[derive(Clone, Copy, Debug, PartialEq, Eq, Structural)]
pub struct MemEntry {
    pub status: u8,
    pub kind: u8,
    /// Where in the arena the resource was last loaded.
    pub address: usize,
    pub rank_num: u8,
    pub bank_num: u8,
    pub bank_pos: u32,
    pub packed_size: usize,
    pub unpacked_size: usize,
}

pub struct Memory {
    pub(crate) list: Vec<MemEntry>,
    pub(crate) data: Vec<u8>,
    pub(crate) banks: Vec<Vec<u8>>,
    pub(crate) data_bak: usize,
    pub(crate) data_cur: usize,
    pub(crate) seg_code: usize,
    pub(crate) seg_video_pal: usize,
    pub(crate) seg_video1: usize,
    pub(crate) seg_video2: usize,
}

/// What a `Memory` holds.
#[verifier::ext_equal]
pub struct MemoryView {
    pub list: Seq<MemEntry>,
    /// The arena.
    pub data: Seq<u8>,
    /// The bank images, by bank number.
    pub banks: Seq<Seq<u8>>,
    /// The arena's fill mark when the current part was set up.
    pub data_bak: int,
    /// The arena's fill mark: everything loaded lies below it.
    pub data_cur: int,
    pub seg_code: int,
    pub seg_video_pal: int,
    pub seg_video1: int,
    pub seg_video2: int,
}

impl View for Memory {
    type V = MemoryView;

    open(crate) spec fn view(&self) -> MemoryView {
        MemoryView {
            list: self.list@,
            data: self.data@,
            banks: Seq::new(self.banks@.len(), |i: int| self.banks@[i]@),
            data_bak: self.data_bak as int,
            data_cur: self.data_cur as int,
            seg_code: self.seg_code as int,
            seg_video_pal: self.seg_video_pal as int,
            seg_video1: self.seg_video1 as int,
            seg_video2: self.seg_video2 as int,
        }
    }
}

impl MemoryView {
    /// The arena has its size, the fill marks and the segments lie below the
    /// bitmap scratch area, and so does every address in the index.
    pub open spec fn wf(self) -> bool {
        &&& self.data.len() == DATA_SIZE
        &&& 0 <= self.data_bak <= self.data_cur <= DATA_BMP_OFFSET
        &&& 0 <= self.seg_code <= DATA_BMP_OFFSET
        &&& 0 <= self.seg_video_pal <= DATA_BMP_OFFSET
        &&& 0 <= self.seg_video1 <= DATA_BMP_OFFSET
        &&& 0 <= self.seg_video2 <= DATA_BMP_OFFSET
        &&& forall|i: int| 0 <= i < self.list.len() ==> (#[trigger] self.list[i]).address <= DATA_BMP_OFFSET
    }
}

/// The record of the index that starts at `pos`. Its address field is not
/// taken over: addresses are given out when resources are loaded.
pub open spec fn entry_at(bytes: Seq<u8>, pos: int) -> MemEntry {
    MemEntry {
        status: bytes[pos],
        kind: bytes[pos + 1],
        address: 0,
        rank_num: bytes[pos + 6],
        bank_num: bytes[pos + 7],
        bank_pos: be_u32_at(bytes, pos + 8),
        packed_size: be_u32_at(bytes, pos + 12) as usize,
        unpacked_size: be_u32_at(bytes, pos + 16) as usize,
    }
}

/// The status byte of record `i` of an index.
pub open spec fn status_at(bytes: Seq<u8>, i: int) -> u8 {
    bytes[20 * i]
}

/// Whether the index in `bytes` has `n` records before the one that ends it:
/// the first whose status byte is `0xFF`, which must be there in full.
pub open spec fn list_ends_at(bytes: Seq<u8>, n: int) -> bool {
    &&& 0 <= n
    &&& 20 * (n + 1) <= bytes.len()
    &&& status_at(bytes, n) == 0xFF
    &&& forall|i: int| 0 <= i < n ==> #[trigger] status_at(bytes, i) != 0xFF
}

/// The records of an index that has `n` of them.
pub open spec fn entries_of(bytes: Seq<u8>, n: int) -> Seq<MemEntry> {
    Seq::new(n as nat, |i: int| entry_at(bytes, 20 * i))
}

/// Reads the index: 20 bytes per record, up to the record whose status is
/// `0xFF`. Fails when the bytes run out before that record is complete.
pub fn read_entries(bytes: &[u8]) -> (res: Result<Vec<MemEntry>, Error>)
    ensures
        match res {
            Ok(entries) => exists|n: int|
                list_ends_at(bytes@, n) && entries@ == entries_of(bytes@, n),
            Err(e) => e == Error::Io && forall|n: int| !list_ends_at(bytes@, n),
        },
{
    let mut entries: Vec<MemEntry> = Vec::new();
    let mut pos: usize = 0;
    let len = bytes.len();
    loop
        invariant
            len == bytes@.len(),
            pos == 20 * entries@.len(),
            pos <= len,
            entries@ == entries_of(bytes@, entries@.len() as int),
            forall|i: int| 0 <= i < entries@.len() ==> #[trigger] status_at(bytes@, i) != 0xFF,
        decreases len - pos,
    {
        if len - pos < ENTRY_SIZE {
            assert forall|n: int| !list_ends_at(bytes@, n) by {
                if list_ends_at(bytes@, n) {
                    if n < entries@.len() {
                        assert(status_at(bytes@, n) != 0xFF);
                    }
                }
            }
            return Err(Error::Io);
        }
        let status = bytes[pos];
        if status == 0xFF {
            assert(list_ends_at(bytes@, entries@.len() as int));
            return Ok(entries);
        }
        let entry = MemEntry {
            status,
            kind: bytes[pos + 1],
            address: 0,
            rank_num: bytes[pos + 6],
            bank_num: bytes[pos + 7],
            bank_pos: get_be_u32(bytes, pos + 8),
            packed_size: get_be_u32(bytes, pos + 12) as usize,
            unpacked_size: get_be_u32(bytes, pos + 16) as usize,
        };
        entries.push(entry);
        assert(entries@ =~= entries_of(bytes@, entries@.len() as int));
        pos += ENTRY_SIZE;
    }
}

/// Lowest part number.
pub const FIRST_PART: u16 = 16000;

/// Number of parts.
pub const PART_COUNT: u16 = 10;

/// For each part the index entries of its palettes, its bytecode and its
/// two video segments; zero where a part has no second video segment.
pub open spec fn part_table() -> Seq<(u8, u8, u8, u8)> {
    seq![
        (0x14u8, 0x15u8, 0x16u8, 0x00u8),
        (0x17u8, 0x18u8, 0x19u8, 0x00u8),
        (0x1Au8, 0x1Bu8, 0x1Cu8, 0x11u8),
        (0x1Du8, 0x1Eu8, 0x1Fu8, 0x11u8),
        (0x20u8, 0x21u8, 0x22u8, 0x11u8),
        (0x23u8, 0x24u8, 0x25u8, 0x00u8),
        (0x26u8, 0x27u8, 0x28u8, 0x11u8),
        (0x29u8, 0x2Au8, 0x2Bu8, 0x11u8),
        (0x7Du8, 0x7Eu8, 0x7Fu8, 0x00u8),
        (0x7Du8, 0x7Eu8, 0x7Fu8, 0x00u8),
    ]
}

fn part_entries(index: usize) -> (row: (u8, u8, u8, u8))
    requires
        index < 10,
    ensures
        row == part_table()[index as int],
        row.0 != 0,
        row.1 != 0,
        row.2 != 0,
{
    let table: [(u8, u8, u8, u8); 10] = [
        (0x14, 0x15, 0x16, 0x00),
        (0x17, 0x18, 0x19, 0x00),
        (0x1A, 0x1B, 0x1C, 0x11),
        (0x1D, 0x1E, 0x1F, 0x11),
        (0x20, 0x21, 0x22, 0x11),
        (0x23, 0x24, 0x25, 0x00),
        (0x26, 0x27, 0x28, 0x11),
        (0x29, 0x2A, 0x2B, 0x11),
        (0x7D, 0x7E, 0x7F, 0x00),
        (0x7D, 0x7E, 0x7F, 0x00),
    ];
    assert(table@ =~= part_table());
    table[index]
}

/// Entry `i` with another status.
pub open spec fn with_status(list: Seq<MemEntry>, i: int, status: u8) -> Seq<MemEntry> {
    list.update(i, MemEntry { status, ..list[i] })
}

/// Whether entry `i` is the one to load next: it is pending, no pending
/// entry ranks higher, and of those that rank as high it is the last.
pub open spec fn is_pick(list: Seq<MemEntry>, i: int) -> bool {
    &&& 0 <= i < list.len()
    &&& list[i].status == STATUS_PENDING
    &&& forall|j: int|
        0 <= j < list.len() && (#[trigger] list[j]).status == STATUS_PENDING ==> list[j].rank_num
            <= list[i].rank_num
    &&& forall|j: int|
        i < j < list.len() && (#[trigger] list[j]).status == STATUS_PENDING ==> list[j].rank_num
            < list[i].rank_num
}

/// The entry to load next, if any is pending.
pub open spec fn pick(list: Seq<MemEntry>) -> Option<int> {
    if exists|i: int| is_pick(list, i) {
        Some(choose|i: int| is_pick(list, i))
    } else {
        None
    }
}

/// Only one entry is the one to load next.
pub proof fn lemma_pick_unique(list: Seq<MemEntry>, i: int, j: int)
    requires
        is_pick(list, i),
        is_pick(list, j),
    ensures
        i == j,
{
    if i < j {
        assert(list[j].rank_num < list[i].rank_num);
        assert(list[i].rank_num <= list[j].rank_num);
    } else if j < i {
        assert(list[i].rank_num < list[j].rank_num);
        assert(list[j].rank_num <= list[i].rank_num);
    }
}

/// The arena after the packed bytes of `e` were read to `address` from its
/// bank and, where the sizes differ, unpacked where they lie.
pub open spec fn bank_read(
    data: Seq<u8>,
    banks: Seq<Seq<u8>>,
    e: MemEntry,
    address: int,
) -> Result<Seq<u8>, Error> {
    if e.bank_num >= banks.len() || e.bank_pos + e.packed_size > banks[e.bank_num as int].len() {
        Err(Error::Io)
    } else {
        let raw = data.subrange(0, address) + banks[e.bank_num as int].subrange(
            e.bank_pos as int,
            e.bank_pos + e.packed_size,
        ) + data.subrange(address + e.packed_size, data.len() as int);
        if e.packed_size == e.unpacked_size {
            Ok(raw)
        } else {
            match unpacked(raw.subrange(address, address + e.unpacked_size), e.packed_size as int) {
                Some(out) => Ok(
                    raw.subrange(0, address) + out + raw.subrange(
                        address + e.unpacked_size,
                        raw.len() as int,
                    ),
                ),
                None => Err(Error::Corrupt),
            }
        }
    }
}

/// Page 0 after the planar image `mem` was put on it.
pub open spec fn with_bitmap(v: VideoView, mem: Seq<u8>) -> VideoView {
    VideoView {
        rndr: StateView {
            fb: bitmap_image(mem) + v.rndr.fb.subrange(64000, 256000),
            ..v.rndr
        },
        ..v
    }
}

/// Loads the pending entry `i`.
///
/// A bitmap goes to the scratch area, from there to page 0, and its entry
/// is empty again. Anything else goes to the fill mark, which moves up
/// behind it, and its entry is ready. An entry of bank 0 is not loaded and
/// is empty again.
pub open spec fn loaded_one(m: MemoryView, v: VideoView, i: int) -> Result<
    (MemoryView, VideoView),
    Error,
> {
    let e = m.list[i];
    let bitmap = e.kind == KIND_BITMAP;
    let address = if bitmap {
        DATA_BMP_OFFSET as int
    } else {
        m.data_cur
    };
    if !bitmap && e.unpacked_size > DATA_BMP_OFFSET - m.data_cur {
        Err(Error::OutOfArena)
    } else if e.bank_num == 0 {
        Ok((MemoryView { list: with_status(m.list, i, STATUS_EMPTY), ..m }, v))
    } else if e.packed_size > DATA_SIZE - address || e.unpacked_size > DATA_SIZE - address {
        Err(Error::OutOfArena)
    } else {
        match bank_read(m.data, m.banks, e, address) {
            Err(err) => Err(err),
            Ok(data) => if bitmap {
                Ok(
                    (
                        MemoryView { data, list: with_status(m.list, i, STATUS_EMPTY), ..m },
                        with_bitmap(v, data.subrange(DATA_BMP_OFFSET as int, DATA_SIZE as int)),
                    ),
                )
            } else {
                Ok(
                    (
                        MemoryView {
                            data,
                            list: m.list.update(
                                i,
                                MemEntry { status: STATUS_READY, address: address as usize, ..e },
                            ),
                            data_cur: m.data_cur + e.unpacked_size,
                            ..m
                        },
                        v,
                    ),
                )
            },
        }
    }
}

/// Loads pending entries, the highest rank first, until none is left or `n`
/// were loaded.
pub open spec fn load_pending(m: MemoryView, v: VideoView, n: nat) -> Result<
    (MemoryView, VideoView),
    Error,
>
    decreases n,
{
    if n == 0 {
        Ok((m, v))
    } else {
        match pick(m.list) {
            None => Ok((m, v)),
            Some(i) => match loaded_one(m, v, i) {
                Err(e) => Err(e),
                Ok((m1, v1)) => load_pending(m1, v1, (n - 1) as nat),
            },
        }
    }
}

/// Loads the pending entries.
pub open spec fn loaded(m: MemoryView, v: VideoView) -> Result<(MemoryView, VideoView), Error> {
    load_pending(m, v, m.list.len())
}

/// Whether no entry is pending.
pub open spec fn none_pending(list: Seq<MemEntry>) -> bool {
    forall|i: int| 0 <= i < list.len() ==> (#[trigger] list[i]).status != STATUS_PENDING
}

/// Number of pending entries.
pub open spec fn pending_count(list: Seq<MemEntry>) -> nat
    decreases list.len(),
{
    if list.len() == 0 {
        0
    } else {
        pending_count(list.drop_last()) + if list.last().status == STATUS_PENDING {
            1nat
        } else {
            0nat
        }
    }
}

proof fn lemma_pending_count_bounds(list: Seq<MemEntry>)
    ensures
        pending_count(list) <= list.len(),
        pending_count(list) == 0 ==> none_pending(list),
    decreases list.len(),
{
    if list.len() > 0 {
        lemma_pending_count_bounds(list.drop_last());
        if pending_count(list) == 0 {
            assert forall|i: int| 0 <= i < list.len() implies (#[trigger] list[i]).status
                != STATUS_PENDING by {
                if i < list.len() - 1 {
                    assert(list.drop_last()[i] == list[i]);
                }
            }
        }
    }
}

proof fn lemma_pending_count_drops(list: Seq<MemEntry>, i: int, e: MemEntry)
    requires
        0 <= i < list.len(),
        list[i].status == STATUS_PENDING,
        e.status != STATUS_PENDING,
    ensures
        pending_count(list.update(i, e)) + 1 == pending_count(list),
    decreases list.len(),
{
    let after = list.update(i, e);
    if i == list.len() - 1 {
        assert(after.drop_last() =~= list.drop_last());
    } else {
        lemma_pending_count_drops(list.drop_last(), i, e);
        assert(after.drop_last() =~= list.drop_last().update(i, e));
    }
}

/// Whether entry `b` would be the one to load next if the index ended
/// after `n` entries.
spec fn is_pick_in(list: Seq<MemEntry>, n: int, b: int) -> bool {
    &&& 0 <= b < n
    &&& list[b].status == STATUS_PENDING
    &&& forall|j: int|
        0 <= j < n && (#[trigger] list[j]).status == STATUS_PENDING ==> list[j].rank_num
            <= list[b].rank_num
    &&& forall|j: int|
        b < j < n && (#[trigger] list[j]).status == STATUS_PENDING ==> list[j].rank_num
            < list[b].rank_num
}

proof fn lemma_pick_in_exists(list: Seq<MemEntry>, n: int) -> (b: int)
    requires
        0 <= n <= list.len(),
        exists|i: int| 0 <= i < n && (#[trigger] list[i]).status == STATUS_PENDING,
    ensures
        is_pick_in(list, n, b),
    decreases n,
{
    let last = n - 1;
    if exists|i: int| 0 <= i < last && (#[trigger] list[i]).status == STATUS_PENDING {
        let prev = lemma_pick_in_exists(list, last);
        if list[last].status == STATUS_PENDING && list[last].rank_num >= list[prev].rank_num {
            last
        } else {
            prev
        }
    } else {
        let i = choose|i: int| 0 <= i < n && (#[trigger] list[i]).status == STATUS_PENDING;
        assert(i == last);
        last
    }
}

/// As long as an entry is pending there is one to load next.
pub proof fn lemma_no_pick_none_pending(list: Seq<MemEntry>)
    requires
        pick(list) is None,
    ensures
        none_pending(list),
{
    if exists|i: int| 0 <= i < list.len() && (#[trigger] list[i]).status == STATUS_PENDING {
        let b = lemma_pick_in_exists(list, list.len() as int);
        assert(is_pick(list, b));
    }
}

proof fn lemma_load_pending(m: MemoryView, v: VideoView, n: nat)
    requires
        pending_count(m.list) <= n,
        load_pending(m, v, n) is Ok,
    ensures
        none_pending(load_pending(m, v, n)->Ok_0.0.list),
        load_pending(m, v, n)->Ok_0.0.list.len() == m.list.len(),
        load_pending(m, v, n)->Ok_0.0.data_cur >= m.data_cur,
        load_pending(m, v, n)->Ok_0.0.data_bak == m.data_bak,
        load_pending(m, v, n)->Ok_0.0.banks == m.banks,
    decreases n,
{
    if n == 0 {
        lemma_pending_count_bounds(m.list);
    } else {
        match pick(m.list) {
            None => {
                lemma_no_pick_none_pending(m.list);
            },
            Some(i) => {
                assert(is_pick(m.list, i));
                let (m1, v1) = loaded_one(m, v, i)->Ok_0;
                lemma_pending_count_drops(m.list, i, m1.list[i]);
                assert(m1.list =~= m.list.update(i, m1.list[i]));
                lemma_load_pending(m1, v1, (n - 1) as nat);
            },
        }
    }
}

/// Loading leaves no entry pending, never lowers the fill mark and leaves
/// the part's mark alone.
pub proof fn lemma_loaded_all(m: MemoryView, v: VideoView)
    requires
        loaded(m, v) is Ok,
    ensures
        none_pending(loaded(m, v)->Ok_0.0.list),
        loaded(m, v)->Ok_0.0.list.len() == m.list.len(),
        loaded(m, v)->Ok_0.0.data_cur >= m.data_cur,
        loaded(m, v)->Ok_0.0.data_bak == m.data_bak,
        loaded(m, v)->Ok_0.0.banks == m.banks,
{
    lemma_pending_count_bounds(m.list);
    lemma_load_pending(m, v, m.list.len());
}

/// Whether the index has the entries that a part's row names.
pub open spec fn row_in_list(row: (u8, u8, u8, u8), len: int) -> bool {
    row.0 < len && row.1 < len && row.2 < len && row.3 < len
}

/// The index with every entry empty but those of the row, which are pending.
pub open spec fn part_marked(list: Seq<MemEntry>, row: (u8, u8, u8, u8)) -> Seq<MemEntry> {
    Seq::new(
        list.len(),
        |i: int|
            MemEntry {
                status: if i != 0 && (i == row.0 || i == row.1 || i == row.2 || i == row.3) {
                    STATUS_PENDING
                } else {
                    STATUS_EMPTY
                },
                ..list[i]
            },
    )
}

/// The machine after part `part_id` was set up.
///
/// For a part other than the current one, everything loaded is dropped, the
/// part's entries are loaded and the segments point at them; a second video
/// segment that the part lacks is left as it was. In any case the fill mark
/// is noted as the part's.
pub open spec fn part_set_up(g: GameView, part_id: u16) -> Result<GameView, Error> {
    if g.current_part == part_id {
        Ok(GameView { mem: MemoryView { data_bak: g.mem.data_cur, ..g.mem }, ..g })
    } else if !(FIRST_PART <= part_id < FIRST_PART + PART_COUNT) {
        Err(Error::Corrupt)
    } else {
        let row = part_table()[part_id - FIRST_PART];
        if !row_in_list(row, g.mem.list.len() as int) {
            Err(Error::Corrupt)
        } else {
            let m0 = MemoryView {
                list: part_marked(g.mem.list, row),
                data_cur: 0,
                data_bak: 0,
                ..g.mem
            };
            match loaded(m0, g.video) {
                Err(e) => Err(e),
                Ok((m1, v1)) => Ok(
                    GameView {
                        mem: MemoryView {
                            seg_video_pal: m1.list[row.0 as int].address as int,
                            seg_code: m1.list[row.1 as int].address as int,
                            seg_video1: m1.list[row.2 as int].address as int,
                            seg_video2: if row.3 != 0 {
                                m1.list[row.3 as int].address as int
                            } else {
                                m1.seg_video2
                            },
                            data_bak: m1.data_cur,
                            ..m1
                        },
                        video: v1,
                        current_part: part_id,
                        ..g
                    },
                ),
            }
        }
    }
}

/// The index after resources were invalidated: only the kinds 3 to 6, which
/// make up a part, stay as they are.
pub open spec fn invalidated(list: Seq<MemEntry>) -> Seq<MemEntry> {
    Seq::new(
        list.len(),
        |i: int|
            if list[i].kind <= 2 || list[i].kind > 6 {
                MemEntry { status: STATUS_EMPTY, ..list[i] }
            } else {
                list[i]
            },
    )
}

/// The machine after entry `num` was asked for: loaded, with whatever else
/// is pending, if it was empty.
pub open spec fn entry_loaded(g: GameView, num: u16) -> Result<GameView, Error> {
    if num >= g.mem.list.len() {
        Err(Error::Corrupt)
    } else if g.mem.list[num as int].status != STATUS_EMPTY {
        Ok(g)
    } else {
        match loaded(
            MemoryView { list: with_status(g.mem.list, num as int, STATUS_PENDING), ..g.mem },
            g.video,
        ) {
            Err(e) => Err(e),
            Ok((m1, v1)) => Ok(GameView { mem: m1, video: v1, ..g }),
        }
    }
}

/// The address of entry `num` if it is ready.
pub open spec fn ready_address(m: MemoryView, num: u16) -> Option<usize> {
    if num < m.list.len() && m.list[num as int].status == STATUS_READY {
        Some(m.list[num as int].address)
    } else {
        None
    }
}

/// The address of entry `num` if it is ready and of kind `kind`.
pub open spec fn ready_address_of_kind(m: MemoryView, num: u16, kind: u8) -> Option<usize> {
    if num < m.list.len() && m.list[num as int].status == STATUS_READY && m.list[num as int].kind
        == kind {
        Some(m.list[num as int].address)
    } else {
        None
    }
}

impl Memory {
    pub open spec fn wf(&self) -> bool {
        self@.wf()
    }

    /// A pager over the index in `memlist` and the bank images `banks`,
    /// where `banks[n]` is the content of bank `n`. Nothing is loaded.
    pub fn new(memlist: &[u8], banks: Vec<Vec<u8>>) -> (res: Result<Self, Error>)
        ensures
            match res {
                Ok(m) => {
                    &&& m.wf()
                    &&& exists|n: int|
                        list_ends_at(memlist@, n) && m@.list == entries_of(memlist@, n)
                    &&& m@.data == Seq::new(DATA_SIZE as nat, |i: int| 0u8)
                    &&& m@.banks == Seq::new(banks@.len(), |i: int| banks@[i]@)
                    &&& m@.data_bak == 0
                    &&& m@.data_cur == 0
                    &&& m@.seg_code == 0
                    &&& m@.seg_video_pal == 0
                    &&& m@.seg_video1 == 0
                    &&& m@.seg_video2 == 0
                },
                Err(e) => e == Error::Io && forall|n: int| !list_ends_at(memlist@, n),
            },
    {
        let list = read_entries(memlist)?;
        let data = vec![0u8; DATA_SIZE];
        assert(data@ =~= Seq::new(DATA_SIZE as nat, |i: int| 0u8));
        Ok(
            Memory {
                list,
                data,
                banks,
                data_bak: 0,
                data_cur: 0,
                seg_code: 0,
                seg_video_pal: 0,
                seg_video1: 0,
                seg_video2: 0,
            },
        )
    }

    pub fn seg_code(&self) -> (a: usize)
        ensures
            a == self@.seg_code,
    {
        self.seg_code
    }

    pub fn seg_video_pal(&self) -> (a: usize)
        ensures
            a == self@.seg_video_pal,
    {
        self.seg_video_pal
    }

    pub fn seg_video1(&self) -> (a: usize)
        ensures
            a == self@.seg_video1,
    {
        self.seg_video1
    }

    pub fn seg_video2(&self) -> (a: usize)
        ensures
            a == self@.seg_video2,
    {
        self.seg_video2
    }

    /// The arena's fill mark.
    pub fn data_cur(&self) -> (a: usize)
        ensures
            a == self@.data_cur,
    {
        self.data_cur
    }

    /// The arena's fill mark when the current part was set up.
    pub fn data_bak(&self) -> (a: usize)
        ensures
            a == self@.data_bak,
    {
        self.data_bak
    }

    /// The arena.
    pub fn data(&self) -> (d: &[u8])
        ensures
            d@ == self@.data,
    {
        self.data.as_slice()
    }

    /// Number of entries in the index.
    pub fn entry_count(&self) -> (n: usize)
        ensures
            n == self@.list.len(),
    {
        self.list.len()
    }

    /// Entry `i` of the index.
    pub fn entry(&self, i: usize) -> (e: MemEntry)
        requires
            i < self@.list.len(),
        ensures
            e == self@.list[i as int],
    {
        self.list[i]
    }
}

/// Reads the packed bytes of `entry` from its bank to `address` and unpacks
/// them there if need be.
#[verifier::rlimit(40)]
fn read_bank(m: &mut Memory, entry: MemEntry, address: usize) -> (res: Result<(), Error>)
    requires
        old(m).wf(),
        address <= DATA_SIZE,
        entry.packed_size <= DATA_SIZE - address,
        entry.unpacked_size <= DATA_SIZE - address,
    ensures
        final(m)@.data.len() == DATA_SIZE,
        match res {
            Ok(()) => bank_read(old(m)@.data, old(m)@.banks, entry, address as int) == Ok::<
                Seq<u8>,
                Error,
            >(final(m)@.data),
            Err(e) => bank_read(old(m)@.data, old(m)@.banks, entry, address as int) == Err::<
                Seq<u8>,
                Error,
            >(e),
        },
        final(m)@ == (MemoryView { data: final(m)@.data, ..old(m)@ }),
{
    let bank = entry.bank_num as usize;
    if bank >= m.banks.len() {
        return Err(Error::Io);
    }
    let bank_len = m.banks[bank].len();
    let pos = entry.bank_pos as usize;
    if pos > bank_len || entry.packed_size > bank_len - pos {
        return Err(Error::Io);
    }
    let ghost bank_bytes = m.banks@[bank as int]@;
    let mut i: usize = 0;
    while i < entry.packed_size
        invariant
            i <= entry.packed_size,
            address + entry.packed_size <= DATA_SIZE,
            m@ == (MemoryView { data: m@.data, ..old(m)@ }),
            m.data@.len() == DATA_SIZE,
            bank < m.banks@.len(),
            m.banks@[bank as int]@ == bank_bytes,
            pos + entry.packed_size <= bank_bytes.len(),
            bank_bytes.len() == bank_len,
            forall|k: int|
                0 <= k < DATA_SIZE ==> m.data@[k] == if address <= k < address + i {
                    bank_bytes[pos + (k - address)]
                } else {
                    old(m)@.data[k]
                },
        decreases entry.packed_size - i,
    {
        let b = m.banks[bank][pos + i];
        m.data[address + i] = b;
        i += 1;
    }
    let ghost raw = m.data@;
    assert(raw =~= old(m)@.data.subrange(0, address as int) + bank_bytes.subrange(
        pos as int,
        pos + entry.packed_size,
    ) + old(m)@.data.subrange(address + entry.packed_size, DATA_SIZE as int));
    if entry.packed_size != entry.unpacked_size {
        let mut tmp: Vec<u8> = Vec::new();
        let mut k: usize = 0;
        while k < entry.unpacked_size
            invariant
                k <= entry.unpacked_size,
                address + entry.unpacked_size <= DATA_SIZE,
                m.data@ == raw,
                raw.len() == DATA_SIZE,
                tmp@ == raw.subrange(address as int, address + k),
            decreases entry.unpacked_size - k,
        {
            tmp.push(m.data[address + k]);
            assert(tmp@ =~= raw.subrange(address as int, address + k + 1));
            k += 1;
        }
        match unpack(tmp.as_mut_slice(), entry.packed_size) {
            Err(_) => {
                return Err(Error::Corrupt);
            },
            Ok(()) => {},
        }
        let mut k: usize = 0;
        while k < entry.unpacked_size
            invariant
                k <= entry.unpacked_size,
                address + entry.unpacked_size <= DATA_SIZE,
                tmp@.len() == entry.unpacked_size,
                m@ == (MemoryView { data: m@.data, ..old(m)@ }),
                m.data@.len() == DATA_SIZE,
                forall|j: int|
                    0 <= j < DATA_SIZE ==> m.data@[j] == if address <= j < address + k {
                        tmp@[j - address]
                    } else {
                        raw[j]
                    },
            decreases entry.unpacked_size - k,
        {
            m.data[address + k] = tmp[k];
            k += 1;
        }
        assert(m.data@ =~= raw.subrange(0, address as int) + tmp@ + raw.subrange(
            address + entry.unpacked_size,
            raw.len() as int,
        ));
    }
    Ok(())
}

/// Finds the entry to load next.
fn pick_pending(list: &Vec<MemEntry>) -> (res: Option<usize>)
    ensures
        match res {
            Some(i) => pick(list@) == Some(i as int) && is_pick(list@, i as int),
            None => pick(list@) is None,
        },
{
    let mut best: Option<usize> = None;
    let mut i: usize = 0;
    while i < list.len()
        invariant
            i <= list@.len(),
            match best {
                Some(b) => {
                    &&& b < i
                    &&& list@[b as int].status == STATUS_PENDING
                    &&& forall|j: int|
                        0 <= j < i && (#[trigger] list@[j]).status == STATUS_PENDING
                            ==> list@[j].rank_num <= list@[b as int].rank_num
                    &&& forall|j: int|
                        b < j < i && (#[trigger] list@[j]).status == STATUS_PENDING
                            ==> list@[j].rank_num < list@[b as int].rank_num
                },
                None => forall|j: int| 0 <= j < i ==> (#[trigger] list@[j]).status != STATUS_PENDING,
            },
        decreases list@.len() - i,
    {
        if list[i].status == STATUS_PENDING {
            match best {
                Some(b) => {
                    if list[i].rank_num >= list[b].rank_num {
                        best = Some(i);
                    }
                },
                None => {
                    best = Some(i);
                },
            }
        }
        i += 1;
    }
    proof {
        match best {
            Some(b) => {
                assert(is_pick(list@, b as int));
                lemma_pick_unique(list@, b as int, choose|k: int| is_pick(list@, k));
            },
            None => {
                assert forall|k: int| !is_pick(list@, k) by {
                    if is_pick(list@, k) {
                        assert(list@[k].status != STATUS_PENDING);
                    }
                }
            },
        }
    }
    best
}

/// Loads the pending entry `i`.
#[verifier::rlimit(40)]
fn load_one(m: &mut Memory, v: &mut VideoContext, i: usize) -> (res: Result<(), Error>)
    requires
        old(m).wf(),
        old(v).wf(),
        i < old(m)@.list.len(),
    ensures
        final(m).wf(),
        final(v).wf(),
        final(m)@.list.len() == old(m)@.list.len(),
        match res {
            Ok(()) => loaded_one(old(m)@, old(v)@, i as int) == Ok::<
                (MemoryView, VideoView),
                Error,
            >((final(m)@, final(v)@)),
            Err(e) => loaded_one(old(m)@, old(v)@, i as int) == Err::<
                (MemoryView, VideoView),
                Error,
            >(e),
        },
{
    let entry = m.list[i];
    let bitmap = entry.kind == KIND_BITMAP;
    let address = if bitmap {
        DATA_BMP_OFFSET
    } else {
        if entry.unpacked_size > DATA_BMP_OFFSET - m.data_cur {
            return Err(Error::OutOfArena);
        }
        m.data_cur
    };
    if entry.bank_num == 0 {
        m.list[i].status = STATUS_EMPTY;
        assert(m@.list =~= with_status(old(m)@.list, i as int, STATUS_EMPTY));
        return Ok(());
    }
    if entry.packed_size > DATA_SIZE - address || entry.unpacked_size > DATA_SIZE - address {
        return Err(Error::OutOfArena);
    }
    read_bank(m, entry, address)?;
    if bitmap {
        copy_bitmap(v, vstd::slice::slice_subrange(m.data.as_slice(), DATA_BMP_OFFSET, DATA_SIZE));
        m.list[i].status = STATUS_EMPTY;
        assert(m@.list =~= with_status(old(m)@.list, i as int, STATUS_EMPTY));
    } else {
        m.list[i].address = address;
        m.list[i].status = STATUS_READY;
        m.data_cur = m.data_cur + entry.unpacked_size;
        assert(m@.list =~= old(m)@.list.update(
            i as int,
            MemEntry { status: STATUS_READY, address, ..entry },
        ));
    }
    Ok(())
}

/// Loads the pending entries, the highest rank first.
#[verifier::rlimit(40)]
fn load_entries(m: &mut Memory, v: &mut VideoContext) -> (res: Result<(), Error>)
    requires
        old(m).wf(),
        old(v).wf(),
    ensures
        final(m).wf(),
        final(v).wf(),
        final(m)@.list.len() == old(m)@.list.len(),
        match res {
            Ok(()) => loaded(old(m)@, old(v)@) == Ok::<(MemoryView, VideoView), Error>(
                (final(m)@, final(v)@),
            ),
            Err(e) => loaded(old(m)@, old(v)@) == Err::<(MemoryView, VideoView), Error>(e),
        },
        res is Ok ==> none_pending(final(m)@.list) && final(m)@.data_cur >= old(m)@.data_cur
            && final(m)@.data_bak == old(m)@.data_bak,
{
    proof {
        if loaded(old(m)@, old(v)@) is Ok {
            lemma_loaded_all(old(m)@, old(v)@);
        }
    }
    let mut left = m.list.len();
    while left > 0
        invariant
            m.wf(),
            v.wf(),
            m@.list.len() == old(m)@.list.len(),
            load_pending(m@, v@, left as nat) == loaded(old(m)@, old(v)@),
            loaded(old(m)@, old(v)@) is Ok ==> {
                let after = loaded(old(m)@, old(v)@)->Ok_0.0;
                none_pending(after.list) && after.data_cur >= old(m)@.data_cur && after.data_bak
                    == old(m)@.data_bak
            },
        decreases left,
    {
        let Some(i) = pick_pending(&m.list) else {
            return Ok(());
        };
        load_one(m, v, i)?;
        left -= 1;
    }
    Ok(())
}

/// Sets up part `part_id`.
#[verifier::rlimit(40)]
pub fn setup_part(g: &mut Game, part_id: u16) -> (res: Result<(), Error>)
    requires
        old(g).wf(),
    ensures
        final(g).wf(),
        match res {
            Ok(()) => part_set_up(old(g)@, part_id) == Ok::<GameView, Error>(final(g)@),
            Err(e) => part_set_up(old(g)@, part_id) == Err::<GameView, Error>(e),
        },
        res is Ok ==> final(g)@.mem.data_bak == final(g)@.mem.data_cur && final(g)@.mem.seg_code
            < DATA_SIZE && final(g)@.mem.seg_video_pal < DATA_SIZE && final(g)@.mem.seg_video1
            < DATA_SIZE,
        res is Ok && old(g)@.current_part != part_id ==> none_pending(final(g)@.mem.list),
{
    if g.current_part != part_id {
        if part_id < FIRST_PART || part_id >= FIRST_PART + PART_COUNT {
            return Err(Error::Corrupt);
        }
        let (ipal, icod, ivd1, ivd2) = part_entries((part_id - FIRST_PART) as usize);
        let len = g.mem.list.len();
        if ipal as usize >= len || icod as usize >= len || ivd1 as usize >= len || ivd2 as usize
            >= len {
            return Err(Error::Corrupt);
        }
        let mut i: usize = 0;
        while i < len
            invariant
                i <= len,
                len == g.mem.list@.len(),
                g@ == (GameView { mem: MemoryView { list: g@.mem.list, ..old(g)@.mem }, ..old(g)@ }),
                g.mem.list@.len() == old(g)@.mem.list.len(),
                forall|k: int|
                    0 <= k < len ==> g.mem.list@[k] == if k < i {
                        MemEntry { status: STATUS_EMPTY, ..old(g)@.mem.list[k] }
                    } else {
                        old(g)@.mem.list[k]
                    },
            decreases len - i,
        {
            g.mem.list[i].status = STATUS_EMPTY;
            i += 1;
        }
        g.mem.data_cur = 0;
        g.mem.data_bak = 0;
        g.mem.list[ipal as usize].status = STATUS_PENDING;
        g.mem.list[icod as usize].status = STATUS_PENDING;
        g.mem.list[ivd1 as usize].status = STATUS_PENDING;
        if ivd2 != 0 {
            g.mem.list[ivd2 as usize].status = STATUS_PENDING;
        }
        assert(g.mem.list@ =~= part_marked(old(g)@.mem.list, (ipal, icod, ivd1, ivd2)));
        let ghost m0 = MemoryView {
            list: part_marked(old(g)@.mem.list, (ipal, icod, ivd1, ivd2)),
            data_cur: 0,
            data_bak: 0,
            ..old(g)@.mem
        };
        assert(g.mem@ =~= m0);
        load_entries(&mut g.mem, &mut g.video)?;
        g.mem.seg_video_pal = address_of_entry(&g.mem, ipal);
        g.mem.seg_code = address_of_entry(&g.mem, icod);
        g.mem.seg_video1 = address_of_entry(&g.mem, ivd1);
        if ivd2 != 0 {
            g.mem.seg_video2 = address_of_entry(&g.mem, ivd2);
        }
        g.current_part = part_id;
    }
    g.mem.data_bak = g.mem.data_cur;
    Ok(())
}

/// The address of entry `index`.
pub fn address_of_entry(m: &Memory, index: u8) -> (a: usize)
    requires
        index < m@.list.len(),
    ensures
        a == m@.list[index as int].address,
{
    m.list[index as usize].address
}

/// The address of entry `num` if it is ready.
pub fn address_of_ready_entry(m: &Memory, num: u16) -> (a: Option<usize>)
    ensures
        a == ready_address(m@, num),
{
    let i = num as usize;
    if i < m.list.len() && m.list[i].status == STATUS_READY {
        Some(m.list[i].address)
    } else {
        None
    }
}

/// The address of entry `num` if it is ready and of kind `kind`.
pub fn address_of_entry_with_kind(m: &Memory, num: u16, kind: u8) -> (a: Option<usize>)
    ensures
        a == ready_address_of_kind(m@, num, kind),
{
    let i = num as usize;
    if i < m.list.len() && m.list[i].status == STATUS_READY && m.list[i].kind == kind {
        Some(m.list[i].address)
    } else {
        None
    }
}

/// Drops what was loaded since the part was set up.
pub fn invalidate_res(m: &mut Memory)
    requires
        old(m).wf(),
    ensures
        final(m).wf(),
        final(m)@ == (MemoryView {
            list: invalidated(old(m)@.list),
            data_cur: old(m)@.data_bak,
            ..old(m)@
        }),
{
    m.data_cur = m.data_bak;
    let len = m.list.len();
    let mut i: usize = 0;
    while i < len
        invariant
            i <= len,
            len == m.list@.len(),
            m.list@.len() == old(m)@.list.len(),
            m@ == (MemoryView { list: m@.list, data_cur: old(m)@.data_bak, ..old(m)@ }),
            forall|k: int|
                0 <= k < len ==> m.list@[k] == if k < i {
                    invalidated(old(m)@.list)[k]
                } else {
                    old(m)@.list[k]
                },
        decreases len - i,
    {
        if m.list[i].kind <= 2 || m.list[i].kind > 6 {
            m.list[i].status = STATUS_EMPTY;
        }
        i += 1;
    }
    assert(m@.list =~= invalidated(old(m)@.list));
}

/// Loads entry `num`, with whatever else is pending, if it is empty.
pub fn load_entry(g: &mut Game, num: u16) -> (res: Result<(), Error>)
    requires
        old(g).wf(),
    ensures
        final(g).wf(),
        match res {
            Ok(()) => entry_loaded(old(g)@, num) == Ok::<GameView, Error>(final(g)@),
            Err(e) => entry_loaded(old(g)@, num) == Err::<GameView, Error>(e),
        },
        res is Ok ==> final(g)@.mem.data_cur >= old(g)@.mem.data_cur && final(g)@.mem.data_bak
            == old(g)@.mem.data_bak,
{
    let i = num as usize;
    if i >= g.mem.list.len() {
        return Err(Error::Corrupt);
    }
    if g.mem.list[i].status == STATUS_EMPTY {
        g.mem.list[i].status = STATUS_PENDING;
        assert(g.mem@.list =~= with_status(old(g)@.mem.list, num as int, STATUS_PENDING));
        load_entries(&mut g.mem, &mut g.video)?;
    }
    Ok(())
}

} // verus!
