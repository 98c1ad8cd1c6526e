use another_world::data::{Tables, Text};
use another_world::host::HostCommand;
use another_world::mem::{
    address_of_entry, address_of_entry_with_kind, address_of_ready_entry, load_entry,
    read_entries, setup_part, Memory, DATA_BMP_OFFSET, KIND_BITMAP, KIND_MUSIC, KIND_SOUND,
    STATUS_EMPTY, STATUS_READY,
};
use another_world::script::{
    restart_at, run_tasks, stage_tasks, update_input, Input, Progress, Vm,
};
use another_world::video::VideoContext;
use another_world::{run_frame, Error, Game};

const KIND_PALETTE: u8 = 3;
const KIND_BYTECODE: u8 = 4;
const KIND_SHAPES: u8 = 5;

struct Res {
    index: usize,
    kind: u8,
    rank: u8,
    bank: u8,
    stored: Vec<u8>,
    unpacked_size: u32,
}

fn plain(index: usize, kind: u8, data: &[u8]) -> Res {
    Res { index, kind, rank: 0, bank: 1, stored: data.to_vec(), unpacked_size: data.len() as u32 }
}

fn record(status: u8, kind: u8, rank: u8, bank: u8, pos: u32, packed: u32, unpacked: u32) -> Vec<u8> {
    let mut r = vec![status, kind];
    // The address field of the file does not count.
    r.extend_from_slice(&0xDEAD_BEEFu32.to_be_bytes());
    r.push(rank);
    r.push(bank);
    r.extend_from_slice(&pos.to_be_bytes());
    r.extend_from_slice(&packed.to_be_bytes());
    r.extend_from_slice(&unpacked.to_be_bytes());
    r
}

/// The index and the banks for the given resources; bank 1 holds what is
/// stored, one resource after the other. Entries that are not given are of
/// bank 0.
fn index_and_banks(res: &[Res], count: usize) -> (Vec<u8>, Vec<Vec<u8>>) {
    let mut bank1: Vec<u8> = Vec::new();
    let mut memlist: Vec<u8> = Vec::new();
    for i in 0..count {
        match res.iter().find(|r| r.index == i) {
            Some(r) => {
                let pos = bank1.len() as u32;
                if r.bank == 1 {
                    bank1.extend_from_slice(&r.stored);
                }
                memlist.extend(record(
                    0,
                    r.kind,
                    r.rank,
                    r.bank,
                    pos,
                    r.stored.len() as u32,
                    r.unpacked_size,
                ));
            }
            None => memlist.extend(record(0, 0, 0, 0, 0, 0, 0)),
        }
    }
    memlist.extend(record(0xFF, 0, 0, 0, 0, 0, 0));
    (memlist, vec![Vec::new(), bank1])
}

fn test_font() -> Vec<u8> {
    let mut font = vec![0u8; 768];
    let a = (0x41 - 0x20) * 8;
    font[a] = 0xFF;
    for j in 1..8 {
        font[a + j] = 0x80;
    }
    font
}

fn test_tables() -> Tables {
    let mut frequencies = vec![11025u16; 40];
    frequencies[6] = 22050;
    Tables::new(
        test_font(),
        vec![Text { id: 1, text: "AA".chars().collect() }],
        frequencies,
    )
    .unwrap()
}

fn test_palettes() -> Vec<u8> {
    let mut pal = vec![0u8; 2048];
    // Palette 1, colour 5: full red.
    pal[32 + 10] = 0x0F;
    pal[32 + 11] = 0x00;
    // Palette 5, colour 1: full blue.
    pal[5 * 32 + 2] = 0x00;
    pal[5 * 32 + 3] = 0x0F;
    pal
}

fn new_game(res: &[Res], count: usize, bypass: bool) -> Game {
    let (memlist, banks) = index_and_banks(res, count);
    let mem = Memory::new(&memlist, banks).unwrap();
    Game::new(mem, Vm::with_seed(0x1234, bypass), VideoContext::new(), test_tables(), bypass, false)
}

/// A machine in part 16001 with the given bytecode and shapes, and with
/// what else is given in the index.
fn machine_with(code: &[u8], shapes: &[u8], extra: Vec<Res>) -> Game {
    let mut res = vec![
        plain(0x17, KIND_PALETTE, &test_palettes()),
        plain(0x18, KIND_BYTECODE, code),
        plain(0x19, KIND_SHAPES, shapes),
    ];
    res.extend(extra);
    let count = res.iter().map(|r| r.index + 1).max().unwrap().max(0x1A);
    let mut g = new_game(&res, count, false);
    assert_eq!(restart_at(&mut g, 16001, -1, 0), Ok(()));
    g
}

fn machine(code: &[u8]) -> Game {
    machine_with(code, &[0u8; 16], Vec::new())
}

fn count_pixels(g: &Game, fb: u8, color: u8) -> usize {
    let mut n = 0;
    for y in 0..200u16 {
        for x in 0..320u16 {
            if g.video().rndr.pixel(fb, x, y) == color {
                n += 1;
            }
        }
    }
    n
}

const BUDGET: u32 = 100_000;

#[test]
fn index_is_read_up_to_the_end_mark() {
    let mut bytes = record(0, 4, 7, 2, 0x0102_0304, 10, 20);
    bytes.extend(record(1, 2, 0, 1, 5, 6, 6));
    bytes.extend(record(0xFF, 9, 9, 9, 9, 9, 9));
    bytes.extend(record(0, 1, 1, 1, 1, 1, 1));
    let entries = read_entries(&bytes).unwrap();
    assert_eq!(entries.len(), 2);
    assert_eq!(entries[0].status, 0);
    assert_eq!(entries[0].kind, 4);
    assert_eq!(entries[0].rank_num, 7);
    assert_eq!(entries[0].bank_num, 2);
    assert_eq!(entries[0].bank_pos, 0x0102_0304);
    assert_eq!(entries[0].packed_size, 10);
    assert_eq!(entries[0].unpacked_size, 20);
    assert_eq!(entries[0].address, 0);
    assert_eq!(entries[1].status, 1);
    assert_eq!(entries[1].kind, 2);
}

#[test]
fn index_without_end_mark_is_an_io_error() {
    let bytes = record(0, 4, 7, 2, 0, 10, 20);
    assert_eq!(read_entries(&bytes).err(), Some(Error::Io));
    assert_eq!(read_entries(&[]).err(), Some(Error::Io));
    // The record that ends the index must be there in full.
    let mut cut = record(0, 4, 7, 2, 0, 10, 20);
    cut.push(0xFF);
    assert_eq!(read_entries(&cut).err(), Some(Error::Io));
    assert!(Memory::new(&cut, Vec::new()).is_err());
}

#[test]
fn index_of_end_mark_only_is_empty() {
    let bytes = record(0xFF, 0, 0, 0, 0, 0, 0);
    assert_eq!(read_entries(&bytes).unwrap().len(), 0);
}

#[test]
fn setup_part_sets_segments_and_marks() {
    let g = machine_with(&[0x06; 10], &[0u8; 100], Vec::new());
    let m = g.mem();
    // Of entries of one rank the last is loaded first.
    assert_eq!(m.seg_video1(), 0);
    assert_eq!(m.seg_code(), 100);
    assert_eq!(m.seg_video_pal(), 110);
    assert_eq!(m.seg_video2(), 0);
    assert_eq!(m.data_cur(), 110 + 2048);
    assert_eq!(m.data_bak(), m.data_cur());
    assert_eq!(g.current_part(), 16001);
    assert_eq!(m.entry(0x18).status, STATUS_READY);
    assert_eq!(m.entry(0x18).address, 100);
    assert_eq!(address_of_entry(m, 0x18), 100);
    assert_eq!(m.entry(0).status, STATUS_EMPTY);
    assert_eq!(&m.data()[100..110], &[0x06; 10]);
    assert_eq!(m.entry_count(), 0x1A);
}

#[test]
fn setup_part_loads_by_rank() {
    let mut res = vec![
        plain(0x17, KIND_PALETTE, &test_palettes()),
        plain(0x18, KIND_BYTECODE, &[0x06; 10]),
        plain(0x19, KIND_SHAPES, &[0u8; 100]),
    ];
    res[0].rank = 9;
    res[1].rank = 5;
    res[2].rank = 1;
    let mut g = new_game(&res, 0x1A, false);
    assert_eq!(setup_part(&mut g, 16001), Ok(()));
    assert_eq!(g.mem().seg_video_pal(), 0);
    assert_eq!(g.mem().seg_code(), 2048);
    assert_eq!(g.mem().seg_video1(), 2058);
    assert_eq!(g.mem().data_bak(), 2158);
}

#[test]
fn setup_part_rejects_unknown_part_and_short_index() {
    let mut g = machine(&[0x06]);
    assert_eq!(setup_part(&mut g, 16010), Err(Error::Corrupt));
    assert_eq!(setup_part(&mut g, 15999), Err(Error::Corrupt));
    // Part 16002 names entry 0x1C, which the index lacks.
    assert_eq!(setup_part(&mut g, 16002), Err(Error::Corrupt));
    // The part that is set up is not set up again.
    let mut g = machine(&[0x06]);
    assert_eq!(setup_part(&mut g, 16001), Ok(()));
    assert_eq!(g.mem().seg_code(), 16);
}

#[test]
fn setup_part_of_part_zero_before_any_part() {
    let res = vec![plain(0x18, KIND_BYTECODE, &[0x06])];
    let mut g = new_game(&res, 0x1A, false);
    assert_eq!(g.current_part(), 0);
    assert_eq!(setup_part(&mut g, 0), Ok(()));
    assert_eq!(g.mem().data_bak(), 0);
}

#[test]
fn entry_of_bank_zero_is_not_loaded() {
    let mut g = machine(&[0x06]);
    assert_eq!(load_entry(&mut g, 3), Ok(()));
    assert_eq!(g.mem().entry(3).status, STATUS_EMPTY);
    assert_eq!(address_of_ready_entry(g.mem(), 3), None);
}

#[test]
fn load_entry_outside_the_index_is_corrupt() {
    let mut g = machine(&[0x06]);
    assert_eq!(load_entry(&mut g, 0x1A), Err(Error::Corrupt));
}

#[test]
fn load_entry_reads_from_the_bank() {
    let mut g = machine_with(&[0x06], &[0u8; 16], vec![plain(2, KIND_SOUND, b"sound data")]);
    let before = g.mem().data_cur();
    assert_eq!(load_entry(&mut g, 2), Ok(()));
    assert_eq!(g.mem().entry(2).status, STATUS_READY);
    assert_eq!(g.mem().entry(2).address, before);
    assert_eq!(g.mem().data_cur(), before + 10);
    assert_eq!(&g.mem().data()[before..before + 10], b"sound data");
    assert_eq!(address_of_ready_entry(g.mem(), 2), Some(before));
    assert_eq!(address_of_entry_with_kind(g.mem(), 2, KIND_SOUND), Some(before));
    assert_eq!(address_of_entry_with_kind(g.mem(), 2, KIND_MUSIC), None);
    assert_eq!(address_of_entry_with_kind(g.mem(), 200, KIND_SOUND), None);
    // An entry that is ready is not loaded again.
    assert_eq!(load_entry(&mut g, 2), Ok(()));
    assert_eq!(g.mem().data_cur(), before + 10);
    // The mark of the part stays.
    assert_eq!(g.mem().data_bak(), before);
}

#[test]
fn missing_or_short_bank_is_an_io_error() {
    let mut missing = plain(2, KIND_SOUND, b"abc");
    missing.bank = 5;
    let mut g = machine_with(&[0x06], &[0u8; 16], vec![missing]);
    assert_eq!(load_entry(&mut g, 2), Err(Error::Io));
    let res = vec![plain(2, KIND_SOUND, b"abc")];
    let (mut memlist, banks) = index_and_banks(&res, 3);
    // Entry 2 claims a byte more than the bank holds.
    memlist[2 * 20 + 15] = 4;
    memlist[2 * 20 + 19] = 4;
    let mem = Memory::new(&memlist, banks).unwrap();
    let mut g = Game::new(
        mem,
        Vm::with_seed(0, false),
        VideoContext::new(),
        test_tables(),
        false,
        false,
    );
    assert_eq!(load_entry(&mut g, 2), Err(Error::Io));
}

#[test]
fn entry_too_large_for_the_arena() {
    let mut big = plain(2, KIND_SOUND, b"abc");
    big.unpacked_size = DATA_BMP_OFFSET as u32;
    let mut g = machine_with(&[0x06], &[0u8; 16], vec![big]);
    assert_eq!(load_entry(&mut g, 2), Err(Error::OutOfArena));
    let mut bitmap = plain(4, KIND_BITMAP, b"abc");
    bitmap.unpacked_size = 0x8001;
    let mut g = machine_with(&[0x06], &[0u8; 16], vec![bitmap]);
    assert_eq!(load_entry(&mut g, 4), Err(Error::OutOfArena));
}

/// A packed stream of 257 times the byte `b`: one literal, then 256 bytes
/// copied from one place above.
fn packed_run(b: u8, crc_flip: u32) -> Vec<u8> {
    let mut bits: Vec<bool> = Vec::new();
    let mut put = |value: u32, count: u32| {
        for i in (0..count).rev() {
            bits.push((value >> i) & 1 != 0);
        }
    };
    put(0, 2);
    put(0, 3);
    put(b as u32, 8);
    put(0b110, 3);
    put(255, 8);
    put(1, 12);
    let mut words: Vec<u32> = Vec::new();
    for chunk in bits.chunks(32) {
        let mut w = 0u32;
        for (i, bit) in chunk.iter().enumerate() {
            if *bit {
                w |= 1 << i;
            }
        }
        words.push(w);
    }
    let mut crc = 1u32 ^ crc_flip;
    for w in &words {
        crc ^= w;
    }
    let mut buf = Vec::new();
    for w in words.iter().rev() {
        buf.extend_from_slice(&w.to_be_bytes());
    }
    buf.extend_from_slice(&1u32.to_be_bytes());
    buf.extend_from_slice(&crc.to_be_bytes());
    buf.extend_from_slice(&257u32.to_be_bytes());
    buf
}

#[test]
fn packed_entry_is_unpacked_in_the_arena() {
    let packed = Res {
        index: 2,
        kind: KIND_SOUND,
        rank: 0,
        bank: 1,
        stored: packed_run(b'Z', 0),
        unpacked_size: 257,
    };
    let mut g = machine_with(&[0x06], &[0u8; 16], vec![packed]);
    let at = g.mem().data_cur();
    assert_eq!(load_entry(&mut g, 2), Ok(()));
    assert_eq!(g.mem().data_cur(), at + 257);
    assert!(g.mem().data()[at..at + 257].iter().all(|b| *b == b'Z'));
    assert_eq!(g.mem().data()[at + 257], 0);
}

#[test]
fn packed_entry_with_wrong_checksum_is_corrupt() {
    let packed = Res {
        index: 2,
        kind: KIND_SOUND,
        rank: 0,
        bank: 1,
        stored: packed_run(b'Z', 1),
        unpacked_size: 257,
    };
    let mut g = machine_with(&[0x06], &[0u8; 16], vec![packed]);
    assert_eq!(load_entry(&mut g, 2), Err(Error::Corrupt));
}

#[test]
fn bitmap_entry_goes_to_page_zero() {
    let mut planes = vec![0u8; 32000];
    planes[0] = 0x80;
    planes[8000] = 0x80;
    let mut g = machine_with(&[0x06], &[0u8; 16], vec![plain(4, KIND_BITMAP, &planes)]);
    let before = g.mem().data_cur();
    assert_eq!(load_entry(&mut g, 4), Ok(()));
    assert_eq!(g.video().rndr.pixel(0, 0, 0), 3);
    assert_eq!(count_pixels(&g, 0, 0), 64000 - 1);
    // A bitmap takes no room below the scratch area and is empty again.
    assert_eq!(g.mem().data_cur(), before);
    assert_eq!(g.mem().entry(4).status, STATUS_EMPTY);
    assert_eq!(g.mem().data()[DATA_BMP_OFFSET], 0x80);
}

#[test]
fn scripted_halt() {
    let mut code = vec![0x08, 5, 0x00, 0x10, 0x11, 0x06];
    code.resize(0x10, 0);
    code.push(0x11);
    let mut g = machine(&code);
    assert_eq!(g.vm().task_pc(0), 0);
    assert_eq!(g.vm().task_pc(5), 0xFFFF);
    assert_eq!(run_frame(&mut g, 0, BUDGET), Ok(Progress::FrameDone));
    // Task 0 has removed itself; task 5 is staged, not yet started.
    assert_eq!(g.vm().task_pc(0), 0xFFFF);
    assert_eq!(g.vm().task_pc(5), 0xFFFF);
    assert_eq!(run_frame(&mut g, 20, BUDGET), Ok(Progress::FrameDone));
    assert_eq!(g.vm().task_pc(5), 0xFFFF);
    assert!(!g.vm().is_mid_frame());
}

#[test]
fn installed_task_starts_with_the_next_frame() {
    // Task 5 at 0x10: r1 += 1; yield; jump back.
    let mut code = vec![0x08, 5, 0x00, 0x10, 0x06, 0x07, 0x00, 0x04];
    code.resize(0x10, 0);
    code.extend_from_slice(&[0x03, 0x01, 0x00, 0x01, 0x06, 0x07, 0x00, 0x10]);
    let mut g = machine(&code);
    assert_eq!(run_frame(&mut g, 0, BUDGET), Ok(Progress::FrameDone));
    assert_eq!(g.vm().reg(1), 0);
    assert_eq!(g.vm().task_pc(0), 5);
    assert_eq!(run_frame(&mut g, 0, BUDGET), Ok(Progress::FrameDone));
    assert_eq!(g.vm().reg(1), 1);
    assert_eq!(g.vm().task_pc(5), 0x15);
    assert_eq!(run_frame(&mut g, 0, BUDGET), Ok(Progress::FrameDone));
    assert_eq!(g.vm().reg(1), 2);
}

#[test]
fn arithmetic_opcodes() {
    let code = [
        0x00, 0x01, 0x00, 0x05, // r1 = 5
        0x00, 0x02, 0xFF, 0xFE, // r2 = -2
        0x01, 0x03, 0x01, // r3 = r1
        0x02, 0x03, 0x02, // r3 += r2
        0x03, 0x03, 0x00, 0x0A, // r3 += 10
        0x13, 0x01, 0x02, // r1 -= r2
        0x14, 0x02, 0x00, 0xFF, // r2 &= 0xFF
        0x15, 0x01, 0x01, 0x00, // r1 |= 0x100
        0x16, 0x01, 0x00, 0x02, // r1 <<= 2
        0x17, 0x02, 0x00, 0x01, // r2 >>= 1
        0x00, 0x04, 0x80, 0x00, // r4 = -32768
        0x17, 0x04, 0x00, 0x0F, // r4 >>= 15, zeros coming in
        0x00, 0x05, 0x7F, 0xFF, // r5 = 32767
        0x03, 0x05, 0x00, 0x01, // r5 += 1, wrapping round
        0x00, 0x06, 0x80, 0x00, // r6 = -32768
        0x13, 0x06, 0x01, // r6 -= r1, wrapping round
        0x00, 0x07, 0x40, 0x01, // r7 = 0x4001
        0x16, 0x07, 0x00, 0x02, // r7 <<= 2: the top bits fall off
        0x06,
    ];
    let mut g = machine(&code);
    assert_eq!(run_frame(&mut g, 0, BUDGET), Ok(Progress::FrameDone));
    let vm = g.vm();
    assert_eq!(vm.reg(3), 13);
    assert_eq!(vm.reg(1), 1052);
    assert_eq!(vm.reg(2), 127);
    assert_eq!(vm.reg(4), 1);
    assert_eq!(vm.reg(5), -32768);
    assert_eq!(vm.reg(6), 32767 - 1051);
    assert_eq!(vm.reg(7), 4);
    assert_eq!(vm.task_pc(0), code.len() as u16);
}

#[test]
fn shift_by_sixteen_or_more_is_corrupt() {
    let mut g = machine(&[0x16, 0x01, 0x00, 0x10, 0x06]);
    assert_eq!(run_frame(&mut g, 0, BUDGET), Err(Error::Corrupt));
    let mut g = machine(&[0x17, 0x01, 0xFF, 0xFF, 0x06]);
    assert_eq!(run_frame(&mut g, 0, BUDGET), Err(Error::Corrupt));
}

#[test]
fn jump_call_and_return() {
    let code = [
        0x07, 0x00, 0x07, // 0: jump to 7
        0x00, 0x01, 0x00, 0x63, // 3: r1 = 99, passed over
        0x04, 0x00, 0x10, // 7: call 16
        0x00, 0x03, 0x00, 0x07, // 10: r3 = 7
        0x06, // 14: yield
        0x00, // 15
        0x00, 0x02, 0x00, 0x09, // 16: r2 = 9
        0x05, // 20: return
    ];
    let mut g = machine(&code);
    assert_eq!(run_frame(&mut g, 0, BUDGET), Ok(Progress::FrameDone));
    assert_eq!(g.vm().reg(1), 0);
    assert_eq!(g.vm().reg(2), 9);
    assert_eq!(g.vm().reg(3), 7);
    assert_eq!(g.vm().task_pc(0), 15);
}

#[test]
fn call_stack_holds_sixty_four() {
    // A routine that calls itself: the 65th call fails.
    let mut g = machine(&[0x03, 0x01, 0x00, 0x01, 0x04, 0x00, 0x00]);
    assert_eq!(run_frame(&mut g, 0, BUDGET), Err(Error::Corrupt));
    assert_eq!(g.vm().reg(1), 65);
    // A return without a call fails too.
    let mut g = machine(&[0x05]);
    assert_eq!(run_frame(&mut g, 0, BUDGET), Err(Error::Corrupt));
}

#[test]
fn counted_loop() {
    let code = [
        0x00, 0x01, 0x00, 0x03, // 0: r1 = 3
        0x03, 0x02, 0x00, 0x01, // 4: r2 += 1
        0x09, 0x01, 0x00, 0x04, // 8: count r1 down, back to 4 unless zero
        0x06,
    ];
    let mut g = machine(&code);
    assert_eq!(run_frame(&mut g, 0, BUDGET), Ok(Progress::FrameDone));
    assert_eq!(g.vm().reg(1), 0);
    assert_eq!(g.vm().reg(2), 3);
}

#[test]
fn conditional_jumps() {
    let mut code = vec![
        0x00, 0x01, 0x00, 0x05, // 0: r1 = 5
        0x0A, 0x02, 0x01, 0x05, 0x00, 0x0D, // 4: r1 > 5: no
        0x03, 0x02, 0x00, 0x01, // 10: r2 += 1
        0x0A, 0x43, 0x01, 0x00, 0x05, 0x00, 0x1C, // 14: r1 >= 5 (16 bits): to 28
        0x03, 0x02, 0x00, 0x10, // 21: passed over
        0x06, // 25
    ];
    code.resize(28, 0);
    code.extend_from_slice(&[0x0A, 0x80, 0x01, 0x01, 0x00, 0x24]); // 28: r1 == r1: to 36
    code.extend_from_slice(&[0x06, 0x00]); // 34
    code.extend_from_slice(&[0x00, 0x03, 0x00, 0x2A]); // 36: r3 = 42
    code.extend_from_slice(&[0x0A, 0x04, 0x01, 0x05, 0x00, 0x00]); // 40: r1 < 5: no
    code.extend_from_slice(&[0x0A, 0x01, 0x01, 0x05, 0x00, 0x00]); // 46: r1 != 5: no
    code.extend_from_slice(&[0x0A, 0x05, 0x01, 0x05, 0x00, 0x3C]); // 52: r1 <= 5: to 60
    code.extend_from_slice(&[0x06, 0x00]); // 58
    code.extend_from_slice(&[0x03, 0x02, 0x00, 0x20]); // 60: r2 += 32
    code.extend_from_slice(&[0x0A, 0x00, 0x01, 0xFF, 0x00, 0x00]); // 64: r1 == 255: no
    code.push(0x06); // 70
    let mut g = machine(&code);
    assert_eq!(run_frame(&mut g, 0, BUDGET), Ok(Progress::FrameDone));
    assert_eq!(g.vm().reg(2), 33);
    assert_eq!(g.vm().reg(3), 42);
    assert_eq!(g.vm().task_pc(0), 71);
}

#[test]
fn conditional_jump_compares_signed() {
    let code = [
        0x00, 0x01, 0xFF, 0xFF, // 0: r1 = -1
        0x0A, 0x44, 0x01, 0x00, 0x00, 0x00, 0x0F, // 4: r1 < 0 (16 bits): to 15
        0x00, 0x02, 0x00, 0x01, // 11: passed over
        0x06, // 15
    ];
    let mut g = machine(&code);
    assert_eq!(run_frame(&mut g, 0, BUDGET), Ok(Progress::FrameDone));
    assert_eq!(g.vm().reg(2), 0);
}

#[test]
fn unknown_condition_is_corrupt() {
    let mut g = machine(&[0x0A, 0x06, 0x01, 0x05, 0x00, 0x00, 0x06]);
    assert_eq!(run_frame(&mut g, 0, BUDGET), Err(Error::Corrupt));
    let mut g = machine(&[0x0A, 0x07, 0x01, 0x05, 0x00, 0x00, 0x06]);
    assert_eq!(run_frame(&mut g, 0, BUDGET), Err(Error::Corrupt));
}

#[test]
fn unknown_opcode_is_corrupt() {
    for opcode in [0x1Bu8, 0x3F] {
        let mut g = machine(&[opcode, 0x06]);
        assert_eq!(run_frame(&mut g, 0, BUDGET), Err(Error::Corrupt));
    }
}

#[test]
fn task_parked_at_an_unknown_opcode_fails_at_its_next_turn() {
    // The task yields in front of a byte that is no opcode.
    let mut g = machine(&[0x06, 0x3F]);
    assert_eq!(run_frame(&mut g, 0, BUDGET), Ok(Progress::FrameDone));
    assert_eq!(g.vm().task_pc(0), 1);
    assert_eq!(run_frame(&mut g, 0, BUDGET), Err(Error::Corrupt));
}

#[test]
fn screen_change_is_announced_once() {
    let code = [
        0x00, 0x67, 0x00, 0x47, // 0: the screen register = 0x47
        0x0A, 0x00, 0x67, 0x47, 0x00, 0x0B, // 4: equal: to 11
        0x06, // 10
        0x06, // 11
    ];
    let mut g = machine(&code);
    assert_eq!(g.screen_num(), None);
    assert_eq!(run_frame(&mut g, 0, BUDGET), Ok(Progress::FrameDone));
    assert_eq!(g.screen_num(), Some(0x47));
}

#[test]
fn tasks_are_frozen_thawed_and_halted() {
    let mut code = vec![
        0x08, 0x03, 0x00, 0x20, // 0: task 3 starts at 0x20
        0x0C, 0x03, 0x03, 0x01, // 4: freeze task 3
        0x06, // 8
        0x0C, 0x03, 0x03, 0x00, // 9: thaw task 3
        0x06, // 13
        0x0C, 0x03, 0x03, 0x02, // 14: halt task 3
        0x06, // 18
        0x0C, 0x05, 0x03, 0x01, // 19: from 5 to 3: nothing
        0x06, // 23
    ];
    code.resize(0x20, 0x06);
    code.extend_from_slice(&[0x03, 0x01, 0x00, 0x01, 0x06, 0x07, 0x00, 0x20]);
    let mut g = machine(&code);
    assert_eq!(run_frame(&mut g, 0, BUDGET), Ok(Progress::FrameDone));
    assert_eq!(g.vm().task_pc(3), 0xFFFF);
    assert_eq!(run_frame(&mut g, 0, BUDGET), Ok(Progress::FrameDone));
    assert_eq!(g.vm().task_pc(3), 0x20);
    assert!(g.vm().task_frozen(3));
    assert_eq!(g.vm().reg(1), 0);
    assert_eq!(run_frame(&mut g, 0, BUDGET), Ok(Progress::FrameDone));
    assert!(!g.vm().task_frozen(3));
    assert_eq!(g.vm().reg(1), 1);
    assert_eq!(g.vm().task_pc(3), 0x25);
    assert_eq!(run_frame(&mut g, 0, BUDGET), Ok(Progress::FrameDone));
    assert_eq!(g.vm().task_pc(3), 0xFFFF);
    assert_eq!(g.vm().reg(1), 1);
    assert_eq!(run_frame(&mut g, 0, BUDGET), Ok(Progress::FrameDone));
    assert!(!g.vm().task_frozen(4));
    assert!(!g.vm().task_frozen(5));
}

#[test]
fn task_range_uses_six_bits_of_its_end() {
    // Tasks 1 to 0xC2 & 0x3F = 2 are frozen.
    let mut g = machine(&[0x0C, 0x01, 0xC2, 0x01, 0x06, 0x06]);
    assert_eq!(run_frame(&mut g, 0, BUDGET), Ok(Progress::FrameDone));
    assert_eq!(run_frame(&mut g, 0, BUDGET), Ok(Progress::FrameDone));
    assert!(!g.vm().task_frozen(0));
    assert!(g.vm().task_frozen(1));
    assert!(g.vm().task_frozen(2));
    assert!(!g.vm().task_frozen(3));
}

#[test]
fn task_number_out_of_range_is_corrupt() {
    let mut g = machine(&[0x08, 0x40, 0x00, 0x10, 0x06]);
    assert_eq!(run_frame(&mut g, 0, BUDGET), Err(Error::Corrupt));
    let mut g = machine(&[0x0C, 0x40, 0x41, 0x01, 0x06]);
    assert_eq!(run_frame(&mut g, 0, BUDGET), Err(Error::Corrupt));
}

#[test]
fn display_update_hands_over_to_the_host() {
    let code = [
        0x00, 0xFF, 0x00, 0x03, // 0: three slices of pause
        0x00, 0xF7, 0x00, 0x01, // 4: r 0xF7 = 1
        0x0D, 0x01, // 8: draw on page 1
        0x0E, 0x01, 0x05, // 10: fill page 1 with colour 5
        0x0B, 0x01, 0x00, // 13: ask for palette 1
        0x10, 0x01, // 16: page 1 on display
        0x00, 0x01, 0x00, 0x07, // 18: r1 = 7
        0x06,
    ];
    let mut g = machine(&code);
    assert_eq!(run_frame(&mut g, 0, BUDGET), Ok(Progress::Present { fb: 1, slices: 3 }));
    assert!(g.vm().is_mid_frame());
    assert_eq!(g.video().front_page(), 1);
    assert_eq!(count_pixels(&g, 1, 5), 64000);
    assert_eq!(g.vm().reg(0xF7), 0);
    assert_eq!(g.vm().reg(1), 0);
    assert_eq!(g.next_pal(), None);
    let mut out = vec![0u16; 64000];
    g.video().rndr.read_pixels(1, &mut out);
    assert!(out.iter().all(|w| *w == 0xF800));
    // The task goes on where it was.
    assert_eq!(run_frame(&mut g, 0, BUDGET), Ok(Progress::FrameDone));
    assert_eq!(g.vm().reg(1), 7);
}

#[test]
fn display_update_swaps_front_and_back() {
    let mut g = machine(&[0x10, 0xFF, 0x10, 0xFF, 0x10, 0xFE, 0x06]);
    assert_eq!(run_frame(&mut g, 0, BUDGET), Ok(Progress::Present { fb: 1, slices: 0 }));
    assert_eq!(run_frame(&mut g, 0, BUDGET), Ok(Progress::Present { fb: 2, slices: 0 }));
    assert_eq!(run_frame(&mut g, 0, BUDGET), Ok(Progress::Present { fb: 2, slices: 0 }));
    assert_eq!(run_frame(&mut g, 0, BUDGET), Ok(Progress::FrameDone));
}

#[test]
fn intro_palettes_ten_and_sixteen_are_passed_over() {
    let mut g = machine(&[0x0B, 0x0A, 0x00, 0x06, 0x0B, 0x10, 0x00, 0x06, 0x0B, 0x0B, 0x00, 0x06]);
    assert_eq!(run_frame(&mut g, 0, BUDGET), Ok(Progress::FrameDone));
    assert_eq!(g.next_pal(), None);
    assert_eq!(run_frame(&mut g, 0, BUDGET), Ok(Progress::FrameDone));
    assert_eq!(g.next_pal(), None);
    assert_eq!(run_frame(&mut g, 0, BUDGET), Ok(Progress::FrameDone));
    assert_eq!(g.next_pal(), Some(11));
}

#[test]
fn copy_page_opcode_scrolls_by_the_scroll_register() {
    let code = [
        0x0E, 0x00, 0x01, // fill page 0 with 1
        0x0E, 0x03, 0x09, // fill page 3 with 9
        0x00, 0xF9, 0x00, 0x0A, // scroll register = 10
        0x0F, 0x80, 0x03, // copy page 0 to page 3, scrolled
        0x06,
    ];
    let mut g = machine(&code);
    assert_eq!(run_frame(&mut g, 0, BUDGET), Ok(Progress::FrameDone));
    assert_eq!(count_pixels(&g, 3, 9), 10 * 320);
    assert_eq!(count_pixels(&g, 3, 1), 190 * 320);
    assert_eq!(g.video().rndr.pixel(3, 0, 9), 9);
    assert_eq!(g.video().rndr.pixel(3, 0, 10), 1);
}

#[test]
fn draw_string_opcode() {
    let mut g = machine(&[0x12, 0x00, 0x01, 0x02, 0x0A, 0x03, 0x12, 0x00, 0x09, 0x02, 0x0A, 0x04, 0x06]);
    assert_eq!(run_frame(&mut g, 0, BUDGET), Ok(Progress::FrameDone));
    // "AA" from column 2, line 10, on the page drawn on, which is page 2.
    assert_eq!(count_pixels(&g, 2, 3), 30);
    assert_eq!(g.video().rndr.pixel(2, 16, 10), 3);
    assert_eq!(g.video().rndr.pixel(2, 24, 17), 3);
    // Text 9 is not in the tables.
    assert_eq!(count_pixels(&g, 2, 4), 0);
}

fn quad_shape() -> Vec<u8> {
    // A polygon of colour 7 in a box of 40 by 20 with four corners.
    vec![0xC7, 40, 20, 4, 40, 0, 40, 20, 0, 20, 0, 0]
}

#[test]
fn shape_opcode_draws_a_polygon() {
    let mut g = machine_with(&[0x80, 0x00, 30, 20, 0x06], &quad_shape(), Vec::new());
    assert_eq!(run_frame(&mut g, 0, BUDGET), Ok(Progress::FrameDone));
    assert_eq!(count_pixels(&g, 2, 7), 41 * 20);
    assert_eq!(g.video().rndr.pixel(2, 10, 10), 7);
    assert_eq!(g.video().rndr.pixel(2, 50, 29), 7);
    assert_eq!(g.video().rndr.pixel(2, 50, 30), 0);
}

#[test]
fn shape_opcode_with_zoom() {
    // x and y as bytes, zoom as a byte: twice the size around (100, 50).
    let mut g = machine_with(&[0x6A, 0x00, 0x00, 100, 50, 128, 0x06], &quad_shape(), Vec::new());
    assert_eq!(run_frame(&mut g, 0, BUDGET), Ok(Progress::FrameDone));
    assert_eq!(count_pixels(&g, 2, 7), 81 * 40);
    assert_eq!(g.video().rndr.pixel(2, 60, 30), 7);
    assert_eq!(g.video().rndr.pixel(2, 140, 69), 7);
}

#[test]
fn shape_opcode_operand_forms() {
    // x from register 1, y as a word, no zoom operand.
    let code = [
        0x00, 0x01, 0x00, 0x1E, // r1 = 30
        0x50, 0x00, 0x00, 0x01, 0x00, 0x14, // shape at (r1, 20)
        0x00, 0x02, 0x00, 0x07, // r2 = 7
        0x06,
    ];
    let mut g = machine_with(&code, &quad_shape(), Vec::new());
    assert_eq!(run_frame(&mut g, 0, BUDGET), Ok(Progress::FrameDone));
    assert_eq!(count_pixels(&g, 2, 7), 41 * 20);
    assert_eq!(g.vm().reg(2), 7);
    // x as a byte plus 256, y from register 2, zoom from register 3.
    let code = [
        0x00, 0x02, 0x00, 0x64, // r2 = 100
        0x00, 0x03, 0x00, 0x20, // r3 = 32
        0x75, 0x00, 0x00, 0x0A, 0x02, 0x03, // shape at (266, r2), zoom r3
        0x06,
    ];
    let mut g = machine_with(&code, &quad_shape(), Vec::new());
    assert_eq!(run_frame(&mut g, 0, BUDGET), Ok(Progress::FrameDone));
    // Half the size: a box of 20 by 10 around (266, 100).
    assert_eq!(count_pixels(&g, 2, 7), 21 * 10);
    assert_eq!(g.video().rndr.pixel(2, 256, 95), 7);
    assert_eq!(g.video().rndr.pixel(2, 276, 104), 7);
}

#[test]
fn shape_group_draws_its_parts() {
    let mut shapes = quad_shape();
    shapes.resize(0x20, 0);
    // A group whose origin lies 10 left of and 5 above the place given,
    // with two parts: the quad at the place given, in its own colour, and
    // the quad 100 further right and down, in colour 3.
    shapes.extend_from_slice(&[0x02, 10, 5, 1]);
    shapes.extend_from_slice(&[0x00, 0x00, 10, 5]);
    shapes.extend_from_slice(&[0x80, 0x00, 110, 105, 0x03, 0x00]);
    let mut g = machine_with(&[0x80, 0x10, 30, 20, 0x06], &shapes, Vec::new());
    assert_eq!(run_frame(&mut g, 0, BUDGET), Ok(Progress::FrameDone));
    assert_eq!(count_pixels(&g, 2, 7), 41 * 20);
    assert_eq!(count_pixels(&g, 2, 3), 41 * 20);
    assert_eq!(g.video().rndr.pixel(2, 10, 10), 7);
    assert_eq!(g.video().rndr.pixel(2, 110, 110), 3);
    assert_eq!(g.video().rndr.pixel(2, 150, 129), 3);
}

#[test]
fn shape_group_that_holds_itself_is_corrupt() {
    let shapes = vec![0x02, 0, 0, 0, 0x00, 0x00, 0, 0];
    let mut g = machine_with(&[0x80, 0x00, 30, 20, 0x06], &shapes, Vec::new());
    assert_eq!(run_frame(&mut g, 0, BUDGET), Err(Error::Corrupt));
}

#[test]
fn shape_with_odd_or_too_many_corners_is_corrupt() {
    let mut g = machine_with(&[0x80, 0x00, 30, 20, 0x06], &[0xC7, 40, 20, 3, 0, 0, 0, 0, 0, 0], Vec::new());
    assert_eq!(run_frame(&mut g, 0, BUDGET), Err(Error::Corrupt));
    let mut shape = vec![0xC7, 40, 20, 72];
    shape.resize(4 + 144, 0);
    let mut g = machine_with(&[0x80, 0x00, 30, 20, 0x06], &shape, Vec::new());
    assert_eq!(run_frame(&mut g, 0, BUDGET), Err(Error::Corrupt));
}

#[test]
fn shape_off_screen_and_unknown_shape_draw_nothing() {
    // The box lies right of the screen: the corners are not even read.
    let code = [0x40, 0x00, 0x00, 0x01, 0x90, 0x00, 0x14, 0x06];
    let mut g = machine_with(&code, &[0xC7, 40, 20, 3], Vec::new());
    assert_eq!(run_frame(&mut g, 0, BUDGET), Ok(Progress::FrameDone));
    assert_eq!(count_pixels(&g, 2, 0), 64000);
    let mut g = machine_with(&[0x80, 0x00, 30, 20, 0x06], &[0x05, 1, 2, 3], Vec::new());
    assert_eq!(run_frame(&mut g, 0, BUDGET), Ok(Progress::FrameDone));
    assert_eq!(count_pixels(&g, 2, 0), 64000);
}

#[test]
fn shape_point() {
    // Four corners in a box of width 0 and height 1: a single point.
    let shape = [0xC4, 0, 1, 4, 0, 0, 0, 0, 0, 0, 0, 0];
    let mut g = machine_with(&[0x80, 0x00, 30, 20, 0x06], &shape, Vec::new());
    assert_eq!(run_frame(&mut g, 0, BUDGET), Ok(Progress::FrameDone));
    assert_eq!(count_pixels(&g, 2, 4), 1);
    assert_eq!(g.video().rndr.pixel(2, 30, 20), 4);
}

#[test]
fn shape_below_the_screen_is_moved_up_and_right() {
    // y = 209 becomes 199, and x = 30 becomes 40.
    let shape = [0xC4, 0, 1, 4, 0, 0, 0, 0, 0, 0, 0, 0];
    let mut g = machine_with(&[0x80, 0x00, 30, 209, 0x06], &shape, Vec::new());
    assert_eq!(run_frame(&mut g, 0, BUDGET), Ok(Progress::FrameDone));
    assert_eq!(g.video().rndr.pixel(2, 40, 199), 4);
    assert_eq!(count_pixels(&g, 2, 4), 1);
}

fn sound(len_words: u16, loop_words: u16, samples: &[u8]) -> Vec<u8> {
    let mut s = Vec::new();
    s.extend_from_slice(&len_words.to_be_bytes());
    s.extend_from_slice(&loop_words.to_be_bytes());
    s.extend_from_slice(&[0, 0, 0, 0]);
    s.extend_from_slice(samples);
    s
}

#[test]
fn sound_opcode_queues_commands() {
    let code = [
        0x19, 0x00, 0x02, // load resource 2
        0x18, 0x00, 0x02, 0x05, 0x20, 0x01, // play it on channel 1
        0x18, 0x00, 0x02, 0x05, 0x00, 0x02, // volume 0: silence channel 2
        0x18, 0x00, 0x02, 0x06, 0xFF, 0x07, // twice as fast, on channel 7 & 3
        0x18, 0x00, 0x03, 0x05, 0x20, 0x01, // resource 3 is not loaded
        0x06,
    ];
    let extra = vec![plain(2, KIND_SOUND, &sound(3, 0, &[1, 2, 3, 4, 5, 6, 7, 8]))];
    let mut g = machine_with(&code, &[0u8; 16], extra);
    g.take_commands();
    assert_eq!(run_frame(&mut g, 0, BUDGET), Ok(Progress::FrameDone));
    let q = g.take_commands();
    assert_eq!(q.len(), 3);
    match &q[0] {
        HostCommand::PlaySound { channel, volume, samples, looping } => {
            assert_eq!(*channel, 1);
            assert_eq!(*volume, 0x20);
            assert_eq!(&samples[..], &[1, 2, 3, 4, 5, 6]);
            assert!(!*looping);
        }
        _ => panic!("a sound to play was expected"),
    }
    match &q[1] {
        HostCommand::StopSound { channel } => assert_eq!(*channel, 2),
        _ => panic!("a channel to silence was expected"),
    }
    match &q[2] {
        HostCommand::PlaySound { channel, volume, samples, looping } => {
            assert_eq!(*channel, 3);
            assert_eq!(*volume, 63);
            assert_eq!(&samples[..], &[1, 3, 5]);
            assert!(!*looping);
        }
        _ => panic!("a sound to play was expected"),
    }
    assert_eq!(g.take_commands().len(), 0);
}

#[test]
fn looping_sound_plays_its_repeated_length() {
    let code = [0x19, 0x00, 0x02, 0x18, 0x00, 0x02, 0x05, 0x20, 0x00, 0x06];
    let extra = vec![plain(2, KIND_SOUND, &sound(3, 2, &[1, 2, 3, 4, 5, 6, 7, 8]))];
    let mut g = machine_with(&code, &[0u8; 16], extra);
    g.take_commands();
    assert_eq!(run_frame(&mut g, 0, BUDGET), Ok(Progress::FrameDone));
    let q = g.take_commands();
    assert_eq!(q.len(), 1);
    match &q[0] {
        HostCommand::PlaySound { samples, looping, .. } => {
            assert_eq!(&samples[..], &[1, 2, 3, 4]);
            assert!(*looping);
        }
        _ => panic!("a sound to play was expected"),
    }
}

#[test]
fn sound_opcode_failures() {
    let extra = || vec![plain(2, KIND_SOUND, &sound(3, 0, &[1, 2, 3, 4, 5, 6]))];
    // A frequency that the table lacks.
    let code = [0x19, 0x00, 0x02, 0x18, 0x00, 0x02, 40, 0x20, 0x00, 0x06];
    let mut g = machine_with(&code, &[0u8; 16], extra());
    assert_eq!(run_frame(&mut g, 0, BUDGET), Err(Error::Corrupt));
    // Silence for a channel that is none.
    let code = [0x18, 0x00, 0x02, 0x05, 0x00, 0x04, 0x06];
    let mut g = machine_with(&code, &[0u8; 16], extra());
    assert_eq!(run_frame(&mut g, 0, BUDGET), Err(Error::Corrupt));
}

#[test]
fn restart_silences_the_channels() {
    let mut g = machine(&[0x06]);
    let q = g.take_commands();
    assert_eq!(q.len(), 4);
    for (i, c) in q.iter().enumerate() {
        match c {
            HostCommand::StopSound { channel } => assert_eq!(*channel as usize, i),
            _ => panic!("a channel to silence was expected"),
        }
    }
    assert_eq!(g.vm().reg(0xE4), 20);
    assert_eq!(g.vm().reg(0x54), 0);
    assert_eq!(g.vm().reg(0x3C), 0x1234);
    assert_eq!(g.vm().last_swap_time(), 0);
}

#[test]
fn restart_with_position() {
    let mut g = machine(&[0x06]);
    assert_eq!(restart_at(&mut g, 16001, 12, 777), Ok(()));
    assert_eq!(g.vm().reg(0), 12);
    assert_eq!(g.vm().last_swap_time(), 777);
    assert_eq!(g.vm().task_pc(0), 0);
    assert_eq!(g.vm().task_pc(1), 0xFFFF);
}

#[test]
fn resources_opcode_invalidates() {
    let code = [
        0x19, 0x00, 0x02, // load resource 2
        0x06, 0x19, 0x00, 0x00, // drop what was loaded
        0x06,
    ];
    let extra = vec![plain(2, KIND_SOUND, &sound(1, 0, &[1, 2]))];
    let mut g = machine_with(&code, &[0u8; 16], extra);
    let mark = g.mem().data_bak();
    assert_eq!(run_frame(&mut g, 0, BUDGET), Ok(Progress::FrameDone));
    assert_eq!(g.mem().entry(2).status, STATUS_READY);
    assert_eq!(g.mem().data_cur(), mark + 10);
    g.take_commands();
    assert_eq!(run_frame(&mut g, 0, BUDGET), Ok(Progress::FrameDone));
    assert_eq!(g.mem().entry(2).status, STATUS_EMPTY);
    assert_eq!(g.mem().data_cur(), mark);
    // What makes up the part stays.
    assert_eq!(g.mem().entry(0x17).status, STATUS_READY);
    assert_eq!(g.mem().entry(0x18).status, STATUS_READY);
    assert_eq!(g.mem().entry(0x19).status, STATUS_READY);
    assert_eq!(g.take_commands().len(), 4);
    assert!(g.music().is_end_of_track());
}

#[test]
fn resources_opcode_asks_for_a_part() {
    let mut res = vec![
        plain(0x17, KIND_PALETTE, &test_palettes()),
        plain(0x18, KIND_BYTECODE, &[0x19, 0x3E, 0x82, 0x06]),
        plain(0x19, KIND_SHAPES, &[0u8; 16]),
        plain(0x1A, KIND_PALETTE, &test_palettes()),
        plain(0x1B, KIND_BYTECODE, &[0x00, 0x01, 0x00, 0x2A, 0x06]),
        plain(0x1C, KIND_SHAPES, &[0u8; 32]),
        plain(0x11, KIND_SHAPES, &[0u8; 8]),
    ];
    res[6].rank = 1;
    let mut g = new_game(&res, 0x1D, false);
    assert_eq!(restart_at(&mut g, 16001, -1, 0), Ok(()));
    assert_eq!(run_frame(&mut g, 0, BUDGET), Ok(Progress::FrameDone));
    assert_eq!(g.next_part(), Some(16002));
    assert_eq!(g.current_part(), 16001);
    assert_eq!(run_frame(&mut g, 40, BUDGET), Ok(Progress::FrameDone));
    assert_eq!(g.next_part(), None);
    assert_eq!(g.current_part(), 16002);
    assert_eq!(g.vm().reg(1), 42);
    assert_eq!(g.vm().last_swap_time(), 40);
    // The second video segment ranks highest and is loaded first.
    assert_eq!(g.mem().seg_video2(), 0);
    assert_eq!(g.mem().seg_video1(), 8);
    assert_eq!(g.mem().seg_code(), 40);
    assert_eq!(g.mem().seg_video_pal(), 45);
    assert_eq!(g.mem().entry(0x18).status, STATUS_EMPTY);
}

#[test]
fn resources_opcode_failures() {
    let mut g = machine(&[0x19, 0x00, 0x50, 0x06]);
    assert_eq!(run_frame(&mut g, 0, BUDGET), Err(Error::Corrupt));
    // Part 16002 is asked for and cannot be set up.
    let mut g = machine(&[0x19, 0x3E, 0x82, 0x06]);
    assert_eq!(run_frame(&mut g, 0, BUDGET), Ok(Progress::FrameDone));
    assert_eq!(run_frame(&mut g, 0, BUDGET), Err(Error::Corrupt));
}

#[test]
fn budget_interrupts_a_turn() {
    let code = [
        0x03, 0x01, 0x00, 0x01, // r1 += 1
        0x03, 0x01, 0x00, 0x01, 0x03, 0x01, 0x00, 0x01, 0x06,
    ];
    let mut g = machine(&code);
    assert_eq!(run_frame(&mut g, 0, 2), Ok(Progress::Suspended));
    assert_eq!(g.vm().reg(1), 2);
    assert!(g.vm().is_mid_frame());
    assert_eq!(run_frame(&mut g, 0, 2), Ok(Progress::FrameDone));
    assert_eq!(g.vm().reg(1), 3);
    assert!(!g.vm().is_mid_frame());
    // A task that never yields is interrupted again and again.
    let mut g = machine(&[0x03, 0x01, 0x00, 0x01, 0x07, 0x00, 0x00]);
    assert_eq!(run_frame(&mut g, 0, 10), Ok(Progress::Suspended));
    assert_eq!(g.vm().reg(1), 5);
    assert_eq!(run_frame(&mut g, 0, 10), Ok(Progress::Suspended));
    assert_eq!(g.vm().reg(1), 10);
}

#[test]
fn stage_and_run_by_hand() {
    let mut g = machine(&[0x00, 0x01, 0x00, 0x05, 0x06]);
    assert_eq!(stage_tasks(&mut g, 0), Ok(()));
    update_input(&mut g);
    assert_eq!(run_tasks(&mut g, BUDGET), Ok(Progress::FrameDone));
    assert_eq!(g.vm().reg(1), 5);
}

#[test]
fn controls_reach_the_registers() {
    let mut g = machine(&[0x06, 0x06, 0x06]);
    g.set_input(Input {
        last_char: Some(b'a'),
        right: true,
        left: false,
        down: true,
        up: false,
        button: true,
    });
    assert_eq!(run_frame(&mut g, 0, BUDGET), Ok(Progress::FrameDone));
    let vm = g.vm();
    assert_eq!(vm.reg(0xFC), 1);
    assert_eq!(vm.reg(0xE5), 1);
    assert_eq!(vm.reg(0xFB), 1);
    assert_eq!(vm.reg(0xFD), 1 | 4);
    assert_eq!(vm.reg(0xFA), 1);
    assert_eq!(vm.reg(0xFE), 1 | 4 | 0x80);
    // Keys are told on the password screen only.
    assert_eq!(vm.reg(0xDA), 0);
    assert_eq!(g.input().last_char, Some(b'a'));
    g.set_input(Input {
        last_char: None,
        right: true,
        left: true,
        down: false,
        up: true,
        button: false,
    });
    assert_eq!(run_frame(&mut g, 0, BUDGET), Ok(Progress::FrameDone));
    let vm = g.vm();
    // Left and up win over right and down.
    assert_eq!(vm.reg(0xFC), -1);
    assert_eq!(vm.reg(0xE5), -1);
    assert_eq!(vm.reg(0xFD), 1 | 2 | 8);
    assert_eq!(vm.reg(0xFA), 0);
    assert_eq!(vm.reg(0xFE), 1 | 2 | 8);
}

fn password_screen(key: Option<u8>) -> Game {
    let res = vec![
        plain(0x7D, KIND_PALETTE, &test_palettes()),
        plain(0x7E, KIND_BYTECODE, &[0x06, 0x06]),
        plain(0x7F, KIND_SHAPES, &[0u8; 16]),
    ];
    let mut g = new_game(&res, 0x80, false);
    assert_eq!(restart_at(&mut g, 16009, -1, 0), Ok(()));
    g.set_input(Input {
        last_char: key,
        right: false,
        left: false,
        down: false,
        up: false,
        button: false,
    });
    assert_eq!(run_frame(&mut g, 0, BUDGET), Ok(Progress::FrameDone));
    g
}

#[test]
fn password_screen_takes_keys() {
    let g = password_screen(Some(b'q'));
    assert_eq!(g.vm().reg(0xDA), b'Q' as i16);
    assert_eq!(g.input().last_char, None);
    let g = password_screen(Some(0x08));
    assert_eq!(g.vm().reg(0xDA), 0x08);
    let g = password_screen(Some(b'Q'));
    assert_eq!(g.vm().reg(0xDA), 0);
    assert_eq!(g.input().last_char, None);
    let g = password_screen(None);
    assert_eq!(g.vm().reg(0xDA), 0);
}

#[test]
fn password_screen_gets_palette_five() {
    let code = [0x0E, 0x00, 0x01, 0x06];
    let res = vec![
        plain(0x7D, KIND_PALETTE, &test_palettes()),
        plain(0x7E, KIND_BYTECODE, &code),
        plain(0x7F, KIND_SHAPES, &[0u8; 16]),
    ];
    let mut g = new_game(&res, 0x80, false);
    assert_eq!(restart_at(&mut g, 16009, -1, 0), Ok(()));
    assert_eq!(run_frame(&mut g, 0, BUDGET), Ok(Progress::FrameDone));
    // Colour 1 of palette 5 is blue.
    let mut out = vec![0u16; 64000];
    g.video().rndr.read_pixels(0, &mut out);
    assert_eq!(out[0], 0x001F);
}

#[test]
fn protection_is_bypassed() {
    let mut code = vec![
        0x00, 0x1E, 0x00, 0x0B, // 0: the symbols shown are 11, 12, 13, 14
        0x00, 0x1F, 0x00, 0x0C, 0x00, 0x20, 0x00, 0x0D, 0x00, 0x21, 0x00, 0x0E,
        0x0A, 0x81, 0x29, 0x29, 0x00, 0x1C, // 16: r 0x29 != r 0x29: to 28
        0x00, 0x01, 0x00, 0x01, // 22: r1 = 1
        0x06, // 26
    ];
    code.resize(28, 0);
    code.push(0x06);
    let res = vec![
        plain(0x14, KIND_PALETTE, &test_palettes()),
        plain(0x15, KIND_BYTECODE, &code),
        plain(0x16, KIND_SHAPES, &[0u8; 16]),
    ];
    let mut g = new_game(&res, 0x17, true);
    assert_eq!(restart_at(&mut g, 16000, -1, 0), Ok(()));
    assert_eq!(g.vm().reg(0x54), 0x81);
    assert_eq!(g.vm().reg(0xBC), 0x10);
    assert_eq!(g.vm().reg(0xC6), 0x80);
    assert_eq!(g.vm().reg(0xF2), 4000);
    assert_eq!(g.vm().reg(0xDC), 33);
    assert_eq!(run_frame(&mut g, 0, BUDGET), Ok(Progress::FrameDone));
    let vm = g.vm();
    assert_eq!(vm.reg(1), 0);
    assert_eq!(vm.reg(0x29), 11);
    assert_eq!(vm.reg(0x2A), 12);
    assert_eq!(vm.reg(0x2B), 13);
    assert_eq!(vm.reg(0x2C), 14);
    assert_eq!(vm.reg(0x32), 6);
    assert_eq!(vm.reg(0x64), 20);
    assert_eq!(vm.task_pc(0), 29);
    // Without the bypass the comparison counts.
    let mut g = new_game(&res, 0x17, false);
    assert_eq!(restart_at(&mut g, 16000, -1, 0), Ok(()));
    assert_eq!(g.vm().reg(0xBC), 0);
    assert_eq!(run_frame(&mut g, 0, BUDGET), Ok(Progress::FrameDone));
    assert_eq!(g.vm().reg(1), 1);
    assert_eq!(g.vm().reg(0x29), 0);
}

#[test]
fn looping_gun_sound_is_ended() {
    // Part 16006 with an add at 0x6D47: the sound 0x5B is played first.
    let mut code = vec![0x07, 0x6D, 0x47];
    code.resize(0x6D47, 0);
    code.extend_from_slice(&[0x03, 0x06, 0xFF, 0xCE, 0x06]);
    let mut res = vec![
        plain(0x26, KIND_PALETTE, &test_palettes()),
        plain(0x27, KIND_BYTECODE, &code),
        plain(0x28, KIND_SHAPES, &[0u8; 16]),
        plain(0x11, KIND_SHAPES, &[0u8; 16]),
        plain(0x5B, KIND_SOUND, &sound(1, 0, &[9, 8])),
    ];
    res[4].rank = 0;
    let mut g = new_game(&res, 0x5C, false);
    assert_eq!(restart_at(&mut g, 16006, -1, 0), Ok(()));
    assert_eq!(load_entry(&mut g, 0x5B), Ok(()));
    g.take_commands();
    assert_eq!(run_frame(&mut g, 0, BUDGET), Ok(Progress::FrameDone));
    assert_eq!(g.vm().reg(6), -50);
    let q = g.take_commands();
    assert_eq!(q.len(), 1);
    match &q[0] {
        HostCommand::PlaySound { channel, volume, samples, looping } => {
            assert_eq!(*channel, 1);
            assert_eq!(*volume, 63);
            assert_eq!(&samples[..], &[9, 8]);
            assert!(!*looping);
        }
        _ => panic!("a sound to play was expected"),
    }
}

#[test]
fn new_machine_draws_a_seed() {
    let a = Vm::new(true);
    assert_eq!(a.reg(0xBC), 0x10);
    assert_eq!(a.reg(0xC6), 0x80);
    assert_eq!(a.reg(0xF2), 4000);
    assert_eq!(a.reg(0xDC), 33);
    assert_eq!(a.reg(0), 0);
    assert_eq!(a.task_pc(0), 0xFFFF);
    assert!(!a.is_mid_frame());
    let b = Vm::new(false);
    assert_eq!(b.reg(0xBC), 0);
    assert_eq!(Vm::with_seed(-7, false).reg(0x3C), -7);
}
