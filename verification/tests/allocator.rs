use magnolia_applet::rt::{align_up, decode_word, encode_word, header_size, AllocStep, MagnoliaAlloc, Memory};

const WORD: usize = std::mem::size_of::<usize>();

fn memory(origin: usize, len: usize) -> Memory {
    Memory { origin, bytes: vec![0xAA; len] }
}

fn total(size: usize, align: usize) -> usize {
    match MagnoliaAlloc.request(size, align) {
        AllocStep::Raw(total) => total,
        other => panic!("expected a raw request, got {:?}", other),
    }
}

#[test]
fn header_is_one_word() {
    assert_eq!(header_size(), WORD);
}

#[test]
fn zero_size_request_is_dangling() {
    for align in [1usize, 2, 8, 64, 4096] {
        assert_eq!(MagnoliaAlloc.request(0, align), AllocStep::Dangling(align));
    }
}

#[test]
fn request_adds_alignment_and_header() {
    assert_eq!(MagnoliaAlloc.request(10, 16), AllocStep::Raw(10 + 16 + WORD));
    assert_eq!(MagnoliaAlloc.request(1, 4096), AllocStep::Raw(1 + 4096 + WORD));
}

#[test]
fn request_uses_at_least_word_alignment() {
    assert_eq!(MagnoliaAlloc.request(10, 1), AllocStep::Raw(10 + WORD + WORD));
    assert_eq!(MagnoliaAlloc.request(3, 2), AllocStep::Raw(3 + WORD + WORD));
}

#[test]
fn request_overflow_is_null() {
    assert_eq!(MagnoliaAlloc.request(usize::MAX, 8), AllocStep::Null);
    assert_eq!(MagnoliaAlloc.request(usize::MAX - 16, 16), AllocStep::Null);
    assert_eq!(MagnoliaAlloc.request(usize::MAX - 16 - WORD + 1, 16), AllocStep::Null);
    assert_eq!(MagnoliaAlloc.request(16, usize::MAX), AllocStep::Null);
}

#[test]
fn request_at_the_limit_succeeds() {
    assert_eq!(MagnoliaAlloc.request(usize::MAX - 16 - WORD, 16), AllocStep::Raw(usize::MAX));
}

#[test]
fn align_up_exact_values() {
    assert_eq!(align_up(0, 8), 0);
    assert_eq!(align_up(1, 8), 8);
    assert_eq!(align_up(8, 8), 8);
    assert_eq!(align_up(9, 8), 16);
    assert_eq!(align_up(4097, 4096), 8192);
    assert_eq!(align_up(7, 1), 7);
}

#[test]
fn place_null_block_gives_nothing() {
    assert!(MagnoliaAlloc.place(0, 16, 8).is_none());
}

#[test]
fn place_exact_address() {
    let placed = MagnoliaAlloc.place(0x1000, 24, 64).unwrap();
    assert_eq!(placed.user, 0x1040);
    assert_eq!(decode_word(&placed.header), 0x1000);
    let placed = MagnoliaAlloc.place(0x1001, 24, 1).unwrap();
    assert_eq!(placed.user, align_up(0x1001 + WORD, WORD));
}

#[test]
fn place_is_aligned_and_inside_the_block() {
    let mut align = 1usize;
    while align <= 4096 {
        for base in [1usize, 8, 0x1000, 0x1003, 0x0fff_fff9] {
            for size in [1usize, 7, 64, 5000] {
                let total = total(size, align);
                let placed = MagnoliaAlloc.place(base, size, align).unwrap();
                assert_eq!(placed.user % align, 0);
                assert!(placed.user >= base + WORD);
                assert!(placed.user + size <= base + total);
                assert_eq!(placed.header.len(), WORD);
                assert_eq!(decode_word(&placed.header), base);
            }
        }
        align *= 2;
    }
}

#[test]
fn word_encoding_is_least_significant_first() {
    let bytes = encode_word(0x0102_0304);
    assert_eq!(bytes.len(), WORD);
    assert_eq!(&bytes[..4], &[4u8, 3, 2, 1]);
    assert!(bytes[4..].iter().all(|b| *b == 0));
}

#[test]
fn word_encoding_round_trips() {
    for value in [0usize, 1, 255, 256, 0xdead_beef, usize::MAX, usize::MAX - 1] {
        assert_eq!(decode_word(&encode_word(value)), value);
    }
}

#[test]
fn decode_word_exact_value() {
    let mut bytes = vec![0u8; WORD];
    bytes[0] = 0x34;
    bytes[1] = 0x12;
    assert_eq!(decode_word(&bytes), 0x1234);
}

#[test]
fn dealloc_of_nothing_is_nothing() {
    assert_eq!(MagnoliaAlloc.dealloc(0x2000, 0), None);
    assert_eq!(MagnoliaAlloc.dealloc(0, 16), None);
    assert_eq!(MagnoliaAlloc.dealloc(0, 0), None);
    assert_eq!(MagnoliaAlloc.dealloc(1, 0), None);
}

#[test]
fn dealloc_reads_the_word_in_front() {
    assert_eq!(MagnoliaAlloc.dealloc(0x2000, 16), Some(0x2000 - WORD));
}

#[test]
fn install_then_release_recovers_the_base() {
    let mut align = 1usize;
    while align <= 4096 {
        let size = 40usize;
        let base = 0x7000 + 3;
        let mut mem = memory(base, total(size, align));
        let user = MagnoliaAlloc.install(&mut mem, base, size, align);
        assert_eq!(user % align, 0);
        assert_eq!(MagnoliaAlloc.release(&mem, user, size), Some(0x7003));
        align *= 2;
    }
}

#[test]
fn install_exact_layout() {
    let mut mem = memory(0x1000, 256);
    let user = MagnoliaAlloc.install(&mut mem, 0x1010, 24, 64);
    assert_eq!(user, 0x1040);
    let at = user - mem.origin;
    assert_eq!(&mem.bytes[at - WORD..at], encode_word(0x1010).as_slice());
}

#[test]
fn install_touches_only_the_header() {
    let size = 10usize;
    let mut mem = memory(0x4000, 512);
    let user = MagnoliaAlloc.install(&mut mem, 0x4001, size, 32);
    let at = user - mem.origin;
    for (i, byte) in mem.bytes.iter().enumerate() {
        if i < at - WORD || i >= at {
            assert_eq!(*byte, 0xAA);
        }
    }
    assert_eq!(&mem.bytes[at - WORD..at], encode_word(0x4001).as_slice());
    assert!(user + size <= 0x4001 + total(size, 32));
}

#[test]
fn header_survives_writes_to_the_user_bytes() {
    let size = 100usize;
    let mut mem = memory(0x9000, total(size, 16));
    let user = MagnoliaAlloc.install(&mut mem, 0x9000, size, 16);
    let at = user - mem.origin;
    for byte in mem.bytes[at..at + size].iter_mut() {
        *byte = 0xFF;
    }
    assert_eq!(MagnoliaAlloc.release(&mem, user, size), Some(0x9000));
}

#[test]
fn interleaved_allocations_each_recover_their_own_base() {
    let requests = [(1usize, 1usize), (24, 8), (3, 4096), (4096, 64), (17, 2), (64, 512)];
    let mut mem = memory(0x1_0000, 0x8000);
    let mut next_base = 0x1_0000usize + 5;
    let mut live: Vec<(usize, usize, usize)> = Vec::new();
    for (round, (size, align)) in requests.iter().enumerate() {
        let base = next_base;
        next_base += total(*size, *align) + round;
        let user = MagnoliaAlloc.install(&mut mem, base, *size, *align);
        assert_eq!(user % align, 0);
        let at = user - mem.origin;
        for byte in mem.bytes[at..at + size].iter_mut() {
            *byte = round as u8;
        }
        live.push((base, user, *size));
        if round % 2 == 1 {
            let (old_base, old_user, old_size) = live.remove(0);
            assert_eq!(MagnoliaAlloc.release(&mem, old_user, old_size), Some(old_base));
        }
    }
    assert!(next_base <= mem.origin + mem.bytes.len());
    for (base, user, size) in live.iter() {
        assert_eq!(MagnoliaAlloc.release(&mem, *user, *size), Some(*base));
    }
}

#[test]
fn release_of_zero_size_ignores_memory() {
    let mem = memory(0x5000, 4);
    assert_eq!(MagnoliaAlloc.release(&mem, 16, 0), None);
    assert_eq!(MagnoliaAlloc.release(&mem, 0, 8), None);
}

#[test]
fn test_allocator() {
    let mut v = Vec::new();
    for i in 0..64u8 {
        v.push(i);
    }
    assert_eq!(v.len(), 64);
    assert_eq!(v[0], 0);
    assert_eq!(v[63], 63);
}
