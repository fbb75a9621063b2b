//! The aligned allocator built on the host's raw allocation primitive.
//!
//! The raw primitive returns blocks with no more than word alignment. A
//! request is therefore widened by the alignment and by one word, the
//! caller's pointer is the first suitably aligned address that leaves room
//! for a word in front of it, and that word records the address of the raw
//! block so that a release can hand it back to the host.

use vstd::layout::*;
use vstd::prelude::*;

verus! {

/// Width in bytes of the word in front of every pointer handed out.
pub open spec fn header_width() -> nat {
    size_of::<usize>()
}

/// The alignment actually used: never less than a word.
pub open spec fn effective_align(align: int) -> int {
    if align >= header_width() {
        align
    } else {
        header_width() as int
    }
}

/// Bytes asked of the raw primitive for `size` bytes aligned to `align`.
pub open spec fn total_size(size: int, align: int) -> int {
    size + effective_align(align) + header_width()
}

/// The least multiple of `align` that is not below `addr`.
pub open spec fn round_up(addr: int, align: int) -> int {
    if addr % align == 0 {
        addr
    } else {
        addr + align - addr % align
    }
}

/// The pointer handed out for a raw block that starts at `base`.
pub open spec fn user_address(base: int, align: int) -> int {
    round_up(base + header_width(), effective_align(align))
}

/// Whether `n` is one of 1, 2, 4, 8 and so on.
pub open spec fn is_power_of_two(n: int) -> bool
    decreases n,
{
    if n <= 0 {
        false
    } else if n == 1 {
        true
    } else {
        n % 2 == 0 && is_power_of_two(n / 2)
    }
}

/// The number of values that `n` bytes can spell.
pub open spec fn pow256(n: nat) -> nat
    decreases n,
{
    if n == 0 {
        1
    } else {
        256 * pow256((n - 1) as nat)
    }
}

/// The `n` low bytes of `x`, least significant first.
pub open spec fn word_bytes(x: nat, n: nat) -> Seq<u8>
    decreases n,
{
    if n == 0 {
        Seq::empty()
    } else {
        seq![(x % 256) as u8] + word_bytes(x / 256, (n - 1) as nat)
    }
}

/// The number that `bytes` spell, least significant first.
pub open spec fn word_value(bytes: Seq<u8>) -> nat
    decreases bytes.len(),
{
    if bytes.len() == 0 {
        0
    } else {
        bytes[0] as nat + 256 * word_value(bytes.drop_first())
    }
}

/// A number that fits in `n` bytes is read back from its bytes unchanged.
pub proof fn lemma_word_round_trip(x: nat, n: nat)
    requires
        x < pow256(n),
    ensures
        word_value(word_bytes(x, n)) == x,
    decreases n,
{
    if n > 0 {
        let rest = word_bytes(x / 256, (n - 1) as nat);
        lemma_word_round_trip(x / 256, (n - 1) as nat);
        assert(word_bytes(x, n).drop_first() =~= rest);
        assert(word_bytes(x, n)[0] == (x % 256) as u8);
    }
}

/// What `n` bytes spell is below `pow256(n)`.
pub proof fn lemma_word_value_bound(bytes: Seq<u8>)
    ensures
        word_value(bytes) < pow256(bytes.len()),
    decreases bytes.len(),
{
    if bytes.len() > 0 {
        lemma_word_value_bound(bytes.drop_first());
    }
}

/// The pointer handed out is a multiple of the alignment asked for, leaves
/// room for the word in front of it, and leaves `size` bytes behind it, all
/// within the bytes asked of the raw primitive.
pub proof fn lemma_user_address_fits(base: nat, size: nat, align: int)
    requires
        is_power_of_two(align),
    ensures
        user_address(base as int, align) % align == 0,
        user_address(base as int, align) % effective_align(align) == 0,
        base + header_width() <= user_address(base as int, align),
        user_address(base as int, align) + size <= base + total_size(size as int, align),
{
    broadcast use layout_of_primitives;

    let wide = effective_align(align);
    let start: int = (base + header_width()) as int;
    let user = user_address(base as int, align);
    assert(wide > 0);
    assert(user % wide == 0 && start <= user < start + wide) by (nonlinear_arith)
        requires
            wide > 0,
            start >= 0,
            user == round_up(start, wide),
    ;
    if align < header_width() {
        lemma_power_of_two_divides_word(align, user);
    }
}

/// Every address fits in a word.
pub proof fn lemma_word_holds_address()
    ensures
        header_width() == 4 || header_width() == 8,
        pow256(header_width()) == usize::MAX + 1,
{
    broadcast use layout_of_primitives;

    reveal_with_fuel(pow256, 9);
}

/// The width of a word on this machine.
pub fn header_size() -> (h: usize)
    ensures
        h == header_width(),
        h == 4 || h == 8,
{
    broadcast use layout_of_primitives;

    core::mem::size_of::<usize>()
}

/// Rounds `addr` up to a multiple of `align`.
pub fn align_up(addr: usize, align: usize) -> (r: usize)
    requires
        align > 0,
        addr + align <= usize::MAX,
    ensures
        r == round_up(addr as int, align as int),
        r % align == 0,
        addr <= r < addr + align,
{
    let rem: usize = addr % align;
    if rem == 0 {
        addr
    } else {
        assert((addr + (align - rem)) % (align as int) == 0) by (nonlinear_arith)
            requires
                rem == addr % align,
                align > 0,
        ;
        addr + (align - rem)
    }
}

/// Spells an address as the bytes of one word, least significant first.
pub fn encode_word(value: usize) -> (bytes: Vec<u8>)
    ensures
        bytes@ == word_bytes(value as nat, header_width()),
        bytes@.len() == header_width(),
        word_value(bytes@) == value,
{
    let width: usize = header_size();
    let mut bytes: Vec<u8> = Vec::new();
    let mut rest: usize = value;
    let mut i: usize = 0;
    while i < width
        invariant
            i <= width,
            width == header_width(),
            bytes@.len() == i,
            bytes@ + word_bytes(rest as nat, (width - i) as nat) =~= word_bytes(
                value as nat,
                width as nat,
            ),
        decreases width - i,
    {
        let low: u8 = (rest % 256) as u8;
        proof {
            let tail = word_bytes((rest / 256) as nat, (width - i - 1) as nat);
            assert(word_bytes(rest as nat, (width - i) as nat) =~= seq![low] + tail);
            assert(bytes@.push(low) + tail =~= bytes@ + (seq![low] + tail));
        }
        bytes.push(low);
        rest = rest / 256;
        i = i + 1;
    }
    proof {
        assert(word_bytes(rest as nat, 0) =~= Seq::<u8>::empty());
        assert(bytes@ =~= word_bytes(value as nat, width as nat));
        lemma_word_holds_address();
        lemma_word_round_trip(value as nat, width as nat);
    }
    bytes
}

/// Reads the address that the bytes of one word spell.
pub fn decode_word(bytes: &[u8]) -> (value: usize)
    requires
        bytes@.len() == header_width(),
    ensures
        value == word_value(bytes@),
{
    let width: usize = header_size();
    let mut value: usize = 0;
    let mut i: usize = width;
    proof {
        lemma_word_holds_address();
        assert(bytes@.skip(width as int) =~= Seq::<u8>::empty());
    }
    while i > 0
        invariant
            i <= width,
            width == header_width(),
            bytes@.len() == width,
            value == word_value(bytes@.skip(i as int)),
            pow256(width as nat) == usize::MAX + 1,
        decreases i,
    {
        proof {
            let longer = bytes@.skip(i - 1);
            assert(longer.drop_first() =~= bytes@.skip(i as int));
            assert(longer[0] == bytes@[i - 1]);
            lemma_word_value_bound(longer);
            lemma_pow256_grows(longer.len(), width as nat);
        }
        value = value * 256 + bytes[i - 1] as usize;
        i = i - 1;
    }
    assert(bytes@.skip(0) =~= bytes@);
    value
}

/// More bytes spell no fewer values.
pub proof fn lemma_pow256_grows(m: nat, n: nat)
    requires
        m <= n,
    ensures
        pow256(m) <= pow256(n),
    decreases n,
{
    if m < n {
        lemma_pow256_grows(m, (n - 1) as nat);
    }
}

/// What an allocation request comes to before the host is asked.
#[derive(Copy, Clone, Debug, PartialEq, Eq, Structural)]
pub enum AllocStep {
    /// Nothing is needed from the host: the request is for no bytes, and the
    /// address given stands for it. It is never dereferenced.
    Dangling(usize),
    /// The request cannot be expressed in a word: the answer is null.
    Null,
    /// The host is to be asked for this many bytes.
    Raw(usize),
}

/// Where the caller's pointer lies in a raw block, and the word to store in
/// front of it.
pub struct Placement {
    pub user: usize,
    pub header: Vec<u8>,
}

/// A stretch of the job's address space: the bytes from address `origin` on.
/// Raw blocks lie inside it.
pub struct Memory {
    pub origin: usize,
    pub bytes: Vec<u8>,
}

impl Memory {
    /// The stretch ends within the address space.
    pub open spec fn wf(&self) -> bool {
        self.origin + self.bytes@.len() <= usize::MAX
    }

    /// Whether the addresses from `lo` up to `hi` lie within the stretch.
    pub open spec fn holds(&self, lo: int, hi: int) -> bool {
        self.origin <= lo <= hi <= self.origin + self.bytes@.len()
    }

    /// The byte at address `addr`.
    pub open spec fn at(&self, addr: int) -> u8 {
        self.bytes@[addr - self.origin]
    }

    /// The word stored just in front of address `ptr`.
    pub open spec fn header_before(&self, ptr: int) -> Seq<u8> {
        self.bytes@.subrange(ptr - header_width() - self.origin, ptr - self.origin)
    }
}

/// The address that a release of `ptr` hands to the raw primitive, if any.
pub open spec fn release_target(mem: Memory, ptr: usize, size: usize) -> Option<usize> {
    if size == 0 || ptr == 0 {
        None
    } else {
        Some(word_value(mem.header_before(ptr as int)) as usize)
    }
}

/// The allocator that serves aligned requests from the raw primitive.
#[derive(Copy, Clone, Debug)]
pub struct MagnoliaAlloc;

impl MagnoliaAlloc {
    /// First half of an allocation: decides whether the host is asked at all,
    /// and for how much. A request for no bytes never reaches the host.
    pub fn request(&self, size: usize, align: usize) -> (step: AllocStep)
        ensures
            size == 0 ==> step == AllocStep::Dangling(align),
            size > 0 && total_size(size as int, align as int) <= usize::MAX ==> step
                == AllocStep::Raw(total_size(size as int, align as int) as usize),
            size > 0 && total_size(size as int, align as int) > usize::MAX ==> step
                == AllocStep::Null,
    {
        if size == 0 {
            return AllocStep::Dangling(align);
        }
        let width: usize = header_size();
        let align: usize = if align >= width { align } else { width };
        match size.checked_add(align) {
            Some(padded) => match padded.checked_add(width) {
                Some(total) => AllocStep::Raw(total),
                None => AllocStep::Null,
            },
            None => AllocStep::Null,
        }
    }

    /// Second half of an allocation: given the address that the raw primitive
    /// returned for the widened request, says where the caller's pointer lies
    /// and which word goes in front of it. A null block gives nothing.
    pub fn place(&self, base: usize, size: usize, align: usize) -> (placed: Option<Placement>)
        requires
            size > 0,
            align > 0,
            base != 0 ==> base + total_size(size as int, align as int) <= usize::MAX,
        ensures
            base == 0 <==> placed is None,
            placed matches Some(p) ==> {
                &&& p.user == user_address(base as int, align as int)
                &&& p.user % (effective_align(align as int) as usize) == 0
                &&& is_power_of_two(align as int) ==> p.user % align == 0
                &&& base + header_width() <= p.user
                &&& p.user + size <= base + total_size(size as int, align as int)
                &&& p.header@ == word_bytes(base as nat, header_width())
                &&& p.header@.len() == header_width()
                &&& word_value(p.header@) == base
            },
    {
        if base == 0 {
            return None;
        }
        let width: usize = header_size();
        let wide: usize = if align >= width { align } else { width };
        let user: usize = align_up(base + width, wide);
        proof {
            if is_power_of_two(align as int) && align < width {
                lemma_power_of_two_divides_word(align as int, user as int);
            }
        }
        Some(Placement { user, header: encode_word(base) })
    }

    /// First half of a release: the address of the word to read, or nothing
    /// where there is nothing to release.
    pub fn dealloc(&self, ptr: usize, size: usize) -> (header: Option<usize>)
        requires
            size != 0 && ptr != 0 ==> ptr >= header_width(),
        ensures
            size == 0 || ptr == 0 ==> header is None,
            size != 0 && ptr != 0 ==> header == Some((ptr - header_width()) as usize),
    {
        if size == 0 {
            return None;
        }
        if ptr == 0 {
            return None;
        }
        Some(ptr - header_size())
    }
}

impl MagnoliaAlloc {
    /// Carries the second half of an allocation out in memory, for a raw
    /// block of the widened size that starts at `base`: stores `base` in the
    /// word in front of the caller's pointer and returns that pointer. The
    /// word and the caller's bytes lie inside the raw block, and no byte but
    /// those of the word changes.
    pub fn install(&self, mem: &mut Memory, base: usize, size: usize, align: usize) -> (user: usize)
        requires
            size > 0,
            align > 0,
            base != 0,
            old(mem).wf(),
            old(mem).holds(base as int, base + total_size(size as int, align as int)),
        ensures
            final(mem).origin == old(mem).origin,
            final(mem).bytes@.len() == old(mem).bytes@.len(),
            user == user_address(base as int, align as int),
            user != 0,
            is_power_of_two(align as int) ==> user % align == 0,
            base <= user - header_width(),
            user + size <= base + total_size(size as int, align as int),
            final(mem).header_before(user as int) == word_bytes(base as nat, header_width()),
            release_target(*final(mem), user, size) == Some(base),
            forall|addr: int|
                old(mem).holds(addr, addr + 1) && !(user - header_width() <= addr < user)
                    ==> final(mem).at(addr) == old(mem).at(addr),
    {
        let width: usize = header_size();
        let placed = self.place(base, size, align);
        let p = placed.unwrap();
        let start: usize = p.user - width - mem.origin;
        let mut i: usize = 0;
        while i < width
            invariant
                i <= width,
                width == header_width(),
                p.header@.len() == width,
                mem.origin == old(mem).origin,
                mem.bytes@.len() == old(mem).bytes@.len(),
                start + width <= mem.bytes@.len() <= usize::MAX,
                forall|j: int| 0 <= j < i ==> mem.bytes@[start + j] == p.header@[j],
                forall|k: int|
                    0 <= k < mem.bytes@.len() && !(start <= k < start + i) ==> mem.bytes@[k] == old(
                        mem,
                    ).bytes@[k],
            decreases width - i,
        {
            mem.bytes.set(start + i, p.header[i]);
            i = i + 1;
        }
        assert(mem.header_before(p.user as int) =~= p.header@);
        p.user
    }

    /// Carries a release out in memory: reads the word in front of `ptr` and
    /// returns the address to hand to the raw primitive, or nothing where
    /// there is nothing to release.
    pub fn release(&self, mem: &Memory, ptr: usize, size: usize) -> (target: Option<usize>)
        requires
            size != 0 && ptr != 0 ==> ptr >= header_width() && mem.holds(
                ptr - header_width(),
                ptr as int,
            ),
        ensures
            target == release_target(*mem, ptr, size),
    {
        match self.dealloc(ptr, size) {
            Some(at) => {
                let word = vstd::slice::slice_subrange(
                    mem.bytes.as_slice(),
                    at - mem.origin,
                    ptr - mem.origin,
                );
                Some(decode_word(word))
            },
            None => None,
        }
    }
}

/// A release finds the address that the raw primitive returned for as long as
/// the word in front of the pointer is left alone. Whatever is written to the
/// caller's own bytes, and whatever is allocated, written or released in
/// other raw blocks in the meantime, changes nothing: none of it touches the
/// word.
pub proof fn lemma_header_survives(before: Memory, after: Memory, ptr: usize, size: usize)
    requires
        before.origin == after.origin,
        before.bytes@.len() == after.bytes@.len(),
        ptr >= header_width(),
        before.holds(ptr - header_width(), ptr as int),
        forall|addr: int| ptr - header_width() <= addr < ptr ==> after.at(addr) == before.at(addr),
    ensures
        release_target(after, ptr, size) == release_target(before, ptr, size),
{
    assert forall|i: int| 0 <= i < header_width() implies after.header_before(ptr as int)[i]
        == before.header_before(ptr as int)[i] by {
        let addr = ptr - header_width() + i;
        assert(after.at(addr) == before.at(addr));
    }
    assert(after.header_before(ptr as int) =~= before.header_before(ptr as int));
}

/// An allocation in one raw block leaves every pointer handed out from a
/// block apart from it as it was: a release of such a pointer finds the same
/// address before and after.
pub proof fn lemma_blocks_are_independent(
    before: Memory,
    after: Memory,
    ptr: usize,
    size: usize,
    lo: int,
    hi: int,
)
    requires
        before.origin == after.origin,
        before.bytes@.len() == after.bytes@.len(),
        ptr >= header_width(),
        before.holds(ptr - header_width(), ptr as int),
        hi <= ptr - header_width() || ptr <= lo,
        forall|addr: int|
            before.holds(addr, addr + 1) && !(lo <= addr < hi) ==> after.at(addr) == before.at(addr),
    ensures
        release_target(after, ptr, size) == release_target(before, ptr, size),
{
    lemma_header_survives(before, after, ptr, size);
}

/// One allocation that has been handed out and not yet released: the raw
/// block from `base` on, `total` bytes long, and the caller's pointer into it.
pub struct Grant {
    pub base: usize,
    pub total: usize,
    pub user: usize,
    pub size: usize,
}

/// The grant's word is in place: it lies inside the grant's raw block, and a
/// release of the grant's pointer finds the block's address.
pub open spec fn intact(mem: Memory, grant: Grant) -> bool {
    &&& grant.size > 0
    &&& grant.user >= header_width()
    &&& mem.holds(grant.base as int, grant.base + grant.total)
    &&& grant.base <= grant.user - header_width()
    &&& grant.user <= grant.base + grant.total
    &&& release_target(mem, grant.user, grant.size) == Some(grant.base)
}

/// The raw blocks of two grants share no address.
pub open spec fn apart(a: Grant, b: Grant) -> bool {
    a.base + a.total <= b.base || b.base + b.total <= a.base
}

/// Every grant of `live` is intact.
pub open spec fn all_intact(mem: Memory, live: Seq<Grant>) -> bool {
    forall|i: int| 0 <= i < live.len() ==> intact(mem, #[trigger] live[i])
}

/// Allocating keeps every earlier grant intact. Whatever changes inside the
/// raw block of a new grant, which shares no address with the blocks of the
/// grants that are live, each of them still finds the address of its own
/// block, and so does the new one. As this holds of each allocation, and a
/// release changes no byte, it holds after any sequence of allocations and
/// releases, in whatever order and with whatever alignments.
pub proof fn lemma_allocation_keeps_grants(
    before: Memory,
    after: Memory,
    live: Seq<Grant>,
    fresh: Grant,
)
    requires
        all_intact(before, live),
        forall|i: int| 0 <= i < live.len() ==> apart(#[trigger] live[i], fresh),
        before.origin == after.origin,
        before.bytes@.len() == after.bytes@.len(),
        forall|addr: int|
            before.holds(addr, addr + 1) && !(fresh.base <= addr < fresh.base + fresh.total)
                ==> after.at(addr) == before.at(addr),
        intact(after, fresh),
    ensures
        all_intact(after, live.push(fresh)),
{
    assert forall|i: int| 0 <= i < live.push(fresh).len() implies intact(
        after,
        #[trigger] live.push(fresh)[i],
    ) by {
        if i < live.len() {
            let g = live[i];
            assert(intact(before, g) && apart(g, fresh));
            lemma_blocks_are_independent(
                before,
                after,
                g.user,
                g.size,
                fresh.base as int,
                fresh.base + fresh.total,
            );
        }
    }
}

/// Releasing one grant leaves the others intact.
pub proof fn lemma_release_keeps_grants(mem: Memory, live: Seq<Grant>, index: int)
    requires
        all_intact(mem, live),
        0 <= index < live.len(),
    ensures
        release_target(mem, live[index].user, live[index].size) == Some(live[index].base),
        all_intact(mem, live.remove(index)),
{
    assert forall|i: int| 0 <= i < live.remove(index).len() implies intact(
        mem,
        #[trigger] live.remove(index)[i],
    ) by {
        if i < index {
            assert(live.remove(index)[i] == live[i]);
        } else {
            assert(live.remove(index)[i] == live[i + 1]);
        }
    }
}

/// Releasing what was handed out for a request of no bytes does nothing,
/// whatever the address.
pub proof fn lemma_zero_size_is_inert(mem: Memory, ptr: usize)
    ensures
        release_target(mem, ptr, 0) is None,
{
}

/// A multiple of the word width is a multiple of every smaller power of two.
pub proof fn lemma_power_of_two_divides_word(align: int, addr: int)
    requires
        is_power_of_two(align),
        align < header_width(),
        addr % (header_width() as int) == 0,
    ensures
        addr % align == 0,
{
    broadcast use layout_of_primitives;

    reveal_with_fuel(is_power_of_two, 4);
    assert(align == 1 || align == 2 || align == 4);
    let width = header_width() as int;
    assert(width == 4 || width == 8);
    if width == 4 {
        assert(addr % 4 == 0);
        assert(addr % 2 == 0 && addr % 1 == 0);
    } else {
        assert(addr % 8 == 0);
        assert(addr % 4 == 0 && addr % 2 == 0 && addr % 1 == 0);
    }
}

} // verus!
