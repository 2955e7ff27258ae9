//! Word-aligned byte patching.
//!
//! The process-tracing memory interface moves whole words (8 bytes on
//! x86-64) at word-aligned addresses.  Planting a software breakpoint at an
//! arbitrary address therefore means: read the containing word, swap one
//! byte for the trap opcode `0xCC`, write the word back, and remember the
//! displaced byte so it can be restored later.  This module holds that
//! arithmetic, exactly, together with the laws the debugger relies on: the
//! saved byte is recovered by a round trip, and no byte outside the target
//! offset is disturbed.

use vstd::prelude::*;

verus! {

/// The one-byte trap opcode planted at a breakpoint address.
pub const TRAP_OPCODE: u8 = 0xCC;

/// The word-aligned address whose word contains `addr`.
pub open spec fn spec_align(addr: usize) -> usize {
    (addr - (addr % 8)) as usize
}

/// The byte at byte-offset `off` within the word `w` (little-endian order,
/// as the tracing interface presents memory on x86-64).
pub open spec fn spec_byte_of(w: u64, off: usize) -> u8
    recommends
        off < 8,
{
    ((w >> ((8 * off) as u64)) & 0xff) as u8
}

/// The word `w` with the byte at byte-offset `off` replaced by `v`.
pub open spec fn spec_set_byte(w: u64, off: usize, v: u8) -> u64
    recommends
        off < 8,
{
    (w & !(0xffu64 << ((8 * off) as u64))) | ((v as u64) << ((8 * off) as u64))
}

/// Round `addr` down to the start of its containing word.
pub fn align_addr_to_word(addr: usize) -> (r: usize)
    ensures
        r == spec_align(addr),
        r <= addr,
        addr - r < 8,
        r % 8 == 0,
{
    addr - (addr % 8)
}

/// Extract the byte at offset `off` of the word `w`.
pub fn byte_of_word(w: u64, off: usize) -> (r: u8)
    requires
        off < 8,
    ensures
        r == spec_byte_of(w, off),
{
    let sh: u64 = 8 * (off as u64);
    let shifted: u64 = w >> sh;
    proof {
        assert((shifted & 0xff) <= 0xff) by (bit_vector);
    }
    (shifted & 0xff) as u8
}

/// Replace the byte at offset `off` of the word `w` by `v`.
pub fn set_byte_in_word(w: u64, off: usize, v: u8) -> (r: u64)
    requires
        off < 8,
    ensures
        r == spec_set_byte(w, off, v),
{
    let sh: u64 = 8 * (off as u64);
    (w & !(0xffu64 << sh)) | ((v as u64) << sh)
}

/// Reading back a byte just written yields that byte: writing `v` at
/// offset `off` and then extracting offset `off` gives `v`.
pub proof fn lemma_set_then_get(w: u64, off: usize, v: u8)
    requires
        off < 8,
    ensures
        spec_byte_of(spec_set_byte(w, off, v), off) == v,
{
    let sh = (8 * off) as u64;
    assert(((((w & !(0xffu64 << sh)) | ((v as u64) << sh)) >> sh) & 0xff) as u8 == v)
        by (bit_vector)
        requires
            sh < 64 && sh % 8 == 0,
    ;
}

/// Bytes at other offsets are untouched: writing at offset `off` leaves
/// the byte at any different offset `other` exactly as it was.
pub proof fn lemma_set_preserves_others(w: u64, off: usize, other: usize, v: u8)
    requires
        off < 8,
        other < 8,
        other != off,
    ensures
        spec_byte_of(spec_set_byte(w, off, v), other) == spec_byte_of(w, other),
{
    let sh = (8 * off) as u64;
    let sh2 = (8 * other) as u64;
    assert(((((w & !(0xffu64 << sh)) | ((v as u64) << sh)) >> sh2) & 0xff) as u8 == ((w >> sh2)
        & 0xff) as u8)
        by (bit_vector)
        requires
            sh < 64 && sh % 8 == 0 && sh2 < 64 && sh2 % 8 == 0 && sh != sh2,
    ;
}

/// The byte-patch round trip restores the whole word: overwrite the byte at
/// `off` (for instance with the trap opcode), then write the displaced byte
/// back, and the word is again exactly what it was.
pub proof fn lemma_patch_round_trip(w: u64, off: usize, v: u8)
    requires
        off < 8,
    ensures
        spec_set_byte(spec_set_byte(w, off, v), off, spec_byte_of(w, off)) == w,
{
    let sh = (8 * off) as u64;
    assert(((((w & !(0xffu64 << sh)) | ((v as u64) << sh)) & !(0xffu64 << sh)) | ((((w >> sh)
        & 0xff) as u8 as u64) << sh)) == w)
        by (bit_vector)
        requires
            sh < 64 && sh % 8 == 0,
    ;
}

/// Model of installing breakpoints one after another.  `mem` is a model of
/// the tracee's memory, one byte per address; `table` is the breakpoint
/// byte table built so far.  Each address of `addrs` not already in the
/// table has its current byte recorded and is overwritten with the trap
/// opcode; an address already in the table is left alone, so the byte
/// recorded for it stays the one the program originally had there.
pub open spec fn spec_install(
    mem: Map<usize, u8>,
    table: Map<usize, u8>,
    addrs: Seq<usize>,
) -> (Map<usize, u8>, Map<usize, u8>)
    decreases addrs.len(),
{
    if addrs.len() == 0 {
        (mem, table)
    } else {
        let a = addrs[0];
        if table.dom().contains(a) {
            spec_install(mem, table, addrs.drop_first())
        } else {
            spec_install(mem.insert(a, TRAP_OPCODE), table.insert(a, mem[a]), addrs.drop_first())
        }
    }
}

/// The breakpoint-table invariant over a memory model: relative to the
/// pristine memory `mem0`, every tabled address currently holds the trap
/// opcode and its table entry holds the pristine byte, while every other
/// address is untouched.
pub open spec fn table_inv(mem0: Map<usize, u8>, mem: Map<usize, u8>, table: Map<usize, u8>) -> bool {
    &&& mem.dom() =~= mem0.dom()
    &&& forall|a: usize| #[trigger]
        table.dom().contains(a) ==> mem0.dom().contains(a) && mem[a] == TRAP_OPCODE && table[a]
            == mem0[a]
    &&& forall|a: usize|
        mem0.dom().contains(a) && !table.dom().contains(a) ==> #[trigger] mem[a] == mem0[a]
}

/// Installing breakpoints preserves the table invariant, and afterwards the
/// table covers exactly the old table plus the installed addresses.  In
/// particular, starting from an empty table: every address in the table of
/// a stopped tracee holds `0xCC`, and the table maps it to the byte the
/// pristine memory had there.
pub proof fn lemma_install_preserves_inv(
    mem0: Map<usize, u8>,
    mem: Map<usize, u8>,
    table: Map<usize, u8>,
    addrs: Seq<usize>,
)
    requires
        table_inv(mem0, mem, table),
        forall|i: int| 0 <= i < addrs.len() ==> mem0.dom().contains(#[trigger] addrs[i]),
    ensures
        table_inv(mem0, spec_install(mem, table, addrs).0, spec_install(mem, table, addrs).1),
        forall|a: usize|
            #[trigger] spec_install(mem, table, addrs).1.dom().contains(a) <==> table.dom().contains(
                a,
            ) || addrs.contains(a),
    decreases addrs.len(),
{
    if addrs.len() == 0 {
    } else {
        let a = addrs[0];
        let rest = addrs.drop_first();
        assert(forall|i: int| 0 <= i < rest.len() ==> rest[i] == addrs[i + 1]);
        if table.dom().contains(a) {
            lemma_install_preserves_inv(mem0, mem, table, rest);
            assert(spec_install(mem, table, addrs) == spec_install(mem, table, rest));
            assert(forall|x: usize|
                #[trigger] spec_install(mem, table, rest).1.dom().contains(x)
                    <==> table.dom().contains(x) || rest.contains(x));
        } else {
            let mem2 = mem.insert(a, TRAP_OPCODE);
            let table2 = table.insert(a, mem[a]);
            assert(mem[a] == mem0[a]);
            assert(table_inv(mem0, mem2, table2));
            lemma_install_preserves_inv(mem0, mem2, table2, rest);
            assert(spec_install(mem, table, addrs) == spec_install(mem2, table2, rest));
            assert(forall|x: usize|
                #[trigger] spec_install(mem2, table2, rest).1.dom().contains(x)
                    <==> table2.dom().contains(x) || rest.contains(x));
            assert(forall|x: usize|
                #[trigger] table2.dom().contains(x) <==> table.dom().contains(x) || x == a);
        }
        assert forall|x: usize| addrs.contains(x) implies x == a || rest.contains(x) by {
            let i = choose|i: int| 0 <= i < addrs.len() && addrs[i] == x;
            if i != 0 {
                assert(rest[i - 1] == x);
                assert(rest.contains(x));
            }
        }
        assert forall|x: usize| x == a || rest.contains(x) implies addrs.contains(x) by {
            if x == a {
                assert(addrs[0] == x);
            } else {
                let i = choose|i: int| 0 <= i < rest.len() && rest[i] == x;
                assert(addrs[i + 1] == x);
            }
        }
    }
}

/// Restoring a saved byte gives back the pristine memory at that address:
/// under the table invariant, writing `table[a]` to `a` makes the byte at
/// `a` equal to what the pristine memory held, and reading it back yields
/// exactly the byte that was written.
pub proof fn lemma_restore_saved_byte(
    mem0: Map<usize, u8>,
    mem: Map<usize, u8>,
    table: Map<usize, u8>,
    a: usize,
)
    requires
        table_inv(mem0, mem, table),
        table.dom().contains(a),
    ensures
        mem.insert(a, table[a])[a] == mem0[a],
        mem.insert(a, table[a])[a] == table[a],
{
}

} // verus!
