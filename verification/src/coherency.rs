//! Coherency of the data cache with DMA: what the exerciser does to a shared
//! buffer, with and without cache maintenance, and what the processor and a DMA
//! controller then see.
use crate::mmio::MmioOp;
use vstd::prelude::*;

verus! {

/// The shared buffer.
pub const BUF: u32 = 0x3000_0000;

/// Data cache: invalidate the line of an address.
pub const DCIMVAC: u32 = 0xE000_EF5C;

/// Data cache: clean the line of an address.
pub const DCCMVAC: u32 = 0xE000_EF68;

/// The markers, one word each.
pub const MARKERS: u32 = 0x2001_F000;

/// Marks a finished phase.
pub const DONE: u32 = 0xD09E;

/// What the processor writes in the second phase.
pub const WRITTEN: u32 = 0xCAFE_BABE;

/// A marker, by its place.
#[derive(Debug, Clone, Copy, PartialEq, Eq, Structural)]
pub enum Marker {
    /// The line is cached; the DMA write may come.
    Cached,
    /// Go on after the DMA write.
    Go1,
    /// Invalidate before reading again.
    Fix1,
    /// What the processor read.
    Result,
    /// The first phase is done.
    Done1,
    /// The line is written; the DMA read may come.
    Dirty,
    /// Go on after the DMA read.
    Go2,
    /// Clean after writing.
    Fix2,
    /// The second phase is done.
    Done2,
}

/// Place of a marker.
pub open spec fn place(m: Marker) -> int {
    match m {
        Marker::Cached => 0,
        Marker::Go1 => 1,
        Marker::Fix1 => 2,
        Marker::Result => 3,
        Marker::Done1 => 4,
        Marker::Dirty => 5,
        Marker::Go2 => 6,
        Marker::Fix2 => 7,
        Marker::Done2 => 8,
    }
}

/// Address of a marker.
pub open spec fn marker_addr(m: Marker) -> u32 {
    (MARKERS + 4 * place(m)) as u32
}

/// Address of a marker.
pub fn marker(m: Marker) -> (addr: u32)
    ensures
        addr == marker_addr(m),
{
    let p: u32 = match m {
        Marker::Cached => 0,
        Marker::Go1 => 1,
        Marker::Fix1 => 2,
        Marker::Result => 3,
        Marker::Done1 => 4,
        Marker::Dirty => 5,
        Marker::Go2 => 6,
        Marker::Fix2 => 7,
        Marker::Done2 => 8,
    };
    MARKERS + 4 * p
}

/// The start: markers cleared, the line read into the cache and reported.
pub open spec fn start_ops() -> Seq<MmioOp> {
    Seq::new(9, |i: int| MmioOp::Write { addr: (MARKERS + 4 * i) as u32, value: 0 }) + seq![
        (MmioOp::ReadBack { addr: BUF }),
        (MmioOp::Write { addr: marker_addr(Marker::Cached), value: 1 }),
    ]
}

/// The start.
pub fn start() -> (ops: Vec<MmioOp>)
    ensures
        ops@ == start_ops(),
{
    let mut ops: Vec<MmioOp> = Vec::new();
    let mut i: u32 = 0;
    while i < 9
        invariant
            i <= 9,
            ops@ == Seq::new(
                i as nat,
                |k: int| MmioOp::Write { addr: (MARKERS + 4 * k) as u32, value: 0 },
            ),
        decreases 9 - i,
    {
        ops.push(MmioOp::Write { addr: MARKERS + 4 * i, value: 0 });
        i = i + 1;
        assert(ops@ =~= Seq::new(
            i as nat,
            |k: int| MmioOp::Write { addr: (MARKERS + 4 * k) as u32, value: 0 },
        ));
    }
    ops.push(MmioOp::ReadBack { addr: BUF });
    ops.push(MmioOp::Write { addr: marker(Marker::Cached), value: 1 });
    assert(ops@ =~= start_ops());
    ops
}

/// Maintenance of the buffer's line through `register`, if it is asked for.
pub open spec fn maintenance(register: u32, fix: u32) -> Seq<MmioOp> {
    if fix != 0 {
        seq![(MmioOp::Write { addr: register, value: BUF }), MmioOp::Barrier]
    } else {
        Seq::empty()
    }
}

/// What precedes the second read of the first phase.
pub fn before_reread(fix: u32) -> (ops: Vec<MmioOp>)
    ensures
        ops@ == maintenance(DCIMVAC, fix),
{
    let mut ops: Vec<MmioOp> = Vec::new();
    if fix != 0 {
        ops.push(MmioOp::Write { addr: DCIMVAC, value: BUF });
        ops.push(MmioOp::Barrier);
    }
    assert(ops@ =~= maintenance(DCIMVAC, fix));
    ops
}

/// The end of the first phase, which read `v`, and the write that begins the
/// second.
pub open spec fn second_phase_ops(v: u32, fix: u32) -> Seq<MmioOp> {
    seq![
        (MmioOp::Write { addr: marker_addr(Marker::Result), value: v }),
        (MmioOp::Write { addr: marker_addr(Marker::Done1), value: DONE }),
        (MmioOp::Write { addr: BUF, value: WRITTEN }),
    ] + maintenance(DCCMVAC, fix) + seq![
        (MmioOp::Write { addr: marker_addr(Marker::Dirty), value: 1 }),
    ]
}

/// The end of the first phase and the beginning of the second.
pub fn second_phase(v: u32, fix: u32) -> (ops: Vec<MmioOp>)
    ensures
        ops@ == second_phase_ops(v, fix),
{
    let mut ops: Vec<MmioOp> = Vec::new();
    ops.push(MmioOp::Write { addr: marker(Marker::Result), value: v });
    ops.push(MmioOp::Write { addr: marker(Marker::Done1), value: DONE });
    ops.push(MmioOp::Write { addr: BUF, value: WRITTEN });
    if fix != 0 {
        ops.push(MmioOp::Write { addr: DCCMVAC, value: BUF });
        ops.push(MmioOp::Barrier);
    }
    ops.push(MmioOp::Write { addr: marker(Marker::Dirty), value: 1 });
    assert(ops@ =~= second_phase_ops(v, fix));
    ops
}

// ---------------------------------------------------------------------------
// What is seen
// ---------------------------------------------------------------------------

/// A word of memory behind a write-back cache: what the memory holds, and what
/// the cache holds of it.
pub struct Line {
    pub memory: u32,
    pub cached: Option<u32>,
}

/// What the processor reads.
pub open spec fn cpu_reads(l: Line) -> u32 {
    match l.cached {
        Some(v) => v,
        None => l.memory,
    }
}

/// What a DMA controller reads.
pub open spec fn dma_reads(l: Line) -> u32 {
    l.memory
}

/// After a DMA controller has written `v`.
pub open spec fn dma_wrote(l: Line, v: u32) -> Line {
    Line { memory: v, ..l }
}

/// After one access of the processor to the buffer or to the cache's
/// maintenance registers for it.
pub open spec fn line_step(l: Line, op: MmioOp) -> Line {
    match op {
        MmioOp::ReadBack { addr } => if addr == BUF {
            Line { cached: Some(cpu_reads(l)), ..l }
        } else {
            l
        },
        MmioOp::Write { addr, value } => if addr == BUF {
            Line { cached: Some(value), ..l }
        } else if addr == DCIMVAC && value == BUF {
            Line { cached: None, ..l }
        } else if addr == DCCMVAC && value == BUF {
            Line { memory: cpu_reads(l), ..l }
        } else {
            l
        },
        _ => l,
    }
}

/// After a list of accesses.
pub open spec fn line_after(l: Line, ops: Seq<MmioOp>) -> Line
    decreases ops.len(),
{
    if ops.len() == 0 {
        l
    } else {
        line_step(line_after(l, ops.drop_last()), ops.last())
    }
}

proof fn lemma_line_after_both(l: Line, a: Seq<MmioOp>, b: Seq<MmioOp>)
    ensures
        line_after(l, a + b) == line_after(line_after(l, a), b),
    decreases b.len(),
{
    if b.len() == 0 {
        assert(a + b =~= a);
    } else {
        lemma_line_after_both(l, a, b.drop_last());
        assert((a + b).drop_last() =~= a + b.drop_last());
    }
}

proof fn lemma_start_caches(l: Line, n: nat)
    requires
        n <= 9,
    ensures
        line_after(
            l,
            Seq::new(n, |i: int| MmioOp::Write { addr: (MARKERS + 4 * i) as u32, value: 0 }),
        ) == l,
    decreases n,
{
    let s = Seq::new(n, |i: int| MmioOp::Write { addr: (MARKERS + 4 * i) as u32, value: 0 });
    if n > 0 {
        lemma_start_caches(l, (n - 1) as nat);
        assert(s.drop_last() =~= Seq::new(
            (n - 1) as nat,
            |i: int| MmioOp::Write { addr: (MARKERS + 4 * i) as u32, value: 0 },
        ));
    }
}

/// After the start, a DMA write and the read that follows it, the processor sees
/// what the DMA controller wrote if and only if the line was invalidated, or the
/// write changed nothing.
pub proof fn law_invalidate_shows_dma_writes(l: Line, v: u32, fix: u32)
    ensures
        ({
            let l1 = line_after(l, start_ops());
            let l2 = line_after(dma_wrote(l1, v), maintenance(DCIMVAC, fix));
            cpu_reads(l2) == v <==> fix != 0 || cpu_reads(l) == v
        }),
{
    let clear = Seq::new(9, |i: int| MmioOp::Write { addr: (MARKERS + 4 * i) as u32, value: 0 });
    let rest = seq![
        (MmioOp::ReadBack { addr: BUF }),
        (MmioOp::Write { addr: marker_addr(Marker::Cached), value: 1 }),
    ];
    lemma_start_caches(l, 9);
    lemma_line_after_both(l, clear, rest);
    reveal_with_fuel(line_after, 4);
    assert(rest.drop_last() =~= seq![(MmioOp::ReadBack { addr: BUF })]);
    assert(rest.drop_last().drop_last() =~= Seq::empty());
    let m = maintenance(DCIMVAC, fix);
    if fix != 0 {
        assert(m.drop_last() =~= seq![(MmioOp::Write { addr: DCIMVAC, value: BUF })]);
        assert(m.drop_last().drop_last() =~= Seq::empty());
    }
}

/// After the processor's write of the second phase, a DMA controller sees it if
/// and only if the line was cleaned, or the memory held that value before.
pub proof fn law_clean_shows_cpu_writes(l: Line, v: u32, fix: u32)
    ensures
        dma_reads(line_after(l, second_phase_ops(v, fix))) == WRITTEN <==> fix != 0
            || dma_reads(l) == WRITTEN,
{
    let a = seq![
        (MmioOp::Write { addr: marker_addr(Marker::Result), value: v }),
        (MmioOp::Write { addr: marker_addr(Marker::Done1), value: DONE }),
        (MmioOp::Write { addr: BUF, value: WRITTEN }),
    ];
    let m = maintenance(DCCMVAC, fix);
    let c = seq![(MmioOp::Write { addr: marker_addr(Marker::Dirty), value: 1 })];
    lemma_line_after_both(l, a + m, c);
    lemma_line_after_both(l, a, m);
    reveal_with_fuel(line_after, 5);
    assert(a.drop_last().drop_last().drop_last() =~= Seq::empty());
    assert(c.drop_last() =~= Seq::empty());
    if fix != 0 {
        assert(m.drop_last() =~= seq![(MmioOp::Write { addr: DCCMVAC, value: BUF })]);
        assert(m.drop_last().drop_last() =~= Seq::empty());
    }
}

/// The markers are the nine words from the first on, one behind another.
pub proof fn law_markers_lie_side_by_side(m: Marker)
    ensures
        marker_addr(m) == MARKERS + 4 * match m {
            Marker::Cached => 0int,
            Marker::Go1 => 1,
            Marker::Fix1 => 2,
            Marker::Result => 3,
            Marker::Done1 => 4,
            Marker::Dirty => 5,
            Marker::Go2 => 6,
            Marker::Fix2 => 7,
            Marker::Done2 => 8,
        },
{
}

/// Maintenance is done exactly on request: the buffer's line is named to the given
/// register, and the effect waited for.
pub proof fn law_maintenance_names_the_buffer(register: u32, fix: u32)
    ensures
        fix == 0 ==> maintenance(register, fix).len() == 0,
        fix != 0 ==> maintenance(register, fix) == seq![
            (MmioOp::Write { addr: register, value: BUF }),
            MmioOp::Barrier,
        ],
{
}

/// The buffer lies in memory that the other master reaches, the markers at the
/// top of the core's own; the maintenance registers are those that drop a line
/// and that write it back.
pub proof fn law_addresses_of_the_experiment()
    ensures
        BUF == 0x3000_0000,
        MARKERS == 0x2002_0000 - 0x1000,
        DCIMVAC == 0xE000_EF5C && DCCMVAC == DCIMVAC + 12,
        DONE == 0xD09E && WRITTEN == 0xCAFE_BABE,
{
}

} // verus!
