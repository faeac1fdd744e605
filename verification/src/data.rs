//! Data sources: the symbol clock and the bit-group suppliers that feed a
//! digital phasor one group of bits per output sample.
//!
//! A source emits one update per sample: `Changed` exactly at symbol
//! boundaries, `Unchanged` (carrying the same group) in between, and
//! `Finished` from the moment the input runs out of complete groups.

use vstd::prelude::*;

verus! {

use vstd::arithmetic::div_mod::{
    lemma_add_mod_noop,
    lemma_basic_div,
    lemma_div_plus_one,
    lemma_fundamental_div_mod,
    lemma_fundamental_div_mod_converse_div,
    lemma_mod_add_multiples_vanish,
    lemma_mod_division_less_than_divisor,
    lemma_mod_self_0,
    lemma_multiply_divide_lt,
    lemma_small_mod,
};
use vstd::arithmetic::mul::{
    lemma_mul_inequality,
    lemma_mul_is_commutative,
    lemma_mul_is_distributive_add_other_way,
};

/// Counts samples and reports a tick every `samples_per_symbol` calls,
/// starting with a tick on the very first call.
pub struct SymbolClock {
    samples_per_symbol: usize,
    counter: usize,
    calls: Ghost<nat>,
}

/// Number of ticks a fresh clock with the given period reports over `len`
/// calls: one for every call index that is a multiple of the period.
pub open spec fn tick_count(len: nat, period: nat) -> nat
    decreases len,
{
    if len == 0 {
        0
    } else {
        tick_count((len - 1) as nat, period) + if ((len - 1) as nat) % period == 0 {
            1nat
        } else {
            0nat
        }
    }
}

impl SymbolClock {
    pub closed spec fn wf(&self) -> bool {
        &&& self.samples_per_symbol >= 1
        &&& self.counter < self.samples_per_symbol
        &&& self.counter as int == (self.calls@ + self.samples_per_symbol - 1) % (
        self.samples_per_symbol as int)
    }

    /// The clock period: samples per symbol.
    pub closed spec fn period(&self) -> nat {
        self.samples_per_symbol as nat
    }

    /// How many times `next` has been called.
    pub closed spec fn pos(&self) -> nat {
        self.calls@
    }

    pub fn new(samples_per_symbol: usize) -> (c: SymbolClock)
        requires
            samples_per_symbol >= 1,
        ensures
            c.wf(),
            c.period() == samples_per_symbol,
            c.pos() == 0,
    {
        proof {
            lemma_small_mod((samples_per_symbol - 1) as nat, samples_per_symbol as nat);
        }
        SymbolClock { samples_per_symbol, counter: samples_per_symbol - 1, calls: Ghost(0) }
    }

    /// Advance by one sample; report whether this sample starts a new symbol.
    pub fn next(&mut self) -> (tick: bool)
        requires
            old(self).wf(),
        ensures
            final(self).wf(),
            final(self).period() == old(self).period(),
            final(self).pos() == old(self).pos() + 1,
            tick == (old(self).pos() % old(self).period() == 0),
    {
        let ghost m: int = self.samples_per_symbol as int;
        let ghost calls0: int = self.calls@ as int;
        self.counter = self.counter + 1;
        self.counter = self.counter % self.samples_per_symbol;
        self.calls = Ghost(self.calls@ + 1);
        proof {
            // (((calls + m - 1) % m) + 1) % m == (calls + m) % m == calls % m
            lemma_add_mod_noop(calls0 + m - 1, 1, m);
            if m == 1 {
                lemma_mod_self_0(1);
                lemma_small_mod(0, 1);
            } else {
                lemma_small_mod(1, m as nat);
            }
            lemma_mod_add_multiples_vanish(calls0, m);
            lemma_mod_division_less_than_divisor(calls0, m);
            assert(self.counter as int == calls0 % m);
        }
        self.counter == 0
    }
}

/// Over `len` calls, a fresh clock of period `p` ticks exactly
/// `ceil(len / p)`, i.e. `(len + p - 1) / p`, times: `SymbolClock::next`
/// returns true exactly at the call indices that are multiples of `p`.
pub proof fn lemma_tick_count_ceil(len: nat, period: nat)
    requires
        period >= 1,
    ensures
        tick_count(len, period) == (len + period - 1) as int / (period as int),
    decreases len,
{
    let p = period as int;
    if len == 0 {
        lemma_basic_div(p - 1, p);
    } else {
        lemma_tick_count_ceil((len - 1) as nat, period);
        let a = (len - 1) as int;
        lemma_fundamental_div_mod(a, p);
        let q = a / p;
        let r = a % p;
        lemma_mod_division_less_than_divisor(a, p);
        lemma_mul_is_distributive_add_other_way(p, q, 1);
        if r == 0 {
            // a + p - 1 == q * p + (p - 1), so ceil(a / p) == q
            // a + p     == (q + 1) * p,    so ceil((a + 1) / p) == q + 1
            lemma_fundamental_div_mod_converse_div(a + p - 1, p, q, p - 1);
            lemma_fundamental_div_mod_converse_div(a + p, p, q + 1, 0);
        } else {
            // a + p - 1 == (q + 1) * p + (r - 1), so ceil(a / p) == q + 1
            // a + p     == (q + 1) * p + r,       so ceil((a + 1) / p) == q + 1
            lemma_fundamental_div_mod_converse_div(a + p - 1, p, q + 1, r - 1);
            lemma_fundamental_div_mod_converse_div(a + p, p, q + 1, r);
        }
    }
}

/// One update handed to the consumer for one output sample.
#[derive(Clone, Debug, PartialEq, Eq)]
pub enum SourceUpdate {
    /// A new symbol starts at this sample; these are its bits.
    Changed(Vec<u8>),
    /// Same symbol as the previous sample; same bits.
    Unchanged(Vec<u8>),
    /// The input is exhausted.
    Finished,
}

/// Mathematical view of a `SourceUpdate`.
pub enum UpdateModel {
    Changed(Seq<u8>),
    Unchanged(Seq<u8>),
    Finished,
}

impl View for SourceUpdate {
    type V = UpdateModel;

    open spec fn view(&self) -> UpdateModel {
        match self {
            SourceUpdate::Changed(b) => UpdateModel::Changed(b@),
            SourceUpdate::Unchanged(b) => UpdateModel::Unchanged(b@),
            SourceUpdate::Finished => UpdateModel::Finished,
        }
    }
}

/// A supplier of one `SourceUpdate` per sample.
///
/// A source fixes its whole output at construction: `timeline(j)` is the
/// update emitted for sample `j`, `pos()` counts the samples already
/// emitted, and `next` returns exactly `timeline(pos)`.
pub trait Source: Sized {
    spec fn wf(&self) -> bool;

    /// Samples emitted so far.
    spec fn pos(&self) -> nat;

    /// Length of each emitted bit group.
    spec fn bps(&self) -> nat;

    /// The update emitted for sample `j`.
    spec fn timeline(&self, j: nat) -> UpdateModel;

    /// Every emitted group has length `bps`, and once the timeline finishes
    /// it stays finished.
    proof fn lemma_timeline_wf(&self, j: nat)
        requires
            self.wf(),
        ensures
            (match self.timeline(j) {
                UpdateModel::Changed(b) => b.len() == self.bps(),
                UpdateModel::Unchanged(b) => b.len() == self.bps(),
                UpdateModel::Finished => true,
            }),
            self.timeline(j) is Finished ==> self.timeline(j + 1) is Finished,
    ;

    fn next(&mut self) -> (u: SourceUpdate)
        requires
            old(self).wf(),
        ensures
            final(self).wf(),
            final(self).pos() == old(self).pos() + 1,
            final(self).bps() == old(self).bps(),
            forall|j: nat| #[trigger] final(self).timeline(j) == old(self).timeline(j),
            u@ == old(self).timeline(old(self).pos()),
    ;
}

/// The timeline of a source that serves consecutive groups of `bps` bits out
/// of `bits`, holding each for `sps` samples.
pub open spec fn group_timeline(bits: Seq<u8>, sps: nat, bps: nat, j: nat) -> UpdateModel {
    let nsyms = bits.len() / bps;
    if j < nsyms * sps {
        let k = j / sps;
        let grp = bits.subrange((k * bps) as int, (k * bps + bps) as int);
        if j % sps == 0 {
            UpdateModel::Changed(grp)
        } else {
            UpdateModel::Unchanged(grp)
        }
    } else {
        UpdateModel::Finished
    }
}

/// `Changed` is emitted exactly at symbol boundaries: for a group source,
/// sample `j` carries a `Changed` update if and only if `j` is a multiple
/// of `sps` and a complete group remains.
pub proof fn lemma_group_timeline_boundaries(bits: Seq<u8>, sps: nat, bps: nat, j: nat)
    requires
        sps >= 1,
        bps >= 1,
    ensures
        group_timeline(bits, sps, bps, j) is Changed <==> (j % sps == 0 && j < (bits.len() / bps)
            * sps),
{
}

/// Between boundaries the update carries the same bits as the boundary
/// that opened the symbol: sample `j` and sample `(j / sps) * sps` carry
/// the same group, and the latter is the `Changed` update.
pub proof fn lemma_group_timeline_same_symbol(bits: Seq<u8>, sps: nat, bps: nat, j: nat)
    requires
        sps >= 1,
        bps >= 1,
        !(group_timeline(bits, sps, bps, j) is Finished),
    ensures
        group_timeline(bits, sps, bps, (j / sps) * sps) is Changed,
        (match group_timeline(bits, sps, bps, j) {
            UpdateModel::Changed(b) => b,
            UpdateModel::Unchanged(b) => b,
            UpdateModel::Finished => Seq::empty(),
        }) == (match group_timeline(bits, sps, bps, (j / sps) * sps) {
            UpdateModel::Changed(b) => b,
            UpdateModel::Unchanged(b) => b,
            UpdateModel::Finished => Seq::empty(),
        }),
{
    let k = (j / sps) as int;
    let j0 = k * sps;
    vstd::arithmetic::div_mod::lemma_mod_multiples_basic(k, sps as int);
    vstd::arithmetic::div_mod::lemma_div_multiples_vanish(k, sps as int);
    lemma_fundamental_div_mod(j as int, sps as int);
    lemma_mod_division_less_than_divisor(j as int, sps as int);
    lemma_mul_is_commutative(sps as int, k);
    assert(j0 <= j);
    assert((j0 as nat) / sps == j / sps);
    assert(j0 % (sps as int) == 0);
}

/// Group `k` of `bits` lies inside the sequence: `(k + 1) * bps <= len`.
proof fn lemma_group_in_range(k: nat, bps: nat, len: nat)
    requires
        bps >= 1,
        k < len / bps,
    ensures
        k * bps + bps <= len,
        k * bps >= 0,
    {
    let nsyms = (len / bps) as int;
    lemma_fundamental_div_mod(len as int, bps as int);
    lemma_mod_division_less_than_divisor(len as int, bps as int);
    lemma_mul_is_commutative(bps as int, nsyms);
    lemma_mul_inequality(k as int + 1, nsyms, bps as int);
    lemma_mul_is_distributive_add_other_way(bps as int, k as int, 1);
    vstd::arithmetic::mul::lemma_mul_nonnegative(k as int, bps as int);
}

proof fn lemma_group_timeline_wf(bits: Seq<u8>, sps: nat, bps: nat, j: nat)
    requires
        sps >= 1,
        bps >= 1,
    ensures
        (match group_timeline(bits, sps, bps, j) {
            UpdateModel::Changed(b) => b.len() == bps,
            UpdateModel::Unchanged(b) => b.len() == bps,
            UpdateModel::Finished => true,
        }),
        group_timeline(bits, sps, bps, j) is Finished ==> group_timeline(
            bits,
            sps,
            bps,
            j + 1,
        ) is Finished,
{
    let nsyms = bits.len() / bps;
    if j < nsyms * sps {
        lemma_multiply_divide_lt(j as int, sps as int, nsyms as int);
        lemma_mul_is_commutative(sps as int, nsyms as int);
        lemma_group_in_range((j / sps) as nat, bps, bits.len());
    }
}

/// An in-memory bit sequence served group by group.
pub struct Bits {
    bits: Vec<u8>,
    clock: SymbolClock,
    bits_per_symbol: usize,
    idx: usize,
    done: bool,
}

impl Bits {
    /// Number of complete symbols available in the input.
    pub closed spec fn num_symbols(&self) -> nat {
        self.bits@.len() / self.bits_per_symbol as nat
    }

    pub closed spec fn spec_sps(&self) -> nat {
        self.clock.period()
    }

    pub fn new(bits: Vec<u8>, samples_per_symbol: usize, bits_per_symbol: usize) -> (s: Bits)
        requires
            samples_per_symbol >= 1,
            bits_per_symbol >= 1,
        ensures
            s.wf(),
            s.pos() == 0,
            s.bps() == bits_per_symbol,
            forall|j: nat| #[trigger] s.timeline(j) == group_timeline(
                bits@,
                samples_per_symbol as nat,
                bits_per_symbol as nat,
                j,
            ),
    {
        let s = Bits {
            bits,
            clock: SymbolClock::new(samples_per_symbol),
            bits_per_symbol,
            idx: 0,
            done: false,
        };
        proof {
            lemma_basic_div(samples_per_symbol - 1, samples_per_symbol as int);
            vstd::arithmetic::mul::lemma_mul_nonnegative(
                s.num_symbols() as int,
                samples_per_symbol as int,
            );
        }
        s
    }
}

impl Source for Bits {
    closed spec fn wf(&self) -> bool {
        &&& self.clock.wf()
        &&& self.bits_per_symbol >= 1
        &&& if self.done {
            self.idx == self.num_symbols() && self.clock.pos() > self.num_symbols()
                * self.spec_sps()
        } else {
            self.clock.pos() <= self.num_symbols() * self.spec_sps() && self.idx as int == (
            self.clock.pos() + self.spec_sps() - 1) as int / (self.spec_sps() as int)
        }
    }

    closed spec fn pos(&self) -> nat {
        self.clock.pos()
    }

    closed spec fn bps(&self) -> nat {
        self.bits_per_symbol as nat
    }

    closed spec fn timeline(&self, j: nat) -> UpdateModel {
        group_timeline(self.bits@, self.spec_sps(), self.bits_per_symbol as nat, j)
    }

    proof fn lemma_timeline_wf(&self, j: nat) {
        lemma_group_timeline_wf(self.bits@, self.spec_sps(), self.bits_per_symbol as nat, j);
    }

    fn next(&mut self) -> (u: SourceUpdate) {
        let ghost j: int = self.clock.pos() as int;
        let ghost sps: int = self.spec_sps() as int;
        let ghost nsyms: int = self.num_symbols() as int;
        let ghost total: int = nsyms * sps;
        let tick = self.clock.next();
        if self.done {
            return SourceUpdate::Finished;
        }
        let nsym_avail: usize = self.bits.len() / self.bits_per_symbol;
        proof {
            lemma_fundamental_div_mod(j, sps);
            lemma_mod_division_less_than_divisor(j, sps);
        }
        if tick {
            // j % sps == 0, so exactly j / sps symbols are already out.
            proof {
                lemma_mul_is_commutative(sps, j / sps);
                lemma_fundamental_div_mod_converse_div(j + sps - 1, sps, j / sps, sps - 1);
                assert(self.idx as int == j / sps);
            }
            if self.idx < nsym_avail {
                proof {
                    lemma_group_in_range(self.idx as nat, self.bits_per_symbol as nat, self.bits@.len());
                    // j < total, since j / sps < nsyms
                    vstd::arithmetic::mul::lemma_mul_strict_inequality(j / sps, nsyms, sps);
                    lemma_mul_is_commutative(nsyms, sps);
                    lemma_mul_is_commutative(sps, j / sps);
                }
                self.idx = self.idx + 1;
                let start: usize = (self.idx - 1) * self.bits_per_symbol;
                let end: usize = start + self.bits_per_symbol;
                let grp = crate::digital::util::copy_range(self.bits.as_slice(), start, end);
                proof {
                    // ceil((j + 1) / sps) == j / sps + 1 keeps the invariant.
                    lemma_div_plus_one(j, sps);
                }
                SourceUpdate::Changed(grp)
            } else {
                // j / sps == nsyms, so j == total: the input is exhausted.
                proof {
                    vstd::arithmetic::div_mod::lemma_div_is_ordered(j, total, sps);
                    vstd::arithmetic::div_mod::lemma_div_multiples_vanish(nsyms, sps);
                    lemma_mul_is_commutative(sps, nsyms);
                    lemma_mul_is_commutative(sps, j / sps);
                    assert(j / sps == nsyms);
                    assert(j == total);
                }
                self.done = true;
                SourceUpdate::Finished
            }
        } else {
            // j % sps != 0: we are inside symbol j / sps == idx - 1.
            proof {
                lemma_mul_is_distributive_add_other_way(sps, j / sps, 1);
                lemma_mul_is_commutative(sps, j / sps);
                lemma_fundamental_div_mod_converse_div(
                    j + sps - 1,
                    sps,
                    j / sps + 1,
                    j % sps - 1,
                );
                assert(self.idx as int == j / sps + 1);
                // j < total because j <= total and total % sps == 0 while j % sps != 0
                if j == total {
                    vstd::arithmetic::div_mod::lemma_mod_multiples_basic(nsyms, sps);
                    lemma_mul_is_commutative(nsyms, sps);
                    assert(false);
                }
                lemma_mul_is_commutative(sps, nsyms);
                lemma_multiply_divide_lt(j, sps, nsyms);
                lemma_group_in_range((self.idx - 1) as nat, self.bits_per_symbol as nat, self.bits@.len());
                lemma_div_plus_one(j, sps);
            }
            let start: usize = (self.idx - 1) * self.bits_per_symbol;
            let end: usize = start + self.bits_per_symbol;
            let grp = crate::digital::util::copy_range(self.bits.as_slice(), start, end);
            SourceUpdate::Unchanged(grp)
        }
    }
}

/// Bytes skipped in an ASCII bit stream: those whose one-byte character is
/// whitespace.
pub open spec fn is_space(b: u8) -> bool {
    b == 9 || b == 10 || b == 11 || b == 12 || b == 13 || b == 32 || b == 0x85 || b == 0xa0
}

/// ASCII `0` or `1`.
pub open spec fn is_bit_byte(b: u8) -> bool {
    b == 48 || b == 49
}

/// A well-formed ASCII bit stream holds only whitespace and ASCII 0/1.
pub open spec fn valid_ascii(s: Seq<u8>) -> bool {
    forall|i: int| 0 <= i < s.len() ==> is_space(#[trigger] s[i]) || is_bit_byte(s[i])
}

pub open spec fn bit_byte_value(b: u8) -> u8 {
    if b == 49 {
        1
    } else {
        0
    }
}

/// The bits carried by an ASCII stream, whitespace removed, in order.
pub open spec fn ascii_bits(s: Seq<u8>) -> Seq<u8>
    decreases s.len(),
{
    if s.len() == 0 {
        Seq::empty()
    } else if is_space(s[0]) {
        ascii_bits(s.drop_first())
    } else {
        seq![bit_byte_value(s[0])] + ascii_bits(s.drop_first())
    }
}

proof fn lemma_ascii_bits_append(a: Seq<u8>, b: Seq<u8>)
    ensures
        ascii_bits(a + b) == ascii_bits(a) + ascii_bits(b),
    decreases a.len(),
{
    if a.len() == 0 {
        assert(a + b =~= b);
        assert(ascii_bits(a) + ascii_bits(b) =~= ascii_bits(b));
    } else {
        lemma_ascii_bits_append(a.drop_first(), b);
        assert((a + b).drop_first() =~= a.drop_first() + b);
        assert((a + b)[0] == a[0]);
        if is_space(a[0]) {
        } else {
            assert(seq![bit_byte_value(a[0])] + (ascii_bits(a.drop_first()) + ascii_bits(b))
                =~= (seq![bit_byte_value(a[0])] + ascii_bits(a.drop_first())) + ascii_bits(b));
        }
    }
}

proof fn lemma_ascii_bits_singleton(b: u8)
    ensures
        ascii_bits(seq![b]) == if is_space(b) {
            Seq::<u8>::empty()
        } else {
            seq![bit_byte_value(b)]
        },
{
    let s = seq![b];
    assert(s[0] == b);
    assert(s.drop_first() =~= Seq::<u8>::empty());
    assert(ascii_bits(s.drop_first()) =~= Seq::<u8>::empty());
    if !is_space(b) {
        assert(seq![bit_byte_value(b)] + ascii_bits(s.drop_first()) =~= seq![bit_byte_value(b)]);
    }
}

/// Serves the bits found in an in-memory ASCII stream group by group.
/// The surrounding front end reads the raw bytes and must hand over a
/// stream it has checked with `is_valid_ascii_stream`.
pub struct AsciiBits {
    stream: Vec<u8>,
    cursor: usize,
    clock: SymbolClock,
    bits: Vec<u8>,
    taken: Ghost<nat>,
    done: bool,
}

/// Check that a byte stream holds only whitespace and ASCII 0/1, so that it
/// can feed `AsciiBits`.
pub fn is_valid_ascii_stream(stream: &[u8]) -> (r: bool)
    ensures
        r == valid_ascii(stream@),
{
    let mut i: usize = 0;
    while i < stream.len()
        invariant
            0 <= i <= stream@.len(),
            forall|k: int| 0 <= k < i ==> is_space(#[trigger] stream@[k]) || is_bit_byte(
                stream@[k],
            ),
        decreases stream@.len() - i,
    {
        let b = stream[i];
        let space = b == 9 || b == 10 || b == 11 || b == 12 || b == 13 || b == 32 || b == 0x85
            || b == 0xa0;
        let bit = b == 48 || b == 49;
        if !space && !bit {
            return false;
        }
        i = i + 1;
    }
    true
}

impl AsciiBits {
    /// The bit sequence carried by the stream.
    pub closed spec fn stream_bits(&self) -> Seq<u8> {
        ascii_bits(self.stream@)
    }

    /// Bits consumed from the stream so far.
    pub closed spec fn taken(&self) -> nat {
        self.taken@
    }

    /// The current bit group buffer.
    pub closed spec fn cur_group(&self) -> Seq<u8> {
        self.bits@
    }

    pub closed spec fn spec_bps(&self) -> nat {
        self.bits@.len()
    }

    pub closed spec fn spec_clock(&self) -> SymbolClock {
        self.clock
    }

    pub closed spec fn spec_done(&self) -> bool {
        self.done
    }

    /// The reading machinery is consistent: the bytes before the cursor
    /// carry exactly the first `taken` bits of the stream.
    pub closed spec fn io_wf(&self) -> bool {
        &&& valid_ascii(self.stream@)
        &&& self.cursor <= self.stream@.len()
        &&& ascii_bits(self.stream@.take(self.cursor as int)) == self.stream_bits().take(
            self.taken@ as int,
        )
        &&& self.taken@ <= self.stream_bits().len()
        &&& self.spec_bps() >= 1
    }

    pub fn new(stream: Vec<u8>, samples_per_symbol: usize, bits_per_symbol: usize) -> (s:
        AsciiBits)
        requires
            samples_per_symbol >= 1,
            bits_per_symbol >= 1,
            valid_ascii(stream@),
        ensures
            s.wf(),
            s.io_wf(),
            s.pos() == 0,
            s.bps() == bits_per_symbol,
            s.taken() == 0,
            forall|j: nat| #[trigger] s.timeline(j) == group_timeline(
                ascii_bits(stream@),
                samples_per_symbol as nat,
                bits_per_symbol as nat,
                j,
            ),
    {
        let mut bits: Vec<u8> = Vec::new();
        let mut i: usize = 0;
        while i < bits_per_symbol
            invariant
                bits@.len() == i,
                i <= bits_per_symbol,
            decreases bits_per_symbol - i,
        {
            bits.push(0);
            i = i + 1;
        }
        let s = AsciiBits {
            stream,
            cursor: 0,
            clock: SymbolClock::new(samples_per_symbol),
            bits,
            taken: Ghost(0),
            done: false,
        };
        proof {
            assert(s.stream@.take(0) =~= Seq::<u8>::empty());
            assert(s.stream_bits().take(0) =~= Seq::<u8>::empty());
            lemma_basic_div(samples_per_symbol - 1, samples_per_symbol as int);
            vstd::arithmetic::mul::lemma_mul_nonnegative(
                (s.stream_bits().len() / bits_per_symbol as nat) as int,
                samples_per_symbol as int,
            );
        }
        s
    }

    /// Scan forward to the next non-whitespace byte and return its bit
    /// value, or `None` when the stream end is reached first.
    pub fn next_bit(&mut self) -> (r: Option<u8>)
        requires
            old(self).io_wf(),
        ensures
            final(self).io_wf(),
            final(self).stream_bits() == old(self).stream_bits(),
            final(self).cur_group() == old(self).cur_group(),
            final(self).spec_clock() == old(self).spec_clock(),
            final(self).spec_done() == old(self).spec_done(),
            if old(self).taken() < old(self).stream_bits().len() {
                r == Some(old(self).stream_bits()[old(self).taken() as int])
                    && final(self).taken() == old(self).taken() + 1
            } else {
                r is None && final(self).taken() == old(self).taken()
            },
    {
        let ghost all: Seq<u8> = self.stream_bits();
        while self.cursor < self.stream.len()
            invariant
                self.io_wf(),
                self.stream_bits() == all,
                self.stream@ == old(self).stream@,
                self.bits@ == old(self).bits@,
                self.clock == old(self).clock,
                self.done == old(self).done,
                self.taken@ == old(self).taken@,
            decreases self.stream@.len() - self.cursor,
        {
            let ghost c0: int = self.cursor as int;
            let b = self.stream[self.cursor];
            self.cursor = self.cursor + 1;
            proof {
                assert(self.stream@.take(c0 + 1) =~= self.stream@.take(c0) + seq![b]);
                lemma_ascii_bits_append(self.stream@.take(c0), seq![b]);
                lemma_ascii_bits_singleton(b);
                if is_space(b) {
                    assert(ascii_bits(seq![b]) =~= Seq::<u8>::empty());
                    assert(ascii_bits(self.stream@.take(c0 + 1)) =~= ascii_bits(
                        self.stream@.take(c0),
                    ));
                } else {
                    assert(ascii_bits(seq![b]) =~= seq![bit_byte_value(b)]);
                    // the stream splits at the cursor, so bit `taken` exists
                    assert(self.stream@ =~= self.stream@.take(c0 + 1) + self.stream@.skip(
                        c0 + 1,
                    ));
                    lemma_ascii_bits_append(self.stream@.take(c0 + 1), self.stream@.skip(c0 + 1));
                    assert(all.take(self.taken@ as int + 1) =~= all.take(self.taken@ as int)
                        + seq![all[self.taken@ as int]]);
                }
            }
            if b == 9 || b == 10 || b == 11 || b == 12 || b == 13 || b == 32 || b == 0x85
                || b == 0xa0 {
            } else {
                let ghost t0: int = self.taken@ as int;
                self.taken = Ghost(self.taken@ + 1);
                proof {
                    assert(is_bit_byte(b));
                    assert(ascii_bits(self.stream@.take(c0 + 1)) =~= ascii_bits(
                        self.stream@.take(c0),
                    ) + seq![bit_byte_value(b)]);
                    assert(ascii_bits(self.stream@.take(c0 + 1)).len() == t0 + 1);
                    assert(all.len() >= t0 + 1);
                    assert(ascii_bits(self.stream@.take(c0 + 1)) == all.take(t0 + 1));
                    assert(all[t0] == bit_byte_value(b));
                }
                return Some(b - 48);
            }
        }
        proof {
            assert(self.stream@.take(self.cursor as int) =~= self.stream@);
            assert(all.take(self.taken@ as int) =~= all);
            assert(self.taken@ == all.len());
        }
        None
    }

    /// Fill the group buffer with the next `bits_per_symbol` bits.  Returns
    /// false, leaving the stream exhausted, when fewer remain.
    pub fn read_bits(&mut self) -> (ok: bool)
        requires
            old(self).io_wf(),
        ensures
            final(self).io_wf(),
            final(self).stream_bits() == old(self).stream_bits(),
            final(self).spec_bps() == old(self).spec_bps(),
            final(self).spec_clock() == old(self).spec_clock(),
            final(self).spec_done() == old(self).spec_done(),
            ok == (old(self).taken() + old(self).spec_bps() <= old(self).stream_bits().len()),
            if ok {
                final(self).taken() == old(self).taken() + old(self).spec_bps()
                    && final(self).cur_group() == old(self).stream_bits().subrange(
                    old(self).taken() as int,
                    (old(self).taken() + old(self).spec_bps()) as int,
                )
            } else {
                final(self).taken() == old(self).stream_bits().len()
            },
    {
        let ghost all: Seq<u8> = self.stream_bits();
        let ghost t0: nat = self.taken@;
        let n = self.bits.len();
        let mut i: usize = 0;
        while i < n
            invariant
                self.io_wf(),
                self.stream_bits() == all,
                all == old(self).stream_bits(),
                t0 == old(self).taken(),
                self.bits@.len() == n,
                self.spec_clock() == old(self).spec_clock(),
                self.spec_done() == old(self).spec_done(),
                n == old(self).spec_bps(),
                0 <= i <= n,
                self.taken@ == t0 + i,
                t0 + i <= all.len(),
                self.bits@.subrange(0, i as int) =~= all.subrange(t0 as int, t0 + i),
            decreases n - i,
        {
            match self.next_bit() {
                Some(b) => {
                    self.bits.set(i, b);
                    i = i + 1;
                    proof {
                        assert(self.bits@.subrange(0, i as int) =~= all.subrange(
                            t0 as int,
                            t0 + i,
                        ));
                    }
                },
                None => {
                    return false;
                },
            }
        }
        proof {
            assert(self.bits@.subrange(0, n as int) =~= self.bits@);
        }
        true
    }
}

impl Source for AsciiBits {
    closed spec fn wf(&self) -> bool {
        &&& self.io_wf()
        &&& self.clock.wf()
        &&& if self.done {
            self.clock.pos() > (self.stream_bits().len() / self.spec_bps()) * self.clock.period()
        } else {
            self.clock.pos() <= (self.stream_bits().len() / self.spec_bps())
                * self.clock.period() && self.taken@ as int == ((self.clock.pos()
                + self.clock.period() - 1) as int / (self.clock.period() as int))
                * self.spec_bps() && (self.clock.pos() >= 1 ==> self.bits@ =~= self.stream_bits()
                .subrange(self.taken@ - self.spec_bps(), self.taken@ as int))
        }
    }

    closed spec fn pos(&self) -> nat {
        self.clock.pos()
    }

    closed spec fn bps(&self) -> nat {
        self.spec_bps()
    }

    closed spec fn timeline(&self, j: nat) -> UpdateModel {
        group_timeline(self.stream_bits(), self.clock.period(), self.spec_bps(), j)
    }

    proof fn lemma_timeline_wf(&self, j: nat) {
        lemma_group_timeline_wf(self.stream_bits(), self.clock.period(), self.spec_bps(), j);
    }

    fn next(&mut self) -> (u: SourceUpdate) {
        let ghost j: int = self.clock.pos() as int;
        let ghost sps: int = self.clock.period() as int;
        let ghost bps: int = self.spec_bps() as int;
        let ghost nbits: int = self.stream_bits().len() as int;
        let ghost nsyms: int = nbits / bps;
        let ghost total: int = nsyms * sps;
        let tick = self.clock.next();
        if self.done {
            return SourceUpdate::Finished;
        }
        proof {
            lemma_fundamental_div_mod(j, sps);
            lemma_mod_division_less_than_divisor(j, sps);
        }
        if tick {
            // j % sps == 0: this sample starts symbol j / sps.
            proof {
                lemma_mul_is_commutative(sps, j / sps);
                lemma_fundamental_div_mod_converse_div(j + sps - 1, sps, j / sps, sps - 1);
                assert(self.taken@ as int == (j / sps) * bps);
            }
            let ok = self.read_bits();
            if ok {
                proof {
                    // taken + bps <= nbits means symbol j / sps exists
                    lemma_mul_is_distributive_add_other_way(bps, j / sps, 1);
                    vstd::arithmetic::div_mod::lemma_div_is_ordered(
                        (j / sps + 1) * bps,
                        nbits,
                        bps,
                    );
                    vstd::arithmetic::div_mod::lemma_div_multiples_vanish(j / sps + 1, bps);
                    lemma_mul_is_commutative(bps, j / sps + 1);
                    assert(j / sps + 1 <= nsyms);
                    vstd::arithmetic::mul::lemma_mul_strict_inequality(j / sps, nsyms, sps);
                    lemma_mul_is_commutative(nsyms, sps);
                    assert(j < total);
                    lemma_div_plus_one(j, sps);
                }
                let grp = crate::digital::util::copy_range(self.bits.as_slice(), 0, self.bits.len());
                proof {
                    assert(grp@ =~= self.bits@);
                }
                SourceUpdate::Changed(grp)
            } else {
                // fewer than bps bits remain: j / sps == nsyms, j == total
                proof {
                    lemma_mul_is_distributive_add_other_way(bps, j / sps, 1);
                    lemma_group_in_range_converse(j / sps, bps, nbits, nsyms);
                    vstd::arithmetic::div_mod::lemma_div_is_ordered(j, total, sps);
                    vstd::arithmetic::div_mod::lemma_div_multiples_vanish(nsyms, sps);
                    lemma_mul_is_commutative(sps, nsyms);
                    assert(j / sps == nsyms);
                    assert(j == total);
                }
                self.done = true;
                SourceUpdate::Finished
            }
        } else {
            // j % sps != 0: still inside symbol j / sps.
            proof {
                lemma_mul_is_distributive_add_other_way(sps, j / sps, 1);
                lemma_mul_is_commutative(sps, j / sps);
                lemma_fundamental_div_mod_converse_div(
                    j + sps - 1,
                    sps,
                    j / sps + 1,
                    j % sps - 1,
                );
                if j == total {
                    vstd::arithmetic::div_mod::lemma_mod_multiples_basic(nsyms, sps);
                    lemma_mul_is_commutative(nsyms, sps);
                    assert(false);
                }
                lemma_mul_is_commutative(sps, nsyms);
                lemma_multiply_divide_lt(j, sps, nsyms);
                lemma_div_plus_one(j, sps);
                lemma_mul_is_distributive_add_other_way(bps, j / sps, 1);
                lemma_group_in_range((j / sps) as nat, bps as nat, nbits as nat);
            }
            let grp = crate::digital::util::copy_range(self.bits.as_slice(), 0, self.bits.len());
            proof {
                assert(grp@ =~= self.bits@);
            }
            SourceUpdate::Unchanged(grp)
        }
    }
}

/// If `(k + 1) * bps > nbits` then `k >= nbits / bps`.
proof fn lemma_group_in_range_converse(k: int, bps: int, nbits: int, nsyms: int)
    requires
        bps >= 1,
        k >= 0,
        nbits >= 0,
        nsyms == nbits / bps,
        (k + 1) * bps > nbits,
    ensures
        k >= nsyms,
{
    if k < nsyms {
        lemma_group_in_range(k as nat, bps as nat, nbits as nat);
        lemma_mul_is_distributive_add_other_way(bps, k, 1);
        lemma_mul_is_commutative(bps, k);
        lemma_mul_is_commutative(bps, k + 1);
        assert(false);
    }
}

/// I-bit held by an even/odd offset source before its call number `j`:
/// the first bit of the most recent inner `Changed` update, 0 initially.
pub open spec fn eo_cur0<D: Source>(d: D, j: nat) -> u8
    decreases j,
{
    if j == 0 {
        0
    } else {
        match d.timeline((j - 1) as nat) {
            UpdateModel::Changed(b) => b[0],
            _ => eo_cur0(d, (j - 1) as nat),
        }
    }
}

/// Q-bit held by an even/odd offset source before its call number `j`: the
/// second bit of the inner update at the most recent half-symbol boundary
/// that fell mid-symbol, 0 initially.
pub open spec fn eo_cur1<D: Source>(d: D, m: nat, j: nat) -> u8
    decreases j,
{
    if j == 0 {
        0
    } else {
        match d.timeline((j - 1) as nat) {
            UpdateModel::Unchanged(b) => if ((j - 1) as nat) % m == 0 {
                b[1]
            } else {
                eo_cur1(d, m, (j - 1) as nat)
            },
            _ => eo_cur1(d, m, (j - 1) as nat),
        }
    }
}

/// The timeline of an even/odd offset source with half period `m` wrapping
/// the inner source `d`: at a full-symbol boundary only the I bit is
/// refreshed, at the following half-symbol boundary only the Q bit.
pub open spec fn eo_timeline<D: Source>(d: D, m: nat, j: nat) -> UpdateModel {
    match d.timeline(j) {
        UpdateModel::Finished => UpdateModel::Finished,
        UpdateModel::Changed(b) => UpdateModel::Changed(seq![b[0], eo_cur1(d, m, j)]),
        UpdateModel::Unchanged(b) => if j % m == 0 {
            UpdateModel::Changed(seq![eo_cur0(d, j), b[1]])
        } else {
            UpdateModel::Unchanged(seq![eo_cur0(d, j), eo_cur1(d, m, j)])
        },
    }
}

proof fn lemma_eo_state_congruent<D: Source>(d1: D, d2: D, m: nat, j: nat)
    requires
        forall|i: nat| #[trigger] d1.timeline(i) == d2.timeline(i),
    ensures
        eo_cur0(d1, j) == eo_cur0(d2, j),
        eo_cur1(d1, m, j) == eo_cur1(d2, m, j),
    decreases j,
{
    if j > 0 {
        lemma_eo_state_congruent(d1, d2, m, (j - 1) as nat);
        assert(d1.timeline((j - 1) as nat) == d2.timeline((j - 1) as nat));
    }
}

/// Number of `Changed` updates in the even/odd timeline over the first
/// `len` samples.
pub open spec fn eo_changed_count<D: Source>(d: D, m: nat, len: nat) -> nat
    decreases len,
{
    if len == 0 {
        0
    } else {
        eo_changed_count(d, m, (len - 1) as nat) + if eo_timeline(
            d,
            m,
            (len - 1) as nat,
        ) is Changed {
            1nat
        } else {
            0nat
        }
    }
}

/// An even/odd offset source with half period `m` wrapping a fresh group
/// source over an even number of bits (two per symbol, `2 * m` samples per
/// symbol) emits `Changed` exactly at the sample indices that are multiples
/// of `m`, for as long as bits remain, and `Finished` from sample
/// `bits.len() * m` on.  Consecutive `Changed` updates are therefore spaced
/// `m` samples apart.
pub proof fn lemma_even_odd_changed_spacing<D: Source>(d: D, bits: Seq<u8>, m: nat, j: nat)
    requires
        m >= 1,
        bits.len() % 2 == 0,
        forall|i: nat| #[trigger] d.timeline(i) == group_timeline(bits, 2 * m, 2, i),
    ensures
        eo_timeline(d, m, j) is Changed <==> (j % m == 0 && j < bits.len() * m),
        eo_timeline(d, m, j) is Finished <==> j >= bits.len() * m,
{
    let len = bits.len();
    let nsyms = len / 2;
    lemma_even_odd_total(len, m);
    assert(d.timeline(j) == group_timeline(bits, 2 * m, 2, j));
    if j < nsyms * (2 * m) {
        if j % (2 * m) == 0 {
            // j is a multiple of 2m, hence also of m.
            lemma_fundamental_div_mod(j as int, 2 * m as int);
            let q = j as int / (2 * m as int);
            assert(j as int == (2 * q) * (m as int)) by (nonlinear_arith)
                requires
                    j as int == (2 * (m as int)) * q,
            ;
            vstd::arithmetic::div_mod::lemma_mod_multiples_basic(2 * q, m as int);
        }
    }
}

/// The total sample count of the inner source, `(len / 2) * (2 * m)`,
/// equals `len * m` when `len` is even.
proof fn lemma_even_odd_total(len: nat, m: nat)
    requires
        len % 2 == 0,
    ensures
        (len / 2) * (2 * m) == len * m,
{
    lemma_fundamental_div_mod(len as int, 2);
    assert((len / 2) * (2 * m) == len * m) by (nonlinear_arith)
        requires
            len as int == 2 * ((len / 2) as int),
    ;
}

proof fn lemma_eo_count_eq_ticks<D: Source>(d: D, bits: Seq<u8>, m: nat, len: nat)
    requires
        m >= 1,
        bits.len() % 2 == 0,
        forall|i: nat| #[trigger] d.timeline(i) == group_timeline(bits, 2 * m, 2, i),
        len <= bits.len() * m,
    ensures
        eo_changed_count(d, m, len) == tick_count(len, m),
    decreases len,
{
    if len > 0 {
        lemma_eo_count_eq_ticks(d, bits, m, (len - 1) as nat);
        lemma_even_odd_changed_spacing(d, bits, m, (len - 1) as nat);
    }
}

/// Over its whole run of `bits.len() * m` samples, the even/odd offset
/// source of `lemma_even_odd_changed_spacing` emits exactly `bits.len()`
/// many `Changed` updates: twice the number of two-bit symbols.
pub proof fn lemma_even_odd_changed_total<D: Source>(d: D, bits: Seq<u8>, m: nat)
    requires
        m >= 1,
        bits.len() % 2 == 0,
        forall|i: nat| #[trigger] d.timeline(i) == group_timeline(bits, 2 * m, 2, i),
    ensures
        eo_changed_count(d, m, bits.len() * m) == bits.len(),
{
    let len = bits.len();
    lemma_eo_count_eq_ticks(d, bits, m, len * m);
    lemma_tick_count_ceil(len * m, m);
    // (len * m + m - 1) / m == len
    lemma_fundamental_div_mod_converse_div(
        (len * m + m - 1) as int,
        m as int,
        len as int,
        m as int - 1,
    );
}

/// Wraps a two-bit-per-symbol source and staggers the two bits: the I bit
/// changes at full-symbol boundaries, the Q bit half a symbol later.
pub struct EvenOddOffset<D: Source> {
    data: D,
    clock: SymbolClock,
    cur0: u8,
    cur1: u8,
}

impl<D: Source> EvenOddOffset<D> {
    pub closed spec fn half_period(&self) -> nat {
        self.clock.period()
    }

    pub fn new(data: D, samples_per_symbol: usize, bits_per_symbol: usize) -> (s: EvenOddOffset<
        D,
    >)
        requires
            bits_per_symbol == 2,
            samples_per_symbol % 2 == 0,
            samples_per_symbol >= 2,
            data.wf(),
            data.bps() == 2,
            data.pos() == 0,
        ensures
            s.wf(),
            s.pos() == 0,
            s.bps() == 2,
            s.half_period() == samples_per_symbol / 2,
            forall|j: nat| #[trigger] s.timeline(j) == eo_timeline(
                data,
                (samples_per_symbol / 2) as nat,
                j,
            ),
    {
        EvenOddOffset {
            data,
            clock: SymbolClock::new(samples_per_symbol / bits_per_symbol),
            cur0: 0,
            cur1: 0,
        }
    }
}

impl<D: Source> Source for EvenOddOffset<D> {
    closed spec fn wf(&self) -> bool {
        &&& self.data.wf()
        &&& self.data.bps() == 2
        &&& self.clock.wf()
        &&& self.clock.pos() == self.data.pos()
        &&& self.cur0 == eo_cur0(self.data, self.data.pos())
        &&& self.cur1 == eo_cur1(self.data, self.clock.period(), self.data.pos())
    }

    closed spec fn pos(&self) -> nat {
        self.data.pos()
    }

    closed spec fn bps(&self) -> nat {
        2
    }

    closed spec fn timeline(&self, j: nat) -> UpdateModel {
        eo_timeline(self.data, self.clock.period(), j)
    }

    proof fn lemma_timeline_wf(&self, j: nat) {
        self.data.lemma_timeline_wf(j);
    }

    fn next(&mut self) -> (u: SourceUpdate) {
        let ghost j: nat = self.data.pos();
        let ghost m: nat = self.clock.period();
        let ghost d0: D = self.data;
        let tick = self.clock.next();
        let upd = self.data.next();
        proof {
            d0.lemma_timeline_wf(j);
            lemma_eo_state_congruent(d0, self.data, m, j);
            lemma_eo_state_congruent(d0, self.data, m, j + 1);
            assert(self.data.timeline(j) == d0.timeline(j));
            assert forall|i: nat| #[trigger] eo_timeline(self.data, m, i) == eo_timeline(
                d0,
                m,
                i,
            ) by {
                lemma_eo_state_congruent(d0, self.data, m, i);
                assert(self.data.timeline(i) == d0.timeline(i));
            }
        }
        match upd {
            SourceUpdate::Finished => {
                proof {
                    assert(eo_cur0(self.data, j + 1) == eo_cur0(self.data, j));
                    assert(eo_cur1(self.data, m, j + 1) == eo_cur1(self.data, m, j));
                }
                SourceUpdate::Finished
            },
            SourceUpdate::Changed(b) => {
                self.cur0 = b[0];
                let out = vec![self.cur0, self.cur1];
                proof {
                    assert(eo_cur0(self.data, j + 1) == b@[0]);
                    assert(eo_cur1(self.data, m, j + 1) == eo_cur1(self.data, m, j));
                    assert(out@ =~= seq![b@[0], eo_cur1(d0, m, j)]);
                }
                SourceUpdate::Changed(out)
            },
            SourceUpdate::Unchanged(b) => {
                if tick {
                    self.cur1 = b[1];
                    let out = vec![self.cur0, self.cur1];
                    proof {
                        assert(eo_cur0(self.data, j + 1) == eo_cur0(self.data, j));
                        assert(eo_cur1(self.data, m, j + 1) == b@[1]);
                        assert(out@ =~= seq![eo_cur0(d0, j), b@[1]]);
                    }
                    SourceUpdate::Changed(out)
                } else {
                    let out = vec![self.cur0, self.cur1];
                    proof {
                        assert(eo_cur0(self.data, j + 1) == eo_cur0(self.data, j));
                        assert(eo_cur1(self.data, m, j + 1) == eo_cur1(self.data, m, j));
                        assert(out@ =~= seq![eo_cur0(d0, j), eo_cur1(d0, m, j)]);
                    }
                    SourceUpdate::Unchanged(out)
                }
            },
        }
    }
}

} // verus!
