//! Synthetic symbol sequences and their windowed encoding.
//!
//! A sequence is drawn phase by phase: phases 0 and 1 emit a symbol from
//! `{2, 3}`, phase 2 emits a symbol from `{8, 9}`, and any later phase emits
//! nothing. A window of two consecutive symbols names one of twelve input
//! categories.
use vstd::prelude::*;

use rand::seq::IndexedRandom;
use rand::RngExt;

verus! {

/// The twelve two-symbol windows a sequence can show, in the order of their
/// one-hot index.
#[derive(Debug, Clone, Copy, PartialEq, Eq)]
pub enum SeqIn {
    C0,
    C1,
    C2,
    C3,
    C4,
    C5,
    C6,
    C7,
    C8,
    C9,
    C10,
    C11,
}

/// The category that a window of symbols names, if any.
pub open spec fn window_category(w: Seq<usize>) -> Option<SeqIn> {
    if w.len() != 2 {
        None
    } else if w[0] == 2 && w[1] == 2 {
        Some(SeqIn::C0)
    } else if w[0] == 2 && w[1] == 3 {
        Some(SeqIn::C1)
    } else if w[0] == 3 && w[1] == 2 {
        Some(SeqIn::C2)
    } else if w[0] == 3 && w[1] == 3 {
        Some(SeqIn::C3)
    } else if w[0] == 2 && w[1] == 8 {
        Some(SeqIn::C4)
    } else if w[0] == 2 && w[1] == 9 {
        Some(SeqIn::C5)
    } else if w[0] == 3 && w[1] == 8 {
        Some(SeqIn::C6)
    } else if w[0] == 3 && w[1] == 9 {
        Some(SeqIn::C7)
    } else if w[0] == 8 && w[1] == 2 {
        Some(SeqIn::C8)
    } else if w[0] == 8 && w[1] == 3 {
        Some(SeqIn::C9)
    } else if w[0] == 9 && w[1] == 2 {
        Some(SeqIn::C10)
    } else if w[0] == 9 && w[1] == 3 {
        Some(SeqIn::C11)
    } else {
        None
    }
}

/// The position of a category in its one-hot encoding.
pub open spec fn category_index(c: SeqIn) -> nat {
    match c {
        SeqIn::C0 => 0,
        SeqIn::C1 => 1,
        SeqIn::C2 => 2,
        SeqIn::C3 => 3,
        SeqIn::C4 => 4,
        SeqIn::C5 => 5,
        SeqIn::C6 => 6,
        SeqIn::C7 => 7,
        SeqIn::C8 => 8,
        SeqIn::C9 => 9,
        SeqIn::C10 => 10,
        SeqIn::C11 => 11,
    }
}

impl SeqIn {
    /// The category of a window of symbols, or `None` for a window outside
    /// the table.
    pub fn lookup(window: &[usize]) -> (r: Option<SeqIn>)
        ensures
            r == window_category(window@),
    {
        if window.len() != 2 {
            return None;
        }
        let a: usize = window[0];
        let b: usize = window[1];
        if a == 2 && b == 2 {
            Some(SeqIn::C0)
        } else if a == 2 && b == 3 {
            Some(SeqIn::C1)
        } else if a == 3 && b == 2 {
            Some(SeqIn::C2)
        } else if a == 3 && b == 3 {
            Some(SeqIn::C3)
        } else if a == 2 && b == 8 {
            Some(SeqIn::C4)
        } else if a == 2 && b == 9 {
            Some(SeqIn::C5)
        } else if a == 3 && b == 8 {
            Some(SeqIn::C6)
        } else if a == 3 && b == 9 {
            Some(SeqIn::C7)
        } else if a == 8 && b == 2 {
            Some(SeqIn::C8)
        } else if a == 8 && b == 3 {
            Some(SeqIn::C9)
        } else if a == 9 && b == 2 {
            Some(SeqIn::C10)
        } else if a == 9 && b == 3 {
            Some(SeqIn::C11)
        } else {
            None
        }
    }

    /// The category of a window of two symbols. Only the twelve windows of
    /// the table have a category.
    pub fn get(window: &[usize]) -> (r: SeqIn)
        requires
            window_category(window@) is Some,
        ensures
            Some(r) == window_category(window@),
    {
        SeqIn::lookup(window).unwrap()
    }

    /// The position of the one entry that is set in this category's
    /// twelve-entry one-hot encoding.
    pub fn index(&self) -> (r: usize)
        ensures
            r == category_index(*self),
            r < 12,
    {
        match self {
            SeqIn::C0 => 0,
            SeqIn::C1 => 1,
            SeqIn::C2 => 2,
            SeqIn::C3 => 3,
            SeqIn::C4 => 4,
            SeqIn::C5 => 5,
            SeqIn::C6 => 6,
            SeqIn::C7 => 7,
            SeqIn::C8 => 8,
            SeqIn::C9 => 9,
            SeqIn::C10 => 10,
            SeqIn::C11 => 11,
        }
    }
}

/// A window has a category exactly when it holds two symbols from
/// `{2, 3, 8, 9}` that are not both from `{8, 9}`; the category's one-hot
/// position is then `8` when the first symbol is 8 or 9, plus `4` when the
/// second is, plus `2` when the first is odd, plus `1` when the second is.
pub proof fn lemma_window_category_formula(w: Seq<usize>)
    ensures
        (window_category(w) is Some) <==> (w.len() == 2
            && (w[0] == 2 || w[0] == 3 || w[0] == 8 || w[0] == 9)
            && (w[1] == 2 || w[1] == 3 || w[1] == 8 || w[1] == 9)
            && !(w[0] >= 8 && w[1] >= 8)),
        window_category(w) matches Some(c) ==> category_index(c) == (if w[0] >= 8 { 8nat } else { 0nat })
            + (if w[1] >= 8 { 4nat } else { 0nat }) + (if w[0] % 2 == 1 { 2nat } else { 0nat })
            + (if w[1] % 2 == 1 { 1nat } else { 0nat }),
{
}

/// Distinct windows name distinct categories, and distinct categories have
/// distinct one-hot positions: the encoding of a window loses nothing.
pub proof fn lemma_window_encoding_injective(w1: Seq<usize>, w2: Seq<usize>)
    requires
        window_category(w1) is Some,
        window_category(w2) is Some,
        category_index(window_category(w1).unwrap()) == category_index(window_category(w2).unwrap()),
    ensures
        w1 == w2,
        window_category(w1) == window_category(w2),
{
    assert(w1 =~= w2);
}

/// The phase of step `step` of a sequence whose first step has phase
/// `start`: after each step the phase advances by one, modulo the cycle.
pub open spec fn phase_at(start: nat, cycle_len: nat, step: nat) -> nat {
    if step == 0 {
        start
    } else {
        (((start + step) as int) % (cycle_len as int)) as nat
    }
}

/// The symbols a step of the given phase may emit; none for phases past 2.
pub open spec fn phase_symbols(phase: nat) -> Seq<usize> {
    if phase <= 1 {
        seq![2usize, 3usize]
    } else if phase == 2 {
        seq![8usize, 9usize]
    } else {
        Seq::empty()
    }
}

/// The sequence that `steps` steps produce from start phase `start` and the
/// draws `picks`: step `i` emits `phase_symbols(p)[picks[i]]` when its phase
/// `p` is at most 2, and nothing otherwise.
pub open spec fn sequence_from_draws_spec(start: nat, picks: Seq<usize>, cycle_len: nat, steps: nat) -> Seq<usize>
    decreases steps,
{
    if steps == 0 {
        Seq::empty()
    } else {
        let before = sequence_from_draws_spec(start, picks, cycle_len, (steps - 1) as nat);
        let p: nat = phase_at(start, cycle_len, (steps - 1) as nat);
        if p <= 2 {
            before.push(phase_symbols(p)[picks[steps - 1] as int])
        } else {
            before
        }
    }
}

/// The sequence made from some draws is the list of the steps whose phase
/// (the start phase advanced by one, modulo the cycle, per step) is at most
/// 2, each giving `2` or `3` at phases 0 and 1 and `8` or `9` at phase 2 as
/// its pick is 0 or 1; steps of any later phase give nothing.
pub proof fn lemma_draws_are_filtered_steps(start: nat, picks: Seq<usize>, cycle_len: nat, steps: nat)
    requires
        picks.len() >= steps,
        forall|i: int| 0 <= i < steps ==> picks[i] < 2,
        steps > 0 ==> cycle_len > 0,
    ensures
        sequence_from_draws_spec(start, picks, cycle_len, steps) == Seq::new(
            steps,
            |i: int| {
                let phase: int = if i == 0 { start as int } else { (start + i) % (cycle_len as int) };
                let pick: usize = picks[i];
                (phase, if phase <= 1 {
                    if pick == 0 { 2usize } else { 3usize }
                } else if phase == 2 {
                    if pick == 0 { 8usize } else { 9usize }
                } else {
                    0usize
                })
            },
        ).filter(|s: (int, usize)| s.0 <= 2).map_values(|s: (int, usize)| s.1),
    decreases steps,
{
    let f = |i: int| {
        let phase: int = if i == 0 { start as int } else { (start + i) % (cycle_len as int) };
        let pick: usize = picks[i];
        (phase, if phase <= 1 {
            if pick == 0 { 2usize } else { 3usize }
        } else if phase == 2 {
            if pick == 0 { 8usize } else { 9usize }
        } else {
            0usize
        })
    };
    let keep = |s: (int, usize)| s.0 <= 2;
    let symbol = |s: (int, usize)| s.1;
    if steps > 0 {
        let n = (steps - 1) as nat;
        lemma_draws_are_filtered_steps(start, picks, cycle_len, n);
        let all = Seq::new(steps, f);
        assert(all.drop_last() =~= Seq::new(n, f));
        assert(all.last() == f(n as int));
        let before = Seq::new(n, f).filter(keep);
        reveal(Seq::filter);
        let p: nat = phase_at(start, cycle_len, n);
        assert(f(n as int).0 == p as int);
        assert(picks[n as int] < 2);
        if keep(f(n as int)) {
            assert(phase_symbols(p)[picks[n as int] as int] == f(n as int).1);
            assert(all.filter(keep) == before.push(f(n as int)));
            assert(before.push(f(n as int)).map_values(symbol) =~= before.map_values(symbol).push(
                f(n as int).1,
            ));
        } else {
            assert(all.filter(keep) == before);
        }
        assert(sequence_from_draws_spec(start, picks, cycle_len, steps) == all.filter(keep).map_values(symbol));
    } else {
        reveal(Seq::filter);
        assert(Seq::new(0, f).filter(keep).map_values(symbol) =~= Seq::<usize>::empty());
    }
}

/// The thread-local random generator of `rand`.
#[verifier::external_type_specification]
#[verifier::external_body]
pub struct ExThreadRng(rand::rngs::ThreadRng);

/// Calls `rand::rng()`, a handle to the thread-local generator. Trusted for
/// nothing but its type; `rand` documents that it panics if the system
/// source of randomness fails at first seeding, which no clause here can
/// exclude.
#[verifier::external_body]
fn thread_rng() -> rand::rngs::ThreadRng {
    rand::rng()
}

/// Calls `RngExt::random_range(0..bound)`. Trusted: the result lies in the
/// range, as `rand` documents for a non-empty range; which value comes out
/// depends on the generator and is not stated.
#[verifier::external_body]
fn random_below(rng: &mut rand::rngs::ThreadRng, bound: usize) -> (r: usize)
    requires
        bound > 0,
    ensures
        r < bound,
{
    rng.random_range(0..bound)
}

/// Calls `IndexedRandom::choose` on a slice and copies the chosen element.
/// Trusted: `None` exactly for an empty slice, otherwise an element of the
/// slice, as `rand` documents; which element is not stated.
#[verifier::external_body]
fn choose_one(items: &[usize], rng: &mut rand::rngs::ThreadRng) -> (r: Option<usize>)
    ensures
        (r is None) <==> items@.len() == 0,
        r matches Some(x) ==> items@.contains(x),
{
    items.choose(rng).copied()
}

proof fn lemma_next_phase(start: nat, cycle_len: nat, step: nat, phase: nat)
    requires
        cycle_len > 0,
        phase == phase_at(start, cycle_len, step),
    ensures
        (((phase + 1) as int) % (cycle_len as int)) as nat == phase_at(start, cycle_len, step + 1),
{
    if step > 0 {
        vstd::arithmetic::div_mod::lemma_add_mod_noop_right(1, (start + step) as int, cycle_len as int);
    }
}

/// Turns the draws of a sequence into its symbols: the phase starts at
/// `start` and advances by one, modulo `cycle_len`, after each step; a step
/// of phase 0 or 1 emits `[2, 3][picks[i]]`, a step of phase 2 emits
/// `[8, 9][picks[i]]`, and later phases emit nothing. The cycle must not be
/// empty unless there are no steps.
pub fn sequence_from_draws(start: usize, picks: &Vec<usize>, seq_len: usize, cycle_len: usize) -> (r: Vec<usize>)
    requires
        start < 3,
        picks@.len() == seq_len,
        forall|i: int| 0 <= i < seq_len ==> picks@[i] < 2,
        seq_len > 0 ==> cycle_len > 0,
    ensures
        r@ == sequence_from_draws_spec(start as nat, picks@, cycle_len as nat, seq_len as nat),
        r@ == Seq::new(
            seq_len as nat,
            |i: int| {
                let phase: int = if i == 0 { start as int } else { (start + i) % (cycle_len as int) };
                let pick: usize = picks@[i];
                (phase, if phase <= 1 {
                    if pick == 0 { 2usize } else { 3usize }
                } else if phase == 2 {
                    if pick == 0 { 8usize } else { 9usize }
                } else {
                    0usize
                })
            },
        ).filter(|s: (int, usize)| s.0 <= 2).map_values(|s: (int, usize)| s.1),
{
    let mut phase_index: usize = start;
    let mut sequence: Vec<usize> = Vec::new();
    let set1: Vec<usize> = vec![2, 3];
    let set2: Vec<usize> = vec![8, 9];
    let mut step: usize = 0;
    while step < seq_len
        invariant
            seq_len > 0 ==> cycle_len > 0,
            start < 3,
            picks@.len() == seq_len,
            forall|i: int| 0 <= i < seq_len ==> picks@[i] < 2,
            0 <= step <= seq_len,
            set1@ == seq![2usize, 3usize],
            set2@ == seq![8usize, 9usize],
            phase_index as nat == phase_at(start as nat, cycle_len as nat, step as nat),
            phase_index < 3 || phase_index < cycle_len,
            sequence@ == sequence_from_draws_spec(start as nat, picks@, cycle_len as nat, step as nat),
        decreases seq_len - step,
    {
        let pick: usize = picks[step];
        if phase_index == 0 || phase_index == 1 {
            sequence.push(set1[pick]);
        } else if phase_index == 2 {
            sequence.push(set2[pick]);
        }
        proof {
            lemma_next_phase(start as nat, cycle_len as nat, step as nat, phase_index as nat);
        }
        phase_index = phase_index + 1;
        phase_index = phase_index % cycle_len;
        step = step + 1;
    }
    proof {
        lemma_draws_are_filtered_steps(start as nat, picks@, cycle_len as nat, seq_len as nat);
    }
    sequence
}

/// Draws a sequence of `seq_len` steps with phases cycling through
/// `cycle_len`: a random start phase below 3 and, for each step, a random
/// choice between the two symbols of its phase. Whatever the generator
/// returns, the result is what `sequence_from_draws` makes of some start
/// below 3 and some choices each below 2. The cycle must not be empty unless
/// there are no steps.
pub fn create_sequence(seq_len: usize, cycle_len: usize) -> (r: Vec<usize>)
    requires
        seq_len > 0 ==> cycle_len > 0,
    ensures
        exists|start: nat, picks: Seq<usize>|
            #![trigger sequence_from_draws_spec(start, picks, cycle_len as nat, seq_len as nat)]
            start < 3 && picks.len() == seq_len
            && (forall|i: int| 0 <= i < seq_len ==> picks[i] < 2)
            && r@ == sequence_from_draws_spec(start, picks, cycle_len as nat, seq_len as nat)
            && r@ == Seq::new(
            seq_len as nat,
            |i: int| {
                let phase: int = if i == 0 { start as int } else { (start + i) % (cycle_len as int) };
                let pick: usize = picks[i];
                (phase, if phase <= 1 {
                    if pick == 0 { 2usize } else { 3usize }
                } else if phase == 2 {
                    if pick == 0 { 8usize } else { 9usize }
                } else {
                    0usize
                })
            },
        ).filter(|s: (int, usize)| s.0 <= 2).map_values(|s: (int, usize)| s.1),
{
    let mut rng = thread_rng();
    let start: usize = random_below(&mut rng, 3);
    let choices: Vec<usize> = vec![0, 1];
    let mut picks: Vec<usize> = Vec::new();
    let mut step: usize = 0;
    while step < seq_len
        invariant
            choices@ == seq![0usize, 1usize],
            0 <= step <= seq_len,
            picks@.len() == step,
            forall|i: int| 0 <= i < step ==> picks@[i] < 2,
        decreases seq_len - step,
    {
        let pick = choose_one(choices.as_slice(), &mut rng);
        proof {
            if let Some(x) = pick {
                let k = choose|k: int| 0 <= k < choices@.len() && choices@[k] == x;
                assert(choices@[k] < 2);
            }
        }
        picks.push(pick.unwrap());
        step = step + 1;
    }
    let r = sequence_from_draws(start, &picks, seq_len, cycle_len);
    assert(start < 3 && picks@.len() == seq_len && (forall|i: int| 0 <= i < seq_len ==> picks@[i] < 2)
        && r@ == sequence_from_draws_spec(start as nat, picks@, cycle_len as nat, seq_len as nat));

    r
}

/// Position `i` of a sequence of `len` symbols starts a sample when the
/// label after its window, and a further window past that, fit in the
/// sequence: `i + w + 1 <= len - (w + 1)`.
pub open spec fn starts_sample(i: int, len: int, window_size: int) -> bool {
    0 <= i < len && i + window_size + 1 <= len - (window_size + 1)
}

/// The window of `window_size` symbols starting at `i`.
pub open spec fn window_at(s: Seq<usize>, i: int, window_size: int) -> Seq<usize> {
    s.subrange(i, i + window_size)
}

/// A copy of the `window_size` symbols starting at `start`.
fn window_of(seq: &[usize], start: usize, window_size: usize) -> (r: Vec<usize>)
    requires
        start + window_size <= seq@.len(),
    ensures
        r@ == window_at(seq@, start as int, window_size as int),
{
    let mut window: Vec<usize> = Vec::new();
    let mut j: usize = 0;
    while j < window_size
        invariant
            start + window_size <= seq.len(),
            0 <= j <= window_size,
            window@ =~= seq@.subrange(start as int, start + j),
        decreases window_size - j,
    {
        window.push(seq[start + j]);
        j = j + 1;
    }
    window
}

/// Whether `parse_sequence` accepts a sequence and window size: the
/// sequence is longer than the window, and every window that starts a
/// sample has a category.
pub fn parse_sequence_accepts(seq: &[usize], window_size: usize) -> (r: bool)
    ensures
        r <==> (window_size + 1 <= seq@.len() && forall|i: int| #[trigger] starts_sample(i, seq@.len() as int, window_size as int)
            ==> window_category(window_at(seq@, i, window_size as int)) is Some),
{
    let len: usize = seq.len();
    if window_size >= len {
        return false;
    }
    let limit: usize = len - (window_size + 1);
    if limit < window_size + 1 {
        assert forall|i: int| #[trigger] starts_sample(i, seq@.len() as int, window_size as int)
            implies window_category(window_at(seq@, i, window_size as int)) is Some by {}
        return true;
    }
    let last: usize = limit - (window_size + 1);
    let mut i: usize = 0;
    while i < last + 1
        invariant
            len == seq@.len(),
            window_size + 1 <= len,
            limit == len - (window_size + 1),
            last + window_size + 1 == limit,
            forall|k: int| 0 <= k < i ==> #[trigger] starts_sample(k, len as int, window_size as int)
                ==> window_category(window_at(seq@, k, window_size as int)) is Some,
        decreases last + 1 - i,
    {
        let window = window_of(seq, i, window_size);
        if SeqIn::lookup(window.as_slice()).is_none() {
            assert(starts_sample(i as int, len as int, window_size as int));
            return false;
        }
        i = i + 1;
    }
    true
}

/// Cuts a sequence into samples: each position that starts a sample gives
/// the category of its window and, as label, the symbol one past the
/// symbol that follows the window. Positions that start a sample are a
/// prefix of the sequence, so the `k`-th sample starts at `k`.
pub fn parse_sequence(seq: &[usize], window_size: usize) -> (r: Vec<(SeqIn, usize)>)
    requires
        window_size + 1 <= seq@.len(),
        forall|i: int| #[trigger] starts_sample(i, seq@.len() as int, window_size as int)
            ==> window_category(window_at(seq@, i, window_size as int)) is Some,
    ensures
        r@.len() == (if seq@.len() >= 2 * window_size + 2 {
            seq@.len() - 2 * window_size - 1
        } else {
            0
        }),
        forall|k: int| 0 <= k < r@.len() <==> #[trigger] starts_sample(k, seq@.len() as int, window_size as int),
        forall|k: int| 0 <= k < r@.len() ==> Some((#[trigger] r@[k]).0) == window_category(window_at(seq@, k, window_size as int)),
        forall|k: int| 0 <= k < r@.len() ==> Some((#[trigger] r@[k]).0) == window_category(seq@.subrange(k, k + window_size)),
        forall|k: int| 0 <= k < r@.len() ==> (#[trigger] r@[k]).1 == seq@[k + window_size + 1],
{
    let mut samples: Vec<(SeqIn, usize)> = Vec::new();
    let len: usize = seq.len();
    let limit: usize = len - (window_size + 1);
    let mut i: usize = 0;
    while i < len
        invariant
            len == seq@.len(),
            window_size + 1 <= len,
            limit == len - (window_size + 1),
            0 <= i <= len,
            forall|i: int| #[trigger] starts_sample(i, seq@.len() as int, window_size as int)
                ==> window_category(window_at(seq@, i, window_size as int)) is Some,
            samples@.len() <= i,
            samples@.len() == i || !starts_sample(samples@.len() as int, len as int, window_size as int),
            forall|k: int| 0 <= k < samples@.len() <==> (0 <= k < i && #[trigger] starts_sample(k, len as int, window_size as int)),
            forall|k: int| 0 <= k < samples@.len() ==> Some((#[trigger] samples@[k]).0) == window_category(window_at(seq@, k, window_size as int)),
            forall|k: int| 0 <= k < samples@.len() ==> (#[trigger] samples@[k]).1 == seq@[k + window_size + 1],
        decreases len - i,
    {
        if limit >= window_size + 1 && i <= limit - (window_size + 1) {
            assert(starts_sample(i as int, len as int, window_size as int));
            assert(samples@.len() == i) by {
                if samples@.len() < i {
                    assert(starts_sample(samples@.len() as int, len as int, window_size as int));
                }
            }
            let window = window_of(seq, i, window_size);
            let category = SeqIn::get(window.as_slice());
            let ghost before = samples@;
            samples.push((category, seq[i + window_size + 1]));
            assert forall|k: int| 0 <= k < samples@.len() implies Some((#[trigger] samples@[k]).0)
                == window_category(window_at(seq@, k, window_size as int)) by {
                if k < before.len() {
                    assert(samples@[k] == before[k]);
                }
            }
        } else {
            assert(!starts_sample(i as int, len as int, window_size as int));
        }
        i = i + 1;
    }
    proof {
        let n: int = samples@.len() as int;
        if n > 0 {
            assert(starts_sample(n - 1, len as int, window_size as int));
        }
        assert(!starts_sample(n, len as int, window_size as int));
    }
    samples
}

} // verus!
