use vstd::prelude::*;

verus! {

// Debounce policy: a key is recognized as pressed only when the last N
// above-threshold samples are unanimous.  The buffer reports `true` (a press
// edge) exactly once per transition from released to a run of N consecutive
// `true` samples; a single `false` sample resets both the run and the
// reported state to released.
//
// The state is kept as the length of the current run of `true` samples,
// capped at N, together with the last reported logical state.  A window of
// the last N samples is unanimously `true` exactly when the current run has
// reached length N, so the two representations decide alike.

/// Run length after one more sample: a `false` sample resets the run,
/// a `true` sample extends it, capped at `n`.
pub open spec fn next_count(count: nat, n: nat, sample: bool) -> nat {
    if !sample {
        0
    } else if count < n {
        count + 1
    } else {
        count
    }
}

/// Reported state after one more sample: released on a `false` sample,
/// pressed once the run reaches `n`, otherwise unchanged.
pub open spec fn next_pressed(count: nat, pressed: bool, n: nat, sample: bool) -> bool {
    if !sample {
        false
    } else if next_count(count, n, sample) == n {
        true
    } else {
        pressed
    }
}

/// A press edge is emitted when the sample completes a run of `n` while the
/// reported state is still released.
pub open spec fn edge_step(count: nat, pressed: bool, n: nat, sample: bool) -> bool {
    sample && next_count(count, n, sample) == n && !pressed
}

/// Per-switch debounce window over boolean "above-threshold" samples.
#[derive(Clone, Copy, Debug)]
pub struct Buffer<const N: usize> {
    /// Length of the current run of consecutive `true` samples, capped at N.
    pub count: usize,
    /// Last reported logical state: `true` while a press is being held.
    pub pressed: bool,
}

impl<const N: usize> Buffer<N> {
    pub open spec fn wf(self) -> bool {
        self.count <= N && (self.pressed ==> self.count == N)
    }

    pub fn new() -> (r: Buffer<N>)
        ensures
            r.wf(),
            r.count == 0,
            !r.pressed,
    {
        Buffer { count: 0, pressed: false }
    }

    /// Push one sample; the result is `true` exactly on a press edge.
    pub fn update(&mut self, sample: bool) -> (edge: bool)
        requires
            old(self).wf(),
            N >= 1,
        ensures
            final(self).wf(),
            final(self).count == next_count(old(self).count as nat, N as nat, sample),
            final(self).pressed == next_pressed(
                old(self).count as nat,
                old(self).pressed,
                N as nat,
                sample,
            ),
            edge == edge_step(old(self).count as nat, old(self).pressed, N as nat, sample),
    {
        if !sample {
            self.count = 0;
            self.pressed = false;
            return false;
        }
        if self.count < N {
            self.count = self.count + 1;
        }
        if self.count == N && !self.pressed {
            self.pressed = true;
            true
        } else {
            false
        }
    }
}

// The behaviour of a buffer over a whole sample sequence, for stating the
// debounce laws: fold the single-step model over the sequence, starting from
// a fresh buffer.

/// (run length, reported state) after feeding `samples` to a fresh buffer.
pub open spec fn run_state(samples: Seq<bool>, n: nat) -> (nat, bool)
    decreases samples.len(),
{
    if samples.len() == 0 {
        (0 as nat, false)
    } else {
        let prev = run_state(samples.drop_last(), n);
        (
            next_count(prev.0, n, samples.last()),
            next_pressed(prev.0, prev.1, n, samples.last()),
        )
    }
}

/// Whether a press edge is emitted on sample `i` of `samples`.
pub open spec fn edge_at(samples: Seq<bool>, i: int, n: nat) -> bool {
    0 <= i < samples.len() && {
        let prev = run_state(samples.take(i), n);
        edge_step(prev.0, prev.1, n, samples[i])
    }
}

/// Length of the run of `true` samples at the end of `s`.
pub open spec fn trailing_trues(s: Seq<bool>) -> nat
    decreases s.len(),
{
    if s.len() == 0 || !s.last() {
        0
    } else {
        trailing_trues(s.drop_last()) + 1
    }
}

proof fn lemma_count_is_trailing(s: Seq<bool>, n: nat)
    requires
        n >= 1,
    ensures
        run_state(s, n).0 == if trailing_trues(s) < n {
            trailing_trues(s)
        } else {
            n
        },
    decreases s.len(),
{
    if s.len() > 0 {
        lemma_count_is_trailing(s.drop_last(), n);
    }
}

proof fn lemma_trailing_le_len(s: Seq<bool>)
    ensures
        trailing_trues(s) <= s.len(),
    decreases s.len(),
{
    if s.len() > 0 && s.last() {
        lemma_trailing_le_len(s.drop_last());
    }
}

proof fn lemma_trailing_true_at(s: Seq<bool>, j: int)
    requires
        s.len() - trailing_trues(s) <= j < s.len(),
    ensures
        s[j],
    decreases s.len(),
{
    lemma_trailing_le_len(s);
    assert(trailing_trues(s) > 0);
    assert(s.last());
    if j < s.len() - 1 {
        lemma_trailing_le_len(s.drop_last());
        assert(s.drop_last()[j] == s[j]);
        lemma_trailing_true_at(s.drop_last(), j);
    }
}

/// Law: no press edge is ever reported for a run shorter than N.  Every
/// sample on which an edge is reported ends a window of N unanimously `true`
/// samples.
pub proof fn lemma_edge_needs_full_run(samples: Seq<bool>, i: int, n: nat)
    requires
        n >= 1,
        edge_at(samples, i, n),
    ensures
        i >= n - 1,
        forall|j: int| i + 1 - n <= j <= i ==> samples[j],
{
    let prefix = samples.take(i);
    let prev = run_state(prefix, n);
    lemma_count_is_trailing(prefix, n);
    lemma_trailing_le_len(prefix);
    // The edge means the run reached n on sample i, so the prefix already
    // carried a run of n - 1 `true` samples.
    assert(prev.0 >= n - 1);
    assert(trailing_trues(prefix) >= n - 1);
    assert forall|j: int| i + 1 - n <= j <= i implies samples[j] by {
        if j < i {
            lemma_trailing_true_at(prefix, j);
            assert(prefix[j] == samples[j]);
        }
    }
}

proof fn lemma_pressed_stays(samples: Seq<bool>, m: int, j: int, n: nat)
    requires
        0 <= m <= j <= samples.len(),
        run_state(samples.take(m), n).1,
        forall|k: int| m <= k < j ==> samples[k],
    ensures
        run_state(samples.take(j), n).1,
    decreases j - m,
{
    if j > m {
        lemma_pressed_stays(samples, m, j - 1, n);
        assert(samples.take(j).drop_last() =~= samples.take(j - 1));
        assert(samples.take(j).last() == samples[j - 1]);
    }
}

proof fn lemma_fresh_run_state(samples: Seq<bool>, i: int, m: int, n: nat)
    requires
        n >= 1,
        0 <= i,
        i + m <= samples.len(),
        0 <= m < n,
        i == 0 || !samples[i - 1],
        forall|k: int| i <= k < i + m ==> samples[k],
    ensures
        run_state(samples.take(i + m), n) == ((m as nat, false)),
    decreases m,
{
    if m == 0 {
        if i == 0 {
        } else {
            assert(samples.take(i).last() == samples[i - 1]);
        }
    } else {
        lemma_fresh_run_state(samples, i, m - 1, n);
        assert(samples.take(i + m).drop_last() =~= samples.take(i + m - 1));
        assert(samples.take(i + m).last() == samples[i + m - 1]);
    }
}

/// Law: a fresh run does report a press: after a released sample (or from
/// the start), N consecutive `true` samples emit an edge on the Nth.
pub proof fn lemma_fresh_run_edges(samples: Seq<bool>, i: int, n: nat)
    requires
        n >= 1,
        0 <= i,
        i + n <= samples.len(),
        i == 0 || !samples[i - 1],
        forall|k: int| i <= k < i + n ==> samples[k],
    ensures
        edge_at(samples, i + n - 1, n),
{
    lemma_fresh_run_state(samples, i, n - 1, n);
}

/// Law: at most one press edge is reported per contiguous run of `true`
/// samples.  After an edge on sample `i`, no further edge comes while the
/// samples stay `true` through sample `j`.
pub proof fn lemma_one_edge_per_run(samples: Seq<bool>, i: int, j: int, n: nat)
    requires
        n >= 1,
        edge_at(samples, i, n),
        i < j < samples.len(),
        forall|k: int| i <= k <= j ==> samples[k],
    ensures
        !edge_at(samples, j, n),
{
    // The edge on sample i sets the reported state to pressed.
    assert(samples.take(i + 1).drop_last() =~= samples.take(i));
    assert(samples.take(i + 1).last() == samples[i]);
    assert(run_state(samples.take(i + 1), n).1);
    // It stays pressed while the samples stay true, and an edge needs the
    // released state.
    lemma_pressed_stays(samples, i + 1, j, n);
}

} // verus!
