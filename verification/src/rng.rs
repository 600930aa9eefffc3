//! Randomness drawn from a finite supply of raw TRNG words.
//!
//! The hardware generator hands out 32-bit words; reading them is I/O and
//! happens outside the library. An [`Rng`] holds the words read so far and
//! consumes them front to back, so every draw below is a function of the
//! word sequence. When the supply runs out a draw returns `None` and the
//! caller reads more words and starts over.

use vstd::prelude::*;

verus! {

broadcast use vstd::seq_lib::group_seq_properties;

/// Rejection threshold for a uniform draw below `max`: the largest multiple
/// of `max` that fits in a `u32` (words at or above it are rejected).
pub open spec fn range_threshold(max: u32) -> int {
    u32::MAX - (u32::MAX % max)
}

/// Law: the rejection threshold is a multiple of `max` and within `max` of
/// the top of the `u32` range, so every value below `max` is the
/// remainder of exactly as many accepted words as any other: the draw is
/// unbiased, and a word is rejected with probability below `max / 2^32`.
pub proof fn lemma_range_threshold_unbiased(max: u32)
    requires
        max > 1,
    ensures
        range_threshold(max) % (max as int) == 0,
        u32::MAX - max < range_threshold(max) <= u32::MAX,
{
    let a = u32::MAX as int;
    let m = max as int;
    vstd::arithmetic::div_mod::lemma_fundamental_div_mod(a, m);
    vstd::arithmetic::div_mod::lemma_mod_multiples_basic(a / m, m);
    vstd::arithmetic::mul::lemma_mul_is_commutative(m, a / m);
    vstd::arithmetic::div_mod::lemma_mod_bound(a, m);
}

/// A uniform draw below `max` by rejection sampling: the first word under
/// the threshold, reduced modulo `max`, and the words left after it.
/// A bound of 0 or 1 draws nothing and gives 0.
pub open spec fn draw_below(ws: Seq<u32>, max: u32) -> Option<(u32, Seq<u32>)>
    decreases ws.len(),
{
    if max <= 1 {
        Some((0u32, ws))
    } else if ws.len() == 0 {
        None
    } else if ws[0] < range_threshold(max) {
        Some(((ws[0] % max) as u32, ws.drop_first()))
    } else {
        draw_below(ws.drop_first(), max)
    }
}

/// The four bytes of a word, least significant first.
pub open spec fn le_bytes(w: u32) -> Seq<u8> {
    seq![
        (w % 0x100) as u8,
        ((w / 0x100) % 0x100) as u8,
        ((w / 0x1_0000) % 0x100) as u8,
        ((w / 0x100_0000) % 0x100) as u8,
    ]
}

/// `n` random bytes: each word gives up to four of its little-endian bytes.
pub open spec fn draw_bytes(ws: Seq<u32>, n: nat) -> Option<(Seq<u8>, Seq<u32>)>
    decreases n,
{
    if n == 0 {
        Some((Seq::<u8>::empty(), ws))
    } else if ws.len() == 0 {
        None
    } else {
        let take: nat = if n < 4 { n } else { 4 };
        match draw_bytes(ws.drop_first(), (n - take) as nat) {
            Some((rest, ws2)) => Some((le_bytes(ws[0]).take(take as int) + rest, ws2)),
            None => None,
        }
    }
}

/// Law: a draw of `n` bytes gives exactly `n` bytes.
pub proof fn lemma_draw_bytes_len(ws: Seq<u32>, n: nat)
    ensures
        draw_bytes(ws, n) matches Some((bs, _)) ==> bs.len() == n,
    decreases n,
{
    if n > 0 && ws.len() > 0 {
        let take: nat = if n < 4 { n } else { 4 };
        lemma_draw_bytes_len(ws.drop_first(), (n - take) as nat);
    }
}

/// Byte `k` of the supply read as little-endian words: byte `k % 4` of word
/// `k / 4`, least significant first.
pub open spec fn word_byte(ws: Seq<u32>, k: int) -> u8 {
    let w = ws[k / 4] as int;
    (if k % 4 == 0 {
        w % 256
    } else if k % 4 == 1 {
        (w / 256) % 256
    } else if k % 4 == 2 {
        (w / 65536) % 256
    } else {
        (w / 16777216) % 256
    }) as u8
}

/// Law: `n` random bytes are the first `n` bytes of the supply read as
/// little-endian words; they take the first `ceil(n / 4)` words.
pub proof fn lemma_draw_bytes_direct(ws: Seq<u32>, n: nat)
    requires
        ws.len() >= (n + 3) / 4,
    ensures
        draw_bytes(ws, n) == Some((Seq::new(n, |k: int| word_byte(ws, k)), ws.skip(((n + 3) / 4) as int))),
    decreases n,
{
    if n == 0 {
        assert(Seq::new(0, |k: int| word_byte(ws, k)) =~= Seq::<u8>::empty());
        assert(ws.skip(0) =~= ws);
    } else {
        let take: nat = if n < 4 { n } else { 4 };
        let ws1 = ws.drop_first();
        lemma_draw_bytes_direct(ws1, (n - take) as nat);
        let rest = Seq::new((n - take) as nat, |k: int| word_byte(ws1, k));
        let all = Seq::new(n, |k: int| word_byte(ws, k));
        assert forall|k: int| 0 <= k < n implies #[trigger] (le_bytes(ws[0]).take(take as int) + rest)[k] == all[k] by {
            if k >= 4 {
                assert(ws1[(k - 4) / 4] == ws[k / 4]);
                assert((k - 4) % 4 == k % 4);
            }
        }
        assert(le_bytes(ws[0]).take(take as int) + rest =~= all);
        assert(ws1.skip((((n - take) + 3) / 4) as int) =~= ws.skip(((n + 3) / 4) as int));
    }
}

/// Law: a draw below `max` takes the first word when it lies below the
/// rejection threshold, giving its remainder modulo `max`; a word at or
/// above the threshold is dropped and the draw goes on with the next one.
pub proof fn lemma_draw_below_first_word(ws: Seq<u32>, max: u32)
    requires
        max > 1,
        ws.len() > 0,
    ensures
        ws[0] < u32::MAX - u32::MAX % max ==> draw_below(ws, max) == Some(((ws[0] % max) as u32, ws.drop_first())),
        ws[0] >= u32::MAX - u32::MAX % max ==> draw_below(ws, max) == draw_below(ws.drop_first(), max),
{
}

/// `s` with the items at `i` and `j` exchanged.
pub open spec fn swapped<T>(s: Seq<T>, i: int, j: int) -> Seq<T> {
    s.update(i, s[j]).update(j, s[i])
}

/// Fisher-Yates over positions `i` down to 1: position `k` is exchanged
/// with a uniform position at most `k`.
pub open spec fn fisher_yates<T>(s: Seq<T>, ws: Seq<u32>, i: nat) -> Option<(Seq<T>, Seq<u32>)>
    decreases i,
{
    if i == 0 {
        Some((s, ws))
    } else {
        match draw_below(ws, (i + 1) as u32) {
            Some((j, ws2)) => fisher_yates(swapped(s, i as int, j as int), ws2, (i - 1) as nat),
            None => None,
        }
    }
}

/// A uniform shuffle of `s`.
pub open spec fn draw_shuffle<T>(s: Seq<T>, ws: Seq<u32>) -> Option<(Seq<T>, Seq<u32>)> {
    if s.len() <= 1 {
        Some((s, ws))
    } else {
        fisher_yates(s, ws, (s.len() - 1) as nat)
    }
}

/// Law: a draw below `max` is below `max` (it is 0 when `max` is 0 or 1),
/// and it consumes words from the front of the supply.
pub proof fn lemma_draw_below_bound(ws: Seq<u32>, max: u32)
    ensures
        draw_below(ws, max) matches Some((v, rest)) ==> {
            &&& (max <= 1 ==> v == 0)
            &&& (max > 1 ==> v < max)
            &&& rest.len() <= ws.len()
            &&& rest == ws.skip(ws.len() - rest.len())
        },
    decreases ws.len(),
{
    if max > 1 && ws.len() > 0 {
        if ws[0] < range_threshold(max) {
            assert(ws.drop_first() =~= ws.skip(1));
        } else {
            lemma_draw_below_bound(ws.drop_first(), max);
            if let Some((v, rest)) = draw_below(ws, max) {
                assert(ws.drop_first().skip(ws.drop_first().len() - rest.len()) =~= ws.skip(ws.len() - rest.len()));
            }
        }
    } else if max <= 1 {
        assert(ws.skip(0) =~= ws);
    }
}

/// Law: Fisher-Yates only rearranges the sequence: the result holds the
/// same items, each as often, as the input.
pub proof fn lemma_fisher_yates_permutes<T>(s: Seq<T>, ws: Seq<u32>, i: nat)
    requires
        i < s.len(),
    ensures
        fisher_yates(s, ws, i) matches Some((t, _)) ==> t.to_multiset() == s.to_multiset(),
    decreases i,
{
    broadcast use vstd::seq_lib::to_multiset_update;
    if i > 0 {
        lemma_draw_below_bound(ws, (i + 1) as u32);
        if let Some((j, ws2)) = draw_below(ws, (i + 1) as u32) {
            let s2 = swapped(s, i as int, j as int);
            lemma_fisher_yates_permutes(s2, ws2, (i - 1) as nat);
            if i as int != j as int {
                assert(s2.to_multiset() =~= s.to_multiset());
            } else {
                assert(s2 =~= s);
            }
        }
    }
}

/// Fisher-Yates down from position `i` leaves the positions above `i`.
proof fn lemma_fisher_yates_keeps_above<T>(s: Seq<T>, ws: Seq<u32>, i: nat)
    requires
        i < s.len(),
    ensures
        fisher_yates(s, ws, i) matches Some((t, _)) ==> t.len() == s.len() && forall|p: int| i < p < s.len() ==> #[trigger] t[p] == s[p],
    decreases i,
{
    if i > 0 {
        lemma_draw_below_bound(ws, (i + 1) as u32);
        if let Some((j, ws2)) = draw_below(ws, (i + 1) as u32) {
            let s2 = swapped(s, i as int, j as int);
            lemma_fisher_yates_keeps_above(s2, ws2, (i - 1) as nat);
            if let Some((t, _)) = fisher_yates(s2, ws2, (i - 1) as nat) {
                assert forall|p: int| i < p < s.len() implies #[trigger] t[p] == s[p] by {
                    assert(t[p] == s2[p]);
                }
            }
        }
    }
}

/// Law: the item a shuffle of `n >= 2` items puts last is the item at the
/// first accepted word modulo `n`, so every item can end up last.
pub proof fn lemma_shuffle_last<T>(s: Seq<T>, ws: Seq<u32>)
    requires
        2 <= s.len() <= u32::MAX,
        ws.len() > 0,
        ws[0] < u32::MAX - u32::MAX % (s.len() as u32),
    ensures
        draw_shuffle(s, ws) matches Some((t, _)) ==> t.len() == s.len() && t[s.len() - 1] == s[ws[0] as int % s.len() as int],
{
    let n = s.len();
    let i = (n - 1) as nat;
    assert((i + 1) as u32 == s.len() as u32);
    let j = (ws[0] % (s.len() as u32)) as u32;
    let s2 = swapped(s, i as int, j as int);
    if i >= 1 {
        lemma_fisher_yates_keeps_above(s2, ws.drop_first(), (i - 1) as nat);
    }
}

/// Law: a shuffle only rearranges the sequence.
pub proof fn lemma_shuffle_permutes<T>(s: Seq<T>, ws: Seq<u32>)
    ensures
        draw_shuffle(s, ws) matches Some((t, _)) ==> t.to_multiset() == s.to_multiset(),
{
    if s.len() > 1 {
        lemma_fisher_yates_permutes(s, ws, (s.len() - 1) as nat);
    }
}

/// Exchanges two items of a slice.
#[verifier::external_body]
fn slice_swap<T>(items: &mut [T], a: usize, b: usize)
    requires
        a < old(items)@.len(),
        b < old(items)@.len(),
    ensures
        final(items)@ == swapped(old(items)@, a as int, b as int),
{
    items.swap(a, b);
}

/// A supply of TRNG words, consumed front to back.
pub struct Rng {
    words: Vec<u32>,
    pos: usize,
}

impl Rng {
    #[verifier::type_invariant]
    spec fn inv(&self) -> bool {
        self.pos <= self.words@.len()
    }

    /// The words not yet consumed.
    pub closed spec fn remaining(&self) -> Seq<u32> {
        self.words@.skip(self.pos as int)
    }

    /// A supply holding `words`.
    pub fn new(words: Vec<u32>) -> (r: Self)
        ensures
            r.remaining() == words@,
    {
        Rng { words, pos: 0 }
    }

    /// The next word, or `None` when the supply is exhausted.
    pub fn u32(&mut self) -> (r: Option<u32>)
        ensures
            old(self).remaining().len() == 0 ==> r is None && final(self).remaining().len() == 0,
            old(self).remaining().len() > 0 ==> r == Some(old(self).remaining()[0])
                && final(self).remaining() == old(self).remaining().drop_first(),
    {
        proof { use_type_invariant(&*self); }
        if self.pos < self.words.len() {
            let w = self.words[self.pos];
            self.pos = self.pos + 1;
            proof {
                assert(self.remaining() =~= old(self).remaining().drop_first());
            }
            Some(w)
        } else {
            None
        }
    }

    /// A uniform draw below `max` (0 when `max` is 0 or 1), by rejection
    /// sampling so that no value is favoured.
    pub fn range(&mut self, max: u32) -> (r: Option<u32>)
        ensures
            match draw_below(old(self).remaining(), max) {
                Some((v, rest)) => r == Some(v) && final(self).remaining() == rest,
                None => r is None && final(self).remaining().len() == 0,
            },
    {
        if max <= 1 {
            return Some(0);
        }
        let threshold = u32::MAX - (u32::MAX % max);
        loop
            invariant
                max > 1,
                threshold == range_threshold(max),
                draw_below(self.remaining(), max) == draw_below(old(self).remaining(), max),
            decreases self.remaining().len(),
        {
            match self.u32() {
                None => {
                    return None;
                },
                Some(val) => {
                    if val < threshold {
                        return Some(val % max);
                    }
                },
            }
        }
    }

    /// `n` random bytes, four to a word, least significant byte first.
    pub fn bytes(&mut self, n: usize) -> (r: Option<Vec<u8>>)
        ensures
            match draw_bytes(old(self).remaining(), n as nat) {
                Some((bs, rest)) => r matches Some(v) && v@ == bs && final(self).remaining() == rest,
                None => r is None && final(self).remaining().len() == 0,
            },
    {
        let mut result: Vec<u8> = Vec::with_capacity(n);
        let mut remaining = n;
        while remaining > 0
            invariant
                remaining <= n,
                result@.len() + remaining == n,
                match draw_bytes(self.remaining(), remaining as nat) {
                    Some((bs, rest)) => draw_bytes(old(self).remaining(), n as nat) == Some(
                        (result@ + bs, rest),
                    ),
                    None => draw_bytes(old(self).remaining(), n as nat) is None,
                },
            decreases remaining,
        {
            let ghost before = self.remaining();
            let val = match self.u32() {
                Some(v) => v,
                None => {
                    return None;
                },
            };
            let take: usize = if remaining < 4 {
                remaining
            } else {
                4
            };
            let ghost old_result = result@;
            result.push((val % 0x100) as u8);
            if take > 1 {
                result.push((val / 0x100 % 0x100) as u8);
            }
            if take > 2 {
                result.push((val / 0x1_0000 % 0x100) as u8);
            }
            if take > 3 {
                result.push((val / 0x100_0000 % 0x100) as u8);
            }
            proof {
                assert(result@ =~= old_result + le_bytes(val).take(take as int));
                match draw_bytes(self.remaining(), (remaining - take) as nat) {
                    Some((bs, rest)) => {
                        assert(old_result + (le_bytes(val).take(take as int) + bs) =~= result@ + bs);
                    },
                    None => {},
                }
            }
            remaining = remaining - take;
        }
        assert(result@ + Seq::<u8>::empty() =~= result@);
        result.truncate(n);
        Some(result)
    }

    /// A uniformly chosen item of `items`.
    pub fn pick<'a, T>(&mut self, items: &'a [T]) -> (r: Option<&'a T>)
        requires
            items@.len() > 0,
        ensures
            match draw_below(old(self).remaining(), items@.len() as u32) {
                Some((i, rest)) => r matches Some(x) && i < items@.len() && *x == items@[i as int]
                    && final(self).remaining() == rest,
                None => r is None && final(self).remaining().len() == 0,
            },
    {
        let len = items.len();
        let max = len as u32;
        assert(max as int <= len as int) by (bit_vector)
            requires max == len as u32;
        proof { lemma_draw_below_bound(self.remaining(), max); }
        let i = self.range(max)?;
        Some(&items[i as usize])
    }

    /// Fisher-Yates shuffle of `items` in place. Returns `false` when the
    /// supply ran out before the shuffle was done.
    pub fn shuffle<T>(&mut self, items: &mut [T]) -> (r: bool)
        ensures
            match draw_shuffle(old(items)@, old(self).remaining()) {
                Some((t, rest)) => r && final(items)@ == t && final(self).remaining() == rest,
                None => !r && final(self).remaining().len() == 0
                    && final(items)@.to_multiset() == old(items)@.to_multiset(),
            },
    {
        broadcast use vstd::seq_lib::to_multiset_update;
        let n = items.len();
        if n <= 1 {
            return true;
        }
        let mut i = n - 1;
        while i >= 1
            invariant
                1 <= n,
                i < n,
                items@.len() == n,
                n == old(items)@.len(),
                items@.to_multiset() == old(items)@.to_multiset(),
                fisher_yates(items@, self.remaining(), i as nat) == fisher_yates(
                    old(items)@,
                    old(self).remaining(),
                    (n - 1) as nat,
                ),
            decreases i,
        {
            let bound = (i + 1) as u32;
            proof { lemma_draw_below_bound(self.remaining(), bound); }
            let j = match self.range(bound) {
                Some(j) => j,
                None => {
                    return false;
                },
            };
            let ghost before = items@;
            slice_swap(items, i, j as usize);
            proof {
                if i != j as usize {
                    assert(items@.to_multiset() =~= before.to_multiset());
                } else {
                    assert(items@ =~= before);
                }
            }
            i = i - 1;
        }
        true
    }
}

} // verus!
