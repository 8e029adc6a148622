use rand::Rng;
use vstd::prelude::*;

verus! {

/// Number of lattice slots in each permutation table.
pub const POINT_COUNT: usize = 256;

/// `s` holds each of `0..n` exactly once.
pub open spec fn is_permutation(s: Seq<usize>, n: nat) -> bool {
    &&& s.len() == n
    &&& forall|i: int| 0 <= i < s.len() ==> (#[trigger] s[i] as int) < n
    &&& forall|i: int, j: int| 0 <= i < j < s.len() ==> s[i] != s[j]
}

/// The table `0, 1, ..., n - 1`.
pub open spec fn identity_seq(n: nat) -> Seq<usize> {
    Seq::new(n, |i: int| i as usize)
}

/// `s` with the entries at `i` and `j` exchanged.
pub open spec fn swap_at(s: Seq<usize>, i: int, j: int) -> Seq<usize> {
    s.update(i, s[j]).update(j, s[i])
}

/// Number of swaps a shuffle of `n` entries makes.
pub open spec fn shuffle_len(n: nat) -> nat {
    if n == 0 { 0 } else { (n - 1) as nat }
}

/// `draws` can drive a shuffle of `n` entries: the `k`-th draw names a slot in `0..=n-1-k`.
pub open spec fn valid_draws(n: nat, draws: Seq<usize>) -> bool {
    &&& draws.len() == shuffle_len(n)
    &&& forall|k: int| 0 <= k < draws.len() ==> (#[trigger] draws[k] as int) <= n - 1 - k
}

/// The identity table of `n` entries after the first `k` swaps of a Fisher-Yates shuffle:
/// swap `k` exchanges slot `n - k` with slot `draws[k - 1]`.
pub open spec fn shuffle_steps(n: nat, draws: Seq<usize>, k: nat) -> Seq<usize>
    decreases k,
{
    if k == 0 {
        identity_seq(n)
    } else {
        swap_at(shuffle_steps(n, draws, (k - 1) as nat), n - k, draws[k - 1] as int)
    }
}

/// The table that a full shuffle of `n` entries driven by `draws` produces.
pub open spec fn shuffled(n: nat, draws: Seq<usize>) -> Seq<usize> {
    shuffle_steps(n, draws, shuffle_len(n))
}

proof fn lemma_identity_is_permutation(n: nat)
    requires
        n <= usize::MAX,
    ensures
        is_permutation(identity_seq(n), n),
{
}

proof fn lemma_swap_keeps_permutation(s: Seq<usize>, n: nat, i: int, j: int)
    requires
        is_permutation(s, n),
        0 <= i < n,
        0 <= j < n,
    ensures
        is_permutation(swap_at(s, i, j), n),
{
    let t = swap_at(s, i, j);
    assert forall|a: int, b: int| 0 <= a < b < t.len() implies t[a] != t[b] by {
        let sa = if a == j { i } else if a == i { j } else { a };
        let sb = if b == j { i } else if b == i { j } else { b };
        assert(t[a] == s[sa]);
        assert(t[b] == s[sb]);
        if sa < sb {
            assert(s[sa] != s[sb]);
        } else {
            assert(s[sb] != s[sa]);
        }
    }
    assert forall|a: int| 0 <= a < t.len() implies (#[trigger] t[a] as int) < n by {
        if a == j {
            assert(t[a] == s[i]);
        } else if a == i {
            assert(t[a] == s[j]);
        } else {
            assert(t[a] == s[a]);
        }
    }
}

/// Shuffles the identity table of `n` entries with the given draws, swapping
/// slot `n - 1 - k` with slot `draws[k]` for `k = 0, 1, ...`.
pub fn permutation_from_draws(n: usize, draws: &Vec<usize>) -> (p: Vec<usize>)
    requires
        valid_draws(n as nat, draws@),
    ensures
        p@ == shuffled(n as nat, draws@),
        is_permutation(p@, n as nat),
{
    let mut p: Vec<usize> = Vec::new();
    let mut i: usize = 0;
    while i < n
        invariant
            i <= n,
            p@ == identity_seq(i as nat),
        decreases n - i,
    {
        p.push(i);
        i += 1;
        assert(p@ =~= identity_seq(i as nat));
    }
    assert(p@ =~= identity_seq(n as nat));
    proof {
        lemma_identity_is_permutation(n as nat);
    }
    let steps: usize = if n == 0 { 0 } else { n - 1 };
    let mut k: usize = 0;
    while k < steps
        invariant
            steps == shuffle_len(n as nat),
            valid_draws(n as nat, draws@),
            k <= steps,
            p@ == shuffle_steps(n as nat, draws@, k as nat),
            is_permutation(p@, n as nat),
        decreases steps - k,
    {
        let slot = n - 1 - k;
        let pick = draws[k];
        assert(draws@[k as int] as int <= n - 1 - k);
        proof {
            lemma_swap_keeps_permutation(p@, n as nat, slot as int, pick as int);
        }
        let a = p[slot];
        let b = p[pick];
        p.set(slot, b);
        p.set(pick, a);
        k += 1;
        assert(p@ =~= swap_at(shuffle_steps(n as nat, draws@, (k - 1) as nat), n - k, draws@[k - 1] as int));
    }
    p
}

/// Relies on rand::rng and Rng::random_range: a draw from the inclusive range `0..=hi`.
#[verifier::external_body]
fn random_index_upto(hi: usize) -> (r: usize)
    ensures
        r <= hi,
{
    rand::rng().random_range(0..=hi)
}

/// A random permutation of `0..n`, made by a Fisher-Yates shuffle whose draws come from
/// the thread-local generator.
pub fn perlin_generate_perm(n: usize) -> (p: Vec<usize>)
    ensures
        is_permutation(p@, n as nat),
        exists|draws: Seq<usize>| valid_draws(n as nat, draws) && p@ == shuffled(n as nat, draws),
{
    let steps: usize = if n == 0 { 0 } else { n - 1 };
    let mut draws: Vec<usize> = Vec::new();
    let mut k: usize = 0;
    while k < steps
        invariant
            steps == shuffle_len(n as nat),
            k <= steps,
            draws@.len() == k,
            forall|m: int| 0 <= m < k ==> (#[trigger] draws@[m] as int) <= n - 1 - m,
        decreases steps - k,
    {
        let d = random_index_upto(n - 1 - k);
        draws.push(d);
        k += 1;
    }
    let p = permutation_from_draws(n, &draws);
    assert(valid_draws(n as nat, draws@) && p@ == shuffled(n as nat, draws@));
    p
}

/// Slot of the lattice coordinate `i` in a table of `POINT_COUNT` entries: `i` modulo 256,
/// taken in `0..256` also for negative `i`.
pub open spec fn lattice_slot(i: int) -> int {
    i % 256
}

/// The three permutation tables of a Perlin noise generator. Each one holds every
/// value of `0..POINT_COUNT` exactly once.
#[derive(Clone)]
pub struct PerlinPerms {
    pub perm_x: Vec<usize>,
    pub perm_y: Vec<usize>,
    pub perm_z: Vec<usize>,
}

impl PerlinPerms {
    pub open spec fn wf(&self) -> bool {
        &&& is_permutation(self.perm_x@, POINT_COUNT as nat)
        &&& is_permutation(self.perm_y@, POINT_COUNT as nat)
        &&& is_permutation(self.perm_z@, POINT_COUNT as nat)
    }

    /// The gradient slot that the lattice point `(i, j, k)` hashes to.
    pub open spec fn hash_spec(&self, i: int, j: int, k: int) -> usize {
        self.perm_x@[lattice_slot(i)] ^ self.perm_y@[lattice_slot(j)] ^ self.perm_z@[lattice_slot(k)]
    }

    /// Three freshly shuffled tables.
    pub fn new() -> (r: Self)
        ensures
            r.wf(),
    {
        PerlinPerms {
            perm_x: perlin_generate_perm(POINT_COUNT),
            perm_y: perlin_generate_perm(POINT_COUNT),
            perm_z: perlin_generate_perm(POINT_COUNT),
        }
    }

    /// The tables that the three given draw sequences shuffle the identity into.
    pub fn from_draws(dx: &Vec<usize>, dy: &Vec<usize>, dz: &Vec<usize>) -> (r: Self)
        requires
            valid_draws(POINT_COUNT as nat, dx@),
            valid_draws(POINT_COUNT as nat, dy@),
            valid_draws(POINT_COUNT as nat, dz@),
        ensures
            r.wf(),
            r.perm_x@ == shuffled(POINT_COUNT as nat, dx@),
            r.perm_y@ == shuffled(POINT_COUNT as nat, dy@),
            r.perm_z@ == shuffled(POINT_COUNT as nat, dz@),
    {
        PerlinPerms {
            perm_x: permutation_from_draws(POINT_COUNT, dx),
            perm_y: permutation_from_draws(POINT_COUNT, dy),
            perm_z: permutation_from_draws(POINT_COUNT, dz),
        }
    }

    /// Slot in `0..256` of the lattice coordinate `i`.
    fn slot(i: i64) -> (r: usize)
        ensures
            r as int == lattice_slot(i as int),
            r < POINT_COUNT,
    {
        let m: i64 = i % 256;
        let w: i64 = if m < 0 { m + 256 } else { m };
        w as usize
    }

    /// The gradient slot of the lattice point `(i, j, k)`: the XOR of the three
    /// tables' entries at the point's wrapped coordinates.
    pub fn hash(&self, i: i64, j: i64, k: i64) -> (r: usize)
        requires
            self.wf(),
        ensures
            r == self.hash_spec(i as int, j as int, k as int),
            r < POINT_COUNT,
    {
        let a = self.perm_x[Self::slot(i)];
        let b = self.perm_y[Self::slot(j)];
        let c = self.perm_z[Self::slot(k)];
        assert(a < 256usize && b < 256usize && c < 256usize ==> a ^ b ^ c < 256usize) by (bit_vector);
        a ^ b ^ c
    }

    /// The gradient slots of the eight corners of the lattice cell whose lowest corner is
    /// `(i, j, k)`, at index `4 * di + 2 * dj + dk` for the corner `(i + di, j + dj, k + dk)`.
    pub fn corner_hashes(&self, i: i32, j: i32, k: i32) -> (r: Vec<usize>)
        requires
            self.wf(),
        ensures
            r@.len() == 8,
            forall|di: int, dj: int, dk: int|
                0 <= di < 2 && 0 <= dj < 2 && 0 <= dk < 2 ==> #[trigger] r@[4 * di + 2 * dj + dk]
                    == self.hash_spec(i + di, j + dj, k + dk),
            forall|n: int| 0 <= n < 8 ==> (#[trigger] r@[n]) < POINT_COUNT,
    {
        let mut r: Vec<usize> = Vec::new();
        let mut di: i64 = 0;
        while di < 2
            invariant
                self.wf(),
                0 <= di <= 2,
                r@.len() == 4 * di,
                forall|a: int, b: int, c: int|
                    0 <= a < di && 0 <= b < 2 && 0 <= c < 2 ==> #[trigger] r@[4 * a + 2 * b + c]
                        == self.hash_spec(i + a, j + b, k + c),
                forall|n: int| 0 <= n < r@.len() ==> (#[trigger] r@[n]) < POINT_COUNT,
            decreases 2 - di,
        {
            let mut dj: i64 = 0;
            while dj < 2
                invariant
                    self.wf(),
                    0 <= di < 2,
                    0 <= dj <= 2,
                    r@.len() == 4 * di + 2 * dj,
                    forall|a: int, b: int, c: int|
                        0 <= a < di && 0 <= b < 2 && 0 <= c < 2 ==> #[trigger] r@[4 * a + 2 * b + c]
                            == self.hash_spec(i + a, j + b, k + c),
                    forall|b: int, c: int|
                        0 <= b < dj && 0 <= c < 2 ==> #[trigger] r@[4 * di + 2 * b + c]
                            == self.hash_spec(i + di, j + b, k + c),
                    forall|n: int| 0 <= n < r@.len() ==> (#[trigger] r@[n]) < POINT_COUNT,
                decreases 2 - dj,
            {
                let h0 = self.hash(i as i64 + di, j as i64 + dj, k as i64);
                r.push(h0);
                let h1 = self.hash(i as i64 + di, j as i64 + dj, k as i64 + 1);
                r.push(h1);
                dj += 1;
            }
            di += 1;
        }
        r
    }
}

} // verus!
