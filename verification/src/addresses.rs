//! # Sets of addresses, held as ranges
//!
//! A policy is judged on addresses, and there can be a great many of them: a
//! deny list of a `/8` costs the same here as one of a single host, because a
//! set is held as ranges and nothing ever walks an address.
//!
//! A range is a block: the interface it is scoped to, and its first and last
//! address. IPv4 blocks are scoped to no interface. The blocks of a set are
//! kept in one order only, sorted and merged, so two sets holding the same
//! addresses are written the same way and every address is counted once.

use vstd::prelude::*;

verus! {

/// One range of addresses on one interface: the interface it is scoped to,
/// then its first and last address.
pub type Block = (Option<u32>, u128, u128);

/// Where an interface sorts: unscoped first, then by number.
pub open spec fn rank(zone: Option<u32>) -> int {
    match zone {
        None => 0,
        Some(n) => n + 1,
    }
}

/// Whether a block holds an address on an interface.
pub open spec fn holds(b: Block, p: (Option<u32>, u128)) -> bool {
    b.0 == p.0 && b.1 <= p.1 && p.1 <= b.2
}

/// Every address some block of `blocks` holds, with its interface.
pub open spec fn covered(blocks: Seq<Block>) -> Set<(Option<u32>, u128)> {
    Set::new(|p: (Option<u32>, u128)| exists|i: int| 0 <= i < blocks.len() && #[trigger] holds(blocks[i], p))
}

/// The addresses one block holds.
pub open spec fn one(b: Block) -> Set<(Option<u32>, u128)> {
    Set::new(|p: (Option<u32>, u128)| holds(b, p))
}

/// Every address some block of `blocks` holds, whatever its interface.
pub open spec fn bare(blocks: Seq<Block>) -> Set<u128> {
    Set::new(|x: u128| exists|i: int| 0 <= i < blocks.len() && #[trigger] blocks[i].1 <= x && x <= blocks[i].2)
}

/// Whether `a` lies wholly before `b` with a gap between them: on an interface
/// that sorts earlier, or on the same one and ending short of the address
/// before `b` starts.
pub open spec fn apart(a: Block, b: Block) -> bool {
    rank(a.0) < rank(b.0) || (a.0 == b.0 && a.2 + 1 < b.1)
}

/// Blocks that are each non-empty, in order, with a gap between each and every
/// later one: the one way of writing a set of addresses as blocks.
pub open spec fn canonical(blocks: Seq<Block>) -> bool {
    &&& forall|i: int| 0 <= i < blocks.len() ==> (#[trigger] blocks[i]).1 <= blocks[i].2
    &&& forall|i: int, j: int| 0 <= i < j < blocks.len() ==> apart(#[trigger] blocks[i], #[trigger] blocks[j])
}

/// How many addresses the blocks hold between them, each block counted whole.
pub open spec fn total(blocks: Seq<Block>) -> int
    decreases blocks.len(),
{
    if blocks.len() == 0 {
        0
    } else {
        total(blocks.drop_last()) + (blocks.last().2 - blocks.last().1 + 1)
    }
}

/// The addresses between `lo` and `hi`, on every interface.
pub open spec fn band(lo: u128, hi: u128) -> Set<(Option<u32>, u128)> {
    Set::new(|p: (Option<u32>, u128)| lo <= p.1 && p.1 <= hi)
}

proof fn lemma_covered_push(s: Seq<Block>, b: Block)
    ensures
        covered(s.push(b)) == covered(s).union(one(b)),
{
    let t = s.push(b);
    assert forall|p: (Option<u32>, u128)| covered(t).contains(p) <==> covered(s).union(one(b)).contains(p) by {
        if covered(t).contains(p) {
            let i = choose|i: int| 0 <= i < t.len() && #[trigger] holds(t[i], p);
            if i < s.len() {
                assert(t[i] == s[i]);
            }
        }
        if covered(s).contains(p) {
            let i = choose|i: int| 0 <= i < s.len() && #[trigger] holds(s[i], p);
            assert(t[i] == s[i]);
        }
        if one(b).contains(p) {
            assert(holds(t[s.len() as int], p));
        }
    }
    assert(covered(t) =~= covered(s).union(one(b)));
}

proof fn lemma_covered_take(s: Seq<Block>, i: int)
    requires
        0 <= i < s.len(),
    ensures
        covered(s.take(i + 1)) == covered(s.take(i)).union(one(s[i])),
{
    assert(s.take(i + 1) =~= s.take(i).push(s[i]));
    lemma_covered_push(s.take(i), s[i]);
}

proof fn lemma_covered_nothing()
    ensures
        covered(Seq::<Block>::empty()) == Set::<(Option<u32>, u128)>::empty(),
{
    assert(covered(Seq::<Block>::empty()) =~= Set::<(Option<u32>, u128)>::empty());
}

proof fn lemma_bare_push(s: Seq<Block>, b: Block)
    ensures
        bare(s.push(b)) == bare(s).union(Set::new(|x: u128| b.1 <= x && x <= b.2)),
{
    let t = s.push(b);
    let r = Set::new(|x: u128| b.1 <= x && x <= b.2);
    assert forall|x: u128| bare(t).contains(x) <==> bare(s).union(r).contains(x) by {
        if bare(t).contains(x) {
            let i = choose|i: int| 0 <= i < t.len() && #[trigger] t[i].1 <= x && x <= t[i].2;
            if i < s.len() {
                assert(t[i] == s[i]);
            }
        }
        if bare(s).contains(x) {
            let i = choose|i: int| 0 <= i < s.len() && #[trigger] s[i].1 <= x && x <= s[i].2;
            assert(t[i] == s[i]);
        }
        if r.contains(x) {
            assert(t[s.len() as int] == b);
        }
    }
    assert(bare(t) =~= bare(s).union(r));
}

/// A block before a non-empty one that lies before a third lies before the
/// third.
proof fn lemma_apart_trans(a: Block, b: Block, c: Block)
    requires
        apart(a, b),
        apart(b, c),
        b.1 <= b.2,
    ensures
        apart(a, c),
{
}

/// Appending a non-empty block that every block already there lies before
/// keeps a list canonical.
proof fn lemma_canonical_push(s: Seq<Block>, b: Block)
    requires
        canonical(s),
        b.1 <= b.2,
        forall|k: int| 0 <= k < s.len() ==> apart(#[trigger] s[k], b),
    ensures
        canonical(s.push(b)),
{
    let t = s.push(b);
    assert forall|i: int, j: int| 0 <= i < j < t.len() implies apart(#[trigger] t[i], #[trigger] t[j]) by {
        assert(t[i] == s[i]);
        if j < s.len() {
            assert(t[j] == s[j]);
        }
    }
}

/// Whether `a` lies wholly before `b` with a gap between them.
fn is_apart(a: Block, b: Block) -> (r: bool)
    ensures
        r == apart(a, b),
{
    let same = match (a.0, b.0) {
        (None, None) => true,
        (Some(x), Some(y)) => x == y,
        _ => false,
    };
    let earlier = match (a.0, b.0) {
        (None, Some(_)) => true,
        (Some(x), Some(y)) => x < y,
        _ => false,
    };
    earlier || (same && b.1 > 0 && a.2 < b.1 - 1)
}

/// A copy of a list of blocks.
fn copy_blocks(list: &Vec<Block>) -> (r: Vec<Block>)
    ensures
        r@ == list@,
{
    let mut out: Vec<Block> = Vec::new();
    let mut i: usize = 0;
    while i < list.len()
        invariant
            i <= list@.len(),
            out@ == list@.take(i as int),
        decreases list@.len() - i,
    {
        out.push(list[i]);
        assert(list@.take(i + 1) =~= list@.take(i as int).push(list@[i as int]));
        i = i + 1;
    }
    assert(list@.take(list@.len() as int) =~= list@);
    out
}

/// The blocks of `list` with the addresses of `b` added, still canonical.
///
/// Every block `b` touches or overlaps on its interface is merged into it;
/// the rest keep their places.
fn insert_block(list: &Vec<Block>, b: Block) -> (r: Vec<Block>)
    requires
        canonical(list@),
    ensures
        canonical(r@),
        covered(r@) == covered(list@).union(one(b)),
{
    let n = list.len();
    if b.1 > b.2 {
        let out = copy_blocks(list);
        assert(covered(out@).union(one(b)) =~= covered(out@));
        return out;
    }
    let mut out: Vec<Block> = Vec::new();
    let mut merged = b;
    let mut placed = false;
    let mut i: usize = 0;
    proof {
        lemma_covered_nothing();
        assert(list@.take(0) =~= Seq::<Block>::empty());
        assert(covered(out@).union(one(merged)) =~= covered(list@.take(0)).union(one(b)));
    }
    while i < n
        invariant
            n == list@.len(),
            i <= n,
            canonical(list@),
            canonical(out@),
            merged.0 == b.0,
            merged.1 <= merged.2,
            !placed ==> forall|k: int| 0 <= k < out@.len() ==> apart(#[trigger] out@[k], merged),
            forall|k: int, j: int| 0 <= k < out@.len() && i <= j < n ==> apart(#[trigger] out@[k], #[trigger] list@[j]),
            !placed ==> covered(out@).union(one(merged)) == covered(list@.take(i as int)).union(one(b)),
            placed ==> covered(out@) == covered(list@.take(i as int)).union(one(b)),
        decreases n - i,
    {
        let x = list[i];
        let ghost before = out@;
        proof {
            lemma_covered_take(list@, i as int);
        }
        if placed {
            out.push(x);
            proof {
                lemma_canonical_push(before, x);
                lemma_covered_push(before, x);
                assert(covered(out@) =~= covered(list@.take(i + 1)).union(one(b)));
            }
        } else if is_apart(x, merged) {
            out.push(x);
            proof {
                lemma_canonical_push(before, x);
                lemma_covered_push(before, x);
                let goal_l = covered(out@).union(one(merged));
                let goal_r = covered(list@.take(i + 1)).union(one(b));
                assert forall|p: (Option<u32>, u128)| goal_l.contains(p) <==> goal_r.contains(p) by {
                    assert(covered(before).union(one(merged)).contains(p) == covered(list@.take(i as int)).union(one(b)).contains(p));
                }
                assert(goal_l =~= goal_r);
            }
        } else if is_apart(merged, x) {
            out.push(merged);
            let ghost middle = out@;
            out.push(x);
            proof {
                lemma_canonical_push(before, merged);
                assert forall|k: int| 0 <= k < middle.len() implies apart(#[trigger] middle[k], x) by {
                    if k < before.len() {
                        assert(middle[k] == before[k]);
                    }
                }
                lemma_canonical_push(middle, x);
                lemma_covered_push(before, merged);
                lemma_covered_push(middle, x);
                assert(covered(out@) =~= covered(list@.take(i + 1)).union(one(b)));
                assert forall|k: int, j: int| 0 <= k < out@.len() && i + 1 <= j < n implies apart(
                    #[trigger] out@[k],
                    #[trigger] list@[j],
                ) by {
                    if k < before.len() {
                        assert(out@[k] == before[k]);
                    } else if k == before.len() {
                        assert(apart(x, list@[j]));
                        lemma_apart_trans(merged, x, list@[j]);
                    } else {
                        assert(out@[k] == x);
                    }
                }
            }
            placed = true;
        } else {
            let lo = if x.1 < merged.1 { x.1 } else { merged.1 };
            let hi = if x.2 > merged.2 { x.2 } else { merged.2 };
            let grown: Block = (merged.0, lo, hi);
            proof {
                assert(x.0 == merged.0) by {
                    assert(rank(x.0) == rank(merged.0));
                }
                assert(one(grown) =~= one(merged).union(one(x)));
                assert forall|k: int| 0 <= k < out@.len() implies apart(#[trigger] out@[k], grown) by {
                    assert(apart(out@[k], merged));
                    assert(apart(out@[k], list@[i as int]));
                }
                let goal_l = covered(out@).union(one(grown));
                let goal_r = covered(list@.take(i + 1)).union(one(b));
                assert forall|p: (Option<u32>, u128)| goal_l.contains(p) <==> goal_r.contains(p) by {
                    assert(covered(out@).union(one(merged)).contains(p) == covered(list@.take(i as int)).union(one(b)).contains(p));
                }
                assert(goal_l =~= goal_r);
            }
            merged = grown;
        }
        i = i + 1;
    }
    assert(list@.take(n as int) =~= list@);
    if !placed {
        let ghost before = out@;
        out.push(merged);
        proof {
            lemma_canonical_push(before, merged);
            lemma_covered_push(before, merged);
        }
    }
    out
}

/// The blocks of `list` with every address from `lo` to `hi` taken out, on
/// every interface, still canonical.
fn remove_band(list: &Vec<Block>, lo: u128, hi: u128) -> (r: Vec<Block>)
    requires
        canonical(list@),
    ensures
        canonical(r@),
        covered(r@) == covered(list@).difference(band(lo, hi)),
{
    let n = list.len();
    if lo > hi {
        let out = copy_blocks(list);
        assert(covered(out@).difference(band(lo, hi)) =~= covered(out@));
        return out;
    }
    let mut out: Vec<Block> = Vec::new();
    let mut i: usize = 0;
    proof {
        lemma_covered_nothing();
        assert(list@.take(0) =~= Seq::<Block>::empty());
        assert(covered(out@) =~= covered(list@.take(0)).difference(band(lo, hi)));
    }
    while i < n
        invariant
            n == list@.len(),
            i <= n,
            lo <= hi,
            canonical(list@),
            canonical(out@),
            forall|k: int, j: int| 0 <= k < out@.len() && i <= j < n ==> apart(#[trigger] out@[k], #[trigger] list@[j]),
            covered(out@) == covered(list@.take(i as int)).difference(band(lo, hi)),
        decreases n - i,
    {
        let x = list[i];
        let ghost before = out@;
        proof {
            lemma_covered_take(list@, i as int);
        }
        if x.2 < lo || x.1 > hi {
            out.push(x);
            proof {
                lemma_canonical_push(before, x);
                lemma_covered_push(before, x);
                assert(one(x).difference(band(lo, hi)) =~= one(x));
                assert(covered(out@) =~= covered(list@.take(i + 1)).difference(band(lo, hi)));
            }
        } else {
            let ghost pieces: Set<(Option<u32>, u128)> = Set::empty();
            if x.1 < lo {
                let left: Block = (x.0, x.1, lo - 1);
                let ghost at = out@;
                out.push(left);
                proof {
                    assert forall|k: int| 0 <= k < at.len() implies apart(#[trigger] at[k], left) by {
                        assert(apart(at[k], list@[i as int]));
                    }
                    lemma_canonical_push(at, left);
                    lemma_covered_push(at, left);
                    pieces = pieces.union(one(left));
                }
            }
            if x.2 > hi {
                let right: Block = (x.0, hi + 1, x.2);
                let ghost at = out@;
                out.push(right);
                proof {
                    assert forall|k: int| 0 <= k < at.len() implies apart(#[trigger] at[k], right) by {
                        if k < before.len() {
                            assert(at[k] == before[k]);
                            assert(apart(before[k], list@[i as int]));
                        } else {
                            assert(at[k] == (x.0, x.1, (lo - 1) as u128));
                        }
                    }
                    lemma_canonical_push(at, right);
                    lemma_covered_push(at, right);
                    pieces = pieces.union(one(right));
                }
            }
            proof {
                assert(covered(out@) == covered(before).union(pieces));
                assert(pieces =~= one(x).difference(band(lo, hi)));
                assert(covered(out@) =~= covered(list@.take(i + 1)).difference(band(lo, hi)));
                assert forall|k: int, j: int| 0 <= k < out@.len() && i + 1 <= j < n implies apart(
                    #[trigger] out@[k],
                    #[trigger] list@[j],
                ) by {
                    if k < before.len() {
                        assert(out@[k] == before[k]);
                    } else {
                        assert(apart(list@[i as int], list@[j]));
                    }
                }
            }
        }
        i = i + 1;
    }
    assert(list@.take(n as int) =~= list@);
    out
}


/// Every address, on any interface, whose number is in `addresses`.
pub open spec fn anywhere_in(addresses: Set<u128>) -> Set<(Option<u32>, u128)> {
    Set::new(|p: (Option<u32>, u128)| addresses.contains(p.1))
}

/// The blocks of `a` with those of `b` added, still canonical.
fn union_blocks(a: &Vec<Block>, b: &Vec<Block>) -> (r: Vec<Block>)
    requires
        canonical(a@),
    ensures
        canonical(r@),
        covered(r@) == covered(a@).union(covered(b@)),
{
    let mut out = copy_blocks(a);
    let mut i: usize = 0;
    proof {
        lemma_covered_nothing();
        assert(b@.take(0) =~= Seq::<Block>::empty());
        assert(covered(out@) =~= covered(a@).union(covered(b@.take(0))));
    }
    while i < b.len()
        invariant
            i <= b@.len(),
            canonical(out@),
            covered(out@) == covered(a@).union(covered(b@.take(i as int))),
        decreases b@.len() - i,
    {
        out = insert_block(&out, b[i]);
        proof {
            lemma_covered_take(b@, i as int);
            assert(covered(out@) =~= covered(a@).union(covered(b@.take(i + 1))));
        }
        i = i + 1;
    }
    assert(b@.take(b@.len() as int) =~= b@);
    out
}

/// The blocks of `a` with every address `b` holds taken out, on whatever
/// interface, still canonical.
fn subtract_blocks(a: &Vec<Block>, b: &Vec<Block>) -> (r: Vec<Block>)
    requires
        canonical(a@),
    ensures
        canonical(r@),
        covered(r@) == covered(a@).difference(anywhere_in(bare(b@))),
{
    let mut out = copy_blocks(a);
    let mut i: usize = 0;
    proof {
        assert(b@.take(0) =~= Seq::<Block>::empty());
        assert(bare(b@.take(0)) =~= Set::<u128>::empty());
        assert(covered(out@) =~= covered(a@).difference(anywhere_in(bare(b@.take(0)))));
    }
    while i < b.len()
        invariant
            i <= b@.len(),
            canonical(out@),
            covered(out@) == covered(a@).difference(anywhere_in(bare(b@.take(i as int)))),
        decreases b@.len() - i,
    {
        let x = b[i];
        out = remove_band(&out, x.1, x.2);
        proof {
            assert(b@.take(i + 1) =~= b@.take(i as int).push(x));
            lemma_bare_push(b@.take(i as int), x);
            assert(covered(out@) =~= covered(a@).difference(anywhere_in(bare(b@.take(i + 1)))));
        }
        i = i + 1;
    }
    assert(b@.take(b@.len() as int) =~= b@);
    out
}

/// How many addresses the blocks hold, stopping at the largest `u128`.
fn count_blocks(list: &Vec<Block>) -> (r: u128)
    requires
        canonical(list@),
    ensures
        total(list@) >= 0,
        r == if total(list@) > u128::MAX {
            u128::MAX
        } else {
            total(list@) as u128
        },
{
    let mut acc: u128 = 0;
    let mut i: usize = 0;
    assert(list@.take(0) =~= Seq::<Block>::empty());
    while i < list.len()
        invariant
            i <= list@.len(),
            canonical(list@),
            total(list@.take(i as int)) >= 0,
            acc == if total(list@.take(i as int)) > u128::MAX {
                u128::MAX
            } else {
                total(list@.take(i as int)) as u128
            },
        decreases list@.len() - i,
    {
        let x = list[i];
        assert(list@.take(i + 1).drop_last() =~= list@.take(i as int));
        assert(list@.take(i + 1).last() == x);
        assert(x.1 <= x.2);
        let span = x.2 - x.1;
        if acc == u128::MAX || span >= u128::MAX - acc {
            acc = u128::MAX;
        } else {
            acc = acc + span + 1;
        }
        i = i + 1;
    }
    assert(list@.take(list@.len() as int) =~= list@);
    acc
}

/// Every block of a canonical list holds its first and last address.
proof fn lemma_ends_covered(list: Seq<Block>, i: int)
    requires
        canonical(list),
        0 <= i < list.len(),
    ensures
        covered(list).contains((list[i].0, list[i].1)),
        covered(list).contains((list[i].0, list[i].2)),
{
    assert(holds(list[i], (list[i].0, list[i].1)));
    assert(holds(list[i], (list[i].0, list[i].2)));
}

/// Every IPv4 address some range of `ranges` covers.
pub open spec fn ranges_v4(ranges: Seq<(u32, u32)>) -> Set<u32> {
    Set::new(|a: u32| exists|i: int| 0 <= i < ranges.len() && #[trigger] ranges[i].0 <= a && a <= ranges[i].1)
}

/// Every IPv6 address some range of `ranges` covers, on the interface it
/// covers it on.
pub open spec fn ranges_v6(ranges: Seq<(u128, u128, Option<u32>)>) -> Set<(Option<u32>, u128)> {
    Set::new(
        |p: (Option<u32>, u128)|
            exists|i: int| 0 <= i < ranges.len() && #[trigger] ranges[i].2 == p.0 && ranges[i].0 <= p.1 && p.1 <= ranges[i].1,
    )
}

/// A set of IPv4 and IPv6 addresses, held as ranges.
#[derive(Debug)]
pub struct AddressSet {
    v4: Vec<Block>,
    v6: Vec<Block>,
}

/// The IPv4 addresses a set holds.
pub open spec fn v4_addresses(set: AddressSet) -> Set<u32> {
    Set::new(|a: u32| covered(set.v4_blocks()).contains((None::<u32>, a as u128)))
}

/// The IPv6 addresses a set holds, each with the interface it is held on.
pub open spec fn v6_scoped(set: AddressSet) -> Set<(Option<u32>, u128)> {
    covered(set.v6_blocks())
}

/// The IPv6 addresses a set holds, on whatever interface.
pub open spec fn v6_addresses(set: AddressSet) -> Set<u128> {
    bare(set.v6_blocks())
}

/// How many addresses a set holds, an IPv6 address held on two interfaces
/// counted twice, stopping at the largest `u128`.
pub open spec fn address_count(set: AddressSet) -> u128 {
    let n = total(set.v4_blocks()) + total(set.v6_blocks());
    if n > u128::MAX {
        u128::MAX
    } else {
        n as u128
    }
}

impl AddressSet {
    /// The IPv4 blocks, in order.
    pub closed spec fn v4_blocks(&self) -> Seq<Block> {
        self.v4@
    }

    /// The IPv6 blocks, in order.
    pub closed spec fn v6_blocks(&self) -> Seq<Block> {
        self.v6@
    }

    /// Both lists canonical, and every IPv4 block scoped to no interface and
    /// within the IPv4 addresses.
    #[verifier::type_invariant]
    closed spec fn well_formed(&self) -> bool {
        &&& canonical(self.v4@)
        &&& canonical(self.v6@)
        &&& forall|i: int| 0 <= i < self.v4@.len() ==> (#[trigger] self.v4@[i]).0 is None && self.v4@[i].2 <= u32::MAX
    }

    /// A set holding nothing.
    pub fn new() -> (r: AddressSet)
        ensures
            r.v4_blocks() == Seq::<Block>::empty(),
            r.v6_blocks() == Seq::<Block>::empty(),
            v4_addresses(r).is_empty(),
            v6_scoped(r).is_empty(),
            v6_addresses(r).is_empty(),
    {
        let r = AddressSet { v4: Vec::new(), v6: Vec::new() };
        proof {
            lemma_covered_nothing();
            assert(v4_addresses(r) =~= Set::<u32>::empty());
            assert(v6_addresses(r) =~= Set::<u128>::empty());
        }
        r
    }

    /// The set of the addresses some range covers: IPv4 ranges as first and
    /// last address, IPv6 ranges as first and last address and the interface
    /// each is scoped to.
    pub fn from_ranges(v4: &Vec<(u32, u32)>, v6: &Vec<(u128, u128, Option<u32>)>) -> (r: AddressSet)
        ensures
            v4_addresses(r) == ranges_v4(v4@),
            v6_scoped(r) == ranges_v6(v6@),
    {
        let mut four: Vec<Block> = Vec::new();
        let mut i: usize = 0;
        proof {
            lemma_covered_nothing();
        }
        while i < v4.len()
            invariant
                i <= v4@.len(),
                canonical(four@),
                forall|p: (Option<u32>, u128)|
                    #[trigger] covered(four@).contains(p) <==> (p.0 is None && p.1 <= u32::MAX && ranges_v4(
                        v4@.take(i as int),
                    ).contains(p.1 as u32)),
            decreases v4@.len() - i,
        {
            let range = v4[i];
            let block: Block = (None, range.0 as u128, range.1 as u128);
            let ghost before = four@;
            four = insert_block(&four, block);
            proof {
                assert forall|p: (Option<u32>, u128)|
                    #[trigger] covered(four@).contains(p) <==> (p.0 is None && p.1 <= u32::MAX && ranges_v4(
                        v4@.take(i + 1),
                    ).contains(p.1 as u32)) by {
                    if p.0 is None && p.1 <= u32::MAX {
                        let a = p.1 as u32;
                        if ranges_v4(v4@.take(i + 1)).contains(a) {
                            let k = choose|k: int| 0 <= k < v4@.take(i + 1).len() && #[trigger] v4@.take(i + 1)[k].0 <= a && a <= v4@.take(i + 1)[k].1;
                            if k < i {
                                assert(v4@.take(i as int)[k] == v4@.take(i + 1)[k]);
                                assert(ranges_v4(v4@.take(i as int)).contains(a));
                            }
                        }
                        if ranges_v4(v4@.take(i as int)).contains(a) {
                            let k = choose|k: int| 0 <= k < v4@.take(i as int).len() && #[trigger] v4@.take(i as int)[k].0 <= a && a <= v4@.take(i as int)[k].1;
                            assert(v4@.take(i + 1)[k] == v4@.take(i as int)[k]);
                        }
                        if one(block).contains(p) {
                            assert(v4@.take(i + 1)[i as int] == range);
                        }
                    }
                }
            }
            i = i + 1;
        }
        assert(v4@.take(v4@.len() as int) =~= v4@);
        let mut six: Vec<Block> = Vec::new();
        let mut j: usize = 0;
        proof {
            assert(v6@.take(0) =~= Seq::<(u128, u128, Option<u32>)>::empty());
            assert(covered(six@) =~= ranges_v6(v6@.take(0)));
        }
        while j < v6.len()
            invariant
                j <= v6@.len(),
                canonical(six@),
                covered(six@) == ranges_v6(v6@.take(j as int)),
            decreases v6@.len() - j,
        {
            let range = v6[j];
            let block: Block = (range.2, range.0, range.1);
            six = insert_block(&six, block);
            proof {
                let t = v6@.take(j + 1);
                let s = v6@.take(j as int);
                assert forall|p: (Option<u32>, u128)| #[trigger] ranges_v6(t).contains(p) <==> (ranges_v6(s).contains(p) || one(block).contains(p)) by {
                    if ranges_v6(t).contains(p) {
                        let k = choose|k: int| 0 <= k < t.len() && #[trigger] t[k].2 == p.0 && t[k].0 <= p.1 && p.1 <= t[k].1;
                        if k < j {
                            assert(s[k] == t[k]);
                        }
                    }
                    if ranges_v6(s).contains(p) {
                        let k = choose|k: int| 0 <= k < s.len() && #[trigger] s[k].2 == p.0 && s[k].0 <= p.1 && p.1 <= s[k].1;
                        assert(t[k] == s[k]);
                    }
                    if one(block).contains(p) {
                        assert(t[j as int] == range);
                    }
                }
                assert(covered(six@) =~= ranges_v6(t));
            }
            j = j + 1;
        }
        assert(v6@.take(v6@.len() as int) =~= v6@);
        proof {
            assert forall|k: int| 0 <= k < four@.len() implies (#[trigger] four@[k]).0 is None && four@[k].2 <= u32::MAX by {
                lemma_ends_covered(four@, k);
            }
        }
        let r = AddressSet { v4: four, v6: six };
        proof {
            assert(v4_addresses(r) =~= ranges_v4(v4@)) by {
                assert forall|a: u32| v4_addresses(r).contains(a) <==> ranges_v4(v4@).contains(a) by {
                    assert(covered(four@).contains((None::<u32>, a as u128)) <==> ranges_v4(v4@).contains((a as u128) as u32));
                }
            }
        }
        r
    }

    /// Adds every address of `other`.
    pub fn extend(&mut self, other: &AddressSet)
        ensures
            v4_addresses(*final(self)) == v4_addresses(*old(self)).union(v4_addresses(*other)),
            v6_scoped(*final(self)) == v6_scoped(*old(self)).union(v6_scoped(*other)),
            v6_addresses(*final(self)) == v6_addresses(*old(self)).union(v6_addresses(*other)),
    {
        proof {
            use_type_invariant(&*self);
            use_type_invariant(other);
        }
        let four = union_blocks(&self.v4, &other.v4);
        let six = union_blocks(&self.v6, &other.v6);
        proof {
            assert forall|k: int| 0 <= k < four@.len() implies (#[trigger] four@[k]).0 is None && four@[k].2 <= u32::MAX by {
                lemma_ends_covered(four@, k);
                let p = (four@[k].0, four@[k].2);
                if covered(self.v4@).contains(p) {
                    let i = choose|i: int| 0 <= i < self.v4@.len() && #[trigger] holds(self.v4@[i], p);
                } else {
                    let i = choose|i: int| 0 <= i < other.v4@.len() && #[trigger] holds(other.v4@[i], p);
                }
            }
            lemma_bare_of_covered(self.v6@);
            lemma_bare_of_covered(other.v6@);
            lemma_bare_of_covered(six@);
            assert forall|x: u128| bare(six@).contains(x) <==> bare(self.v6@).union(bare(other.v6@)).contains(x) by {
                if bare(six@).contains(x) {
                    let z = choose|z: Option<u32>| covered(six@).contains((z, x));
                    assert(covered(self.v6@).contains((z, x)) || covered(other.v6@).contains((z, x)));
                }
                if bare(self.v6@).contains(x) {
                    let z = choose|z: Option<u32>| covered(self.v6@).contains((z, x));
                    assert(covered(six@).contains((z, x)));
                }
                if bare(other.v6@).contains(x) {
                    let z = choose|z: Option<u32>| covered(other.v6@).contains((z, x));
                    assert(covered(six@).contains((z, x)));
                }
            }
            assert(bare(six@) =~= bare(self.v6@).union(bare(other.v6@)));
        }
        let ghost was = *self;
        self.v4 = four;
        self.v6 = six;
        proof {
            assert(v4_addresses(*self) =~= v4_addresses(was).union(v4_addresses(*other)));
        }
    }

    /// Takes out every address `other` holds, an IPv6 address whatever
    /// interface either set holds it on.
    pub fn subtract(&mut self, other: &AddressSet)
        ensures
            v4_addresses(*final(self)) == v4_addresses(*old(self)).difference(v4_addresses(*other)),
            v6_scoped(*final(self)) == v6_scoped(*old(self)).difference(anywhere_in(v6_addresses(*other))),
            v6_addresses(*final(self)) == v6_addresses(*old(self)).difference(v6_addresses(*other)),
    {
        proof {
            use_type_invariant(&*self);
            use_type_invariant(other);
        }
        let four = subtract_blocks(&self.v4, &other.v4);
        let six = subtract_blocks(&self.v6, &other.v6);
        proof {
            assert forall|k: int| 0 <= k < four@.len() implies (#[trigger] four@[k]).0 is None && four@[k].2 <= u32::MAX by {
                lemma_ends_covered(four@, k);
                let p = (four@[k].0, four@[k].2);
                let i = choose|i: int| 0 <= i < self.v4@.len() && #[trigger] holds(self.v4@[i], p);
            }
            lemma_bare_of_covered(self.v6@);
            lemma_bare_of_covered(six@);
            assert forall|x: u128| bare(six@).contains(x) <==> bare(self.v6@).difference(bare(other.v6@)).contains(x) by {
                if bare(six@).contains(x) {
                    let z = choose|z: Option<u32>| covered(six@).contains((z, x));
                    assert(covered(self.v6@).contains((z, x)));
                    assert(!anywhere_in(bare(other.v6@)).contains((z, x)));
                }
                if bare(self.v6@).difference(bare(other.v6@)).contains(x) {
                    let z = choose|z: Option<u32>| covered(self.v6@).contains((z, x));
                    assert(!anywhere_in(bare(other.v6@)).contains((z, x)));
                    assert(covered(six@).contains((z, x)));
                }
            }
            assert(bare(six@) =~= bare(self.v6@).difference(bare(other.v6@)));
        }
        let ghost was = *self;
        self.v4 = four;
        self.v6 = six;
        proof {
            assert forall|a: u32| v4_addresses(*self).contains(a) <==> v4_addresses(was).difference(v4_addresses(*other)).contains(a) by {
                let p = (None::<u32>, a as u128);
                if bare(other.v4@).contains(a as u128) {
                    let i = choose|i: int| 0 <= i < other.v4@.len() && #[trigger] other.v4@[i].1 <= a as u128 && a as u128 <= other.v4@[i].2;
                    assert(holds(other.v4@[i], p));
                }
                if covered(other.v4@).contains(p) {
                    let i = choose|i: int| 0 <= i < other.v4@.len() && #[trigger] holds(other.v4@[i], p);
                    assert(other.v4@[i].1 <= a as u128 && a as u128 <= other.v4@[i].2);
                }
            }
            assert(v4_addresses(*self) =~= v4_addresses(was).difference(v4_addresses(*other)));
        }
    }

    /// Whether the set holds no address at all.
    pub fn is_empty(&self) -> (r: bool)
        ensures
            r == (v4_addresses(*self).is_empty() && v6_scoped(*self).is_empty()),
            r == (v4_addresses(*self).is_empty() && v6_addresses(*self).is_empty()),
            r == (self.v4_blocks().len() == 0 && self.v6_blocks().len() == 0),
            canonical(self.v4_blocks()),
            canonical(self.v6_blocks()),
    {
        proof {
            use_type_invariant(self);
            lemma_covered_nothing();
            if self.v4@.len() > 0 {
                lemma_ends_covered(self.v4@, 0);
                assert(v4_addresses(*self).contains(self.v4@[0].1 as u32));
            } else {
                assert(v4_addresses(*self) =~= Set::<u32>::empty());
            }
            if self.v6@.len() > 0 {
                lemma_ends_covered(self.v6@, 0);
                assert(bare(self.v6@).contains(self.v6@[0].1));
            } else {
                assert(bare(self.v6@) =~= Set::<u128>::empty());
            }
        }
        self.v4.len() == 0 && self.v6.len() == 0
    }

    /// How many addresses the set holds, as the engine counts them: an IPv6
    /// address held on two interfaces counts twice, and the count stops at the
    /// largest `u128`.
    pub fn len(&self) -> (r: u128)
        ensures
            r == address_count(*self),
    {
        proof {
            use_type_invariant(self);
        }
        let four = count_blocks(&self.v4);
        let six = count_blocks(&self.v6);
        if four as u128 > u128::MAX - six {
            u128::MAX
        } else {
            four + six
        }
    }

    /// The IPv4 ranges, as first and last address, in order.
    pub fn v4_ranges(&self) -> (r: Vec<(u32, u32)>)
        ensures
            r@.len() == self.v4_blocks().len(),
            forall|i: int| 0 <= i < r@.len() ==> (#[trigger] r@[i]).0 == self.v4_blocks()[i].1 && r@[i].1
                == self.v4_blocks()[i].2,
            canonical(self.v4_blocks()),
    {
        proof {
            use_type_invariant(self);
        }
        let mut out: Vec<(u32, u32)> = Vec::new();
        let mut i: usize = 0;
        while i < self.v4.len()
            invariant
                i <= self.v4@.len(),
                out@.len() == i,
                forall|k: int| 0 <= k < self.v4@.len() ==> (#[trigger] self.v4@[k]).0 is None && self.v4@[k].2 <= u32::MAX,
                canonical(self.v4@),
                forall|k: int| 0 <= k < i ==> (#[trigger] out@[k]).0 == self.v4@[k].1 && out@[k].1 == self.v4@[k].2,
            decreases self.v4@.len() - i,
        {
            let b = self.v4[i];
            out.push((b.1 as u32, b.2 as u32));
            i = i + 1;
        }
        out
    }

    /// The IPv6 ranges, as first and last address and interface, in order.
    pub fn v6_ranges(&self) -> (r: Vec<(u128, u128, Option<u32>)>)
        ensures
            r@.len() == self.v6_blocks().len(),
            forall|i: int| 0 <= i < r@.len() ==> (#[trigger] r@[i]) == (self.v6_blocks()[i].1, self.v6_blocks()[i].2, self.v6_blocks()[i].0),
            canonical(self.v6_blocks()),
    {
        proof {
            use_type_invariant(self);
        }
        let mut out: Vec<(u128, u128, Option<u32>)> = Vec::new();
        let mut i: usize = 0;
        while i < self.v6.len()
            invariant
                i <= self.v6@.len(),
                out@.len() == i,
                forall|k: int| 0 <= k < i ==> (#[trigger] out@[k]) == (self.v6@[k].1, self.v6@[k].2, self.v6@[k].0),
            decreases self.v6@.len() - i,
        {
            let b = self.v6[i];
            out.push((b.1, b.2, b.0));
            i = i + 1;
        }
        out
    }
}

/// One non-empty block holds exactly as many addresses as it spans.
proof fn lemma_one_size(b: Block)
    requires
        b.1 <= b.2,
    ensures
        one(b).finite(),
        one(b).len() == b.2 - b.1 + 1,
{
    let lo = b.1 as int;
    let hi = b.2 as int + 1;
    let range = vstd::set_lib::set_int_range(lo, hi);
    let f = |x: int| (b.0, x as u128);
    vstd::set_lib::lemma_int_range(lo, hi);
    assert forall|p: (Option<u32>, u128)| range.map(f).contains(p) <==> one(b).contains(p) by {
        if one(b).contains(p) {
            assert(range.contains(p.1 as int));
            assert(f(p.1 as int) == p);
        }
    }
    assert(range.map(f) =~= one(b));
    assert(vstd::relations::injective_on(f, range)) by {
        assert forall|x1: int, x2: int| range.contains(x1) && range.contains(x2) && #[trigger] f(x1) == #[trigger] f(x2) implies x1 == x2 by {
            assert((x1 as u128) as int == x1);
            assert((x2 as u128) as int == x2);
        }
    }
    vstd::set_lib::lemma_map_size(range, one(b), f);
}

/// A canonical list holds every address once: as many addresses, each
/// counted on its interface, as its blocks span between them.
pub proof fn lemma_total_is_how_many(blocks: Seq<Block>)
    requires
        canonical(blocks),
    ensures
        covered(blocks).finite(),
        covered(blocks).len() == total(blocks),
    decreases blocks.len(),
{
    if blocks.len() == 0 {
        lemma_covered_nothing();
        assert(blocks =~= Seq::<Block>::empty());
    } else {
        let init = blocks.drop_last();
        let b = blocks.last();
        assert forall|i: int, j: int| 0 <= i < j < init.len() implies apart(#[trigger] init[i], #[trigger] init[j]) by {
            assert(init[i] == blocks[i] && init[j] == blocks[j]);
        }
        assert forall|i: int| 0 <= i < init.len() implies (#[trigger] init[i]).1 <= init[i].2 by {
            assert(init[i] == blocks[i]);
        }
        lemma_total_is_how_many(init);
        assert(init.push(b) =~= blocks);
        lemma_covered_push(init, b);
        lemma_one_size(b);
        assert(covered(init).disjoint(one(b))) by {
            assert forall|p: (Option<u32>, u128)| covered(init).contains(p) implies !one(b).contains(p) by {
                let i = choose|i: int| 0 <= i < init.len() && #[trigger] holds(init[i], p);
                assert(init[i] == blocks[i]);
                assert(apart(blocks[i], blocks[blocks.len() - 1]));
            }
        }
        vstd::set_lib::lemma_set_disjoint_lens(covered(init), one(b));
        assert(covered(blocks) == covered(init).union(one(b)));
        assert(covered(init).union(one(b)).finite());
        assert(covered(init).union(one(b)).len() == covered(init).len() + one(b).len());
        assert(total(blocks) == total(init) + (b.2 - b.1 + 1));
    }
}

/// What a set's count says: the number of addresses it holds, an IPv6
/// address counted once on each interface it is held on, stopping at the
/// largest `u128`.
pub proof fn lemma_count_is_how_many(set: AddressSet)
    requires
        canonical(set.v4_blocks()),
        canonical(set.v6_blocks()),
    ensures
        covered(set.v4_blocks()).finite(),
        v6_scoped(set).finite(),
        address_count(set) as int == if covered(set.v4_blocks()).len() + v6_scoped(set).len() > u128::MAX {
            u128::MAX as int
        } else {
            (covered(set.v4_blocks()).len() + v6_scoped(set).len()) as int
        },
{
    lemma_total_is_how_many(set.v4_blocks());
    lemma_total_is_how_many(set.v6_blocks());
}

impl Clone for AddressSet {
    /// A copy of this set, holding the same blocks.
    fn clone(&self) -> (r: AddressSet)
        ensures
            r.v4_blocks() == self.v4_blocks(),
            r.v6_blocks() == self.v6_blocks(),
    {
        proof {
            use_type_invariant(self);
        }
        AddressSet { v4: copy_blocks(&self.v4), v6: copy_blocks(&self.v6) }
    }
}

impl Default for AddressSet {
    /// A set holding nothing.
    fn default() -> (r: AddressSet)
        ensures
            r.v4_blocks() == Seq::<Block>::empty(),
            r.v6_blocks() == Seq::<Block>::empty(),
    {
        AddressSet::new()
    }
}

/// An address is held bare exactly when it is held on some interface.
proof fn lemma_bare_of_covered(list: Seq<Block>)
    ensures
        forall|x: u128| #[trigger] bare(list).contains(x) <==> exists|z: Option<u32>| covered(list).contains((z, x)),
{
    assert forall|x: u128| #[trigger] bare(list).contains(x) <==> exists|z: Option<u32>| covered(list).contains((z, x)) by {
        if bare(list).contains(x) {
            let i = choose|i: int| 0 <= i < list.len() && #[trigger] list[i].1 <= x && x <= list[i].2;
            assert(holds(list[i], (list[i].0, x)));
            assert(covered(list).contains((list[i].0, x)));
        }
        if exists|z: Option<u32>| covered(list).contains((z, x)) {
            let z = choose|z: Option<u32>| covered(list).contains((z, x));
            let i = choose|i: int| 0 <= i < list.len() && #[trigger] holds(list[i], (z, x));
            assert(list[i].1 <= x && x <= list[i].2);
        }
    }
}

} // verus!
