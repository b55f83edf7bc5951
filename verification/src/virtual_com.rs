//! Loopback endpoint provisioning: the adjacency heuristic that pairs up
//! enumerated `COM` endpoints, and a small emulator description. Invoking
//! platform utilities to create new pairs is the caller's part.

use vstd::prelude::*;
use crate::codec::str_to_chars;
use vstd::multiset::Multiset;

verus! {

/// Whether a name starts with `COM`.
pub open spec fn starts_with_com(s: Seq<char>) -> bool {
    s.len() >= 3 && s[0] == 'C' && s[1] == 'O' && s[2] == 'M'
}

/// Lexicographic order on texts, by character code.
pub open spec fn text_le(a: Seq<char>, b: Seq<char>) -> bool
    decreases a.len(),
{
    if a.len() == 0 {
        true
    } else if b.len() == 0 {
        false
    } else if (a[0] as u32) < (b[0] as u32) {
        true
    } else if (a[0] as u32) > (b[0] as u32) {
        false
    } else {
        text_le(a.drop_first(), b.drop_first())
    }
}

/// `x` inserted in front of the first element it does not come after.
pub open spec fn spec_insert_sorted(x: String, s: Seq<String>) -> Seq<String>
    decreases s.len(),
{
    if s.len() == 0 {
        seq![x]
    } else if text_le(x@, s[0]@) {
        seq![x] + s
    } else {
        seq![s[0]] + spec_insert_sorted(x, s.drop_first())
    }
}

/// The names ordered by repeated sorted insertion (insertion sort).
pub open spec fn spec_sort_names(s: Seq<String>) -> Seq<String>
    decreases s.len(),
{
    if s.len() == 0 {
        Seq::empty()
    } else {
        spec_insert_sorted(s[0], spec_sort_names(s.drop_first()))
    }
}

/// Consecutive elements paired up: `(s[0], s[1]), (s[2], s[3]), ...`; a
/// trailing odd element is left out.
pub open spec fn spec_pair_up(s: Seq<String>) -> Seq<(String, String)> {
    Seq::new((s.len() / 2) as nat, |k: int| (s[2 * k], s[2 * k + 1]))
}

fn name_starts_with_com(s: &String) -> (r: bool)
    ensures
        r == starts_with_com(s@),
{
    let cv = str_to_chars(s.as_str());
    cv.len() >= 3 && cv[0] == 'C' && cv[1] == 'O' && cv[2] == 'M'
}

fn text_le_exec(a: &String, b: &String) -> (r: bool)
    ensures
        r == text_le(a@, b@),
{
    let av = str_to_chars(a.as_str());
    let bv = str_to_chars(b.as_str());
    let an = av.len();
    let bn = bv.len();
    let mut i: usize = 0;
    assert(a@.skip(0) =~= a@);
    assert(b@.skip(0) =~= b@);
    while i < an && i < bn
        invariant
            an == a@.len(),
            bn == b@.len(),
            av@ == a@,
            bv@ == b@,
            i <= an && i <= bn,
            text_le(a@, b@) == text_le(a@.skip(i as int), b@.skip(i as int)),
        decreases an - i,
    {
        let ca = av[i] as u32;
        let cb = bv[i] as u32;
        proof {
            assert(a@.skip(i as int).drop_first() =~= a@.skip(i as int + 1));
            assert(b@.skip(i as int).drop_first() =~= b@.skip(i as int + 1));
        }
        if ca < cb {
            return true;
        }
        if ca > cb {
            return false;
        }
        assert(text_le(a@.skip(i as int), b@.skip(i as int)) == text_le(
            a@.skip(i as int + 1),
            b@.skip(i as int + 1),
        ));
        i = i + 1;
    }
    an <= bn
}

/// Insert `x` into the already sorted `v`, in front of the first element it
/// does not come after.
fn insert_sorted(v: &mut Vec<String>, x: String)
    ensures
        final(v)@ == spec_insert_sorted(x, old(v)@),
{
    let n = v.len();
    let mut idx: usize = 0;
    while idx < n && !text_le_exec(&x, &v[idx])
        invariant
            n == v@.len(),
            idx <= n,
            forall|k: int| 0 <= k < idx ==> !text_le(x@, v@[k]@),
        decreases n - idx,
    {
        idx = idx + 1;
    }
    let ghost before = v@;
    let ghost at = idx as int;
    v.insert(idx, x);
    proof {
        lemma_insert_sorted_at(x, before, at);
        assert(v@ =~= before.take(at) + seq![x] + before.skip(at));
    }
}

proof fn lemma_insert_sorted_at(x: String, s: Seq<String>, idx: int)
    requires
        0 <= idx <= s.len(),
        forall|k: int| 0 <= k < idx ==> !text_le(x@, s[k]@),
        idx < s.len() ==> text_le(x@, s[idx]@),
    ensures
        spec_insert_sorted(x, s) == s.take(idx) + seq![x] + s.skip(idx),
    decreases idx,
{
    if idx == 0 {
        if s.len() == 0 {
            assert(spec_insert_sorted(x, s) =~= s.take(0) + seq![x] + s.skip(0));
        } else {
            assert(spec_insert_sorted(x, s) =~= s.take(0) + seq![x] + s.skip(0));
        }
    } else {
        lemma_insert_sorted_at(x, s.drop_first(), idx - 1);
        assert(s.drop_first().take(idx - 1) =~= s.take(idx).drop_first());
        assert(s.drop_first().skip(idx - 1) =~= s.skip(idx));
        assert(spec_insert_sorted(x, s) == seq![s[0]] + spec_insert_sorted(x, s.drop_first()));
        assert(seq![s[0]] + (s.drop_first().take(idx - 1) + seq![x] + s.drop_first().skip(idx - 1))
            =~= s.take(idx) + seq![x] + s.skip(idx));
    }
}

/// Sort names lexicographically by repeated sorted insertion.
pub fn sort_names(names: &Vec<String>) -> (r: Vec<String>)
    ensures
        r@ == spec_sort_names(names@),
{
    let n = names.len();
    let mut out: Vec<String> = Vec::new();
    let mut i: usize = n;
    while i > 0
        invariant
            n == names@.len(),
            i <= n,
            out@ == spec_sort_names(names@.skip(i as int)),
        decreases i,
    {
        i = i - 1;
        insert_sorted(&mut out, names[i].clone());
        proof {
            let rest = names@.skip(i as int);
            assert(rest.drop_first() =~= names@.skip(i as int + 1));
            assert(rest[0] == names@[i as int]);
        }
    }
    assert(names@.skip(0) =~= names@);
    out
}

/// The names that start with `COM`, in their original order.
pub fn filter_com_names(names: &Vec<String>) -> (r: Vec<String>)
    ensures
        r@ == names@.filter(|s: String| starts_with_com(s@)),
{
    let ghost pred = |s: String| starts_with_com(s@);
    let n = names.len();
    let mut out: Vec<String> = Vec::new();
    let mut i: usize = 0;
    assert(names@.take(0).filter(pred) =~= Seq::<String>::empty()) by {
        reveal(Seq::filter);
        assert(names@.take(0) =~= Seq::<String>::empty());
    };
    while i < n
        invariant
            n == names@.len(),
            i <= n,
            out@ == names@.take(i as int).filter(pred),
            pred == (|s: String| starts_with_com(s@)),
        decreases n - i,
    {
        let keep = name_starts_with_com(&names[i]);
        if keep {
            out.push(names[i].clone());
        }
        proof {
            let prev = names@.take(i as int);
            let cur = names@.take(i as int + 1);
            assert(cur.drop_last() =~= prev);
            assert(cur.last() == names@[i as int]);
            reveal(Seq::filter);
            assert(out@ =~= cur.filter(pred));
        }
        i = i + 1;
    }
    assert(names@.take(n as int) =~= names@);
    out
}

/// Pair consecutive names: `(r[0], r[1]), (r[2], r[3]), ...`.
pub fn pair_adjacent(names: &Vec<String>) -> (pairs: Vec<(String, String)>)
    ensures
        pairs@ == spec_pair_up(names@),
{
    let n = names.len();
    let mut pairs: Vec<(String, String)> = Vec::new();
    let mut i: usize = 0;
    while n - i >= 2
        invariant
            n == names@.len(),
            i <= n,
            i % 2 == 0,
            pairs@.len() == i / 2,
            forall|k: int|
                0 <= k < i / 2 ==> #[trigger] pairs@[k] == (names@[2 * k], names@[2 * k + 1]),
        decreases n - i,
    {
        pairs.push((names[i].clone(), names[i + 1].clone()));
        proof {
            assert(2 * (i as int / 2) == i as int);
            assert(pairs@[i as int / 2] == (names@[i as int], names@[i as int + 1]));
        }
        i = i + 2;
    }
    assert(pairs@ =~= spec_pair_up(names@));
    pairs
}

/// The adjacency heuristic for discovering cross-connected endpoint pairs:
/// keep the `COM`-prefixed names, sort them, and pair neighbours.
pub fn find_port_pairs(names: &Vec<String>) -> (pairs: Vec<(String, String)>)
    ensures
        pairs@ == spec_pair_up(
            spec_sort_names(names@.filter(|s: String| starts_with_com(s@))),
        ),
{
    let filtered = filter_com_names(names);
    let sorted = sort_names(&filtered);
    pair_adjacent(&sorted)
}

/// The two names of every pair, flattened in order.
pub fn flatten_pairs(pairs: &Vec<(String, String)>) -> (r: Vec<String>)
    ensures
        r@.len() == 2 * pairs@.len(),
        forall|k: int| 0 <= k < pairs@.len() ==> r@[2 * k] == (#[trigger] pairs@[k]).0,
        forall|k: int| 0 <= k < pairs@.len() ==> r@[2 * k + 1] == (#[trigger] pairs@[k]).1,
{
    let n = pairs.len();
    let mut r: Vec<String> = Vec::new();
    let mut i: usize = 0;
    while i < n
        invariant
            n == pairs@.len(),
            i <= n,
            r@.len() == 2 * i,
            forall|k: int| 0 <= k < i ==> r@[2 * k] == (#[trigger] pairs@[k]).0,
            forall|k: int| 0 <= k < i ==> r@[2 * k + 1] == (#[trigger] pairs@[k]).1,
        decreases n - i,
    {
        let ghost r_prev = r@;
        r.push(pairs[i].0.clone());
        r.push(pairs[i].1.clone());
        proof {
            assert(r@.len() == 2 * (i as int) + 2);
            assert(r@[2 * (i as int)] == pairs@[i as int].0);
            assert(r@[2 * (i as int) + 1] == pairs@[i as int].1);
            assert(forall|k: int|
                0 <= k < i ==> #[trigger] r@[2 * k] == r_prev[2 * k] && r@[2 * k + 1] == r_prev[2
                    * k + 1]);
        }
        i = i + 1;
    }
    r
}


/// Whether names read in non-decreasing lexicographic order.
pub open spec fn names_sorted(s: Seq<String>) -> bool {
    forall|i: int, j: int| 0 <= i < j < s.len() ==> text_le(s[i]@, s[j]@)
}

proof fn lemma_text_le_total(a: Seq<char>, b: Seq<char>)
    ensures
        text_le(a, b) || text_le(b, a),
    decreases a.len(),
{
    if a.len() > 0 && b.len() > 0 && a[0] as u32 == b[0] as u32 {
        lemma_text_le_total(a.drop_first(), b.drop_first());
    }
}

proof fn lemma_text_le_trans(a: Seq<char>, b: Seq<char>, c: Seq<char>)
    requires
        text_le(a, b),
        text_le(b, c),
    ensures
        text_le(a, c),
    decreases a.len(),
{
    if a.len() > 0 && b.len() > 0 && c.len() > 0 && a[0] as u32 == b[0] as u32 && b[0] as u32
        == c[0] as u32 {
        lemma_text_le_trans(a.drop_first(), b.drop_first(), c.drop_first());
    }
}

proof fn lemma_insert_sorted_props(x: String, s: Seq<String>)
    requires
        names_sorted(s),
    ensures
        names_sorted(spec_insert_sorted(x, s)),
        spec_insert_sorted(x, s).to_multiset() == s.to_multiset().insert(x),
        spec_insert_sorted(x, s).len() == s.len() + 1,
    decreases s.len(),
{
    broadcast use vstd::seq_lib::group_to_multiset_ensures;
    broadcast use vstd::multiset::group_multiset_axioms;

    let r = spec_insert_sorted(x, s);
    if s.len() == 0 {
        assert(r =~= Seq::<String>::empty().push(x));
        assert(r.to_multiset() =~= s.to_multiset().insert(x));
    } else if text_le(x@, s[0]@) {
        assert(r == seq![x] + s);
        assert forall|i: int, j: int| 0 <= i < j < r.len() implies text_le(r[i]@, r[j]@) by {
            if i == 0 {
                assert(r[0] == x);
                if j == 1 {
                    assert(r[j] == s[0]);
                } else {
                    assert(r[j] == s[j - 1]);
                    lemma_text_le_trans(x@, s[0]@, s[j - 1]@);
                }
            } else {
                assert(r[i] == s[i - 1] && r[j] == s[j - 1]);
            }
        };
        vstd::seq_lib::lemma_multiset_commutative(seq![x], s);
        assert(seq![x].to_multiset() =~= Multiset::<String>::empty().insert(x)) by {
            assert(seq![x] =~= Seq::<String>::empty().push(x));
        };
        assert(r.to_multiset() =~= s.to_multiset().insert(x));
    } else {
        lemma_text_le_total(x@, s[0]@);
        let rest = s.drop_first();
        assert(names_sorted(rest)) by {
            assert forall|i: int, j: int| 0 <= i < j < rest.len() implies text_le(
                rest[i]@,
                rest[j]@,
            ) by {
                assert(rest[i] == s[i + 1] && rest[j] == s[j + 1]);
            };
        };
        lemma_insert_sorted_props(x, rest);
        let tail = spec_insert_sorted(x, rest);
        assert(r == seq![s[0]] + tail);
        assert forall|i: int, j: int| 0 <= i < j < r.len() implies text_le(r[i]@, r[j]@) by {
            if i == 0 {
                let y = r[j];
                assert(tail[j - 1] == y);
                assert(tail.contains(y));
                assert(tail.to_multiset().count(y) > 0);
                if rest.to_multiset().count(y) > 0 {
                    assert(rest.contains(y));
                    let k = choose|k: int| 0 <= k < rest.len() && rest[k] == y;
                    assert(s[k + 1] == y);
                    assert(text_le(s[0]@, y@));
                } else {
                    assert(y == x);
                    assert(text_le(s[0]@, y@));
                }
            } else {
                assert(r[i] == tail[i - 1] && r[j] == tail[j - 1]);
            }
        };
        vstd::seq_lib::lemma_multiset_commutative(seq![s[0]], tail);
        assert(seq![s[0]].to_multiset() =~= Multiset::<String>::empty().insert(s[0])) by {
            assert(seq![s[0]] =~= Seq::<String>::empty().push(s[0]));
        };
        assert(s =~= seq![s[0]] + rest);
        vstd::seq_lib::lemma_multiset_commutative(seq![s[0]], rest);
        assert(r.to_multiset() =~= s.to_multiset().insert(x));
    }
}

/// Law: sorting keeps exactly the given names (as a multiset) and leaves
/// them in non-decreasing lexicographic order.
pub proof fn lemma_sort_names_sorted(s: Seq<String>)
    ensures
        names_sorted(spec_sort_names(s)),
        spec_sort_names(s).to_multiset() == s.to_multiset(),
    decreases s.len(),
{
    broadcast use vstd::seq_lib::group_to_multiset_ensures;
    broadcast use vstd::multiset::group_multiset_axioms;

    if s.len() > 0 {
        let rest = s.drop_first();
        lemma_sort_names_sorted(rest);
        lemma_insert_sorted_props(s[0], spec_sort_names(rest));
        vstd::seq_lib::lemma_multiset_commutative(seq![s[0]], rest);
        assert(s =~= seq![s[0]] + rest);
        assert(seq![s[0]].to_multiset() =~= Multiset::<String>::empty().insert(s[0])) by {
            assert(seq![s[0]] =~= Seq::<String>::empty().push(s[0]));
        };
        assert(spec_sort_names(s).to_multiset() =~= s.to_multiset());
    }
}

/// A described loopback endpoint that echoes data back.
pub struct ComEmulator {
    port_name: String,
    echo_enabled: bool,
    delay_ms: u64,
}

impl ComEmulator {
    /// The endpoint name this emulator stands on.
    pub closed spec fn spec_port_name(&self) -> Seq<char> {
        self.port_name@
    }

    /// Whether echoing is on.
    pub closed spec fn spec_echo(&self) -> bool {
        self.echo_enabled
    }

    /// The configured echo delay.
    pub closed spec fn spec_delay(&self) -> u64 {
        self.delay_ms
    }

    /// A fresh emulator: echo on, no delay.
    pub fn new(port_name: String) -> (r: ComEmulator)
        ensures
            r.spec_port_name() == port_name@,
            r.spec_echo(),
            r.spec_delay() == 0,
    {
        ComEmulator { port_name, echo_enabled: true, delay_ms: 0 }
    }

    pub fn set_echo(&mut self, enabled: bool)
        ensures
            final(self).spec_echo() == enabled,
            final(self).spec_port_name() == old(self).spec_port_name(),
            final(self).spec_delay() == old(self).spec_delay(),
    {
        self.echo_enabled = enabled;
    }

    pub fn set_delay(&mut self, delay_ms: u64)
        ensures
            final(self).spec_delay() == delay_ms,
            final(self).spec_port_name() == old(self).spec_port_name(),
            final(self).spec_echo() == old(self).spec_echo(),
    {
        self.delay_ms = delay_ms;
    }

    pub fn port_name(&self) -> (s: &str)
        ensures
            s@ == self.spec_port_name(),
    {
        self.port_name.as_str()
    }
}

} // verus!
