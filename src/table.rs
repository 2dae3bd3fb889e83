use vstd::prelude::*;

verus! {

/// Whether some entry of the table is stored under key `k`.
pub open spec fn has_key<K>(s: Seq<(K, u128)>, k: K) -> bool {
    exists|i: int| 0 <= i < s.len() && s[i].0 == k
}

/// The amount stored under `k`; an absent key reads as zero.
pub open spec fn lookup<K>(s: Seq<(K, u128)>, k: K) -> nat {
    if has_key(s, k) {
        s[choose|i: int| 0 <= i < s.len() && s[i].0 == k].1 as nat
    } else {
        0
    }
}

/// No key is stored twice.
pub open spec fn keys_unique<K>(s: Seq<(K, u128)>) -> bool {
    forall|i: int, j: int|
        0 <= i < s.len() && 0 <= j < s.len() && #[trigger] s[i].0 == #[trigger] s[j].0 ==> i == j
}

/// The sum of all amounts in the table.
pub open spec fn sum_values<K>(s: Seq<(K, u128)>) -> int
    decreases s.len(),
{
    if s.len() == 0 {
        0
    } else {
        sum_values(s.drop_last()) + s.last().1
    }
}

/// Where `pos` says the key `k` is: at that index, or nowhere.
pub open spec fn locates<K>(s: Seq<(K, u128)>, pos: Option<usize>, k: K) -> bool {
    match pos {
        Some(i) => i < s.len() && s[i as int].0 == k,
        None => !has_key(s, k),
    }
}

proof fn lemma_lookup_at<K>(s: Seq<(K, u128)>, i: int)
    requires
        keys_unique(s),
        0 <= i < s.len(),
    ensures
        lookup(s, s[i].0) == s[i].1,
{
    let j = choose|j: int| 0 <= j < s.len() && s[j].0 == s[i].0;
    assert(s[j].0 == s[i].0);
}

proof fn lemma_sum_update<K>(s: Seq<(K, u128)>, i: int, v: u128)
    requires
        0 <= i < s.len(),
    ensures
        sum_values(s.update(i, (s[i].0, v))) == sum_values(s) - s[i].1 + v,
    decreases s.len(),
{
    let t = s.update(i, (s[i].0, v));
    if i == s.len() - 1 {
        assert(t.drop_last() =~= s.drop_last());
    } else {
        lemma_sum_update(s.drop_last(), i, v);
        assert(t.drop_last() =~= s.drop_last().update(i, (s[i].0, v)));
    }
}

proof fn lemma_sum_push<K>(s: Seq<(K, u128)>, e: (K, u128))
    ensures
        sum_values(s.push(e)) == sum_values(s) + e.1,
{
    assert(s.push(e).drop_last() =~= s);
}

proof fn lemma_sum_nonneg<K>(s: Seq<(K, u128)>)
    ensures
        sum_values(s) >= 0,
    decreases s.len(),
{
    if s.len() > 0 {
        lemma_sum_nonneg(s.drop_last());
    }
}

/// Two distinct entries together hold no more than the whole table.
proof fn lemma_two_entries_within_sum<K>(s: Seq<(K, u128)>, i: int, j: int)
    requires
        0 <= i < s.len(),
        0 <= j < s.len(),
        i != j,
    ensures
        s[i].1 + s[j].1 <= sum_values(s),
    decreases s.len(),
{
    let n = s.len() - 1;
    lemma_sum_nonneg(s.drop_last());
    if i == n {
        lemma_entry_within_sum(s.drop_last(), j);
    } else if j == n {
        lemma_entry_within_sum(s.drop_last(), i);
    } else {
        lemma_two_entries_within_sum(s.drop_last(), i, j);
    }
}

/// One entry holds no more than the whole table.
proof fn lemma_entry_within_sum<K>(s: Seq<(K, u128)>, i: int)
    requires
        0 <= i < s.len(),
    ensures
        s[i].1 <= sum_values(s),
    decreases s.len(),
{
    lemma_sum_nonneg(s.drop_last());
    if i < s.len() - 1 {
        lemma_entry_within_sum(s.drop_last(), i);
    }
}

/// The amounts under two different keys together stay within the table's sum.
pub proof fn lemma_two_lookups_within_sum<K>(s: Seq<(K, u128)>, a: K, b: K)
    requires
        keys_unique(s),
        a != b,
    ensures
        lookup(s, a) + lookup(s, b) <= sum_values(s),
{
    lemma_sum_nonneg(s);
    if has_key(s, a) {
        let i = choose|i: int| 0 <= i < s.len() && s[i].0 == a;
        lemma_lookup_at(s, i);
        if has_key(s, b) {
            let j = choose|j: int| 0 <= j < s.len() && s[j].0 == b;
            lemma_lookup_at(s, j);
            lemma_two_entries_within_sum(s, i, j);
        } else {
            lemma_entry_within_sum(s, i);
        }
    } else if has_key(s, b) {
        let j = choose|j: int| 0 <= j < s.len() && s[j].0 == b;
        lemma_lookup_at(s, j);
        lemma_entry_within_sum(s, j);
    }
}

/// The amount under one key stays within the table's sum.
pub proof fn lemma_lookup_within_sum<K>(s: Seq<(K, u128)>, a: K)
    requires
        keys_unique(s),
    ensures
        lookup(s, a) <= sum_values(s),
{
    lemma_sum_nonneg(s);
    if has_key(s, a) {
        let i = choose|i: int| 0 <= i < s.len() && s[i].0 == a;
        lemma_lookup_at(s, i);
        lemma_entry_within_sum(s, i);
    }
}

/// Reads the amount under `k`, where `pos` says the key is.
pub fn amount_at<K>(s: &Vec<(K, u128)>, pos: Option<usize>, Ghost(k): Ghost<K>) -> (r: u128)
    requires
        keys_unique(s@),
        locates(s@, pos, k),
    ensures
        r == lookup(s@, k),
{
    match pos {
        Some(i) => {
            proof {
                lemma_lookup_at(s@, i as int);
            }
            s[i].1
        },
        None => 0,
    }
}

/// Writes `v` under `k`, in place where `pos` found the key, else as a new
/// entry at the end.
pub fn store<K: Copy>(s: &mut Vec<(K, u128)>, pos: Option<usize>, k: K, v: u128)
    requires
        keys_unique(old(s)@),
        locates(old(s)@, pos, k),
    ensures
        keys_unique(final(s)@),
        forall|x: K| #[trigger] lookup(final(s)@, x) == if x == k { v as nat } else { lookup(old(s)@, x) },
        sum_values(final(s)@) == sum_values(old(s)@) - lookup(old(s)@, k) + v,
{
    let ghost s0 = s@;
    match pos {
        Some(i) => {
            s[i] = (k, v);
            proof {
                assert(s@ =~= s0.update(i as int, (s0[i as int].0, v)));
                lemma_lookup_at(s0, i as int);
                lemma_sum_update(s0, i as int, v);
                assert forall|x: K| #[trigger] lookup(s@, x) == if x == k { v as nat } else { lookup(s0, x) } by {
                    if x == k {
                        lemma_lookup_at(s@, i as int);
                    } else if has_key(s0, x) {
                        let j = choose|j: int| 0 <= j < s0.len() && s0[j].0 == x;
                        lemma_lookup_at(s0, j);
                        lemma_lookup_at(s@, j);
                    } else {
                        assert(!has_key(s@, x));
                    }
                }
            }
        },
        None => {
            s.push((k, v));
            proof {
                let n = s0.len() as int;
                lemma_sum_push(s0, (k, v));
                assert(keys_unique(s@));
                assert forall|x: K| #[trigger] lookup(s@, x) == if x == k { v as nat } else { lookup(s0, x) } by {
                    if x == k {
                        lemma_lookup_at(s@, n);
                    } else if has_key(s0, x) {
                        let j = choose|j: int| 0 <= j < s0.len() && s0[j].0 == x;
                        lemma_lookup_at(s0, j);
                        lemma_lookup_at(s@, j);
                    } else {
                        assert(!has_key(s@, x));
                    }
                }
            }
        },
    }
}

} // verus!
