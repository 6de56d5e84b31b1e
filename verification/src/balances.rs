//! The ledger of confirmed balances: a finite map from addresses to amounts,
//! kept as a list of entries in which no address occurs twice.

use vstd::prelude::*;

use crate::text::str_eq;

verus! {

/// No address occurs twice among the entries.
pub open spec fn keys_distinct(s: Seq<(String, u64)>) -> bool {
    forall|i: int, j: int| 0 <= i < j < s.len() ==> s[i].0@ != s[j].0@
}

/// The map that the entries describe.
pub open spec fn entries_map(s: Seq<(String, u64)>) -> Map<Seq<char>, u64>
    decreases s.len(),
{
    if s.len() == 0 {
        Map::empty()
    } else {
        entries_map(s.drop_last()).insert(s.last().0@, s.last().1)
    }
}

/// The sum of the entries' amounts.
pub open spec fn entries_total(s: Seq<(String, u64)>) -> nat
    decreases s.len(),
{
    if s.len() == 0 {
        0
    } else {
        entries_total(s.drop_last()) + s.last().1 as nat
    }
}

/// The balance recorded for `address`, zero where none is.
pub open spec fn amount_of(m: Map<Seq<char>, u64>, address: Seq<char>) -> u64 {
    if m.contains_key(address) {
        m[address]
    } else {
        0
    }
}

/// `x` capped at `u64::MAX`.
pub open spec fn cap_u64(x: int) -> int {
    if x > u64::MAX {
        u64::MAX as int
    } else {
        x
    }
}

proof fn lemma_map_contains(s: Seq<(String, u64)>, k: Seq<char>)
    ensures
        entries_map(s).contains_key(k) <==> exists|i: int| 0 <= i < s.len() && s[i].0@ == k,
    decreases s.len(),
{
    if s.len() > 0 {
        lemma_map_contains(s.drop_last(), k);
        if entries_map(s).contains_key(k) && k != s.last().0@ {
            let i = choose|i: int| 0 <= i < s.drop_last().len() && s.drop_last()[i].0@ == k;
            assert(s[i].0@ == k);
        }
        if exists|i: int| 0 <= i < s.len() && s[i].0@ == k {
            let i = choose|i: int| 0 <= i < s.len() && s[i].0@ == k;
            if i < s.len() - 1 {
                assert(s.drop_last()[i].0@ == k);
            }
        }
    }
}

proof fn lemma_map_value(s: Seq<(String, u64)>, i: int)
    requires
        keys_distinct(s),
        0 <= i < s.len(),
    ensures
        entries_map(s).contains_key(s[i].0@),
        entries_map(s)[s[i].0@] == s[i].1,
    decreases s.len(),
{
    if i < s.len() - 1 {
        assert(s.drop_last()[i] == s[i]);
        lemma_map_value(s.drop_last(), i);
        assert(s[i].0@ != s.last().0@);
    }
}

proof fn lemma_total_bounds(s: Seq<(String, u64)>, i: int)
    requires
        0 <= i < s.len(),
    ensures
        entries_total(s) >= s[i].1,
    decreases s.len(),
{
    if i < s.len() - 1 {
        assert(s.drop_last()[i] == s[i]);
        lemma_total_bounds(s.drop_last(), i);
    }
}

proof fn lemma_entries_amount_le_total(s: Seq<(String, u64)>, k: Seq<char>)
    ensures
        amount_of(entries_map(s), k) <= entries_total(s),
    decreases s.len(),
{
    if s.len() > 0 {
        lemma_entries_amount_le_total(s.drop_last(), k);
    }
}

/// Replacing the amount of entry `i` (keeping its address) sets that
/// address in the map and changes the total by the difference.
proof fn lemma_replace(s: Seq<(String, u64)>, t: Seq<(String, u64)>, i: int)
    requires
        keys_distinct(s),
        0 <= i < s.len(),
        t.len() == s.len(),
        forall|j: int| 0 <= j < s.len() && j != i ==> t[j] == s[j],
        t[i].0@ == s[i].0@,
    ensures
        keys_distinct(t),
        entries_map(t) == entries_map(s).insert(s[i].0@, t[i].1),
        entries_total(t) == entries_total(s) - s[i].1 + t[i].1,
    decreases s.len(),
{
    if i == s.len() - 1 {
        assert(t.drop_last() =~= s.drop_last());
        assert(entries_map(t) =~= entries_map(s).insert(s[i].0@, t[i].1));
    } else {
        lemma_replace(s.drop_last(), t.drop_last(), i);
        assert(s[i].0@ != s.last().0@);
        assert(t.last() == s.last());
        assert(entries_map(t) =~= entries_map(s).insert(s[i].0@, t[i].1));
    }
}

/// Confirmed balances by address.
pub struct Balances {
    entries: Vec<(String, u64)>,
}

impl View for Balances {
    type V = Map<Seq<char>, u64>;

    closed spec fn view(&self) -> Map<Seq<char>, u64> {
        entries_map(self.entries@)
    }
}

impl Balances {
    #[verifier::type_invariant]
    spec fn well_formed(self) -> bool {
        keys_distinct(self.entries@)
    }

    /// The sum of all balances, without any cap.
    pub closed spec fn total(self) -> nat {
        entries_total(self.entries@)
    }

    /// No balances.
    pub fn new() -> (r: Balances)
        ensures
            r@ == Map::<Seq<char>, u64>::empty(),
            r.total() == 0,
    {
        Balances { entries: Vec::new() }
    }

    fn find(&self, address: &str) -> (r: Option<usize>)
        ensures
            match r {
                Some(i) => i < self.entries@.len() && self.entries@[i as int].0@ == address@,
                None => forall|j: int|
                    0 <= j < self.entries@.len() ==> self.entries@[j].0@ != address@,
            },
    {
        let n = self.entries.len();
        for i in 0..n
            invariant
                n == self.entries@.len(),
                forall|j: int| 0 <= j < i ==> self.entries@[j].0@ != address@,
        {
            if str_eq(self.entries[i].0.as_str(), address) {
                return Some(i);
            }
        }
        None
    }

    /// The balance recorded for `address`, if any.
    pub fn get(&self, address: &str) -> (r: Option<u64>)
        ensures
            r == (if self@.contains_key(address@) {
                Some(self@[address@])
            } else {
                None::<u64>
            }),
    {
        proof {
            use_type_invariant(self);
            lemma_map_contains(self.entries@, address@);
        }
        match self.find(address) {
            Some(i) => {
                proof {
                    lemma_map_value(self.entries@, i as int);
                }
                Some(self.entries[i].1)
            },
            None => None,
        }
    }

    /// The balance of `address`, zero where none is recorded.
    pub fn amount(&self, address: &str) -> (r: u64)
        ensures
            r == amount_of(self@, address@),
            r <= self.total(),
    {
        proof {
            use_type_invariant(self);
            lemma_map_contains(self.entries@, address@);
            if self@.contains_key(address@) {
                let i = choose|i: int|
                    0 <= i < self.entries@.len() && self.entries@[i].0@ == address@;
                lemma_map_value(self.entries@, i);
                lemma_total_bounds(self.entries@, i);
            }
        }
        match self.get(address) {
            Some(v) => v,
            None => 0,
        }
    }

    /// Whether a balance is recorded for `address`.
    pub fn contains_key(&self, address: &str) -> (r: bool)
        ensures
            r == self@.contains_key(address@),
    {
        self.get(address).is_some()
    }

    /// Whether no balance is recorded at all.
    pub fn is_empty(&self) -> (r: bool)
        ensures
            r == (self@ == Map::<Seq<char>, u64>::empty()),
    {
        proof {
            use_type_invariant(self);
            if self.entries@.len() > 0 {
                lemma_map_contains(self.entries@, self.entries@[0].0@);
                assert(self@.contains_key(self.entries@[0].0@));
            } else {
                assert(self@ =~= Map::<Seq<char>, u64>::empty());
            }
        }
        self.entries.len() == 0
    }

    /// Records `amount` for `address`, replacing any earlier balance.
    pub fn insert(&mut self, address: String, amount: u64)
        ensures
            final(self)@ == old(self)@.insert(address@, amount),
            final(self).total() == old(self).total() - amount_of(old(self)@, address@) + amount,
    {
        proof {
            use_type_invariant(&*self);
            lemma_map_contains(self.entries@, address@);
        }
        let ghost s = self.entries@;
        let found = self.find(address.as_str());
        let mut entries: Vec<(String, u64)> = Vec::new();
        std::mem::swap(&mut entries, &mut self.entries);
        match found {
            Some(i) => {
                proof {
                    lemma_map_value(s, i as int);
                    lemma_replace(s, s.update(i as int, (address, amount)), i as int);
                }
                entries.set(i, (address, amount));
                assert(entries@ == s.update(i as int, (address, amount)));
            },
            None => {
                entries.push((address, amount));
                assert(entries@.drop_last() =~= s);
            },
        }
        self.entries = entries;
    }

    /// The sum of all balances, `u64::MAX` where it does not fit.
    pub fn saturating_total(&self) -> (r: u64)
        ensures
            r == cap_u64(self.total() as int),
    {
        let n = self.entries.len();
        let mut acc: u64 = 0;
        for i in 0..n
            invariant
                n == self.entries@.len(),
                acc == cap_u64(entries_total(self.entries@.take(i as int)) as int),
        {
            assert(self.entries@.take(i + 1).drop_last() =~= self.entries@.take(i as int));
            acc = match acc.checked_add(self.entries[i].1) {
                Some(v) => v,
                None => u64::MAX,
            };
        }
        assert(self.entries@.take(n as int) =~= self.entries@);
        acc
    }

    /// The number of recorded balances.
    pub fn len(&self) -> (r: usize)
        ensures
            r == self@.dom().len(),
    {
        proof {
            use_type_invariant(self);
            lemma_dom_len(self.entries@);
        }
        self.entries.len()
    }

    /// The recorded addresses and balances, each address once.
    pub fn to_pairs(&self) -> (r: Vec<(String, u64)>)
        ensures
            keys_distinct(r@),
            entries_map(r@) == self@,
    {
        proof {
            use_type_invariant(self);
        }
        let n = self.entries.len();
        let mut out: Vec<(String, u64)> = Vec::new();
        for i in 0..n
            invariant
                n == self.entries@.len(),
                out@.len() == i,
                forall|j: int| 0 <= j < i ==> out@[j].0@ == self.entries@[j].0@ && out@[j].1
                    == self.entries@[j].1,
        {
            out.push((self.entries[i].0.clone(), self.entries[i].1));
        }
        proof {
            lemma_same_view(out@, self.entries@);
        }
        out
    }
}

/// No single balance exceeds the sum of all balances.
pub proof fn lemma_amount_le_total(balances: Balances, address: Seq<char>)
    ensures
        amount_of(balances@, address) <= balances.total(),
{
    lemma_entries_amount_le_total(balances.entries@, address);
}

proof fn lemma_same_view(a: Seq<(String, u64)>, b: Seq<(String, u64)>)
    requires
        a.len() == b.len(),
        forall|j: int| 0 <= j < a.len() ==> a[j].0@ == b[j].0@ && a[j].1 == b[j].1,
    ensures
        entries_map(a) == entries_map(b),
        keys_distinct(b) ==> keys_distinct(a),
    decreases a.len(),
{
    if a.len() > 0 {
        lemma_same_view(a.drop_last(), b.drop_last());
    }
}

proof fn lemma_dom_len(s: Seq<(String, u64)>)
    requires
        keys_distinct(s),
    ensures
        entries_map(s).dom().finite(),
        entries_map(s).dom().len() == s.len(),
    decreases s.len(),
{
    if s.len() > 0 {
        lemma_dom_len(s.drop_last());
        lemma_map_contains(s.drop_last(), s.last().0@);
        if entries_map(s.drop_last()).contains_key(s.last().0@) {
            let i = choose|i: int|
                0 <= i < s.drop_last().len() && s.drop_last()[i].0@ == s.last().0@;
            assert(s[i].0@ == s[s.len() - 1].0@);
        }
    }
}

} // verus!
