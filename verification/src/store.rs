use vstd::prelude::*;

use crate::Info;

verus! {

/// The durable ledger store: a mapping from account identity to its `Info`
/// record, kept as a vector of key/record pairs whose keys are pairwise
/// distinct. Its abstract view is the finite map from account names (as
/// character sequences) to records; retrieval of an absent account is
/// distinguishable from retrieval of a zeroed record.
pub struct LedgerStore {
    entries: Vec<(String, Info)>,
}

/// The map described by a sequence of key/record pairs, a later entry for a
/// key overriding an earlier one.
pub open spec fn map_of(s: Seq<(String, Info)>) -> Map<Seq<char>, Info>
    decreases s.len(),
{
    if s.len() == 0 {
        Map::empty()
    } else {
        map_of(s.drop_last()).insert(s.last().0@, s.last().1)
    }
}

/// No account name occurs under two entries.
pub open spec fn keys_distinct(s: Seq<(String, Info)>) -> bool {
    forall|i: int, j: int| 0 <= i < j < s.len() ==> s[i].0@ != s[j].0@
}

impl View for LedgerStore {
    type V = Map<Seq<char>, Info>;

    closed spec fn view(&self) -> Map<Seq<char>, Info> {
        map_of(self.entries@)
    }
}

proof fn lemma_map_of_found(s: Seq<(String, Info)>, i: int)
    requires
        keys_distinct(s),
        0 <= i < s.len(),
    ensures
        map_of(s).contains_key(s[i].0@),
        map_of(s)[s[i].0@] == s[i].1,
    decreases s.len(),
{
    if i == s.len() - 1 {
    } else {
        assert(keys_distinct(s.drop_last()));
        lemma_map_of_found(s.drop_last(), i);
        assert(s.drop_last()[i] == s[i]);
        assert(s[i].0@ != s.last().0@);
    }
}

proof fn lemma_map_of_absent(s: Seq<(String, Info)>, k: Seq<char>)
    requires
        forall|i: int| 0 <= i < s.len() ==> s[i].0@ != k,
    ensures
        !map_of(s).contains_key(k),
    decreases s.len(),
{
    if s.len() > 0 {
        assert(forall|i: int| 0 <= i < s.drop_last().len() ==> s.drop_last()[i].0@ != k);
        lemma_map_of_absent(s.drop_last(), k);
        assert(s.last().0@ != k);
    }
}

proof fn lemma_map_of_update(s: Seq<(String, Info)>, i: int, e: (String, Info))
    requires
        keys_distinct(s),
        0 <= i < s.len(),
        e.0@ == s[i].0@,
    ensures
        map_of(s.update(i, e)) =~= map_of(s).insert(e.0@, e.1),
    decreases s.len(),
{
    let t = s.update(i, e);
    if i == s.len() - 1 {
        assert(t.drop_last() =~= s.drop_last());
        assert(t.last() == e);
    } else {
        assert(keys_distinct(s.drop_last()));
        assert(s.drop_last()[i] == s[i]);
        lemma_map_of_update(s.drop_last(), i, e);
        assert(t.drop_last() =~= s.drop_last().update(i, e));
        assert(t.last() == s.last());
        assert(s[i].0@ != s.last().0@);
    }
}

impl LedgerStore {
    /// Well-formed: no account occurs under two entries.
    pub closed spec fn wf(&self) -> bool {
        keys_distinct(self.entries@)
    }

    /// An empty store, holding no account.
    pub fn new() -> (s: LedgerStore)
        ensures
            s.wf(),
            s@ =~= Map::<Seq<char>, Info>::empty(),
    {
        LedgerStore { entries: Vec::new() }
    }

    fn find(&self, account_id: &String) -> (r: Option<usize>)
        ensures
            match r {
                Some(i) => i < self.entries@.len() && self.entries@[i as int].0@ == account_id@,
                None => forall|i: int|
                    0 <= i < self.entries@.len() ==> self.entries@[i].0@ != account_id@,
            },
    {
        let n = self.entries.len();
        let mut i: usize = 0;
        while i < n
            invariant
                n == self.entries@.len(),
                i <= n,
                forall|j: int| 0 <= j < i ==> self.entries@[j].0@ != account_id@,
            decreases n - i,
        {
            if self.entries[i].0.eq(account_id) {
                return Some(i);
            }
            i += 1;
        }
        None
    }

    /// Retrieves the record stored for `account_id`, or `None` when the
    /// account has never been stored.
    pub fn get(&self, account_id: &String) -> (r: Option<Info>)
        requires
            self.wf(),
        ensures
            r == if self@.contains_key(account_id@) {
                Some(self@[account_id@])
            } else {
                None::<Info>
            },
    {
        match self.find(account_id) {
            Some(i) => {
                proof {
                    lemma_map_of_found(self.entries@, i as int);
                }
                Some(self.entries[i].1)
            },
            None => {
                proof {
                    lemma_map_of_absent(self.entries@, account_id@);
                }
                None
            },
        }
    }

    /// Stores `info` under `account_id`, overwriting any previous record.
    pub fn put(&mut self, account_id: &String, info: Info)
        requires
            old(self).wf(),
        ensures
            final(self).wf(),
            final(self)@ =~= old(self)@.insert(account_id@, info),
    {
        match self.find(account_id) {
            Some(i) => {
                let e = (account_id.clone(), info);
                proof {
                    lemma_map_of_update(self.entries@, i as int, e);
                }
                self.entries.set(i, e);
                assert(keys_distinct(self.entries@));
            },
            None => {
                let ghost s = self.entries@;
                let e = (account_id.clone(), info);
                self.entries.push(e);
                proof {
                    assert(self.entries@.drop_last() =~= s);
                    assert(self.entries@.last() == e);
                    assert(keys_distinct(self.entries@));
                }
            },
        }
    }
}

} // verus!
