use vstd::prelude::*;

use crate::text::str_eq;

verus! {

/// User-assigned display names for sessions, keyed by session identifier.
/// The store behaves as a finite map from identifier to name; loading and
/// saving it are the surrounding shell's business, which feeds entries in
/// through `set` and reads them back through `entries`.
pub struct CustomNames {
    pairs: Vec<(String, String)>,
}

/// No two entries carry the same key.
pub open spec fn keys_unique(s: Seq<(String, String)>) -> bool {
    forall|i: int, j: int| 0 <= i < j < s.len() ==> (#[trigger] s[i].0)@ != (#[trigger] s[j].0)@
}

/// The finite map a list of entries stands for; on duplicate keys the later
/// entry would win, though the store never holds duplicates.
pub open spec fn entries_map(s: Seq<(String, String)>) -> Map<Seq<char>, Seq<char>>
    decreases s.len(),
{
    if s.len() == 0 {
        Map::empty()
    } else {
        entries_map(s.drop_last()).insert(s.last().0@, s.last().1@)
    }
}

proof fn lemma_keys_unique_drop_last(s: Seq<(String, String)>)
    requires
        keys_unique(s),
        s.len() > 0,
    ensures
        keys_unique(s.drop_last()),
{
    assert forall|i: int, j: int|
        0 <= i < j < s.drop_last().len() implies (#[trigger] s.drop_last()[i].0)@ != (#[trigger] s
        .drop_last()[j].0)@ by {
        assert(s.drop_last()[i] == s[i]);
        assert(s.drop_last()[j] == s[j]);
    }
}

proof fn lemma_entries_map_props(s: Seq<(String, String)>)
    requires
        keys_unique(s),
    ensures
        forall|k: Seq<char>|
            entries_map(s).contains_key(k) <==> (exists|i: int|
                0 <= i < s.len() && (#[trigger] s[i].0)@ == k),
        forall|i: int| 0 <= i < s.len() ==> entries_map(s)[(#[trigger] s[i].0)@] == s[i].1@,
    decreases s.len(),
{
    if s.len() > 0 {
        lemma_keys_unique_drop_last(s);
        lemma_entries_map_props(s.drop_last());
        assert(entries_map(s) == entries_map(s.drop_last()).insert(s.last().0@, s.last().1@));
        assert(s.last() == s[s.len() - 1]);
        assert forall|k: Seq<char>|
            entries_map(s).contains_key(k) implies (exists|i: int|
            0 <= i < s.len() && (#[trigger] s[i].0)@ == k) by {
            if k == s.last().0@ {
                assert(s[s.len() - 1].0@ == k);
            } else {
                assert(entries_map(s.drop_last()).contains_key(k));
                let i = choose|i: int|
                    0 <= i < s.drop_last().len() && (#[trigger] s.drop_last()[i].0)@ == k;
                assert(s.drop_last()[i] == s[i]);
                assert(s[i].0@ == k);
            }
        }
        assert forall|k: Seq<char>|
            (exists|i: int| 0 <= i < s.len() && (#[trigger] s[i].0)@ == k) implies entries_map(
            s,
        ).contains_key(k) by {
            let i = choose|i: int| 0 <= i < s.len() && (#[trigger] s[i].0)@ == k;
            if i < s.len() - 1 {
                assert(s.drop_last()[i].0@ == k);
            }
        }
        assert forall|i: int|
            0 <= i < s.len() implies entries_map(s)[(#[trigger] s[i].0)@] == s[i].1@ by {
            if i < s.len() - 1 {
                assert(s.drop_last()[i] == s[i]);
                assert(s[i].0@ != s.last().0@);
            }
        }
    }
}

proof fn lemma_entries_map_update(s: Seq<(String, String)>, i: int, e: (String, String))
    requires
        keys_unique(s),
        0 <= i < s.len(),
        s[i].0@ == e.0@,
    ensures
        entries_map(s.update(i, e)) == entries_map(s).insert(e.0@, e.1@),
        keys_unique(s.update(i, e)),
    decreases s.len(),
{
    let s2 = s.update(i, e);
    assert forall|p: int, q: int|
        0 <= p < q < s2.len() implies (#[trigger] s2[p].0)@ != (#[trigger] s2[q].0)@ by {
        assert(s[p].0@ != s[q].0@);
    }
    if i == s.len() - 1 {
        assert(s2.drop_last() =~= s.drop_last());
        assert(s2.last() == e);
        assert(s.last().0@ == e.0@);
        assert(entries_map(s2) =~= entries_map(s).insert(e.0@, e.1@));
    } else {
        assert(s2.drop_last() =~= s.drop_last().update(i, e));
        assert(s2.last() == s.last());
        lemma_keys_unique_drop_last(s);
        assert(s.drop_last()[i] == s[i]);
        lemma_entries_map_update(s.drop_last(), i, e);
        assert(e.0@ != s.last().0@);
        assert(entries_map(s2) =~= entries_map(s).insert(e.0@, e.1@));
    }
}

proof fn lemma_entries_map_push(s: Seq<(String, String)>, e: (String, String))
    requires
        keys_unique(s),
        forall|j: int| 0 <= j < s.len() ==> (#[trigger] s[j].0)@ != e.0@,
    ensures
        entries_map(s.push(e)) == entries_map(s).insert(e.0@, e.1@),
        keys_unique(s.push(e)),
{
    let s2 = s.push(e);
    assert(s2.drop_last() =~= s);
    assert(s2.last() == e);
    assert forall|p: int, q: int|
        0 <= p < q < s2.len() implies (#[trigger] s2[p].0)@ != (#[trigger] s2[q].0)@ by {
        if q < s.len() {
            assert(s2[p] == s[p]);
            assert(s2[q] == s[q]);
        } else {
            assert(s2[p] == s[p]);
            assert(s2[q] == e);
        }
    }
}

fn find_key(pairs: &Vec<(String, String)>, key: &str) -> (r: Option<usize>)
    ensures
        match r {
            Some(i) => i < pairs@.len() && pairs@[i as int].0@ == key@,
            None => forall|j: int| 0 <= j < pairs@.len() ==> (#[trigger] pairs@[j].0)@ != key@,
        },
{
    let n: usize = pairs.len();
    let mut i: usize = 0;
    while i < n
        invariant
            i <= n,
            n == pairs@.len(),
            forall|j: int| 0 <= j < i ==> (#[trigger] pairs@[j].0)@ != key@,
        decreases n - i,
    {
        if str_eq(pairs[i].0.as_str(), key) {
            return Some(i);
        }
        i = i + 1;
    }
    None
}

impl View for CustomNames {
    type V = Map<Seq<char>, Seq<char>>;

    closed spec fn view(&self) -> Map<Seq<char>, Seq<char>> {
        entries_map(self.pairs@)
    }
}

impl CustomNames {
    #[verifier::type_invariant]
    spec fn wf(&self) -> bool {
        keys_unique(self.pairs@)
    }

    /// An empty store.
    pub fn new() -> (r: CustomNames)
        ensures
            r@ == Map::<Seq<char>, Seq<char>>::empty(),
    {
        CustomNames { pairs: Vec::new() }
    }

    /// The name stored for `session_id`, if any.
    pub fn get(&self, session_id: &str) -> (r: Option<&String>)
        ensures
            match r {
                Some(name) => self@.contains_key(session_id@) && name@ == self@[session_id@],
                None => !self@.contains_key(session_id@),
            },
    {
        proof {
            use_type_invariant(&*self);
            lemma_entries_map_props(self.pairs@);
        }
        match find_key(&self.pairs, session_id) {
            Some(i) => Some(&self.pairs[i].1),
            None => None,
        }
    }

    /// Stores `name` under `session_id`, replacing any earlier name.
    pub fn set(&mut self, session_id: String, name: String)
        ensures
            final(self)@ == old(self)@.insert(session_id@, name@),
    {
        proof {
            use_type_invariant(&*self);
        }
        let ghost old_pairs = self.pairs@;
        let mut pairs: Vec<(String, String)> = Vec::new();
        core::mem::swap(&mut pairs, &mut self.pairs);
        match find_key(&pairs, session_id.as_str()) {
            Some(i) => {
                proof {
                    lemma_entries_map_update(old_pairs, i as int, (session_id, name));
                }
                pairs[i] = (session_id, name);
            },
            None => {
                proof {
                    lemma_entries_map_push(old_pairs, (session_id, name));
                }
                pairs.push((session_id, name));
            },
        }
        core::mem::swap(&mut pairs, &mut self.pairs);
    }

    /// The stored entries, exactly the pairs of the map the store stands
    /// for; the surrounding shell reads them out to persist the store.
    pub fn entries(&self) -> (r: &Vec<(String, String)>)
        ensures
            forall|i: int|
                0 <= i < r@.len() ==> self@.contains_key((#[trigger] r@[i].0)@) && self@[r@[i].0@]
                    == r@[i].1@,
            forall|k: Seq<char>|
                self@.contains_key(k) ==> (exists|i: int|
                    0 <= i < r@.len() && (#[trigger] r@[i].0)@ == k),
    {
        proof {
            use_type_invariant(&*self);
            lemma_entries_map_props(self.pairs@);
        }
        &self.pairs
    }
}

impl Default for CustomNames {
    /// An empty store.
    fn default() -> (r: Self)
        ensures
            r@ == Map::<Seq<char>, Seq<char>>::empty(),
    {
        CustomNames::new()
    }
}

} // verus!
