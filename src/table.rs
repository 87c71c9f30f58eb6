//! A table from peer to endpoints, kept in a vector with one entry per peer.
use vstd::prelude::*;

verus! {

/// One entry of a table, as text.
pub type EntryView = (Seq<char>, Seq<Seq<char>>);

/// The text of each string.
pub open spec fn texts(v: Seq<String>) -> Seq<Seq<char>> {
    v.map_values(|s: String| s@)
}

pub open spec fn entry_view(e: (String, Vec<String>)) -> EntryView {
    (e.0@, texts(e.1@))
}

/// The map that a list of entries stands for; a later entry overrides an earlier one.
pub open spec fn map_of(s: Seq<EntryView>) -> Map<Seq<char>, Seq<Seq<char>>>
    decreases s.len(),
{
    if s.len() == 0 {
        Map::empty()
    } else {
        map_of(s.drop_last()).insert(s.last().0, s.last().1)
    }
}

/// No two entries share a peer.
pub open spec fn keys_unique(s: Seq<EntryView>) -> bool {
    forall|i: int, j: int| 0 <= i < j < s.len() ==> s[i].0 != s[j].0
}

proof fn lemma_absent_key(s: Seq<EntryView>, k: Seq<char>)
    requires
        forall|i: int| 0 <= i < s.len() ==> s[i].0 != k,
    ensures
        !map_of(s).contains_key(k),
    decreases s.len(),
{
    if s.len() > 0 {
        lemma_absent_key(s.drop_last(), k);
    }
}

proof fn lemma_present_key(s: Seq<EntryView>, i: int)
    requires
        keys_unique(s),
        0 <= i < s.len(),
    ensures
        map_of(s).contains_key(s[i].0),
        map_of(s)[s[i].0] == s[i].1,
    decreases s.len(),
{
    if i < s.len() - 1 {
        lemma_present_key(s.drop_last(), i);
    }
}

proof fn lemma_remove_at(s: Seq<EntryView>, i: int)
    requires
        keys_unique(s),
        0 <= i < s.len(),
    ensures
        map_of(s.remove(i)) == map_of(s).remove(s[i].0),
        keys_unique(s.remove(i)),
    decreases s.len(),
{
    let k = s[i].0;
    if i == s.len() - 1 {
        assert(s.remove(i) =~= s.drop_last());
        lemma_absent_key(s.drop_last(), k);
        assert(map_of(s).remove(k) =~= map_of(s.drop_last()));
    } else {
        let t = s.drop_last();
        lemma_remove_at(t, i);
        assert(s.remove(i).drop_last() =~= t.remove(i));
        assert(s.remove(i).last() == s.last());
        assert(s.last().0 != k);
        assert(map_of(s.remove(i)) =~= map_of(s).remove(k));
    }
}

/// A table from peer to endpoints.
pub struct PeerTable {
    entries: Vec<(String, Vec<String>)>,
}

impl PeerTable {
    pub closed spec fn entry_views(&self) -> Seq<EntryView> {
        self.entries@.map_values(|e: (String, Vec<String>)| entry_view(e))
    }

    /// The table's contents: each peer's endpoints.
    pub closed spec fn view(&self) -> Map<Seq<char>, Seq<Seq<char>>> {
        map_of(self.entry_views())
    }

    /// One entry per peer.
    pub closed spec fn wf(&self) -> bool {
        keys_unique(self.entry_views())
    }

    pub fn new() -> (r: Self)
        ensures
            r.wf(),
            r.view() == Map::<Seq<char>, Seq<Seq<char>>>::empty(),
    {
        let r = PeerTable { entries: Vec::new() };
        assert(r.entry_views() =~= Seq::<EntryView>::empty());
        r
    }

    pub fn len(&self) -> (r: usize)
        requires
            self.wf(),
        ensures
            r == self.view().dom().len(),
    {
        proof {
            self.lemma_dom_len();
        }
        self.entries.len()
    }

    proof fn lemma_dom_len(&self)
        requires
            self.wf(),
        ensures
            self.view().dom().len() == self.entries@.len(),
            self.view().dom().finite(),
    {
        lemma_map_len(self.entry_views());
    }

    /// Where `peer` stands in the entries, if anywhere.
    fn find(&self, peer: &String) -> (r: Option<usize>)
        requires
            self.wf(),
        ensures
            match r {
                Some(i) => i < self.entries@.len() && self.entry_views()[i as int].0 == peer@,
                None => !self.view().contains_key(peer@),
            },
    {
        let mut i: usize = 0;
        while i < self.entries.len()
            invariant
                i <= self.entries@.len(),
                forall|j: int| 0 <= j < i ==> self.entry_views()[j].0 != peer@,
            decreases self.entries@.len() - i,
        {
            if self.entries[i].0 == *peer {
                return Some(i);
            }
            i = i + 1;
        }
        proof {
            lemma_absent_key(self.entry_views(), peer@);
        }
        None
    }

    /// The endpoints recorded for `peer`.
    pub fn get(&self, peer: &String) -> (r: Option<&Vec<String>>)
        requires
            self.wf(),
        ensures
            r is Some == self.view().contains_key(peer@),
            r matches Some(v) ==> texts(v@) == self.view()[peer@],
    {
        match self.find(peer) {
            Some(i) => {
                proof {
                    lemma_present_key(self.entry_views(), i as int);
                }
                Some(&self.entries[i].1)
            },
            None => None,
        }
    }

    /// Takes the entry of `peer` out of the table.
    fn take(&mut self, peer: &String) -> (r: Option<Vec<String>>)
        requires
            old(self).wf(),
        ensures
            final(self).wf(),
            final(self).view() == old(self).view().remove(peer@),
            r is Some == old(self).view().contains_key(peer@),
            r matches Some(v) ==> texts(v@) == old(self).view()[peer@],
    {
        match self.find(peer) {
            Some(i) => {
                let ghost s = self.entry_views();
                proof {
                    lemma_present_key(s, i as int);
                    lemma_remove_at(s, i as int);
                }
                let (_, v) = self.entries.remove(i);
                assert(self.entry_views() =~= s.remove(i as int));
                Some(v)
            },
            None => {
                assert(self.view() =~= old(self).view().remove(peer@));
                None
            },
        }
    }

    /// Appends an entry for a peer that has none.
    fn push_new(&mut self, peer: String, endpoints: Vec<String>)
        requires
            old(self).wf(),
            !old(self).view().contains_key(peer@),
        ensures
            final(self).wf(),
            final(self).view() == old(self).view().insert(peer@, texts(endpoints@)),
    {
        let ghost s = self.entry_views();
        proof {
            assert forall|i: int| 0 <= i < s.len() implies s[i].0 != peer@ by {
                if s[i].0 == peer@ {
                    lemma_present_key(s, i);
                }
            }
        }
        let ghost added = (peer@, texts(endpoints@));
        self.entries.push((peer, endpoints));
        assert(self.entry_views() =~= s.push(added));
        assert(s.push(added).drop_last() =~= s);
    }

    /// Records `endpoints` for `peer`, replacing what was there.
    pub fn insert(&mut self, peer: String, endpoints: Vec<String>)
        requires
            old(self).wf(),
        ensures
            final(self).wf(),
            final(self).view() == old(self).view().insert(peer@, texts(endpoints@)),
    {
        let _ = self.take(&peer);
        self.push_new(peer, endpoints);
        assert(self.view() =~= old(self).view().insert(peer@, texts(endpoints@)));
    }

    /// Forgets `peer`.
    pub fn remove(&mut self, peer: &String)
        requires
            old(self).wf(),
        ensures
            final(self).wf(),
            final(self).view() == old(self).view().remove(peer@),
    {
        let _ = self.take(peer);
    }

    /// Adds `endpoint` to the endpoints of `peer` unless it is there already.
    pub fn add_endpoint(&mut self, peer: String, endpoint: String)
        requires
            old(self).wf(),
        ensures
            final(self).wf(),
            final(self).view() == with_endpoint(old(self).view(), peer@, endpoint@),
    {
        let ghost e = endpoint@;
        let eps = match self.take(&peer) {
            Some(mut v) => {
                if !contains_text(&v, &endpoint) {
                    v.push(endpoint);
                    assert(texts(v@) =~= old(self).view()[peer@].push(e));
                }
                v
            },
            None => {
                let v = vec![endpoint];
                assert(texts(v@) =~= seq![e]);
                v
            },
        };
        self.push_new(peer, eps);
        assert(self.view() =~= with_endpoint(old(self).view(), peer@, e));
    }

    /// The entries, for introspection.
    pub fn entries(&self) -> (r: &Vec<(String, Vec<String>)>)
        ensures
            r@.map_values(|e: (String, Vec<String>)| entry_view(e)) == self.entry_views(),
    {
        &self.entries
    }
}

proof fn lemma_map_len(s: Seq<EntryView>)
    requires
        keys_unique(s),
    ensures
        map_of(s).dom().finite(),
        map_of(s).dom().len() == s.len(),
    decreases s.len(),
{
    if s.len() > 0 {
        let t = s.drop_last();
        lemma_map_len(t);
        lemma_absent_key(t, s.last().0);
    }
}

/// The endpoints of `peer` with `endpoint` added; the list keeps set semantics.
pub open spec fn with_endpoint(
    m: Map<Seq<char>, Seq<Seq<char>>>,
    peer: Seq<char>,
    endpoint: Seq<char>,
) -> Map<Seq<char>, Seq<Seq<char>>> {
    if m.contains_key(peer) {
        if m[peer].contains(endpoint) {
            m
        } else {
            m.insert(peer, m[peer].push(endpoint))
        }
    } else {
        m.insert(peer, seq![endpoint])
    }
}

/// Whether `v` holds a string equal to `s`.
pub fn contains_text(v: &Vec<String>, s: &String) -> (r: bool)
    ensures
        r == texts(v@).contains(s@),
{
    let mut i: usize = 0;
    while i < v.len()
        invariant
            i <= v@.len(),
            forall|j: int| 0 <= j < i ==> texts(v@)[j] != s@,
        decreases v@.len() - i,
    {
        if v[i] == *s {
            assert(texts(v@)[i as int] == s@);
            return true;
        }
        i = i + 1;
    }
    false
}

/// A copy of each string, in order.
pub fn copy_texts(v: &Vec<String>) -> (r: Vec<String>)
    ensures
        texts(r@) == texts(v@),
{
    let mut r: Vec<String> = Vec::new();
    let mut i: usize = 0;
    while i < v.len()
        invariant
            i <= v@.len(),
            texts(r@) == texts(v@).subrange(0, i as int),
        decreases v@.len() - i,
    {
        let c = v[i].clone();
        let ghost before = r@;
        r.push(c);
        assert(r@ == before.push(v@[i as int]));
        assert(texts(r@) =~= texts(before).push(v@[i as int]@));
        assert(texts(v@).subrange(0, i + 1) =~= texts(v@).subrange(0, i as int).push(
            v@[i as int]@,
        ));
        i = i + 1;
    }
    assert(texts(v@).subrange(0, i as int) =~= texts(v@));
    r
}

} // verus!
