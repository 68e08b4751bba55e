//! Sets of channel ids: the process-wide registry and the set that each
//! discovery connection has contributed.

use vstd::prelude::*;

use vstd::utf8::encode_utf8;

use crate::ChannelId;

verus! {

broadcast use vstd::utf8::encode_utf8_decode_utf8;

/// `a` comes strictly before `b` in lexicographic byte order.
pub open spec fn bytes_lt(a: Seq<u8>, b: Seq<u8>) -> bool
    decreases a.len(),
{
    if b.len() == 0 {
        false
    } else if a.len() == 0 {
        true
    } else if a[0] != b[0] {
        a[0] < b[0]
    } else {
        bytes_lt(a.drop_first(), b.drop_first())
    }
}

/// Name `a` comes strictly before name `b` in the order in which `String`s
/// compare: by their UTF-8 bytes.
pub open spec fn name_lt(a: Seq<char>, b: Seq<char>) -> bool {
    bytes_lt(encode_utf8(a), encode_utf8(b))
}

/// The names of `ids` strictly increase.
pub open spec fn ascending_ids(ids: Seq<ChannelId>) -> bool {
    forall|i: int, j: int| 0 <= i < j < ids.len() ==> name_lt(#[trigger] ids[i]@, #[trigger] ids[j]@)
}

proof fn lemma_bytes_lt_irreflexive(a: Seq<u8>)
    ensures
        !bytes_lt(a, a),
    decreases a.len(),
{
    if a.len() > 0 {
        lemma_bytes_lt_irreflexive(a.drop_first());
    }
}

proof fn lemma_bytes_lt_total(a: Seq<u8>, b: Seq<u8>)
    requires
        a != b,
    ensures
        bytes_lt(a, b) || bytes_lt(b, a),
    decreases a.len(),
{
    if a.len() == 0 {
        assert(b.len() != 0 || a =~= b);
    } else if b.len() == 0 {
    } else if a[0] == b[0] {
        if a.drop_first() == b.drop_first() {
            assert(a =~= seq![a[0]] + a.drop_first());
            assert(b =~= seq![b[0]] + b.drop_first());
        }
        lemma_bytes_lt_total(a.drop_first(), b.drop_first());
    }
}

proof fn lemma_bytes_lt_transitive(a: Seq<u8>, b: Seq<u8>, c: Seq<u8>)
    requires
        bytes_lt(a, b),
        bytes_lt(b, c),
    ensures
        bytes_lt(a, c),
    decreases a.len(),
{
    if a.len() > 0 && b.len() > 0 && c.len() > 0 && a[0] == b[0] && b[0] == c[0] {
        lemma_bytes_lt_transitive(a.drop_first(), b.drop_first(), c.drop_first());
    }
}

proof fn lemma_name_lt_total(a: Seq<char>, b: Seq<char>)
    requires
        a != b,
    ensures
        name_lt(a, b) || name_lt(b, a),
{
    if encode_utf8(a) == encode_utf8(b) {
        vstd::utf8::encode_utf8_decode_utf8(a);
        vstd::utf8::encode_utf8_decode_utf8(b);
        assert(a == b);
    }
    lemma_bytes_lt_total(encode_utf8(a), encode_utf8(b));
}

proof fn lemma_ascending_distinct(ids: Seq<ChannelId>)
    requires
        ascending_ids(ids),
    ensures
        distinct_ids(ids),
{
    assert forall|i: int, j: int| 0 <= i < ids.len() && 0 <= j < ids.len() && i != j implies ids[i]@
        != ids[j]@ by {
        lemma_bytes_lt_irreflexive(encode_utf8(ids[i]@));
        if i < j {
            assert(name_lt(ids[i]@, ids[j]@));
        } else {
            assert(name_lt(ids[j]@, ids[i]@));
        }
    }
}

/// Whether name `a` comes strictly before name `b`.
fn name_less(a: &String, b: &String) -> (r: bool)
    ensures
        r == name_lt(a@, b@),
{
    let x = a.as_str().as_bytes();
    let y = b.as_str().as_bytes();
    let mut i: usize = 0;
    assert(x@.skip(0) =~= x@);
    assert(y@.skip(0) =~= y@);
    while i < x.len() && i < y.len()
        invariant
            x@ == encode_utf8(a@),
            y@ == encode_utf8(b@),
            i <= x@.len(),
            i <= y@.len(),
            bytes_lt(x@, y@) == bytes_lt(x@.skip(i as int), y@.skip(i as int)),
        decreases x@.len() - i,
    {
        if x[i] != y[i] {
            return x[i] < y[i];
        }
        assert(x@.skip(i as int).drop_first() =~= x@.skip(i as int + 1));
        assert(y@.skip(i as int).drop_first() =~= y@.skip(i as int + 1));
        i = i + 1;
    }
    i < y.len()
}

/// The names held by a sequence of channel ids.
pub open spec fn id_set(ids: Seq<ChannelId>) -> Set<Seq<char>> {
    Set::new(|c: Seq<char>| exists|i: int| 0 <= i < ids.len() && ids[i]@ == c)
}

/// No name occurs twice in `ids`.
pub open spec fn distinct_ids(ids: Seq<ChannelId>) -> bool {
    forall|i: int, j: int| 0 <= i < ids.len() && 0 <= j < ids.len() && i != j ==> ids[i]@ != ids[j]@
}

/// A set of channel ids, kept as a vector in ascending order of names, so
/// that it is walked in the order of a `BTreeSet<String>`. (vstd's
/// `BTreeSet` specification holds only for key types that declare their
/// comparison, which `String` does not, so nothing could be proved through
/// one.)
pub struct ChannelSet {
    ids: Vec<ChannelId>,
}

impl View for ChannelSet {
    type V = Set<Seq<char>>;

    closed spec fn view(&self) -> Set<Seq<char>> {
        id_set(self.ids@)
    }
}

proof fn lemma_id_set_push(ids: Seq<ChannelId>, id: ChannelId)
    ensures
        id_set(ids.push(id)) == id_set(ids).insert(id@),
{
    let s = ids.push(id);
    assert forall|c: Seq<char>| id_set(s).contains(c) <==> id_set(ids).insert(id@).contains(c) by {
        if id_set(ids).contains(c) {
            let i = choose|i: int| 0 <= i < ids.len() && ids[i]@ == c;
            assert(s[i] == ids[i]);
        }
        if c == id@ {
            assert(s[ids.len() as int] == id);
        }
        if id_set(s).contains(c) && c != id@ {
            let i = choose|i: int| 0 <= i < s.len() && s[i]@ == c;
            assert(i < ids.len());
            assert(ids[i] == s[i]);
        }
    }
    assert(id_set(s) =~= id_set(ids).insert(id@));
}

proof fn lemma_id_set_remove(ids: Seq<ChannelId>, k: int)
    requires
        0 <= k < ids.len(),
        distinct_ids(ids),
    ensures
        id_set(ids.remove(k)) == id_set(ids).remove(ids[k]@),
        distinct_ids(ids.remove(k)),
{
    let s = ids.remove(k);
    assert forall|c: Seq<char>| id_set(s).contains(c) <==> id_set(ids).remove(ids[k]@).contains(c) by {
        if id_set(s).contains(c) {
            let i = choose|i: int| 0 <= i < s.len() && s[i]@ == c;
            if i < k {
                assert(s[i] == ids[i]);
            } else {
                assert(s[i] == ids[i + 1]);
            }
        }
        if id_set(ids).remove(ids[k]@).contains(c) {
            let i = choose|i: int| 0 <= i < ids.len() && ids[i]@ == c;
            assert(i != k);
            if i < k {
                assert(s[i] == ids[i]);
            } else {
                assert(s[i - 1] == ids[i]);
            }
        }
    }
    assert(id_set(s) =~= id_set(ids).remove(ids[k]@));
    assert forall|i: int, j: int| 0 <= i < s.len() && 0 <= j < s.len() && i != j implies s[i]@ != s[j]@ by {
        let a = if i < k { i } else { i + 1 };
        let b = if j < k { j } else { j + 1 };
        assert(s[i] == ids[a]);
        assert(s[j] == ids[b]);
    }
}

proof fn lemma_insert_ascending(ids: Seq<ChannelId>, i: int, id: ChannelId)
    requires
        ascending_ids(ids),
        0 <= i <= ids.len(),
        forall|j: int| 0 <= j < i ==> name_lt(#[trigger] ids[j]@, id@),
        forall|k: int| i <= k < ids.len() ==> name_lt(id@, #[trigger] ids[k]@),
    ensures
        ascending_ids(ids.insert(i, id)),
        id_set(ids.insert(i, id)) == id_set(ids).insert(id@),
{
    let n = ids.insert(i, id);
    assert forall|a: int, b: int| 0 <= a < b < n.len() implies name_lt(#[trigger] n[a]@, #[trigger] n[b]@) by {
        if b < i {
            assert(n[a] == ids[a] && n[b] == ids[b]);
        } else if b == i {
            assert(n[a] == ids[a] && n[b] == id);
        } else if a < i {
            assert(n[a] == ids[a] && n[b] == ids[b - 1]);
            assert(name_lt(ids[a]@, id@));
            assert(name_lt(id@, ids[b - 1]@));
            lemma_bytes_lt_transitive(encode_utf8(ids[a]@), encode_utf8(id@), encode_utf8(ids[b - 1]@));
        } else if a == i {
            assert(n[a] == id && n[b] == ids[b - 1]);
        } else {
            assert(n[a] == ids[a - 1] && n[b] == ids[b - 1]);
        }
    }
    assert forall|c: Seq<char>| id_set(n).contains(c) <==> id_set(ids).insert(id@).contains(c) by {
        if id_set(n).contains(c) {
            let a = choose|a: int| 0 <= a < n.len() && n[a]@ == c;
            if a < i {
                assert(n[a] == ids[a]);
            } else if a > i {
                assert(n[a] == ids[a - 1]);
            }
        }
        if id_set(ids).contains(c) {
            let a = choose|a: int| 0 <= a < ids.len() && ids[a]@ == c;
            if a < i {
                assert(n[a] == ids[a]);
            } else {
                assert(n[a + 1] == ids[a]);
            }
        }
        if c == id@ {
            assert(n[i] == id);
        }
    }
    assert(id_set(n) =~= id_set(ids).insert(id@));
}

proof fn lemma_remove_ascending(ids: Seq<ChannelId>, k: int)
    requires
        ascending_ids(ids),
        0 <= k < ids.len(),
    ensures
        ascending_ids(ids.remove(k)),
{
    let n = ids.remove(k);
    assert forall|a: int, b: int| 0 <= a < b < n.len() implies name_lt(#[trigger] n[a]@, #[trigger] n[b]@) by {
        let a2 = if a < k { a } else { a + 1 };
        let b2 = if b < k { b } else { b + 1 };
        assert(n[a] == ids[a2] && n[b] == ids[b2]);
    }
}

impl ChannelSet {
    /// The set holds its names in ascending order, so none twice.
    pub closed spec fn wf(&self) -> bool {
        ascending_ids(self.ids@)
    }

    /// An empty set.
    pub fn new() -> (r: ChannelSet)
        ensures
            r.wf(),
            r@ == Set::<Seq<char>>::empty(),
    {
        let r = ChannelSet { ids: Vec::new() };
        assert(r@ =~= Set::<Seq<char>>::empty());
        r
    }

    /// Whether `id` is in the set.
    pub fn contains(&self, id: &ChannelId) -> (r: bool)
        ensures
            r == self@.contains(id@),
    {
        let mut i: usize = 0;
        while i < self.ids.len()
            invariant
                0 <= i <= self.ids@.len(),
                forall|j: int| 0 <= j < i ==> self.ids@[j]@ != id@,
            decreases self.ids@.len() - i,
        {
            if self.ids[i] == *id {
                return true;
            }
            i = i + 1;
        }
        false
    }

    /// Adds `id` in its place in ascending order; a name already present is
    /// not added twice.
    pub fn insert(&mut self, id: ChannelId)
        requires
            old(self).wf(),
        ensures
            final(self).wf(),
            final(self)@ == old(self)@.insert(id@),
    {
        if self.contains(&id) {
            assert(self@.insert(id@) =~= self@);
            return;
        }
        let mut i: usize = 0;
        let mut searching = true;
        while searching && i < self.ids.len()
            invariant
                0 <= i <= self.ids@.len(),
                self.ids@ == old(self).ids@,
                self.wf(),
                forall|j: int| 0 <= j < i ==> name_lt(#[trigger] self.ids@[j]@, id@),
                !searching ==> i < self.ids@.len() && !name_lt(self.ids@[i as int]@, id@),
            decreases self.ids@.len() - i + (if searching { 1int } else { 0int }),
        {
            if name_less(&self.ids[i], &id) {
                i = i + 1;
            } else {
                searching = false;
            }
        }
        proof {
            let ids = self.ids@;
            assert forall|k: int| i <= k < ids.len() implies name_lt(id@, #[trigger] ids[k]@) by {
                assert(ids[i as int]@ != id@) by {
                    assert(id_set(ids).contains(ids[i as int]@));
                }
                lemma_name_lt_total(ids[i as int]@, id@);
                if k > i {
                    assert(name_lt(ids[i as int]@, ids[k]@));
                    lemma_bytes_lt_transitive(encode_utf8(id@), encode_utf8(ids[i as int]@), encode_utf8(ids[k]@));
                }
            }
            lemma_insert_ascending(ids, i as int, id);
        }
        self.ids.insert(i, id);
    }

    /// Adds every id of `ids`.
    pub fn insert_all(&mut self, ids: &Vec<ChannelId>)
        requires
            old(self).wf(),
        ensures
            final(self).wf(),
            final(self)@ == old(self)@.union(id_set(ids@)),
    {
        let ghost start = self@;
        let mut i: usize = 0;
        while i < ids.len()
            invariant
                0 <= i <= ids@.len(),
                self.wf(),
                self@ == start.union(id_set(ids@.take(i as int))),
            decreases ids@.len() - i,
        {
            proof {
                assert(ids@.take(i as int + 1) =~= ids@.take(i as int).push(ids@[i as int]));
                lemma_id_set_push(ids@.take(i as int), ids@[i as int]);
            }
            self.insert(ids[i].clone());
            i = i + 1;
            proof {
                assert(self@ =~= start.union(id_set(ids@.take(i as int))));
            }
        }
        assert(ids@.take(i as int) =~= ids@);
    }

    /// Removes `id`, if present.
    pub fn remove(&mut self, id: &ChannelId)
        requires
            old(self).wf(),
        ensures
            final(self).wf(),
            final(self)@ == old(self)@.remove(id@),
    {
        let mut i: usize = 0;
        while i < self.ids.len()
            invariant
                0 <= i <= self.ids@.len(),
                self.ids@ == old(self).ids@,
                self.wf(),
                forall|j: int| 0 <= j < i ==> self.ids@[j]@ != id@,
            decreases self.ids@.len() - i,
        {
            if self.ids[i] == *id {
                proof {
                    lemma_ascending_distinct(self.ids@);
                    lemma_id_set_remove(self.ids@, i as int);
                    lemma_remove_ascending(self.ids@, i as int);
                }
                self.ids.remove(i);
                return;
            }
            i = i + 1;
        }
        assert(self@.remove(id@) =~= self@);
    }

    /// Adds every id of `other` and returns the whole resulting set, as one step.
    pub fn merge(&mut self, other: &ChannelSet) -> (snapshot: Vec<ChannelId>)
        requires
            old(self).wf(),
        ensures
            final(self).wf(),
            final(self)@ == old(self)@.union(other@),
            id_set(snapshot@) == final(self)@,
            ascending_ids(snapshot@),
            distinct_ids(snapshot@),
    {
        self.insert_all(&other.ids);
        self.to_vec()
    }

    /// Removes every id of `other`, and nothing else.
    pub fn remove_all(&mut self, other: &ChannelSet)
        requires
            old(self).wf(),
        ensures
            final(self).wf(),
            final(self)@ == old(self)@.difference(other@),
    {
        let ghost start = self@;
        let mut i: usize = 0;
        while i < other.ids.len()
            invariant
                0 <= i <= other.ids@.len(),
                self.wf(),
                self@ == start.difference(id_set(other.ids@.take(i as int))),
            decreases other.ids@.len() - i,
        {
            proof {
                assert(other.ids@.take(i as int + 1) =~= other.ids@.take(i as int).push(other.ids@[i as int]));
                lemma_id_set_push(other.ids@.take(i as int), other.ids@[i as int]);
            }
            self.remove(&other.ids[i]);
            i = i + 1;
            proof {
                assert(self@ =~= start.difference(id_set(other.ids@.take(i as int))));
            }
        }
        assert(other.ids@.take(i as int) =~= other.ids@);
    }

    /// The ids of the set, each once, in ascending order.
    pub fn to_vec(&self) -> (r: Vec<ChannelId>)
        ensures
            id_set(r@) == self@,
            self.wf() ==> ascending_ids(r@),
            self.wf() ==> distinct_ids(r@),
    {
        let r = self.ids.clone();
        assert(r@ =~= self.ids@);
        proof {
            if self.wf() {
                lemma_ascending_distinct(r@);
            }
        }
        r
    }
}

} // verus!
