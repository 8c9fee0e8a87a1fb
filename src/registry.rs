//! The subscription registry: for each channel id, the connections subscribed
//! to it, in the order in which they joined.

use vstd::prelude::*;

verus! {

/// Whether two byte strings are equal, by a scan over their bytes.
pub fn same_bytes(a: &Vec<u8>, b: &Vec<u8>) -> (r: bool)
    ensures
        r == (a@ == b@),
{
    if a.len() != b.len() {
        return false;
    }
    let mut i: usize = 0;
    while i < a.len()
        invariant
            a@.len() == b@.len(),
            0 <= i <= a@.len(),
            forall|k: int| 0 <= k < i ==> a@[k] == b@[k],
        decreases a@.len() - i,
    {
        if a[i] != b[i] {
            return false;
        }
        i = i + 1;
    }
    assert(a@ =~= b@);
    true
}

/// The model of a registry: each channel present maps to its subscribers.
pub open spec fn registry_ok(m: Map<Seq<u8>, Seq<u64>>) -> bool {
    forall|c: Seq<u8>| #[trigger]
        m.contains_key(c) ==> m[c].len() > 0 && m[c].no_duplicates()
}

/// The subscribers of channel `c`; none where the channel has no entry.
pub open spec fn members_of(m: Map<Seq<u8>, Seq<u64>>, c: Seq<u8>) -> Seq<u64> {
    if m.contains_key(c) {
        m[c]
    } else {
        Seq::empty()
    }
}

/// `s` without any occurrence of `v`.
pub open spec fn without_value<A>(s: Seq<A>, v: A) -> Seq<A> {
    s.filter(|x: A| x != v)
}

/// `s` without the connection `id`.
pub open spec fn without_id(s: Seq<u64>, id: u64) -> Seq<u64> {
    without_value(s, id)
}

/// The registry after connection `id` joins channel `c`: appended to the
/// channel's subscribers unless it is one already.
pub open spec fn joined(m: Map<Seq<u8>, Seq<u64>>, c: Seq<u8>, id: u64) -> Map<
    Seq<u8>,
    Seq<u64>,
> {
    if members_of(m, c).contains(id) {
        m
    } else {
        m.insert(c, members_of(m, c).push(id))
    }
}

/// The registry after connection `id` leaves channel `c`: the entry loses that
/// connection, and goes away once it has no subscriber left.
pub open spec fn left(m: Map<Seq<u8>, Seq<u64>>, c: Seq<u8>, id: u64) -> Map<Seq<u8>, Seq<u64>> {
    if !m.contains_key(c) {
        m
    } else if without_id(m[c], id).len() == 0 {
        m.remove(c)
    } else {
        m.insert(c, without_id(m[c], id))
    }
}

/// The registry after connection `id` leaves each channel of `cs` in turn.
pub open spec fn left_all(m: Map<Seq<u8>, Seq<u64>>, cs: Seq<Seq<u8>>, id: u64) -> Map<
    Seq<u8>,
    Seq<u64>,
>
    decreases cs.len(),
{
    if cs.len() == 0 {
        m
    } else {
        left(left_all(m, cs.drop_last(), id), cs.last(), id)
    }
}

/// Taking a value out of a sequence without duplicates keeps it without
/// duplicates, and keeps every other value.
pub proof fn lemma_filter_no_duplicates<A>(s: Seq<A>, id: A)
    requires
        s.no_duplicates(),
    ensures
        without_value(s, id).no_duplicates(),
        without_value(s, id).len() <= s.len(),
        forall|x: A| #[trigger] without_value(s, id).contains(x) <==> (s.contains(x) && x != id),
    decreases s.len(),
{
    reveal(Seq::filter);
    if s.len() > 0 {
        let d = s.drop_last();
        let a = s.last();
        let g = without_value(d, id);
        let f = without_value(s, id);
        assert(d.no_duplicates());
        lemma_filter_no_duplicates(d, id);
        assert(f == if a != id {
            g.push(a)
        } else {
            g
        });
        assert forall|x: A| #[trigger] s.contains(x) <==> (d.contains(x) || x == a) by {
            if s.contains(x) {
                let k = choose|k: int| 0 <= k < s.len() && s[k] == x;
                if k < s.len() - 1 {
                    assert(d[k] == x);
                }
            }
            if d.contains(x) {
                let k = choose|k: int| 0 <= k < d.len() && d[k] == x;
                assert(s[k] == x);
            }
            if x == a {
                assert(s[s.len() - 1] == x);
            }
        }
        assert(!d.contains(a)) by {
            if d.contains(a) {
                let k = choose|k: int| 0 <= k < d.len() && d[k] == a;
                assert(s[k] == s[s.len() - 1]);
            }
        }
        if a != id {
            assert forall|x: A| #[trigger] f.contains(x) <==> (g.contains(x) || x == a) by {
                if f.contains(x) {
                    let k = choose|k: int| 0 <= k < f.len() && f[k] == x;
                    if k < f.len() - 1 {
                        assert(g[k] == x);
                    }
                }
                if g.contains(x) {
                    let k = choose|k: int| 0 <= k < g.len() && g[k] == x;
                    assert(f[k] == x);
                }
                if x == a {
                    assert(f[f.len() - 1] == x);
                }
            }
            assert forall|i: int, j: int|
                0 <= i < f.len() && 0 <= j < f.len() && i != j implies f[i] != f[j] by {
                if i < f.len() - 1 && j < f.len() - 1 {
                    assert(f[i] == g[i] && f[j] == g[j]);
                } else if i < f.len() - 1 {
                    assert(f[i] == g[i]);
                    assert(g.contains(f[i]));
                } else {
                    assert(f[j] == g[j]);
                    assert(g.contains(f[j]));
                }
            }
        }
    }
}

/// Taking out a value that a sequence does not hold changes nothing.
pub proof fn lemma_without_absent<A>(s: Seq<A>, v: A)
    requires
        !s.contains(v),
    ensures
        without_value(s, v) == s,
    decreases s.len(),
{
    reveal(Seq::filter);
    if s.len() > 0 {
        let d = s.drop_last();
        assert(!d.contains(v)) by {
            if d.contains(v) {
                let k = choose|k: int| 0 <= k < d.len() && d[k] == v;
                assert(s[k] == v);
            }
        }
        lemma_without_absent(d, v);
        assert(s[s.len() - 1] != v);
        assert(d.push(s.last()) =~= s);
    }
}

/// Taking a value out of a sequence that ends with it, and holds it nowhere
/// else, gives back the rest.
pub proof fn lemma_without_pushed<A>(s: Seq<A>, v: A)
    requires
        !s.contains(v),
    ensures
        without_value(s.push(v), v) == s,
{
    reveal(Seq::filter);
    assert(s.push(v).drop_last() =~= s);
    lemma_without_absent(s, v);
}

/// One channel's entry: the channel id and its subscribers.
pub struct ChannelEntry {
    channel: Vec<u8>,
    members: Vec<u64>,
}

/// The process-wide map from channel id to subscribed connections.
pub struct Registry {
    entries: Vec<ChannelEntry>,
}

spec fn entry_index(entries: Seq<ChannelEntry>, c: Seq<u8>) -> int {
    choose|i: int| 0 <= i < entries.len() && entries[i].channel@ == c
}

spec fn channels_unique(entries: Seq<ChannelEntry>) -> bool {
    forall|i: int, j: int|
        0 <= i < entries.len() && 0 <= j < entries.len() && i != j ==> entries[i].channel@
            != entries[j].channel@
}

spec fn model_of(entries: Seq<ChannelEntry>) -> Map<Seq<u8>, Seq<u64>> {
    Map::new(
        |c: Seq<u8>| exists|i: int| 0 <= i < entries.len() && entries[i].channel@ == c,
        |c: Seq<u8>| entries[entry_index(entries, c)].members@,
    )
}

proof fn lemma_model_at(entries: Seq<ChannelEntry>, i: int)
    requires
        channels_unique(entries),
        0 <= i < entries.len(),
    ensures
        model_of(entries).contains_key(entries[i].channel@),
        model_of(entries)[entries[i].channel@] == entries[i].members@,
{
    let c = entries[i].channel@;
    assert(0 <= i < entries.len() && entries[i].channel@ == c);
    let j = entry_index(entries, c);
    assert(j == i);
}

/// Replacing one entry by another for the same channel replaces that channel's
/// subscribers in the model.
proof fn lemma_model_set(before: Seq<ChannelEntry>, after: Seq<ChannelEntry>, i: int)
    requires
        channels_unique(before),
        0 <= i < before.len(),
        after.len() == before.len(),
        after[i].channel@ == before[i].channel@,
        forall|k: int| 0 <= k < before.len() && k != i ==> after[k] == before[k],
    ensures
        channels_unique(after),
        model_of(after) == model_of(before).insert(before[i].channel@, after[i].members@),
{
    let c0 = before[i].channel@;
    assert(channels_unique(after)) by {
        assert forall|a: int, b: int|
            0 <= a < after.len() && 0 <= b < after.len() && a != b implies after[a].channel@
            != after[b].channel@ by {
            assert(after[a].channel@ == before[a].channel@);
            assert(after[b].channel@ == before[b].channel@);
        }
    }
    let target = model_of(before).insert(c0, after[i].members@);
    assert forall|c: Seq<u8>| model_of(after).contains_key(c) == target.contains_key(c) by {
        if c == c0 {
            assert(after[i].channel@ == c);
        }
        if target.contains_key(c) && c != c0 {
            let k = choose|k: int| 0 <= k < before.len() && before[k].channel@ == c;
            assert(after[k].channel@ == c);
        }
        if model_of(after).contains_key(c) && c != c0 {
            let k = choose|k: int| 0 <= k < after.len() && after[k].channel@ == c;
            assert(before[k].channel@ == c);
        }
    }
    assert forall|c: Seq<u8>| #[trigger]
        model_of(after).contains_key(c) implies model_of(after)[c] == target[c] by {
        let k = choose|k: int| 0 <= k < after.len() && after[k].channel@ == c;
        lemma_model_at(after, k);
        if k != i {
            lemma_model_at(before, k);
        }
    }
    assert(model_of(after) =~= target);
}

/// Removing the entry at `i` removes its channel from the model.
proof fn lemma_model_remove(before: Seq<ChannelEntry>, i: int)
    requires
        channels_unique(before),
        0 <= i < before.len(),
    ensures
        channels_unique(before.remove(i)),
        model_of(before.remove(i)) == model_of(before).remove(before[i].channel@),
{
    let after = before.remove(i);
    let c0 = before[i].channel@;
    assert forall|k: int| 0 <= k < after.len() implies #[trigger] after[k] == if k < i {
        before[k]
    } else {
        before[k + 1]
    } by {}
    assert(channels_unique(after)) by {
        assert forall|a: int, b: int|
            0 <= a < after.len() && 0 <= b < after.len() && a != b implies after[a].channel@
            != after[b].channel@ by {
            let a2 = if a < i { a } else { a + 1 };
            let b2 = if b < i { b } else { b + 1 };
            assert(after[a] == before[a2] && after[b] == before[b2]);
        }
    }
    let target = model_of(before).remove(c0);
    assert forall|c: Seq<u8>| model_of(after).contains_key(c) == target.contains_key(c) by {
        if target.contains_key(c) {
            let k = choose|k: int| 0 <= k < before.len() && before[k].channel@ == c;
            assert(k != i);
            let k2 = if k < i { k } else { k - 1 };
            assert(after[k2].channel@ == c);
        }
        if model_of(after).contains_key(c) {
            let k = choose|k: int| 0 <= k < after.len() && after[k].channel@ == c;
            let k2 = if k < i { k } else { k + 1 };
            assert(before[k2].channel@ == c);
            assert(k2 != i);
        }
    }
    assert forall|c: Seq<u8>| #[trigger]
        model_of(after).contains_key(c) implies model_of(after)[c] == target[c] by {
        let k = choose|k: int| 0 <= k < after.len() && after[k].channel@ == c;
        lemma_model_at(after, k);
        let k2 = if k < i { k } else { k + 1 };
        assert(after[k] == before[k2]);
        lemma_model_at(before, k2);
    }
    assert(model_of(after) =~= target);
}

impl View for Registry {
    type V = Map<Seq<u8>, Seq<u64>>;

    closed spec fn view(&self) -> Map<Seq<u8>, Seq<u64>> {
        model_of(self.entries@)
    }
}

impl Registry {
    /// The registry's invariant: one entry per channel, no empty entry, and no
    /// connection twice in an entry.
    pub closed spec fn wf(&self) -> bool {
        &&& channels_unique(self.entries@)
        &&& registry_ok(self@)
    }

    pub fn new() -> (r: Registry)
        ensures
            r.wf(),
            r@ == Map::<Seq<u8>, Seq<u64>>::empty(),
    {
        let r = Registry { entries: Vec::new() };
        assert(r@ =~= Map::<Seq<u8>, Seq<u64>>::empty());
        r
    }

    /// A well-formed registry has a well-formed model: every entry is
    /// non-empty and holds no connection twice. Laws stated over models
    /// apply to a registry through this.
    pub proof fn lemma_wf_model(&self)
        requires
            self.wf(),
        ensures
            registry_ok(self@),
    {
    }

    /// The index of the entry for `channel`, if there is one.
    fn find(&self, channel: &Vec<u8>) -> (r: Option<usize>)
        requires
            self.wf(),
        ensures
            match r {
                Some(i) => i < self.entries@.len() && self.entries@[i as int].channel@ == channel@,
                None => !self@.contains_key(channel@),
            },
    {
        let mut i: usize = 0;
        while i < self.entries.len()
            invariant
                0 <= i <= self.entries@.len(),
                forall|k: int| 0 <= k < i ==> self.entries@[k].channel@ != channel@,
            decreases self.entries@.len() - i,
        {
            if same_bytes(&self.entries[i].channel, channel) {
                return Some(i);
            }
            i = i + 1;
        }
        None
    }

    /// The subscribers of `channel`, in the order in which they joined.
    pub fn subscribers(&self, channel: &Vec<u8>) -> (r: Vec<u64>)
        requires
            self.wf(),
        ensures
            r@ == members_of(self@, channel@),
    {
        match self.find(channel) {
            Some(i) => {
                proof {
                    lemma_model_at(self.entries@, i as int);
                }
                self.entries[i].members.clone()
            },
            None => Vec::new(),
        }
    }

    /// The subscribers of `channel` other than `sender`: where a message that
    /// `sender` publishes on the channel goes.
    pub fn fanout_targets(&self, channel: &Vec<u8>, sender: u64) -> (r: Vec<u64>)
        requires
            self.wf(),
        ensures
            r@ == without_id(members_of(self@, channel@), sender),
    {
        let all = self.subscribers(channel);
        without(&all, sender)
    }

    /// Adds connection `id` to the subscribers of `channel`; a connection that
    /// is subscribed already stays as it is.
    pub fn join(&mut self, channel: &Vec<u8>, id: u64)
        requires
            old(self).wf(),
        ensures
            final(self).wf(),
            final(self)@ == joined(old(self)@, channel@, id),
    {
        let ghost before = self.entries@;
        match self.find(channel) {
            Some(i) => {
                proof {
                    lemma_model_at(before, i as int);
                }
                if contains_id(&self.entries[i].members, id) {
                    return;
                }
                let mut members = self.entries[i].members.clone();
                members.push(id);
                let ghost new_members = members@;
                let ch = channel.clone();
                assert(ch@ =~= channel@);
                let entry = ChannelEntry { channel: ch, members };
                self.entries.set(i, entry);
                proof {
                    lemma_model_set(before, self.entries@, i as int);
                    let m = model_of(before);
                    assert(new_members == m[channel@].push(id));
                    assert(new_members.no_duplicates()) by {
                        assert forall|a: int, b: int|
                            0 <= a < new_members.len() && 0 <= b < new_members.len() && a != b
                                implies new_members[a] != new_members[b] by {
                            if b == new_members.len() - 1 {
                                assert(m[channel@][a] == new_members[a]);
                            } else if a == new_members.len() - 1 {
                                assert(m[channel@][b] == new_members[b]);
                            }
                        }
                    }
                    assert(model_of(self.entries@) =~= joined(m, channel@, id));
                }
            },
            None => {
                let ghost c0 = channel@;
                let ch = channel.clone();
                assert(ch@ =~= channel@);
                let entry = ChannelEntry { channel: ch, members: vec![id] };
                self.entries.push(entry);
                proof {
                    let after = self.entries@;
                    let n = before.len() as int;
                    assert(after[n].channel@ == c0);
                    assert forall|k: int| 0 <= k < n implies before[k].channel@ != c0 by {
                        if before[k].channel@ == c0 {
                            assert(model_of(before).contains_key(c0));
                        }
                    }
                    assert(channels_unique(after)) by {
                        assert forall|a: int, b: int|
                            0 <= a < after.len() && 0 <= b < after.len() && a != b implies after[a].channel@
                            != after[b].channel@ by {
                            if a < n && b < n {
                                assert(after[a] == before[a] && after[b] == before[b]);
                            } else if a < n {
                                assert(after[a] == before[a]);
                            } else {
                                assert(after[b] == before[b]);
                            }
                        }
                    }
                    let target = joined(model_of(before), c0, id);
                    assert forall|c: Seq<u8>|
                        model_of(after).contains_key(c) == target.contains_key(c) by {
                        if target.contains_key(c) && c != c0 {
                            let k = choose|k: int| 0 <= k < before.len() && before[k].channel@ == c;
                            assert(after[k].channel@ == c);
                        }
                        if c == c0 {
                            assert(after[n].channel@ == c);
                        }
                        if model_of(after).contains_key(c) && c != c0 {
                            let k = choose|k: int| 0 <= k < after.len() && after[k].channel@ == c;
                            assert(before[k].channel@ == c);
                        }
                    }
                    assert forall|c: Seq<u8>| #[trigger]
                        model_of(after).contains_key(c) implies model_of(after)[c]
                        == target[c] by {
                        let k = choose|k: int| 0 <= k < after.len() && after[k].channel@ == c;
                        lemma_model_at(after, k);
                        if k != n {
                            lemma_model_at(before, k);
                        } else {
                            assert(after[n].members@ =~= seq![id]);
                            assert(members_of(model_of(before), c0) =~= Seq::<u64>::empty());
                            assert(Seq::<u64>::empty().push(id) =~= seq![id]);
                        }
                    }
                    assert(model_of(after) =~= target);
                    assert(registry_ok(model_of(after))) by {
                        assert forall|c: Seq<u8>| #[trigger]
                            model_of(after).contains_key(c) implies model_of(after)[c].len() > 0
                            && model_of(after)[c].no_duplicates() by {
                            if c == c0 {
                                assert(model_of(after)[c] =~= seq![id]);
                            }
                        }
                    }
                }
            },
        }
    }

    /// Removes connection `id` from the subscribers of `channel`, and the
    /// channel's entry once no subscriber is left. A channel without an entry
    /// is left as it is.
    pub fn leave(&mut self, channel: &Vec<u8>, id: u64)
        requires
            old(self).wf(),
        ensures
            final(self).wf(),
            final(self)@ == left(old(self)@, channel@, id),
    {
        let ghost before = self.entries@;
        match self.find(channel) {
            Some(i) => {
                proof {
                    lemma_model_at(before, i as int);
                    lemma_filter_no_duplicates(model_of(before)[channel@], id);
                }
                let members = without(&self.entries[i].members, id);
                if members.len() == 0 {
                    self.entries.remove(i);
                    proof {
                        lemma_model_remove(before, i as int);
                        assert(model_of(self.entries@) =~= left(model_of(before), channel@, id));
                    }
                } else {
                    let ch = channel.clone();
                    assert(ch@ =~= channel@);
                    let entry = ChannelEntry { channel: ch, members };
                    self.entries.set(i, entry);
                    proof {
                        lemma_model_set(before, self.entries@, i as int);
                        assert(model_of(self.entries@) =~= left(model_of(before), channel@, id));
                    }
                }
            },
            None => {},
        }
    }
}

/// Whether `id` occurs in `s`.
fn contains_id(s: &Vec<u64>, id: u64) -> (r: bool)
    ensures
        r == s@.contains(id),
{
    let mut i: usize = 0;
    while i < s.len()
        invariant
            0 <= i <= s@.len(),
            forall|k: int| 0 <= k < i ==> s@[k] != id,
        decreases s@.len() - i,
    {
        if s[i] == id {
            assert(s@[i as int] == id);
            return true;
        }
        i = i + 1;
    }
    false
}

/// A copy of `s` without the connection `id`.
fn without(s: &Vec<u64>, id: u64) -> (r: Vec<u64>)
    ensures
        r@ == without_id(s@, id),
{
    let mut r: Vec<u64> = Vec::new();
    let mut i: usize = 0;
    while i < s.len()
        invariant
            0 <= i <= s@.len(),
            r@ == without_id(s@.subrange(0, i as int), id),
        decreases s@.len() - i,
    {
        let ghost prefix = s@.subrange(0, i as int + 1);
        assert(prefix.drop_last() =~= s@.subrange(0, i as int));
        reveal(Seq::filter);
        if s[i] != id {
            r.push(s[i]);
        }
        i = i + 1;
    }
    assert(s@.subrange(0, i as int) =~= s@);
    r
}

} // verus!
