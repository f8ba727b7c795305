use vstd::prelude::*;

verus! {

/// Identifies a message: the channel it was posted in and its id there.
#[derive(Debug, PartialEq, Eq, Structural, Clone, Copy, Hash)]
pub struct MessageRef {
    pub channel_id: u64,
    pub message_id: u64,
}

/// Maps each source message to the response that rendered it: at most one
/// response per source.
pub struct RenderHistory {
    entries: Vec<(MessageRef, MessageRef)>,
    map: Ghost<Map<MessageRef, MessageRef>>,
}

impl View for RenderHistory {
    type V = Map<MessageRef, MessageRef>;

    closed spec fn view(&self) -> Map<MessageRef, MessageRef> {
        self.map@
    }
}

pub open spec fn lookup_spec(m: Map<MessageRef, MessageRef>, source: MessageRef) -> Option<
    MessageRef,
> {
    if m.contains_key(source) {
        Some(m[source])
    } else {
        None
    }
}

impl RenderHistory {
    /// The stored pairs agree with the map, and no source appears twice.
    pub closed spec fn wf(&self) -> bool {
        &&& forall|k: MessageRef| #[trigger]
            self.map@.contains_key(k) <==> exists|i: int|
                0 <= i < self.entries@.len() && (#[trigger] self.entries@[i]).0 == k
        &&& forall|i: int|
            0 <= i < self.entries@.len() ==> self.map@[(#[trigger] self.entries@[i]).0]
                == self.entries@[i].1
        &&& forall|i: int, j: int|
            0 <= i < self.entries@.len() && 0 <= j < self.entries@.len() && (
            #[trigger] self.entries@[i]).0 == (#[trigger] self.entries@[j]).0 ==> i == j
    }

    /// The store holds the pair `source -> response`.
    pub closed spec fn stored(&self, source: MessageRef, response: MessageRef) -> bool {
        exists|i: int| 0 <= i < self.entries@.len() && self.entries@[i] == (source, response)
    }

    pub fn new() -> (r: RenderHistory)
        ensures
            r.wf(),
            r@ == Map::<MessageRef, MessageRef>::empty(),
    {
        RenderHistory { entries: Vec::new(), map: Ghost(Map::empty()) }
    }

    fn position(&self, source: MessageRef) -> (r: Option<usize>)
        requires
            self.wf(),
        ensures
            r is None <==> !self@.contains_key(source),
            r matches Some(i) ==> i < self.entries@.len() && self.entries@[i as int].0 == source,
    {
        let mut i: usize = 0;
        while i < self.entries.len()
            invariant
                self.wf(),
                i <= self.entries@.len(),
                forall|j: int| 0 <= j < i ==> self.entries@[j].0 != source,
            decreases self.entries@.len() - i,
        {
            if self.entries[i].0 == source {
                return Some(i);
            }
            i = i + 1;
        }
        proof {
            if self.map@.contains_key(source) {
                let j = choose|j: int|
                    0 <= j < self.entries@.len() && (#[trigger] self.entries@[j]).0 == source;
                assert(self.entries@[j].0 != source);
            }
        }
        None
    }

    /// The response recorded for `source`, if any.
    pub fn lookup(&self, source: MessageRef) -> (r: Option<MessageRef>)
        requires
            self.wf(),
        ensures
            r == lookup_spec(self@, source),
    {
        match self.position(source) {
            Some(i) => Some(self.entries[i].1),
            None => None,
        }
    }

    /// Records `response` as the one response to `source`, returning the one it
    /// replaces.
    pub fn record(&mut self, source: MessageRef, response: MessageRef) -> (r: Option<MessageRef>)
        requires
            old(self).wf(),
        ensures
            final(self).wf(),
            final(self)@ == old(self)@.insert(source, response),
            r == lookup_spec(old(self)@, source),
    {
        let pos = self.position(source);
        match pos {
            Some(i) => {
                let previous = self.entries[i].1;
                self.entries.set(i, (source, response));
                self.map = Ghost(self.map@.insert(source, response));
                proof {
                    assert forall|k: MessageRef| #[trigger]
                        self.map@.contains_key(k) implies exists|j: int|
                            0 <= j < self.entries@.len() && (#[trigger] self.entries@[j]).0
                                == k by {
                        if k != source {
                            let j = choose|j: int|
                                0 <= j < old(self).entries@.len() && (#[trigger] old(
                                    self,
                                ).entries@[j]).0 == k;
                            assert(self.entries@[j].0 == k);
                        } else {
                            assert(self.entries@[i as int].0 == k);
                        }
                    }
                    assert forall|k: MessageRef|
                        (exists|j: int|
                            0 <= j < self.entries@.len() && (#[trigger] self.entries@[j]).0
                                == k) implies #[trigger] self.map@.contains_key(k) by {
                        let j = choose|j: int|
                            0 <= j < self.entries@.len() && (#[trigger] self.entries@[j]).0
                                == k;
                        if j != i {
                            assert(old(self).entries@[j].0 == k);
                        }
                    }
                }
                Some(previous)
            },
            None => {
                self.entries.push((source, response));
                self.map = Ghost(self.map@.insert(source, response));
                proof {
                    let n = old(self).entries@.len() as int;
                    assert(self.entries@[n].0 == source);
                    assert forall|k: MessageRef| #[trigger]
                        self.map@.contains_key(k) implies exists|j: int|
                            0 <= j < self.entries@.len() && (#[trigger] self.entries@[j]).0
                                == k by {
                        if k != source {
                            let j = choose|j: int|
                                0 <= j < old(self).entries@.len() && (#[trigger] old(
                                    self,
                                ).entries@[j]).0 == k;
                            assert(self.entries@[j].0 == k);
                        }
                    }
                    assert forall|k: MessageRef|
                        (exists|j: int|
                            0 <= j < self.entries@.len() && (#[trigger] self.entries@[j]).0
                                == k) implies #[trigger] self.map@.contains_key(k) by {
                        let j = choose|j: int|
                            0 <= j < self.entries@.len() && (#[trigger] self.entries@[j]).0
                                == k;
                        if j < n {
                            assert(old(self).entries@[j].0 == k);
                        }
                    }
                    assert forall|a: int, b: int|
                        0 <= a < self.entries@.len() && 0 <= b < self.entries@.len() && (
                        #[trigger] self.entries@[a]).0 == (#[trigger] self.entries@[b]).0 implies a
                        == b by {
                        if a < n && b == n {
                            assert(old(self).map@.contains_key(old(self).entries@[a].0));
                        } else if a == n && b < n {
                            assert(old(self).map@.contains_key(old(self).entries@[b].0));
                        }
                    }
                }
                None
            },
        }
    }

    /// Removes the entry of `source`, returning the response it held.
    pub fn forget(&mut self, source: MessageRef) -> (r: Option<MessageRef>)
        requires
            old(self).wf(),
        ensures
            final(self).wf(),
            final(self)@ == old(self)@.remove(source),
            r == lookup_spec(old(self)@, source),
    {
        match self.position(source) {
            Some(i) => {
                let removed = self.entries.remove(i);
                self.map = Ghost(self.map@.remove(source));
                proof {
                    let o = old(self).entries@;
                    assert(forall|j: int| 0 <= j < i ==> self.entries@[j] == o[j]);
                    assert(forall|j: int|
                        i <= j < self.entries@.len() ==> self.entries@[j] == o[j + 1]);
                    assert forall|k: MessageRef| #[trigger]
                        self.map@.contains_key(k) implies exists|j: int|
                            0 <= j < self.entries@.len() && (#[trigger] self.entries@[j]).0
                                == k by {
                        let j = choose|j: int| 0 <= j < o.len() && (#[trigger] o[j]).0 == k;
                        if j < i {
                            assert(self.entries@[j].0 == k);
                        } else {
                            assert(j != i);
                            assert(self.entries@[j - 1].0 == k);
                        }
                    }
                    assert forall|k: MessageRef|
                        (exists|j: int|
                            0 <= j < self.entries@.len() && (#[trigger] self.entries@[j]).0
                                == k) implies #[trigger] self.map@.contains_key(k) by {
                        let j = choose|j: int|
                            0 <= j < self.entries@.len() && (#[trigger] self.entries@[j]).0
                                == k;
                        if j < i {
                            assert(o[j].0 == k);
                            assert(j != i as int);
                        } else {
                            assert(o[j + 1].0 == k);
                            assert(j + 1 != i as int);
                        }
                    }
                    assert forall|j: int|
                        0 <= j < self.entries@.len() implies self.map@[(
                        #[trigger] self.entries@[j]).0] == self.entries@[j].1 by {
                        if j < i {
                            assert(o[j] == self.entries@[j]);
                            assert(j != i as int);
                        } else {
                            assert(o[j + 1] == self.entries@[j]);
                            assert(j + 1 != i as int);
                        }
                    }
                    assert forall|a: int, b: int|
                        0 <= a < self.entries@.len() && 0 <= b < self.entries@.len() && (
                        #[trigger] self.entries@[a]).0 == (#[trigger] self.entries@[b]).0 implies a
                        == b by {
                        let a2 = if a < i { a } else { a + 1 };
                        let b2 = if b < i { b } else { b + 1 };
                        assert(o[a2] == self.entries@[a]);
                        assert(o[b2] == self.entries@[b]);
                    }
                }
                Some(removed.1)
            },
            None => {
                assert(self.map@.remove(source) =~= self.map@);
                None
            },
        }
    }
}

/// However renders and retractions have followed one another, a source has at
/// most one response on record, and it is the one that lookup gives.
pub proof fn lemma_one_response_per_source(
    h: &RenderHistory,
    source: MessageRef,
    r1: MessageRef,
    r2: MessageRef,
)
    requires
        h.wf(),
        h.stored(source, r1),
        h.stored(source, r2),
    ensures
        r1 == r2,
        lookup_spec(h@, source) == Some(r1),
{
    let i = choose|i: int| 0 <= i < h.entries@.len() && h.entries@[i] == (source, r1);
    let j = choose|j: int| 0 <= j < h.entries@.len() && h.entries@[j] == (source, r2);
    assert(h.entries@[i].0 == h.entries@[j].0);
    assert(h.map@.contains_key(h.entries@[i].0));
}

} // verus!
