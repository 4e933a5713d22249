//! The entries of streams that have been processed and are still to be acknowledged.

use vstd::prelude::*;
use vstd::string::*;

use crate::text::{
    precedes, precedes_is_irreflexive, precedes_is_transitive, text_order, texts, TextOrder,
};

verus! {

/// Entry IDs by stream key, with the keys in order.
#[derive(Debug)]
pub struct AckLog {
    streams: Vec<(String, Vec<String>)>,
}

/// Whether the keys of a list come strictly in order.
spec fn in_order(streams: Seq<(String, Vec<String>)>) -> bool {
    forall|i: int, j: int|
        0 <= i < j < streams.len() ==> precedes(
            (#[trigger] streams[i]).0@,
            (#[trigger] streams[j]).0@,
        )
}

/// Whether a stream of a list has a key.
spec fn key_at(streams: Seq<(String, Vec<String>)>, key: Seq<char>, i: int) -> bool {
    0 <= i < streams.len() && streams[i].0@ == key
}

/// The IDs by key that a list stands for.
spec fn as_map(streams: Seq<(String, Vec<String>)>) -> Map<Seq<char>, Seq<Seq<char>>> {
    Map::new(
        |key: Seq<char>| exists|i: int| key_at(streams, key, i),
        |key: Seq<char>| texts(streams[choose|i: int| key_at(streams, key, i)].1@),
    )
}

/// A stream is found under its key.
proof fn stream_is_found(streams: Seq<(String, Vec<String>)>, i: int)
    requires
        in_order(streams),
        0 <= i < streams.len(),
    ensures
        as_map(streams).contains_key(streams[i].0@),
        as_map(streams)[streams[i].0@] == texts(streams[i].1@),
{
    let key = streams[i].0@;
    assert(key_at(streams, key, i));
    let j = choose|j: int| key_at(streams, key, j);
    precedes_is_irreflexive(key);
    if j < i {
        assert(precedes(streams[j].0@, streams[i].0@));
    } else if i < j {
        assert(precedes(streams[i].0@, streams[j].0@));
    }
}

/// A list stands for a map with which it agrees under every key.
proof fn same_streams_same_map(
    streams: Seq<(String, Vec<String>)>,
    map: Map<Seq<char>, Seq<Seq<char>>>,
)
    requires
        in_order(streams),
        forall|i: int|
            0 <= i < streams.len() ==> map.contains_key((#[trigger] streams[i]).0@)
                && map[streams[i].0@] == texts(streams[i].1@),
        forall|key: Seq<char>| #[trigger]
            map.contains_key(key) ==> exists|i: int| key_at(streams, key, i),
    ensures
        as_map(streams) == map,
{
    let found = as_map(streams);
    assert forall|key: Seq<char>| found.contains_key(key) <==> map.contains_key(key) by {
        if found.contains_key(key) {
            let i = choose|i: int| key_at(streams, key, i);
            assert(map.contains_key(streams[i].0@));
        }
    }
    assert forall|key: Seq<char>| #[trigger] found.contains_key(key) implies found[key]
        == map[key] by {
        let i = choose|i: int| key_at(streams, key, i);
        assert(map[streams[i].0@] == texts(streams[i].1@));
    }
    assert(found =~= map);
}

/// The IDs of a key, none where the key is absent.
pub open spec fn ids_of(map: Map<Seq<char>, Seq<Seq<char>>>, key: Seq<char>) -> Seq<Seq<char>> {
    if map.contains_key(key) {
        map[key]
    } else {
        Seq::empty()
    }
}

/// Whether a key is the first one of a map.
pub open spec fn is_first_key(map: Map<Seq<char>, Seq<Seq<char>>>, key: Seq<char>) -> bool {
    &&& map.contains_key(key)
    &&& forall|other: Seq<char>| #[trigger]
        map.contains_key(other) ==> other == key || precedes(key, other)
}

impl View for AckLog {
    type V = Map<Seq<char>, Seq<Seq<char>>>;

    closed spec fn view(&self) -> Map<Seq<char>, Seq<Seq<char>>> {
        as_map(self.streams@)
    }
}

impl AckLog {
    #[verifier::type_invariant]
    spec fn wf(self) -> bool {
        in_order(self.streams@)
    }

    /// A log with nothing to acknowledge.
    pub fn new() -> (r: Self)
        ensures
            r@ == Map::<Seq<char>, Seq<Seq<char>>>::empty(),
    {
        let r = AckLog { streams: Vec::new() };
        proof {
            same_streams_same_map(r.streams@, Map::<Seq<char>, Seq<Seq<char>>>::empty());
        }
        r
    }

    /// Where a key stands, or where it is to be put.
    fn find(streams: &Vec<(String, Vec<String>)>, key: &str) -> (r: (usize, bool))
        requires
            in_order(streams@),
        ensures
            r.0 <= streams@.len(),
            r.1 <==> key_at(streams@, key@, r.0 as int),
            forall|j: int| 0 <= j < r.0 ==> precedes((#[trigger] streams@[j]).0@, key@),
            forall|j: int|
                r.0 <= j < streams@.len() && !(r.1 && j == r.0) ==> precedes(
                    key@,
                    (#[trigger] streams@[j]).0@,
                ),
    {
        let mut i: usize = 0;
        while i < streams.len()
            invariant
                in_order(streams@),
                i <= streams@.len(),
                forall|j: int| 0 <= j < i ==> precedes((#[trigger] streams@[j]).0@, key@),
            decreases streams@.len() - i,
        {
            match text_order(streams[i].0.as_str(), key) {
                TextOrder::Before => {},
                TextOrder::Same => {
                    return (i, true);
                },
                TextOrder::After => {
                    proof {
                        precedes_is_irreflexive(key@);
                        assert forall|j: int| i <= j < streams@.len() implies precedes(
                            key@,
                            (#[trigger] streams@[j]).0@,
                        ) by {
                            if i < j {
                                precedes_is_transitive(
                                    key@,
                                    streams@[i as int].0@,
                                    streams@[j].0@,
                                );
                            }
                        }
                    }
                    return (i, false);
                },
            }
            i = i + 1;
        }
        (i, false)
    }

    /// Notes that an entry of a stream was processed, after those noted before.
    pub fn push(&mut self, key: String, id: String)
        ensures
            final(self)@ == old(self)@.insert(key@, ids_of(old(self)@, key@).push(id@)),
    {
        proof {
            use_type_invariant(&*self);
        }
        let ghost before = self.streams@;
        let ghost name = key@;
        let ghost map = as_map(before).insert(name, ids_of(as_map(before), name).push(id@));
        let mut streams: Vec<(String, Vec<String>)> = Vec::new();
        std::mem::swap(&mut streams, &mut self.streams);
        let (i, found) = Self::find(&streams, key.as_str());
        proof {
            precedes_is_irreflexive(name);
        }
        if found {
            let (old_key, mut ids) = streams.remove(i);
            let ghost earlier = ids@;
            ids.push(id);
            streams.insert(i, (old_key, ids));
            proof {
                assert(texts(ids@) =~= texts(earlier).push(id@));
                stream_is_found(before, i as int);
                assert forall|j: int| 0 <= j < streams@.len() && j != i implies #[trigger] streams@[j]
                    == before[j] by {}
                assert forall|a: int, b: int| 0 <= a < b < streams@.len() implies precedes(
                    (#[trigger] streams@[a]).0@,
                    (#[trigger] streams@[b]).0@,
                ) by {
                    assert(precedes(before[a].0@, before[b].0@));
                }
                assert forall|j: int| 0 <= j < streams@.len() implies map.contains_key(
                    (#[trigger] streams@[j]).0@,
                ) && map[streams@[j].0@] == texts(streams@[j].1@) by {
                    stream_is_found(before, j);
                }
                assert forall|k: Seq<char>| #[trigger] map.contains_key(k) implies exists|j: int|
                    key_at(streams@, k, j) by {
                    if k == name {
                        assert(key_at(streams@, k, i as int));
                    } else {
                        let j = choose|j: int| key_at(before, k, j);
                        assert(key_at(streams@, k, j));
                    }
                }
                same_streams_same_map(streams@, map);
            }
        } else {
            let mut ids: Vec<String> = Vec::new();
            ids.push(id);
            streams.insert(i, (key, ids));
            proof {
                assert(texts(ids@) =~= Seq::<Seq<char>>::empty().push(id@));
                assert forall|j: int| 0 <= j < before.len() implies (#[trigger] before[j]).0@
                    != name by {}
                assert(!as_map(before).contains_key(name));
                assert forall|a: int, b: int| 0 <= a < b < streams@.len() implies precedes(
                    (#[trigger] streams@[a]).0@,
                    (#[trigger] streams@[b]).0@,
                ) by {
                    let x = if a <= i { a } else { a - 1 };
                    let y = if b <= i { b } else { b - 1 };
                    if a < i && b > i || a < i && b < i || a > i {
                        assert(precedes(before[x].0@, before[y].0@));
                    }
                    if a == i {
                        assert(precedes(name, before[y].0@));
                    }
                    if b == i {
                        assert(precedes(before[x].0@, name));
                    }
                }
                assert forall|j: int| 0 <= j < streams@.len() implies map.contains_key(
                    (#[trigger] streams@[j]).0@,
                ) && map[streams@[j].0@] == texts(streams@[j].1@) by {
                    if j != i {
                        let x = if j < i { j } else { j - 1 };
                        stream_is_found(before, x);
                        assert(before[x].0@ != name);
                    }
                }
                assert forall|k: Seq<char>| #[trigger] map.contains_key(k) implies exists|j: int|
                    key_at(streams@, k, j) by {
                    if k == name {
                        assert(key_at(streams@, k, i as int));
                    } else {
                        let j = choose|j: int| key_at(before, k, j);
                        assert(key_at(streams@, k, if j < i { j } else { j + 1 }));
                    }
                }
                same_streams_same_map(streams@, map);
            }
        }
        self.streams = streams;
    }

    /// Takes out the stream whose key comes first, with its IDs in the order of their
    /// arrival.
    pub fn pop_first(&mut self) -> (r: Option<(String, Vec<String>)>)
        ensures
            match r {
                Some(stream) => is_first_key(old(self)@, stream.0@) && texts(stream.1@)
                    == old(self)@[stream.0@] && final(self)@ == old(self)@.remove(stream.0@),
                None => old(self)@ == Map::<Seq<char>, Seq<Seq<char>>>::empty() && final(self)@
                    == old(self)@,
            },
    {
        proof {
            use_type_invariant(&*self);
        }
        let ghost before = self.streams@;
        if self.streams.len() == 0 {
            proof {
                same_streams_same_map(before, Map::<Seq<char>, Seq<Seq<char>>>::empty());
            }
            return None;
        }
        let mut streams: Vec<(String, Vec<String>)> = Vec::new();
        std::mem::swap(&mut streams, &mut self.streams);
        let first = streams.remove(0);
        proof {
            let key = first.0@;
            let map = as_map(before).remove(key);
            stream_is_found(before, 0);
            precedes_is_irreflexive(key);
            assert forall|other: Seq<char>| #[trigger]
                as_map(before).contains_key(other) implies other == key || precedes(
                key,
                other,
            ) by {
                let j = choose|j: int| key_at(before, other, j);
                if 0 < j {
                    assert(precedes(before[0].0@, before[j].0@));
                }
            }
            assert forall|a: int, b: int| 0 <= a < b < streams@.len() implies precedes(
                (#[trigger] streams@[a]).0@,
                (#[trigger] streams@[b]).0@,
            ) by {
                assert(precedes(before[a + 1].0@, before[b + 1].0@));
            }
            assert forall|j: int| 0 <= j < streams@.len() implies map.contains_key(
                (#[trigger] streams@[j]).0@,
            ) && map[streams@[j].0@] == texts(streams@[j].1@) by {
                stream_is_found(before, j + 1);
                assert(precedes(before[0].0@, before[j + 1].0@));
            }
            assert forall|k: Seq<char>| #[trigger] map.contains_key(k) implies exists|j: int|
                key_at(streams@, k, j) by {
                let j = choose|j: int| key_at(before, k, j);
                assert(key_at(streams@, k, j - 1));
            }
            same_streams_same_map(streams@, map);
        }
        self.streams = streams;
        Some(first)
    }
}

/// The first stream of a log is one of its streams, and no other one of them comes before it.
pub proof fn no_stream_comes_before_the_first(
    map: Map<Seq<char>, Seq<Seq<char>>>,
    key: Seq<char>,
    other: Seq<char>,
)
    requires
        is_first_key(map, key),
    ensures
        map.contains_key(key),
        map.contains_key(other) ==> !precedes(other, key),
        is_first_key(map, other) ==> other == key,
{
    precedes_is_irreflexive(key);
    if map.contains_key(other) && precedes(other, key) {
        precedes_is_transitive(other, key, other);
        precedes_is_irreflexive(other);
    }
    if is_first_key(map, other) && other != key {
        precedes_is_transitive(other, key, other);
        precedes_is_irreflexive(other);
    }
}

/// A stream of a log has the IDs that were noted of it, and a stream that is not in the log has
/// none.
pub proof fn streams_have_the_ids_noted(map: Map<Seq<char>, Seq<Seq<char>>>, key: Seq<char>)
    ensures
        map.contains_key(key) ==> ids_of(map, key) == map[key],
        !map.contains_key(key) ==> ids_of(map, key).len() == 0,
{
}

} // verus!
