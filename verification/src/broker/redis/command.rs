//! Commands to the Redis server.

use vstd::prelude::*;
use vstd::string::*;

use crate::text::texts;

verus! {

/// The stream keys of a read command, in the order of their arguments.
pub struct StreamKeysToRedisArgs<'a>(pub &'a [String]);

impl<'a> StreamKeysToRedisArgs<'a> {
    /// The keys, in order.
    pub fn iter(&self) -> (r: Vec<&'a str>)
        ensures
            r@.map_values(|s: &str| s@) == texts(self.0@),
    {
        let mut out: Vec<&'a str> = Vec::new();
        let mut i: usize = 0;
        while i < self.0.len()
            invariant
                i <= self.0@.len(),
                out@.len() == i,
                forall|j: int| 0 <= j < i ==> (#[trigger] out@[j])@ == self.0@[j]@,
            decreases self.0@.len() - i,
        {
            let key: &'a String = &self.0[i];
            out.push(key.as_str());
            i = i + 1;
        }
        assert(out@.map_values(|s: &str| s@) =~= texts(self.0@));
        out
    }

    /// The bytes of each key as an argument, in order.
    pub fn to_redis_args(&self) -> (r: Vec<Vec<u8>>)
        ensures
            r@.map_values(|arg: Vec<u8>| arg@) == texts(self.0@).map_values(
                |key: Seq<char>| vstd::utf8::encode_utf8(key),
            ),
    {
        let keys = self.iter();
        let mut out: Vec<Vec<u8>> = Vec::new();
        let mut i: usize = 0;
        while i < keys.len()
            invariant
                i <= keys@.len(),
                out@.len() == i,
                forall|j: int| 0 <= j < i ==> (#[trigger] out@[j])@ == vstd::utf8::encode_utf8(keys@[j]@),
            decreases keys@.len() - i,
        {
            out.push(keys[i].as_bytes_vec());
            i = i + 1;
        }
        proof {
            let views = keys@.map_values(|s: &str| s@);
            assert forall|j: int| 0 <= j < out@.len() implies (#[trigger] out@[j])@
                == vstd::utf8::encode_utf8(texts(self.0@)[j]) by {
                assert(views[j] == keys@[j]@);
            }
            assert(views.len() == keys@.len());
            assert(out@.map_values(|arg: Vec<u8>| arg@) =~= texts(self.0@).map_values(
                |key: Seq<char>| vstd::utf8::encode_utf8(key),
            ));
        }
        out
    }
}

} // verus!
