//! The sharded storage engine: a fixed array of independent maps, a key
//! routed to its shard by a keyed hash.
//!
//! The library works on the shards through `&mut self`; the per-shard locks
//! that let connections share one engine are plain plumbing and live with
//! the code that owns the connections.

use vstd::prelude::*;

use crate::commands::SetCommand;
use crate::data::shared::{
    get_effect, hashy, process_get, process_set, set_effect, shard_of, sip_hash_of,
};
use crate::data::store::KvMap;
use crate::datatypes::{DataType, DataV, RecordV};

verus! {

broadcast use vstd::std_specs::vec::group_vec_axioms, vstd::seq::group_seq_axioms;

/// How many shards the key space is split into.
pub const SHARD_COUNT: u64 = 8;

/// An in-memory store of eight shards.  Each key lives in exactly the shard
/// its hash routes it to.
pub struct InMemoryEngine {
    keymap: Vec<KvMap>,
}

impl InMemoryEngine {
    /// Well-formed: eight well-formed shards, and every stored key sits in
    /// the shard its hash routes it to.
    pub closed spec fn wf(&self) -> bool {
        &&& self.keymap@.len() == SHARD_COUNT
        &&& forall|i: int| 0 <= i < SHARD_COUNT ==> (#[trigger] self.keymap@[i]).wf()
        &&& forall|i: int, k: Seq<char>|
            0 <= i < SHARD_COUNT && (#[trigger] self.keymap@[i].contents().contains_key(k))
                ==> shard_of(k, SHARD_COUNT) == i
    }

    /// The combined contents of all shards.
    pub closed spec fn contents(&self) -> Map<Seq<char>, RecordV> {
        Map::new(
            |k: Seq<char>|
                self.keymap@[shard_of(k, SHARD_COUNT) as int].contents().contains_key(k),
            |k: Seq<char>| self.keymap@[shard_of(k, SHARD_COUNT) as int].contents()[k],
        )
    }

    pub fn new() -> (e: InMemoryEngine)
        ensures
            e.wf(),
            e.contents() == Map::<Seq<char>, RecordV>::empty(),
    {
        let mut keymap: Vec<KvMap> = Vec::new();
        let mut i: u64 = 0;
        while i < SHARD_COUNT
            invariant
                i <= SHARD_COUNT,
                keymap@.len() == i,
                forall|j: int|
                    0 <= j < i ==> (#[trigger] keymap@[j]).wf() && keymap@[j].contents()
                        == Map::<Seq<char>, RecordV>::empty(),
            decreases SHARD_COUNT - i,
        {
            keymap.push(KvMap::new());
            i += 1;
        }
        let e = InMemoryEngine { keymap };
        proof {
            assert(e.contents() =~= Map::<Seq<char>, RecordV>::empty());
        }
        e
    }

    /// The shard that owns `str`.  The result is a function of the key
    /// alone, so repeated calls see the same shard.
    fn get_map_for_key(&self, str: &str) -> (m: &KvMap)
        requires
            self.wf(),
        ensures
            *m == self.keymap@[shard_of(str@, SHARD_COUNT) as int],
    {
        let index = (hashy(str) % SHARD_COUNT) as usize;
        &self.keymap[index]
    }

    /// Run a SET: route the key, then write to that shard only.
    pub fn process_set(&mut self, cmd: SetCommand) -> (r: Result<DataType, String>)
        requires
            old(self).wf(),
        ensures
            final(self).wf(),
            final(self).contents() == set_effect(old(self).contents(), cmd@).0,
            r matches Ok(v) && v@ == set_effect(old(self).contents(), cmd@).1,
    {
        let index = (hashy(cmd.key.as_str()) % SHARD_COUNT) as usize;
        let ghost key = cmd.key@;
        let mut shard = self.keymap.remove(index);
        let r = process_set(&mut shard, cmd);
        self.keymap.insert(index, shard);
        proof {
            let idx = index as int;
            let olds = old(self).keymap@;
            let news = self.keymap@;
            assert(forall|j: int| 0 <= j < SHARD_COUNT && j != idx ==> news[j] == olds[j]);
            assert(news[idx] == shard);
            // The routed shard sees exactly the engine's view of the key.
            assert(old(self).contents().contains_key(key) == olds[idx].contents().contains_key(
                key,
            ));
            assert forall|k: Seq<char>| #[trigger]
                self.contents().contains_key(k) == set_effect(
                    old(self).contents(),
                    cmd@,
                ).0.contains_key(k) && (self.contents().contains_key(k)
                ==> self.contents()[k] == set_effect(old(self).contents(), cmd@).0[k]) by {
                let s = shard_of(k, SHARD_COUNT) as int;
                if k != key {
                    assert(news[s].contents().contains_key(k) == olds[s].contents().contains_key(
                        k,
                    ));
                }
            }
            assert(self.contents() =~= set_effect(old(self).contents(), cmd@).0);
            assert forall|i: int, k: Seq<char>|
                0 <= i < SHARD_COUNT && (#[trigger] news[i].contents().contains_key(k)) implies
                shard_of(k, SHARD_COUNT) == i by {
                if i == idx && k != key {
                    assert(olds[i].contents().contains_key(k));
                }
            }
        }
        r
    }

    /// Run a GET against the shard that owns the key.
    pub fn process_get(&self, key: String) -> (r: Result<DataType, String>)
        requires
            self.wf(),
        ensures
            r matches Ok(v) && v@ == get_effect(self.contents(), key@),
    {
        let map = self.get_map_for_key(key.as_str());
        process_get(map, key)
    }

    /// DUMP touches nothing and replies nil; the snapshot itself goes to an
    /// outside diagnostics sink through [`Self::shard_at`].
    pub fn process_dump(&self) -> (r: Result<DataType, String>)
        ensures
            r matches Ok(v) && v@ == DataV::Nil,
    {
        Ok(DataType::Nil)
    }

    /// Read access to one shard, for diagnostics: it holds exactly the
    /// engine's records whose keys route to it.
    pub fn shard_at(&self, i: usize) -> (m: &KvMap)
        requires
            self.wf(),
            i < SHARD_COUNT,
        ensures
            m.wf(),
            forall|k: Seq<char>| #[trigger]
                m.contents().contains_key(k) ==> shard_of(k, SHARD_COUNT) == i
                    && self.contents().contains_key(k) && self.contents()[k] == m.contents()[k],
            forall|k: Seq<char>|
                #[trigger] self.contents().contains_key(k) && shard_of(k, SHARD_COUNT) == i
                    ==> m.contents().contains_key(k),
    {
        &self.keymap[i]
    }
}

} // verus!
