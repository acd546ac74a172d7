//! The state an actor worker owns in the thread-per-shard strategy.
//!
//! Each worker exclusively owns one map; mutual exclusion is structural, so
//! the map needs no lock.  The workers themselves — threads, request
//! queues, reply channels — are plumbing outside the library: they route
//! each command to the worker that owns its key (see
//! [`crate::data::shared::shard_index`]) and hand it to
//! [`ThreadEngineInternal::process_command`].

use vstd::prelude::*;
use vstd::pervasive::unreached;

use crate::commands::{Command, CommandV, SetCommand};
use crate::data::shared::{get_effect, process_get, process_set, set_effect};
use crate::data::store::KvMap;
use crate::datatypes::{DataType, RecordV};

verus! {

/// One worker's private map.
pub struct ThreadEngineInternal {
    map: KvMap,
}

impl ThreadEngineInternal {
    pub closed spec fn wf(&self) -> bool {
        self.map.wf()
    }

    pub closed spec fn contents(&self) -> Map<Seq<char>, RecordV> {
        self.map.contents()
    }

    pub fn new() -> (e: ThreadEngineInternal)
        ensures
            e.wf(),
            e.contents() == Map::<Seq<char>, RecordV>::empty(),
    {
        ThreadEngineInternal { map: KvMap::new() }
    }

    pub fn process_set(&mut self, cmd: SetCommand) -> (r: Result<DataType, String>)
        requires
            old(self).wf(),
        ensures
            final(self).wf(),
            final(self).contents() == set_effect(old(self).contents(), cmd@).0,
            r matches Ok(v) && v@ == set_effect(old(self).contents(), cmd@).1,
    {
        process_set(&mut self.map, cmd)
    }

    pub fn process_get(&self, key: String) -> (r: Result<DataType, String>)
        requires
            self.wf(),
        ensures
            r matches Ok(v) && v@ == get_effect(self.contents(), key@),
    {
        process_get(&self.map, key)
    }

    /// One worker step.  Only SET and GET reach a worker: DUMP is not
    /// implemented in this strategy, and `CONFIG GET` never touches
    /// storage, so the loop that owns the worker must not pass either.
    pub fn process_command(&mut self, cmd: Command) -> (r: Result<DataType, String>)
        requires
            old(self).wf(),
            cmd matches Command::SetCmd(_) || cmd matches Command::Get { .. },
        ensures
            final(self).wf(),
            match cmd@ {
                CommandV::SetCmd(c) => final(self).contents() == set_effect(
                    old(self).contents(),
                    c,
                ).0 && (r matches Ok(v) && v@ == set_effect(old(self).contents(), c).1),
                CommandV::Get { key } => final(self).contents() == old(self).contents() && (
                r matches Ok(v) && v@ == get_effect(old(self).contents(), key)),
                _ => false,
            },
    {
        match cmd {
            Command::SetCmd(set_cmd) => self.process_set(set_cmd),
            Command::Get { key } => self.process_get(key),
            _ => unreached(),
        }
    }
}

} // verus!
