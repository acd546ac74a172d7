//! The baseline dispatcher: one map, fully serialized.

use vstd::prelude::*;

use crate::commands::Command;
use crate::data::shared::{config_get_reply, dispatch_effect, process_get, process_set};
use crate::data::store::KvMap;
use crate::datatypes::{DataType, RecordV};
use crate::parser::respond_effect;
use vstd::pervasive::unreached;

verus! {

pub struct Server {
    map: KvMap,
}

impl Server {
    pub closed spec fn wf(&self) -> bool {
        self.map.wf()
    }

    pub closed spec fn contents(&self) -> Map<Seq<char>, RecordV> {
        self.map.contents()
    }

    pub fn new() -> (s: Server)
        ensures
            s.wf(),
            s.contents() == Map::<Seq<char>, RecordV>::empty(),
    {
        Server { map: KvMap::new() }
    }

    /// Route one command against the single map.  DUMP replies nil; the
    /// snapshot itself is read through [`Self::store`] by the diagnostics
    /// sink.
    pub fn process_command(&mut self, command: Command) -> (r: Result<DataType, String>)
        requires
            old(self).wf(),
        ensures
            final(self).wf(),
            final(self).contents() == dispatch_effect(old(self).contents(), command@).0,
            r matches Ok(v) && v@ == dispatch_effect(old(self).contents(), command@).1,
    {
        match command {
            Command::SetCmd(command) => process_set(&mut self.map, command),
            Command::Get { key } => process_get(&self.map, key),
            Command::ConfigGet { .. } => Ok(config_get_reply()),
            Command::Dump => Ok(DataType::Nil),
        }
    }

    /// Interpret one decoded value at the given clock reading and route
    /// it.  An interpretation error comes back as an error value and
    /// leaves the store untouched; an unknown command name is thus
    /// reported in an error naming it.
    pub fn respond_at(&mut self, value: &DataType, now_ms: u128) -> (resp: DataType)
        requires
            old(self).wf(),
        ensures
            final(self).wf(),
            final(self).contents() == respond_effect(old(self).contents(), value@, now_ms).0,
            resp@ == respond_effect(old(self).contents(), value@, now_ms).1,
    {
        match value.to_command_at(now_ms) {
            Ok(command) => match self.process_command(command) {
                Ok(v) => v,
                Err(_) => unreached(),
            },
            Err(err) => DataType::Error(err),
        }
    }

    /// Read access to the map, for the diagnostics dump.
    pub fn store(&self) -> (m: &KvMap)
        requires
            self.wf(),
        ensures
            m.wf(),
            m.contents() == self.contents(),
    {
        &self.map
    }
}

} // verus!
