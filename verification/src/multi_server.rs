//! The dispatcher an asynchronous server shares across its connection
//! tasks.  It routes commands exactly as the threaded dispatcher does; the
//! task plumbing around it lives outside the library.

use vstd::prelude::*;

use crate::commands::Command;
use crate::data::engine::InMemoryEngine;
use crate::data::shared::{config_get_reply, dispatch_effect};
use crate::datatypes::{DataType, RecordV};
use crate::parser::respond_effect;
use vstd::pervasive::unreached;

verus! {

pub struct Server {
    engine: InMemoryEngine,
}

impl Server {
    pub closed spec fn wf(&self) -> bool {
        self.engine.wf()
    }

    pub closed spec fn contents(&self) -> Map<Seq<char>, RecordV> {
        self.engine.contents()
    }

    pub fn new() -> (s: Server)
        ensures
            s.wf(),
            s.contents() == Map::<Seq<char>, RecordV>::empty(),
    {
        Server { engine: InMemoryEngine::new() }
    }

    /// Route one command, as [`crate::server::Server::process_command`]
    /// does.
    pub fn process_command(&mut self, command: Command) -> (r: Result<DataType, String>)
        requires
            old(self).wf(),
        ensures
            final(self).wf(),
            final(self).contents() == dispatch_effect(old(self).contents(), command@).0,
            r matches Ok(v) && v@ == dispatch_effect(old(self).contents(), command@).1,
    {
        match command {
            Command::SetCmd(command) => self.engine.process_set(command),
            Command::Get { key } => self.engine.process_get(key),
            Command::ConfigGet { .. } => Ok(config_get_reply()),
            Command::Dump => self.engine.process_dump(),
        }
    }

    /// Interpret one decoded value at the given clock reading and route
    /// it.  An interpretation error comes back as an error value and
    /// leaves the store untouched; an unknown command name is thus
    /// reported in an error naming it.
    pub fn respond_at(&mut self, value: &DataType, now_ms: u128) -> (resp: DataType)
        requires
            old(self).wf(),
        ensures
            final(self).wf(),
            final(self).contents() == respond_effect(old(self).contents(), value@, now_ms).0,
            resp@ == respond_effect(old(self).contents(), value@, now_ms).1,
    {
        match value.to_command_at(now_ms) {
            Ok(command) => match self.process_command(command) {
                Ok(v) => v,
                Err(_) => unreached(),
            },
            Err(err) => DataType::Error(err),
        }
    }

    /// Read access to the engine, for the diagnostics dump.
    pub fn engine(&self) -> (e: &InMemoryEngine)
        requires
            self.wf(),
        ensures
            e.wf(),
            e.contents() == self.contents(),
    {
        &self.engine
    }
}

} // verus!
