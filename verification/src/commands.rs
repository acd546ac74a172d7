//! Typed commands produced by the interpreter.

use vstd::prelude::*;

verus! {

/// Conditional-write qualifier on `SET`: write only when the key is absent
/// (`NX`) or only when it is already present (`XX`).
#[derive(Debug, PartialEq, Eq, Clone, Copy, Structural)]
pub enum SetExistingOptions {
    OnlySetIfNotExists,
    OnlySetIfExists,
}

/// A fully interpreted `SET` request.  `expiration`, when present, is an
/// absolute epoch-millisecond timestamp: relative forms (`EX`, `PX`) are
/// converted against one clock snapshot while the command is interpreted.
#[derive(Debug, PartialEq, Default)]
pub struct SetCommand {
    pub key: String,
    pub value: String,
    pub expiration: Option<u128>,
    pub set_existing: Option<SetExistingOptions>,
    pub keep_previous_ttl: bool,
    pub get_previous_value: bool,
}

/// Mathematical shape of a [`SetCommand`].
pub struct SetCommandV {
    pub key: Seq<char>,
    pub value: Seq<char>,
    pub expiration: Option<u128>,
    pub set_existing: Option<SetExistingOptions>,
    pub keep_previous_ttl: bool,
    pub get_previous_value: bool,
}

impl View for SetCommand {
    type V = SetCommandV;

    open spec fn view(&self) -> SetCommandV {
        SetCommandV {
            key: self.key@,
            value: self.value@,
            expiration: self.expiration,
            set_existing: self.set_existing,
            keep_previous_ttl: self.keep_previous_ttl,
            get_previous_value: self.get_previous_value,
        }
    }
}

/// A typed request, as the dispatcher consumes it.
#[derive(Debug, PartialEq)]
#[allow(inconsistent_fields)]
pub enum Command {
    SetCmd(SetCommand),
    Get { key: String },
    ConfigGet { key: Option<String> },
    Dump,
}

/// Mathematical shape of a [`Command`].
#[allow(inconsistent_fields)]
pub enum CommandV {
    SetCmd(SetCommandV),
    Get { key: Seq<char> },
    ConfigGet { key: Option<Seq<char>> },
    Dump,
}

impl View for Command {
    type V = CommandV;

    open spec fn view(&self) -> CommandV {
        match self {
            Command::SetCmd(c) => CommandV::SetCmd(c@),
            Command::Get { key } => CommandV::Get { key: key@ },
            Command::ConfigGet { key } => CommandV::ConfigGet {
                key: match key {
                    Some(k) => Some(k@),
                    None => None,
                },
            },
            Command::Dump => CommandV::Dump,
        }
    }
}

} // verus!
