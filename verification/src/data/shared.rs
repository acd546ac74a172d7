//! The storage operations every engine strategy shares, and the keyed hash
//! that routes a key to its shard.

use vstd::prelude::*;
use vstd::string::StringExecFns;

use std::hash::{Hash, Hasher, SipHasher};

use crate::commands::{CommandV, SetCommand, SetCommandV, SetExistingOptions};
use crate::data::store::KvMap;
use crate::datatypes::{
    data_view, text_of, DataType, DataV, RecordV, StorageRecord, StorageValue, ValueV,
};

verus! {

/// What std's SipHash-2-4 returns, under both keys zero, for a string.
pub uninterp spec fn sip_hash_of(s: Seq<char>) -> u64;

/// Relies on `std::hash::SipHasher` seeded with the fixed keys (0, 0): the
/// result is a deterministic function of the hashed string alone, so a key
/// routes to the same shard on every call and in every run.
#[allow(deprecated)]
#[verifier::external_body]
pub(crate) fn hashy(str: &str) -> (res: u64)
    ensures
        res == sip_hash_of(str@),
{
    let mut hasher = SipHasher::new_with_keys(0, 0);
    str.hash(&mut hasher);
    hasher.finish()
}

/// The shard a key belongs to when the key space is split into
/// `shard_count` partitions.
pub open spec fn shard_of(key: Seq<char>, shard_count: u64) -> u64
    recommends
        shard_count > 0,
{
    sip_hash_of(key) % shard_count
}

/// The partition index for `key` among `shard_count` partitions.  The index
/// depends on the key alone, so every call on the same key yields the same
/// partition.
pub fn shard_index(key: &str, shard_count: u64) -> (i: u64)
    requires
        shard_count > 0,
    ensures
        i == shard_of(key@, shard_count),
{
    hashy(key) % shard_count
}

/// What a SET leaves in the map and replies.
///
/// The new time-to-live is the previous record's when `keep_previous_ttl`
/// asks for it and a record exists, else the command's own expiration.  The
/// write happens unconditionally, only when the key was present (`XX`), or
/// only when it was absent (`NX`).  The reply carries the previous value
/// when `get_previous_value` asks for it and a record exists, else a plain
/// `OK` — independently of whether the write happened.
pub open spec fn set_effect(m: Map<Seq<char>, RecordV>, cmd: SetCommandV) -> (Map<
    Seq<char>,
    RecordV,
>, DataV) {
    let had = m.contains_key(cmd.key);
    let ttl = if cmd.keep_previous_ttl && had {
        m[cmd.key].ttl
    } else {
        cmd.expiration
    };
    let rec = RecordV { value: ValueV::String(cmd.value), ttl };
    let write = match cmd.set_existing {
        None => true,
        Some(SetExistingOptions::OnlySetIfExists) => had,
        Some(SetExistingOptions::OnlySetIfNotExists) => !had,
    };
    let m2 = if write {
        m.insert(cmd.key, rec)
    } else {
        m
    };
    let reply = if cmd.get_previous_value && had {
        DataV::BulkString(text_of(m[cmd.key].value))
    } else {
        DataV::SimpleString("OK"@)
    };
    (m2, reply)
}

/// What a GET replies: the stored text, or nil when the key is absent.  The
/// stored expiration is never consulted.
pub open spec fn get_effect(m: Map<Seq<char>, RecordV>, key: Seq<char>) -> DataV {
    if m.contains_key(key) {
        DataV::BulkString(text_of(m[key].value))
    } else {
        DataV::Nil
    }
}

/// The fixed reply of the mocked `CONFIG GET`, whatever key it asks for.
pub open spec fn config_mock_reply() -> DataV {
    DataV::Array(
        seq![DataV::BulkString("save"@), DataV::BulkString("3600 1 300 100 60 10000"@)],
    )
}

/// What dispatching one command does to the stored contents and replies.
/// SET and GET work on the map; `CONFIG GET` is answered by a fixed mock;
/// DUMP changes nothing and replies nil.
pub open spec fn dispatch_effect(m: Map<Seq<char>, RecordV>, cmd: CommandV) -> (Map<
    Seq<char>,
    RecordV,
>, DataV) {
    match cmd {
        CommandV::SetCmd(c) => set_effect(m, c),
        CommandV::Get { key } => (m, get_effect(m, key)),
        CommandV::ConfigGet { .. } => (m, config_mock_reply()),
        CommandV::Dump => (m, DataV::Nil),
    }
}

/// Build the fixed `CONFIG GET` mock reply.
pub fn config_get_reply() -> (d: DataType)
    ensures
        d@ == config_mock_reply(),
{
    let mut items: Vec<DataType> = Vec::new();
    items.push(DataType::BulkString(String::from_str("save")));
    items.push(DataType::BulkString(String::from_str("3600 1 300 100 60 10000")));
    let d = DataType::Array(items);
    proof {
        assert(items@.len() == 2);
        assert(data_view(items@[0]) == DataV::BulkString("save"@));
        assert(data_view(items@[1]) == DataV::BulkString("3600 1 300 100 60 10000"@));
        let g = d@->Array_0;
        assert(g.len() == 2);
        assert(g[0] == DataV::BulkString("save"@));
        assert(g[1] == DataV::BulkString("3600 1 300 100 60 10000"@));
        assert(g =~= config_mock_reply()->Array_0);
    }
    d
}

/// Run a SET against one map.
pub fn process_set(map: &mut KvMap, cmd: SetCommand) -> (r: Result<DataType, String>)
    requires
        old(map).wf(),
    ensures
        final(map).wf(),
        final(map).contents() == set_effect(old(map).contents(), cmd@).0,
        r matches Ok(v) && v@ == set_effect(old(map).contents(), cmd@).1,
{
    let previous = map.get(cmd.key.as_str());
    let existed = previous.is_some();
    let previous_value: Option<String> = match (cmd.get_previous_value, &previous) {
        (true, Some(stored)) => match &stored.value {
            StorageValue::String(x) => Some(x.clone()),
        },
        _ => None,
    };
    let previous_ttl: Option<u128> = match (cmd.keep_previous_ttl, &previous) {
        (true, Some(stored)) => stored.ttl,
        _ => None,
    };

    let ttl = if cmd.keep_previous_ttl && existed {
        previous_ttl
    } else {
        cmd.expiration
    };
    let storage_record = StorageRecord { ttl, value: StorageValue::String(cmd.value) };

    let should_insert = match cmd.set_existing {
        None => true,
        Some(SetExistingOptions::OnlySetIfExists) => existed,
        Some(SetExistingOptions::OnlySetIfNotExists) => !existed,
    };

    if should_insert {
        map.insert(cmd.key, storage_record);
    }

    match previous_value {
        Some(value) => Ok(DataType::BulkString(value)),
        None => Ok(DataType::SimpleString(String::from_str("OK"))),
    }
}

/// Run a GET against one map.
pub fn process_get(map: &KvMap, key: String) -> (r: Result<DataType, String>)
    requires
        map.wf(),
    ensures
        r matches Ok(v) && v@ == get_effect(map.contents(), key@),
{
    let val = map.get(key.as_str());
    match val {
        Some(StorageRecord { value: StorageValue::String(x), .. }) => Ok(
            DataType::BulkString(x.clone()),
        ),
        None => Ok(DataType::Nil),
    }
}

/// A SET with no existence condition stores the command's value: a GET of
/// the same key right after returns exactly that value.
pub proof fn lemma_set_then_get(m: Map<Seq<char>, RecordV>, cmd: SetCommandV)
    requires
        cmd.set_existing is None,
    ensures
        get_effect(set_effect(m, cmd).0, cmd.key) == DataV::BulkString(cmd.value),
{
}

/// When an `NX` write created a key, a second `NX` write to it is a no-op:
/// the map is untouched and the first value stays readable.
pub proof fn lemma_nx_second_write_ignored(
    m: Map<Seq<char>, RecordV>,
    cmd1: SetCommandV,
    cmd2: SetCommandV,
)
    requires
        !m.contains_key(cmd1.key),
        cmd1.set_existing == Some(SetExistingOptions::OnlySetIfNotExists),
        cmd2.set_existing == Some(SetExistingOptions::OnlySetIfNotExists),
        cmd2.key == cmd1.key,
    ensures
        set_effect(set_effect(m, cmd1).0, cmd2).0 == set_effect(m, cmd1).0,
        get_effect(set_effect(set_effect(m, cmd1).0, cmd2).0, cmd1.key) == DataV::BulkString(
            cmd1.value,
        ),
{
}

/// An `XX` write to an absent key stores nothing: the map is unchanged and
/// a GET of the key still returns nil.
pub proof fn lemma_xx_absent_leaves_no_record(m: Map<Seq<char>, RecordV>, cmd: SetCommandV)
    requires
        !m.contains_key(cmd.key),
        cmd.set_existing == Some(SetExistingOptions::OnlySetIfExists),
    ensures
        set_effect(m, cmd).0 == m,
        get_effect(set_effect(m, cmd).0, cmd.key) == DataV::Nil,
{
}

/// After a plain SET of one value, a SET of a second value that asks for
/// the previous one replies with the first value and stores the second.
pub proof fn lemma_set_returns_previous(
    m: Map<Seq<char>, RecordV>,
    cmd1: SetCommandV,
    cmd2: SetCommandV,
)
    requires
        cmd1.set_existing is None,
        cmd2.set_existing is None,
        cmd2.key == cmd1.key,
        cmd2.get_previous_value,
    ensures
        set_effect(set_effect(m, cmd1).0, cmd2).1 == DataV::BulkString(cmd1.value),
        get_effect(set_effect(set_effect(m, cmd1).0, cmd2).0, cmd2.key) == DataV::BulkString(
            cmd2.value,
        ),
{
}

/// A SET that asks to keep the previous time-to-live preserves the
/// expiration stored by an earlier SET, whatever expiration it carries
/// itself.
pub proof fn lemma_keep_ttl_preserves_expiration(
    m: Map<Seq<char>, RecordV>,
    cmd1: SetCommandV,
    cmd2: SetCommandV,
)
    requires
        cmd1.set_existing is None,
        !cmd1.keep_previous_ttl,
        cmd2.key == cmd1.key,
        cmd2.keep_previous_ttl,
        cmd2.set_existing != Some(SetExistingOptions::OnlySetIfNotExists),
    ensures
        set_effect(set_effect(m, cmd1).0, cmd2).0[cmd2.key].ttl == cmd1.expiration,
{
}

/// The expiration a SET stores is the command's own whenever it does not
/// ask to keep the previous one and the write goes through.
pub proof fn lemma_set_stores_expiration(m: Map<Seq<char>, RecordV>, cmd: SetCommandV)
    requires
        cmd.set_existing is None,
        !cmd.keep_previous_ttl,
    ensures
        set_effect(m, cmd).0[cmd.key].ttl == cmd.expiration,
{
}

} // verus!
