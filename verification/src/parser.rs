//! The interpreter: from a decoded value to a typed command.
//!
//! The top-level value must be an array whose first element names the
//! command; the rest are its arguments.  Relative expirations (`EX`, `PX`)
//! are converted to absolute epoch milliseconds against one clock snapshot
//! taken when interpretation starts, so the flags of one command are
//! consistent with each other.

use vstd::prelude::*;
use vstd::slice::{slice_index_get, slice_subrange};
use vstd::string::StringExecFns;

use crate::commands::{Command, CommandV, SetCommand, SetCommandV, SetExistingOptions};
use crate::data::shared::{dispatch_effect, set_effect};
use crate::text::{
    all_digits, dec_digits, dec_val, lemma_dec_digits_roundtrip, lower_ascii, parse_u128, str_eq,
    to_ascii_lowercase,
};
use crate::datatypes::{data_view, views_of, DataType, DataV, RecordV};

verus! {

broadcast use vstd::std_specs::vec::group_vec_axioms, vstd::seq::group_seq_axioms;

/// Addition of epoch milliseconds, saturating at the top of the range.
pub open spec fn sat_add_u128(a: u128, b: u128) -> u128 {
    if a + b > u128::MAX {
        u128::MAX
    } else {
        (a + b) as u128
    }
}

/// Seconds to milliseconds, saturating at the top of the range.
pub open spec fn sat_mul_1000_u128(a: u128) -> u128 {
    if a * 1000 > u128::MAX {
        u128::MAX
    } else {
        (a * 1000) as u128
    }
}

fn sat_add(a: u128, b: u128) -> (r: u128)
    ensures
        r == sat_add_u128(a, b),
{
    if a > u128::MAX - b {
        u128::MAX
    } else {
        a + b
    }
}

fn sat_mul_1000(a: u128) -> (r: u128)
    ensures
        r == sat_mul_1000_u128(a),
{
    if a > u128::MAX / 1000 {
        proof {
            assert(1000 * (u128::MAX / 1000) + u128::MAX % 1000 == u128::MAX);
        }
        u128::MAX
    } else {
        proof {
            assert(1000 * (u128::MAX / 1000) + u128::MAX % 1000 == u128::MAX);
        }
        a * 1000
    }
}

/// Whether an executable result carries exactly the command or message a
/// specification-level result asks for.
pub open spec fn result_matches(r: Result<Command, String>, s: Result<CommandV, Seq<char>>) -> bool {
    match (r, s) {
        (Ok(c), Ok(cv)) => c@ == cv,
        (Err(e), Err(ev)) => e@ == ev,
        _ => false,
    }
}

/// One left-to-right pass over the option tokens of a SET, from position
/// `i`, refining `cmd`.
pub open spec fn parse_set_opts(
    now_ms: u128,
    elems: Seq<DataV>,
    i: int,
    cmd: SetCommandV,
) -> Result<SetCommandV, Seq<char>>
    decreases elems.len() - i,
{
    if i >= elems.len() {
        Ok(cmd)
    } else if !(elems[i] is BulkString) {
        Err("Invalid datatype, expected BulkString"@)
    } else {
        let tok = elems[i]->BulkString_0;
        if tok == "NX"@ {
            parse_set_opts(
                now_ms,
                elems,
                i + 1,
                SetCommandV { set_existing: Some(SetExistingOptions::OnlySetIfNotExists), ..cmd },
            )
        } else if tok == "XX"@ {
            parse_set_opts(
                now_ms,
                elems,
                i + 1,
                SetCommandV { set_existing: Some(SetExistingOptions::OnlySetIfExists), ..cmd },
            )
        } else if tok == "EX"@ {
            if i + 1 >= elems.len() || !(elems[i + 1] is BulkString) {
                Err("Invalid datatype, expected BulkString"@)
            } else {
                let num = elems[i + 1]->BulkString_0;
                if num.len() > 0 && all_digits(num) && dec_val(num) <= u64::MAX {
                    parse_set_opts(
                        now_ms,
                        elems,
                        i + 2,
                        SetCommandV {
                            expiration: Some(
                                sat_add_u128(now_ms, (dec_val(num) * 1000) as u128),
                            ),
                            ..cmd
                        },
                    )
                } else {
                    Err("Invalid numeric argument"@)
                }
            }
        } else if tok == "PX"@ {
            if i + 1 >= elems.len() || !(elems[i + 1] is BulkString) {
                Err("Invalid datatype, expected BulkString"@)
            } else {
                let num = elems[i + 1]->BulkString_0;
                if num.len() > 0 && all_digits(num) && dec_val(num) <= u64::MAX {
                    parse_set_opts(
                        now_ms,
                        elems,
                        i + 2,
                        SetCommandV {
                            expiration: Some(sat_add_u128(now_ms, dec_val(num) as u128)),
                            ..cmd
                        },
                    )
                } else {
                    Err("Invalid numeric argument"@)
                }
            }
        } else if tok == "EXAT"@ {
            if i + 1 >= elems.len() || !(elems[i + 1] is BulkString) {
                Err("Invalid datatype, expected BulkString"@)
            } else {
                let num = elems[i + 1]->BulkString_0;
                if num.len() > 0 && all_digits(num) && dec_val(num) <= u128::MAX {
                    parse_set_opts(
                        now_ms,
                        elems,
                        i + 2,
                        SetCommandV {
                            expiration: Some(sat_mul_1000_u128(dec_val(num) as u128)),
                            ..cmd
                        },
                    )
                } else {
                    Err("Invalid numeric argument"@)
                }
            }
        } else if tok == "PXAT"@ {
            if i + 1 >= elems.len() || !(elems[i + 1] is BulkString) {
                Err("Invalid datatype, expected BulkString"@)
            } else {
                let num = elems[i + 1]->BulkString_0;
                if num.len() > 0 && all_digits(num) && dec_val(num) <= u128::MAX {
                    parse_set_opts(
                        now_ms,
                        elems,
                        i + 2,
                        SetCommandV { expiration: Some(dec_val(num) as u128), ..cmd },
                    )
                } else {
                    Err("Invalid numeric argument"@)
                }
            }
        } else {
            Err("Invalid command sequence: "@ + tok)
        }
    }
}

/// A finished SET, or the error the option pass stopped on.
pub open spec fn wrap_set(r: Result<SetCommandV, Seq<char>>) -> Result<CommandV, Seq<char>> {
    match r {
        Ok(c) => Ok(CommandV::SetCmd(c)),
        Err(e) => Err(e),
    }
}

/// What parsing the arguments of a SET yields: key and value first, then
/// the option tokens.
pub open spec fn parse_set_spec(now_ms: u128, elems: Seq<DataV>) -> Result<CommandV, Seq<char>> {
    if elems.len() >= 2 && elems[0] is BulkString && elems[1] is BulkString {
        wrap_set(
            parse_set_opts(
                now_ms,
                elems,
                2,
                SetCommandV {
                    key: elems[0]->BulkString_0,
                    value: elems[1]->BulkString_0,
                    expiration: None,
                    set_existing: None,
                    keep_previous_ttl: false,
                    get_previous_value: false,
                },
            ),
        )
    } else {
        Err("Invalid structure"@)
    }
}

/// What parsing the arguments of a GET yields: exactly one key.
pub open spec fn parse_get_spec(elems: Seq<DataV>) -> Result<CommandV, Seq<char>> {
    if elems.len() == 1 && elems[0] is BulkString {
        Ok(CommandV::Get { key: elems[0]->BulkString_0 })
    } else {
        Err("Invalid structure"@)
    }
}

/// What interpreting a whole value yields at a given clock reading.
pub open spec fn to_command_spec(v: DataV, now_ms: u128) -> Result<CommandV, Seq<char>> {
    match v {
        DataV::Array(arr) => {
            if arr.len() == 0 {
                Err("Invalid array shape"@)
            } else {
                match arr[0] {
                    DataV::BulkString(name) => {
                        let low = lower_ascii(name);
                        let rest = arr.skip(1);
                        if low == "set"@ {
                            parse_set_spec(now_ms, rest)
                        } else if low == "get"@ {
                            parse_get_spec(rest)
                        } else if low == "dump"@ {
                            Ok(CommandV::Dump)
                        } else {
                            Err("Unknown command: "@ + low)
                        }
                    },
                    _ => Err("Invalid array command type, expected bulk string"@),
                }
            }
        },
        _ => Err("Invalid command"@),
    }
}

/// What one request/response round does to the store: a command is
/// dispatched; an interpretation error is reported back as an error value
/// and leaves the store untouched.
pub open spec fn respond_effect(m: Map<Seq<char>, RecordV>, v: DataV, now_ms: u128) -> (Map<
    Seq<char>,
    RecordV,
>, DataV) {
    match to_command_spec(v, now_ms) {
        Ok(c) => dispatch_effect(m, c),
        Err(e) => (m, DataV::Error(e)),
    }
}

/// `SET key value EX s`, interpreted at time `T`, carries the absolute
/// expiration `T + 1000·s` milliseconds, and running it stores exactly
/// that time-to-live.
pub proof fn lemma_ex_expiration_exact(
    now_ms: u128,
    key: Seq<char>,
    value: Seq<char>,
    secs: nat,
    m: Map<Seq<char>, RecordV>,
)
    requires
        secs <= u64::MAX,
        now_ms + secs * 1000 <= u128::MAX,
    ensures
        ({
            let elems = seq![
                DataV::BulkString(key),
                DataV::BulkString(value),
                DataV::BulkString("EX"@),
                DataV::BulkString(dec_digits(secs)),
            ];
            let c = SetCommandV {
                key,
                value,
                expiration: Some((now_ms + secs * 1000) as u128),
                set_existing: None,
                keep_previous_ttl: false,
                get_previous_value: false,
            };
            parse_set_spec(now_ms, elems) == Ok::<CommandV, Seq<char>>(CommandV::SetCmd(c))
                && set_effect(m, c).0[key].ttl == Some((now_ms + secs * 1000) as u128)
        }),
{
    reveal_strlit("NX");
    reveal_strlit("XX");
    reveal_strlit("EX");
    lemma_dec_digits_roundtrip(secs);
    let elems = seq![
        DataV::BulkString(key),
        DataV::BulkString(value),
        DataV::BulkString("EX"@),
        DataV::BulkString(dec_digits(secs)),
    ];
    assert("EX"@ != "NX"@ && "EX"@ != "XX"@) by {
        assert("EX"@[0] == 'E' && "NX"@[0] == 'N' && "XX"@[0] == 'X');
    }
    assert(elems[2]->BulkString_0 == "EX"@);
    assert(elems[3]->BulkString_0 == dec_digits(secs));
    reveal_with_fuel(parse_set_opts, 3);
}

/// `SET key value PXAT m` carries the expiration `m` verbatim, whatever
/// the clock says, and running it stores exactly that time-to-live.
pub proof fn lemma_pxat_expiration_exact(
    now_ms: u128,
    key: Seq<char>,
    value: Seq<char>,
    millis: nat,
    m: Map<Seq<char>, RecordV>,
)
    requires
        millis <= u128::MAX,
    ensures
        ({
            let elems = seq![
                DataV::BulkString(key),
                DataV::BulkString(value),
                DataV::BulkString("PXAT"@),
                DataV::BulkString(dec_digits(millis)),
            ];
            let c = SetCommandV {
                key,
                value,
                expiration: Some(millis as u128),
                set_existing: None,
                keep_previous_ttl: false,
                get_previous_value: false,
            };
            parse_set_spec(now_ms, elems) == Ok::<CommandV, Seq<char>>(CommandV::SetCmd(c))
                && set_effect(m, c).0[key].ttl == Some(millis as u128)
        }),
{
    reveal_strlit("NX");
    reveal_strlit("XX");
    reveal_strlit("EX");
    reveal_strlit("PX");
    reveal_strlit("EXAT");
    reveal_strlit("PXAT");
    lemma_dec_digits_roundtrip(millis);
    let elems = seq![
        DataV::BulkString(key),
        DataV::BulkString(value),
        DataV::BulkString("PXAT"@),
        DataV::BulkString(dec_digits(millis)),
    ];
    assert("PXAT"@ != "NX"@ && "PXAT"@ != "XX"@ && "PXAT"@ != "EX"@ && "PXAT"@ != "PX"@
        && "PXAT"@ != "EXAT"@) by {
        assert("PXAT"@.len() == 4 && "NX"@.len() == 2 && "XX"@.len() == 2 && "EX"@.len() == 2
            && "PX"@.len() == 2);
        assert("PXAT"@[0] == 'P' && "EXAT"@[0] == 'E');
    }
    assert(elems[2]->BulkString_0 == "PXAT"@);
    assert(elems[3]->BulkString_0 == dec_digits(millis));
    reveal_with_fuel(parse_set_opts, 3);
}

/// Relies on `std::time::SystemTime::now`: the clock reading in
/// milliseconds since the Unix epoch.  Nothing is assumed of the value.
#[verifier::external_body]
fn current_unix_timestamp_millis() -> u128 {
    let now = std::time::SystemTime::now();
    now.duration_since(std::time::UNIX_EPOCH).expect("SystemTime before UNIX EPOCH!").as_millis()
}

/// Parse the arguments of a SET: key, value, then option tokens.
pub fn parse_set(now_ms: u128, x: &[DataType]) -> (r: Result<Command, String>)
    ensures
        result_matches(r, parse_set_spec(now_ms, views_of(x@))),
{
    let n = x.len();
    if n < 2 {
        return Err(String::from_str("Invalid structure"));
    }
    let key: String = match slice_index_get(x, 0) {
        DataType::BulkString(k) => k.clone(),
        _ => {
            return Err(String::from_str("Invalid structure"));
        },
    };
    let value: String = match slice_index_get(x, 1) {
        DataType::BulkString(v) => v.clone(),
        _ => {
            return Err(String::from_str("Invalid structure"));
        },
    };
    let mut command = SetCommand {
        key,
        value,
        expiration: None,
        set_existing: None,
        keep_previous_ttl: false,
        get_previous_value: false,
    };
    let mut idx: usize = 2;
    while idx < n
        invariant
            2 <= idx <= n,
            n == x@.len(),
            parse_set_spec(now_ms, views_of(x@)) == wrap_set(
                parse_set_opts(now_ms, views_of(x@), idx as int, command@),
            ),
        decreases n - idx,
    {
        let tok: &String = match slice_index_get(x, idx) {
            DataType::BulkString(t) => t,
            _ => {
                return Err(String::from_str("Invalid datatype, expected BulkString"));
            },
        };
        if str_eq(tok.as_str(), "NX") {
            command.set_existing = Some(SetExistingOptions::OnlySetIfNotExists);
            idx += 1;
        } else if str_eq(tok.as_str(), "XX") {
            command.set_existing = Some(SetExistingOptions::OnlySetIfExists);
            idx += 1;
        } else if str_eq(tok.as_str(), "EX") {
            if idx + 1 >= n {
                return Err(String::from_str("Invalid datatype, expected BulkString"));
            }
            let num: &String = match slice_index_get(x, idx + 1) {
                DataType::BulkString(t) => t,
                _ => {
                    return Err(String::from_str("Invalid datatype, expected BulkString"));
                },
            };
            let seconds = match parse_u128(num.as_str()) {
                Some(v) => v,
                None => {
                    return Err(String::from_str("Invalid numeric argument"));
                },
            };
            if seconds > u64::MAX as u128 {
                return Err(String::from_str("Invalid numeric argument"));
            }
            command.expiration = Some(sat_add(now_ms, seconds * 1000));
            idx += 2;
        } else if str_eq(tok.as_str(), "PX") {
            if idx + 1 >= n {
                return Err(String::from_str("Invalid datatype, expected BulkString"));
            }
            let num: &String = match slice_index_get(x, idx + 1) {
                DataType::BulkString(t) => t,
                _ => {
                    return Err(String::from_str("Invalid datatype, expected BulkString"));
                },
            };
            let milliseconds = match parse_u128(num.as_str()) {
                Some(v) => v,
                None => {
                    return Err(String::from_str("Invalid numeric argument"));
                },
            };
            if milliseconds > u64::MAX as u128 {
                return Err(String::from_str("Invalid numeric argument"));
            }
            command.expiration = Some(sat_add(now_ms, milliseconds));
            idx += 2;
        } else if str_eq(tok.as_str(), "EXAT") {
            if idx + 1 >= n {
                return Err(String::from_str("Invalid datatype, expected BulkString"));
            }
            let num: &String = match slice_index_get(x, idx + 1) {
                DataType::BulkString(t) => t,
                _ => {
                    return Err(String::from_str("Invalid datatype, expected BulkString"));
                },
            };
            let seconds = match parse_u128(num.as_str()) {
                Some(v) => v,
                None => {
                    return Err(String::from_str("Invalid numeric argument"));
                },
            };
            command.expiration = Some(sat_mul_1000(seconds));
            idx += 2;
        } else if str_eq(tok.as_str(), "PXAT") {
            if idx + 1 >= n {
                return Err(String::from_str("Invalid datatype, expected BulkString"));
            }
            let num: &String = match slice_index_get(x, idx + 1) {
                DataType::BulkString(t) => t,
                _ => {
                    return Err(String::from_str("Invalid datatype, expected BulkString"));
                },
            };
            let milliseconds = match parse_u128(num.as_str()) {
                Some(v) => v,
                None => {
                    return Err(String::from_str("Invalid numeric argument"));
                },
            };
            command.expiration = Some(milliseconds);
            idx += 2;
        } else {
            return Err(String::from_str("Invalid command sequence: ").concat(tok.as_str()));
        }
    }
    Ok(Command::SetCmd(command))
}

/// Parse the arguments of a GET: exactly one key.
pub fn parse_get(x: &[DataType]) -> (r: Result<Command, String>)
    ensures
        result_matches(r, parse_get_spec(views_of(x@))),
{
    if x.len() != 1 {
        return Err(String::from_str("Invalid structure"));
    }
    match slice_index_get(x, 0) {
        DataType::BulkString(key) => Ok(Command::Get { key: key.clone() }),
        _ => Err(String::from_str("Invalid structure")),
    }
}

/// Parse a DUMP: all further elements are ignored.
pub fn parse_dump(_x: &[DataType]) -> (r: Result<Command, String>)
    ensures
        r matches Ok(c) && c@ == CommandV::Dump,
{
    Ok(Command::Dump)
}

impl DataType {
    /// Interpret this value as a command, against the given clock reading.
    pub fn to_command_at(&self, now_ms: u128) -> (r: Result<Command, String>)
        ensures
            result_matches(r, to_command_spec(self@, now_ms)),
    {
        match self {
            DataType::Array(arr) => {
                if arr.len() == 0 {
                    return Err(String::from_str("Invalid array shape"));
                }
                let first = slice_index_get(arr.as_slice(), 0);
                proof {
                    assert((self@)->Array_0[0] == data_view(arr@[0]));
                    crate::datatypes::lemma_data_view_shape(arr@[0]);
                }
                match first {
                    DataType::BulkString(name) => {
                        let lowered = to_ascii_lowercase(name.as_str());
                        let rest = slice_subrange(arr.as_slice(), 1, arr.len());
                        proof {
                            assert(views_of(rest@) =~= (self@)->Array_0.skip(1));
                        }
                        if str_eq(lowered.as_str(), "set") {
                            parse_set(now_ms, rest)
                        } else if str_eq(lowered.as_str(), "get") {
                            parse_get(rest)
                        } else if str_eq(lowered.as_str(), "dump") {
                            parse_dump(rest)
                        } else {
                            Err(String::from_str("Unknown command: ").concat(lowered.as_str()))
                        }
                    },
                    _ => Err(String::from_str("Invalid array command type, expected bulk string")),
                }
            },
            _ => {
                proof {
                    crate::datatypes::lemma_data_view_shape(*self);
                }
                Err(String::from_str("Invalid command"))
            },
        }
    }

    /// Interpret this value as a command, against the clock: the result is
    /// the interpretation at the one instant the clock was read.
    pub fn to_command(&self) -> (r: Result<Command, String>)
        ensures
            exists|now_ms: u128| result_matches(r, to_command_spec(self@, now_ms)),
    {
        let now_ms = current_unix_timestamp_millis();
        let r = self.to_command_at(now_ms);
        proof {
            assert(result_matches(r, to_command_spec(self@, now_ms)));
        }
        r
    }
}

} // verus!
