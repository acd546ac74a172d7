//! The encoder: exact-byte serialization of a value for the wire.

use vstd::prelude::*;
use vstd::string::{StrSliceExecFns, StringExecFns};

use crate::datatypes::{views_of, DataType, DataV};
use crate::text::{dec_digits, usize_to_dec};

verus! {

broadcast use vstd::std_specs::vec::group_vec_axioms, vstd::seq::group_seq_axioms;

/// The exact wire text of one value:
/// `+s\r\n` for a simple string, `$<len>\r\ns\r\n` for a bulk string,
/// `*<count>\r\n` then the items for an array, `-s\r\n` for an error and
/// `$-1\r\n` for nil.
pub open spec fn wire_of(v: DataV) -> Seq<char>
    decreases v,
{
    match v {
        DataV::SimpleString(s) => "+"@ + s + "\r\n"@,
        DataV::BulkString(s) => "$"@ + dec_digits(s.len()) + "\r\n"@ + s + "\r\n"@,
        DataV::Array(items) => "*"@ + dec_digits(items.len()) + "\r\n"@ + wire_of_seq(items),
        DataV::Error(s) => "-"@ + s + "\r\n"@,
        DataV::Nil => "$-1\r\n"@,
    }
}

/// The wire texts of a sequence of values, concatenated.
pub open spec fn wire_of_seq(items: Seq<DataV>) -> Seq<char>
    decreases items,
{
    if items.len() == 0 {
        Seq::empty()
    } else {
        wire_of_seq(items.drop_last()) + wire_of(items.last())
    }
}

impl DataType {
    /// Serialize this value for the wire, character for character as
    /// [`wire_of`] lays it out.
    #[verifier::loop_isolation(false)]
    pub fn to_wire_protocol(&self) -> (out: String)
        ensures
            out@ == wire_of(self@),
        decreases *self,
    {
        match self {
            DataType::SimpleString(str) => {
                let mut s = String::from_str("+");
                s.append(str.as_str());
                s.append("\r\n");
                s
            },
            DataType::BulkString(str) => {
                let mut s = String::from_str("$");
                let digits = usize_to_dec(str.unicode_len());
                s.append(digits.as_str());
                s.append("\r\n");
                s.append(str.as_str());
                s.append("\r\n");
                s
            },
            DataType::Array(data) => {
                let mut s = String::from_str("*");
                let digits = usize_to_dec(data.len());
                s.append(digits.as_str());
                s.append("\r\n");
                let ghost views = views_of(data@);
                proof {
                    assert((self@)->Array_0 =~= views);
                }
                let n = data.len();
                let mut i: usize = 0;
                while i < n
                    invariant
                        i <= n,
                        s@ == "*"@ + dec_digits(n as nat) + "\r\n"@ + wire_of_seq(
                            views.take(i as int),
                        ),
                    decreases n - i,
                {
                    let piece = data[i].to_wire_protocol();
                    s.append(piece.as_str());
                    proof {
                        assert(views.take(i + 1).drop_last() =~= views.take(i as int));
                        assert(views.take(i + 1).last() == data@[i as int]@);
                    }
                    i += 1;
                }
                proof {
                    assert(views.take(n as int) =~= views);
                }
                s
            },
            DataType::Error(str) => {
                let mut s = String::from_str("-");
                s.append(str.as_str());
                s.append("\r\n");
                s
            },
            DataType::Nil => String::from_str("$-1\r\n"),
        }
    }
}

} // verus!
