//! What a dump hands to the file system: the snapshot, the backing file's
//! path, and the temporary path that is written first and then renamed over
//! the backing file.

use vstd::prelude::*;
use vstd::string::StringExecFns;
use crate::error::{Error, ErrorCode};

verus! {

/// The character of a decimal digit.
pub open spec fn digit(d: nat) -> char {
    if d == 0 {
        '0'
    } else if d == 1 {
        '1'
    } else if d == 2 {
        '2'
    } else if d == 3 {
        '3'
    } else if d == 4 {
        '4'
    } else if d == 5 {
        '5'
    } else if d == 6 {
        '6'
    } else if d == 7 {
        '7'
    } else if d == 8 {
        '8'
    } else {
        '9'
    }
}

/// The decimal numeral of `n`, without leading zeros.
pub open spec fn decimal(n: nat) -> Seq<char>
    decreases n,
{
    if n < 10 {
        seq![digit(n)]
    } else {
        decimal(n / 10).push(digit(n % 10))
    }
}

/// What stands between the backing path and the time in a temporary path.
pub open spec fn temp_infix() -> Seq<char> {
    seq!['.', 't', 'e', 'm', 'p', '.']
}

/// The temporary path of a dump begun at `unix_secs`: the backing path,
/// `.temp.`, and the seconds in decimal.
pub open spec fn temp_path_of(path: Seq<char>, unix_secs: u64) -> Seq<char> {
    path + temp_infix() + decimal(unix_secs as nat)
}

/// A numeral is never empty.
pub proof fn lemma_decimal_nonempty(n: nat)
    ensures
        decimal(n).len() >= 1,
    decreases n,
{
    if n >= 10 {
        lemma_decimal_nonempty(n / 10);
    }
}

/// A temporary path is never the backing path itself, since it is longer.
pub proof fn lemma_temp_path_differs(path: Seq<char>, unix_secs: u64)
    ensures
        temp_path_of(path, unix_secs) != path,
        temp_path_of(path, unix_secs).len() > path.len(),
        path.is_prefix_of(temp_path_of(path, unix_secs)),
{
    lemma_decimal_nonempty(unix_secs as nat);
}

/// The one-character text of a decimal digit.
fn digit_text(d: u64) -> (s: &'static str)
    requires
        d < 10,
    ensures
        s@ == seq![digit(d as nat)],
{
    proof {
        reveal_strlit("0");
        reveal_strlit("1");
        reveal_strlit("2");
        reveal_strlit("3");
        reveal_strlit("4");
        reveal_strlit("5");
        reveal_strlit("6");
        reveal_strlit("7");
        reveal_strlit("8");
        reveal_strlit("9");
    }
    let s = if d == 0 {
        "0"
    } else if d == 1 {
        "1"
    } else if d == 2 {
        "2"
    } else if d == 3 {
        "3"
    } else if d == 4 {
        "4"
    } else if d == 5 {
        "5"
    } else if d == 6 {
        "6"
    } else if d == 7 {
        "7"
    } else if d == 8 {
        "8"
    } else {
        "9"
    };
    s
}

/// The decimal numeral of `n` as text.
pub fn decimal_text(n: u64) -> (s: String)
    ensures
        s@ == decimal(n as nat),
    decreases n,
{
    if n < 10 {
        digit_text(n).to_owned()
    } else {
        let mut s = decimal_text(n / 10);
        s.append(digit_text(n % 10));
        s
    }
}

/// The temporary path for a dump of the file at `path` begun at
/// `unix_secs`, seconds since the Unix epoch.
pub fn temp_file_path(path: &str, unix_secs: u64) -> (s: String)
    ensures
        s@ == temp_path_of(path@, unix_secs),
        s@ != path@,
{
    proof {
        reveal_strlit(".temp.");
        lemma_temp_path_differs(path@, unix_secs);
    }
    let mut s = path.to_owned();
    s.append(".temp.");
    let numeral = decimal_text(unix_secs);
    s.append(numeral.as_str());
    s
}

/// One dump, ready for the file system: write `bytes` to `temp_path`, then
/// rename `temp_path` over `db_path`.
#[derive(Debug)]
pub struct DumpJob {
    /// The path that is written first.
    pub temp_path: String,
    /// The backing file, replaced by the rename.
    pub db_path: String,
    /// The snapshot.
    pub bytes: Vec<u8>,
}

impl DumpJob {
    /// The job that writes what the snapshot encoder returned for the store
    /// at `db_path`, begun at `unix_secs`. An encoder's refusal is a
    /// serialization failure that carries its message.
    pub fn new(db_path: &str, unix_secs: u64, encoded: std::result::Result<Vec<u8>, String>) -> (r:
        std::result::Result<DumpJob, Error>)
        ensures
            match (encoded, r) {
                (Ok(bytes), Ok(job)) => {
                    &&& job.bytes == bytes
                    &&& job.db_path@ == db_path@
                    &&& job.temp_path@ == temp_path_of(db_path@, unix_secs)
                    &&& job.temp_path@ != job.db_path@
                },
                (Err(msg), Err(e)) => e.code() == ErrorCode::Serialization(msg),
                _ => false,
            },
    {
        match encoded {
            Ok(bytes) => Ok(
                DumpJob {
                    temp_path: temp_file_path(db_path, unix_secs),
                    db_path: db_path.to_owned(),
                    bytes,
                },
            ),
            Err(msg) => Err(Error::serialization(msg)),
        }
    }
}

} // verus!
