//! The ad-hoc operator query: the configured stream's current kilobit
//! reading rendered as decimal text.

use vstd::prelude::*;
use vstd::string::StringExecFns;

use crate::engine::spec_kbps;
use crate::stats::{opt_stream_view, opt_string_view, NginxRtmpStream, StreamView};

verus! {

/// The decimal digit character of a value below ten.
pub open spec fn digit_char(d: int) -> char {
    if d == 0 {
        '0'
    } else if d == 1 {
        '1'
    } else if d == 2 {
        '2'
    } else if d == 3 {
        '3'
    } else if d == 4 {
        '4'
    } else if d == 5 {
        '5'
    } else if d == 6 {
        '6'
    } else if d == 7 {
        '7'
    } else if d == 8 {
        '8'
    } else {
        '9'
    }
}

/// The decimal rendering of a number, most significant digit first, with
/// no sign and no padding.
pub open spec fn sp_decimal(n: int) -> Seq<char>
    decreases n,
{
    if n < 10 {
        seq![digit_char(n)]
    } else {
        sp_decimal(n / 10).push(digit_char(n % 10))
    }
}

fn digit_str(d: u32) -> (r: &'static str)
    requires
        d < 10,
    ensures
        r@ =~= seq![digit_char(d as int)],
{
    proof {
        reveal_strlit("0");
        reveal_strlit("1");
        reveal_strlit("2");
        reveal_strlit("3");
        reveal_strlit("4");
        reveal_strlit("5");
        reveal_strlit("6");
        reveal_strlit("7");
        reveal_strlit("8");
        reveal_strlit("9");
    }
    if d == 0 {
        "0"
    } else if d == 1 {
        "1"
    } else if d == 2 {
        "2"
    } else if d == 3 {
        "3"
    } else if d == 4 {
        "4"
    } else if d == 5 {
        "5"
    } else if d == 6 {
        "6"
    } else if d == 7 {
        "7"
    } else if d == 8 {
        "8"
    } else {
        "9"
    }
}

/// The decimal text of a number.
pub fn u32_decimal(n: u32) -> (s: String)
    ensures
        s@ == sp_decimal(n as int),
    decreases n,
{
    if n < 10 {
        digit_str(n).to_owned()
    } else {
        let mut s = u32_decimal(n / 10);
        s.append(digit_str(n % 10));
        proof {
            assert(s@ =~= sp_decimal((n / 10) as int).push(digit_char((n % 10) as int)));
        }
        s
    }
}

/// The report owed for a probe outcome: the kilobit reading as decimal
/// text when a record was fetched, absence otherwise.
pub open spec fn sp_bitrate_message(stats: Option<StreamView>) -> Option<Seq<char>> {
    match stats {
        None => None,
        Some(rec) => Some(sp_decimal(spec_kbps(rec) as int)),
    }
}

/// The operator-facing bitrate report: the configured stream's current
/// kilobit reading as decimal text, or `None` when the fetch yielded no
/// record, which the caller renders as "no data available".
pub fn bitrate_message(stats: &Option<NginxRtmpStream>) -> (res: Option<String>)
    ensures
        opt_string_view(res) == sp_bitrate_message(opt_stream_view(*stats)),
{
    match stats {
        None => None,
        Some(rec) => Some(u32_decimal(rec.bw_video / 1024)),
    }
}

} // verus!
