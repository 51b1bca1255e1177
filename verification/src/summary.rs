//! The summary document: one JSON array of station points.
//!
//! Every scan that completed with at least one written point contributes
//! one object of exactly the three keys `x`, `y` and `z`, in completion
//! order.  The caller hands each coordinate as an already rendered JSON
//! number token; this module owes the document its exact layout: no
//! wrapping object, no trailing metadata.

use vstd::prelude::*;
use crate::archive::bytes_eq;

verus! {

/// One step of the number grammar: states 0 start, 1 after a minus,
/// 2 a leading zero, 3 integer digits, 4 after the decimal point,
/// 5 fraction digits, 6 after the exponent mark, 7 after an exponent
/// sign, 8 exponent digits, 9 reject.
pub open spec fn num_step(st: u8, c: u8) -> u8 {
    if st == 0 {
        if c == 45 {
            1u8
        } else if c == 48 {
            2u8
        } else if 49 <= c && c <= 57 {
            3u8
        } else {
            9u8
        }
    } else if st == 1 {
        if c == 48 {
            2u8
        } else if 49 <= c && c <= 57 {
            3u8
        } else {
            9u8
        }
    } else if st == 2 {
        if c == 46 {
            4u8
        } else if c == 101 || c == 69 {
            6u8
        } else {
            9u8
        }
    } else if st == 3 {
        if 48 <= c && c <= 57 {
            3u8
        } else if c == 46 {
            4u8
        } else if c == 101 || c == 69 {
            6u8
        } else {
            9u8
        }
    } else if st == 4 {
        if 48 <= c && c <= 57 {
            5u8
        } else {
            9u8
        }
    } else if st == 5 {
        if 48 <= c && c <= 57 {
            5u8
        } else if c == 101 || c == 69 {
            6u8
        } else {
            9u8
        }
    } else if st == 6 {
        if c == 43 || c == 45 {
            7u8
        } else if 48 <= c && c <= 57 {
            8u8
        } else {
            9u8
        }
    } else if st == 7 || st == 8 {
        if 48 <= c && c <= 57 {
            8u8
        } else {
            9u8
        }
    } else {
        9u8
    }
}

/// A state of the number grammar that may end a token.
pub open spec fn num_accepting(st: u8) -> bool {
    st == 2 || st == 3 || st == 5 || st == 8
}

/// The state after reading `s` from position `i` on, starting in `st`.
pub open spec fn num_run(s: Seq<u8>, i: int, st: u8) -> u8
    decreases s.len() - i,
{
    if i < 0 || i >= s.len() {
        st
    } else {
        num_run(s, i + 1, num_step(st, s[i]))
    }
}

/// A well-formed JSON number token: an optional minus, an integer part
/// without a stray leading zero, an optional fraction, an optional
/// exponent.
pub open spec fn is_number_token(s: Seq<u8>) -> bool {
    num_accepting(num_run(s, 0, 0))
}

/// `null` as bytes: what a coordinate that is no finite number renders
/// to.
pub open spec fn spec_null_token() -> Seq<u8> {
    seq![110u8, 117u8, 108u8, 108u8]
}

/// A byte string the summary document accepts as one coordinate: a JSON
/// number, or `null`.
pub open spec fn spec_token_ok(t: Seq<u8>) -> bool {
    is_number_token(t) || t == spec_null_token()
}

fn num_step_exec(st: u8, c: u8) -> (r: u8)
    ensures
        r == num_step(st, c),
{
    if st == 0 {
        if c == 45 {
            1
        } else if c == 48 {
            2
        } else if 49 <= c && c <= 57 {
            3
        } else {
            9
        }
    } else if st == 1 {
        if c == 48 {
            2
        } else if 49 <= c && c <= 57 {
            3
        } else {
            9
        }
    } else if st == 2 {
        if c == 46 {
            4
        } else if c == 101 || c == 69 {
            6
        } else {
            9
        }
    } else if st == 3 {
        if 48 <= c && c <= 57 {
            3
        } else if c == 46 {
            4
        } else if c == 101 || c == 69 {
            6
        } else {
            9
        }
    } else if st == 4 {
        if 48 <= c && c <= 57 {
            5
        } else {
            9
        }
    } else if st == 5 {
        if 48 <= c && c <= 57 {
            5
        } else if c == 101 || c == 69 {
            6
        } else {
            9
        }
    } else if st == 6 {
        if c == 43 || c == 45 {
            7
        } else if 48 <= c && c <= 57 {
            8
        } else {
            9
        }
    } else if st == 7 || st == 8 {
        if 48 <= c && c <= 57 {
            8
        } else {
            9
        }
    } else {
        9
    }
}

/// Whether the bytes form a well-formed JSON number token.
pub fn check_number_token(s: &Vec<u8>) -> (r: bool)
    ensures
        r == is_number_token(s@),
{
    let mut st: u8 = 0;
    let mut i: usize = 0;
    while i < s.len()
        invariant
            i <= s@.len(),
            num_run(s@, 0, 0) == num_run(s@, i as int, st),
        decreases s@.len() - i,
    {
        st = num_step_exec(st, s[i]);
        i = i + 1;
    }
    st == 2 || st == 3 || st == 5 || st == 8
}

/// Whether the bytes are acceptable as one rendered coordinate: a JSON
/// number or `null`.
pub fn check_token(t: &Vec<u8>) -> (r: bool)
    ensures
        r == spec_token_ok(t@),
{
    if check_number_token(t) {
        return true;
    }
    let mut null_token: Vec<u8> = Vec::new();
    null_token.push(110);
    null_token.push(117);
    null_token.push(108);
    null_token.push(108);
    proof {
        assert(null_token@ =~= spec_null_token());
    }
    bytes_eq(t, &null_token)
}

/// One station point with its coordinates as rendered JSON number tokens.
pub struct StationText {
    pub x: Vec<u8>,
    pub y: Vec<u8>,
    pub z: Vec<u8>,
}

/// `{"x":` as bytes.
pub open spec fn spec_key_x() -> Seq<u8> {
    seq![123u8, 34u8, 120u8, 34u8, 58u8]
}

/// `,"y":` as bytes.
pub open spec fn spec_key_y() -> Seq<u8> {
    seq![44u8, 34u8, 121u8, 34u8, 58u8]
}

/// `,"z":` as bytes.
pub open spec fn spec_key_z() -> Seq<u8> {
    seq![44u8, 34u8, 122u8, 34u8, 58u8]
}

/// The object one station point becomes: exactly the three keys, in
/// order, and nothing else.
pub open spec fn spec_station_obj(s: StationText) -> Seq<u8> {
    spec_key_x() + s.x@ + spec_key_y() + s.y@ + spec_key_z() + s.z@ + seq![125u8]
}

/// The array body for the first `i` station points, comma-separated.
pub open spec fn spec_body(l: Seq<StationText>, i: int) -> Seq<u8>
    decreases i,
{
    if i <= 0 {
        Seq::empty()
    } else if i == 1 {
        spec_station_obj(l[0])
    } else {
        spec_body(l, i - 1) + seq![44u8] + spec_station_obj(l[i - 1])
    }
}

/// The whole summary document: a JSON array of the station objects, in
/// the order given.
pub open spec fn spec_stations_json(l: Seq<StationText>) -> Seq<u8> {
    seq![91u8] + spec_body(l, l.len() as int) + seq![93u8]
}

/// Append a byte string.
fn push_bytes(out: &mut Vec<u8>, s: &Vec<u8>)
    ensures
        final(out)@ == old(out)@ + s@,
{
    let mut j: usize = 0;
    while j < s.len()
        invariant
            j <= s@.len(),
            out@ == old(out)@ + s@.take(j as int),
        decreases s@.len() - j,
    {
        out.push(s[j]);
        proof {
            assert(old(out)@ + s@.take((j + 1) as int)
                =~= (old(out)@ + s@.take(j as int)).push(s@[j as int]));
        }
        j = j + 1;
    }
    proof {
        assert(s@.take(s@.len() as int) =~= s@);
    }
}

/// Append the object of one station point.
fn push_station(out: &mut Vec<u8>, s: &StationText)
    ensures
        final(out)@ == old(out)@ + spec_station_obj(*s),
{
    out.push(123);
    out.push(34);
    out.push(120);
    out.push(34);
    out.push(58);
    push_bytes(out, &s.x);
    out.push(44);
    out.push(34);
    out.push(121);
    out.push(34);
    out.push(58);
    push_bytes(out, &s.y);
    out.push(44);
    out.push(34);
    out.push(122);
    out.push(34);
    out.push(58);
    push_bytes(out, &s.z);
    out.push(125);
    proof {
        assert(out@ =~= old(out)@ + spec_station_obj(*s));
    }
}

/// Render the summary document for the given station points, in the
/// order given.
pub fn stations_json(stations: &Vec<StationText>) -> (r: Vec<u8>)
    ensures
        r@ == spec_stations_json(stations@),
{
    let mut out: Vec<u8> = Vec::new();
    out.push(91);
    let mut i: usize = 0;
    while i < stations.len()
        invariant
            i <= stations@.len(),
            out@ == seq![91u8] + spec_body(stations@, i as int),
        decreases stations@.len() - i,
    {
        if i > 0 {
            out.push(44);
        }
        push_station(&mut out, &stations[i]);
        proof {
            if i == 0 {
                assert(out@ =~= seq![91u8] + spec_body(stations@, 1));
            } else {
                assert(out@ =~= seq![91u8] + spec_body(stations@, (i + 1) as int));
            }
        }
        i = i + 1;
    }
    out.push(93);
    proof {
        assert(out@ =~= spec_stations_json(stations@));
    }
    out
}

/// Every coordinate token of every station is a JSON number or `null`.
pub open spec fn spec_stations_ok(l: Seq<StationText>) -> bool {
    forall|i: int|
        0 <= i < l.len() ==> spec_token_ok((#[trigger] l[i]).x@) && spec_token_ok(l[i].y@)
            && spec_token_ok(l[i].z@)
}

/// Render the summary document, vouching for it: the document is built
/// exactly where every handed coordinate token is a well-formed JSON
/// number or `null` — the document is then a valid JSON array of objects
/// of exactly the three keys — and refused otherwise.
pub fn checked_stations_json(stations: &Vec<StationText>) -> (r: Option<Vec<u8>>)
    ensures
        r is Some <==> spec_stations_ok(stations@),
        r is Some ==> r->Some_0@ == spec_stations_json(stations@),
{
    let mut i: usize = 0;
    while i < stations.len()
        invariant
            i <= stations@.len(),
            forall|j: int|
                0 <= j < i ==> spec_token_ok((#[trigger] stations@[j]).x@) && spec_token_ok(
                    stations@[j].y@) && spec_token_ok(stations@[j].z@),
        decreases stations@.len() - i,
    {
        let station = &stations[i];
        if !(check_token(&station.x) && check_token(&station.y) && check_token(&station.z)) {
            return None;
        }
        proof {
            assert(spec_token_ok(stations@[i as int].x@) && spec_token_ok(stations@[i as int].y@)
                && spec_token_ok(stations@[i as int].z@));
        }
        i = i + 1;
    }
    Some(stations_json(stations))
}

} // verus!
