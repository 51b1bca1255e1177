//! Scan identifiers.
//!
//! A scan's identifier string becomes the unique identifier of its output
//! artifact: underscores are replaced by hyphens, and the result must
//! parse as a UUID.  A scan whose identifier does not parse is abandoned.

use vstd::prelude::*;

verus! {

/// The 128-bit value that parsing a byte string as a UUID yields, or
/// `None` where the bytes are no UUID in an accepted textual form.
pub uninterp spec fn uuid_of(s: Seq<u8>) -> Option<u128>;

/// Relies on `uuid::Uuid::parse_str` of the `uuid` crate: whether a byte
/// string parses as a UUID, and to which 128-bit value, depends on the
/// bytes alone.  Bytes that are no UTF-8 are no UUID in any form.
#[verifier::external_body]
fn parse_uuid(bytes: &Vec<u8>) -> (r: Option<u128>)
    ensures
        r == uuid_of(bytes@),
{
    match std::str::from_utf8(bytes) {
        Ok(s) => match uuid::Uuid::parse_str(s) {
            Ok(u) => Some(u.as_u128()),
            Err(_) => None,
        },
        Err(_) => None,
    }
}

/// The identifier with every underscore replaced by a hyphen.
pub open spec fn spec_hyphenate(s: Seq<u8>) -> Seq<u8> {
    s.map_values(|b: u8| if b == 95 { 45u8 } else { b })
}

/// Replace every underscore of the identifier by a hyphen.
pub fn hyphenate_guid(g: &Vec<u8>) -> (r: Vec<u8>)
    ensures
        r@ == spec_hyphenate(g@),
{
    let mut r: Vec<u8> = Vec::new();
    let mut i: usize = 0;
    while i < g.len()
        invariant
            i <= g.len(),
            r@ == spec_hyphenate(g@.take(i as int)),
        decreases g.len() - i,
    {
        let b = g[i];
        if b == 95 {
            r.push(45);
        } else {
            r.push(b);
        }
        proof {
            assert(g@.take((i + 1) as int).map_values(|b: u8| if b == 95 { 45u8 } else { b })
                =~= g@.take(i as int).map_values(|b: u8| if b == 95 { 45u8 } else { b }).push(
                if g@[i as int] == 95 { 45u8 } else { g@[i as int] }));
        }
        i = i + 1;
    }
    proof {
        assert(g@.take(g@.len() as int) =~= g@);
    }
    r
}

/// The identifier a scan's output carries: the scan identifier with
/// underscores replaced by hyphens, parsed as a UUID; `None` where it
/// does not parse, which abandons the scan.
pub fn scan_uuid(guid: &Vec<u8>) -> (r: Option<u128>)
    ensures
        r == uuid_of(spec_hyphenate(guid@)),
{
    let h = hyphenate_guid(guid);
    parse_uuid(&h)
}

/// Header settings of one scan's output artifact.
pub struct ScanHeader {
    pub guid: u128,
    pub has_color: bool,
    pub version_major: u8,
    pub version_minor: u8,
    pub generating_software: Vec<u8>,
}

/// `e57_to_las`, the fixed producer tag of every output artifact.
pub open spec fn spec_software_tag() -> Seq<u8> {
    seq![101u8, 53u8, 55u8, 95u8, 116u8, 111u8, 95u8, 108u8, 97u8, 115u8]
}

/// What a well-formed header of a scan with identifier `guid` holds:
/// the parsed identifier, a point format with color, the fixed target
/// version and the fixed producer tag.
pub open spec fn spec_header_ok(h: ScanHeader, guid: Seq<u8>) -> bool {
    &&& Some(h.guid) == uuid_of(spec_hyphenate(guid))
    &&& h.has_color == true
    &&& h.version_major == 1
    &&& h.version_minor == 4
    &&& h.generating_software@ == spec_software_tag()
}

/// Build the header for one scan's output artifact.  This succeeds
/// exactly where the scan's identifier, underscores replaced by hyphens,
/// parses as a UUID; a scan without one is abandoned and produces
/// neither an artifact nor a station point.
pub fn scan_header(guid: &Vec<u8>) -> (r: Option<ScanHeader>)
    ensures
        r is Some <==> uuid_of(spec_hyphenate(guid@)) is Some,
        r is Some ==> spec_header_ok(r->Some_0, guid@),
{
    match scan_uuid(guid) {
        Some(g) => {
            let mut sw: Vec<u8> = Vec::new();
            sw.push(101);
            sw.push(53);
            sw.push(55);
            sw.push(95);
            sw.push(116);
            sw.push(111);
            sw.push(95);
            sw.push(108);
            sw.push(97);
            sw.push(115);
            proof {
                assert(sw@ =~= spec_software_tag());
            }
            Some(ScanHeader {
                guid: g,
                has_color: true,
                version_major: 1,
                version_minor: 4,
                generating_software: sw,
            })
        },
        None => None,
    }
}

} // verus!
