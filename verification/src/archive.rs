//! The source archive's gate: only an archive carrying the expected
//! format tag is processed at all; a mismatch fails fast, before any
//! scan work starts.

use vstd::prelude::*;

verus! {

/// The format tag a supported source archive declares.
pub open spec fn spec_format_tag() -> Seq<u8> {
    seq![65u8, 83u8, 84u8, 77u8, 32u8, 69u8, 53u8, 55u8, 32u8, 51u8, 68u8, 32u8, 73u8, 109u8, 97u8, 103u8, 105u8, 110u8, 103u8, 32u8, 68u8, 97u8, 116u8, 97u8, 32u8, 70u8, 105u8, 108u8, 101u8]
}

/// Byte-for-byte equality of two byte strings.
pub fn bytes_eq(a: &Vec<u8>, b: &Vec<u8>) -> (r: bool)
    ensures
        r == (a@ == b@),
{
    if a.len() != b.len() {
        return false;
    }
    let mut i: usize = 0;
    while i < a.len()
        invariant
            a@.len() == b@.len(),
            i <= a@.len(),
            forall|j: int| 0 <= j < i ==> a@[j] == b@[j],
        decreases a@.len() - i,
    {
        if a[i] != b[i] {
            return false;
        }
        i = i + 1;
    }
    proof {
        assert(a@ =~= b@);
    }
    true
}

/// Whether a declared format tag is the one this pipeline supports.
pub fn is_supported_format(name: &Vec<u8>) -> (r: bool)
    ensures
        r == (name@ == spec_format_tag()),
{
    let mut expected: Vec<u8> = Vec::new();
    expected.push(65);
    expected.push(83);
    expected.push(84);
    expected.push(77);
    expected.push(32);
    expected.push(69);
    expected.push(53);
    expected.push(55);
    expected.push(32);
    expected.push(51);
    expected.push(68);
    expected.push(32);
    expected.push(73);
    expected.push(109);
    expected.push(97);
    expected.push(103);
    expected.push(105);
    expected.push(110);
    expected.push(103);
    expected.push(32);
    expected.push(68);
    expected.push(97);
    expected.push(116);
    expected.push(97);
    expected.push(32);
    expected.push(70);
    expected.push(105);
    expected.push(108);
    expected.push(101);
    proof {
        assert(expected@ =~= spec_format_tag());
    }
    bytes_eq(name, &expected)
}

} // verus!
