//! Log-file naming: the rule that every created text file carries a `.txt`
//! extension, exactly once.

use vstd::prelude::*;
use vstd::string::StringSliceAdditionalSpecFns;

verus! {

/// The `.txt` suffix as bytes.
pub open spec fn txt_suffix() -> Seq<u8> {
    seq!['.' as u8, 't' as u8, 'x' as u8, 't' as u8]
}

/// Whether a name already ends in `.txt`.
pub open spec fn has_txt_suffix(s: Seq<u8>) -> bool {
    s.len() >= 4 && s.subrange(s.len() - 4, s.len() as int) == txt_suffix()
}

/// The file name a caller-supplied name maps to: unchanged when it already
/// ends in `.txt`, else with `.txt` appended.
pub fn ensure_txt_extension(file_name: &str) -> (r: String)
    ensures
        has_txt_suffix(file_name.spec_bytes()) ==> r@ == file_name@,
        !has_txt_suffix(file_name.spec_bytes()) ==> r@ == file_name@ + ".txt"@,
{
    let bytes = file_name.as_bytes();
    let n = bytes.len();
    let pat: [u8; 4] = ['.' as u8, 't' as u8, 'x' as u8, 't' as u8];
    proof {
        assert(pat@ =~= txt_suffix());
    }
    let ends = if n >= 4 {
        let tail = &bytes[n - 4..n];
        proof {
            assert(tail@ =~= file_name.spec_bytes().subrange(
                file_name.spec_bytes().len() - 4,
                file_name.spec_bytes().len() as int,
            ));
        }
        crate::fixedpoint::bytes_eq(tail, pat.as_slice())
    } else {
        false
    };
    if ends {
        file_name.to_owned()
    } else {
        let base = file_name.to_owned();
        <String as vstd::string::StringExecFns>::concat(base, ".txt")
    }
}

} // verus!
