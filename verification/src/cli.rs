//! Argument handling of the `leaf` command-line tool: numeric arguments are
//! decimal `u32` field elements, and the first one that is not refuses the call.
use vstd::prelude::*;
use vstd::string::StringSliceAdditionalSpecFns;
use vstd::utf8::encode_utf8;
use crate::text::{parse_unsigned, parse_unsigned_spec, ParseFailure};

verus! {

/// The parse of one argument as a decimal `u32`.
pub open spec fn u32_arg(a: Seq<char>) -> Result<nat, ParseFailure> {
    parse_unsigned_spec(encode_utf8(a), 10, u32::MAX as nat)
}

/// Every argument parses.
pub open spec fn all_u32_args(args: Seq<String>) -> bool {
    forall|i: int| 0 <= i < args.len() ==> #[trigger] u32_arg(args[i]@) is Ok
}

/// Parse every argument as a decimal `u32`; the first that is not one is
/// reported as `not a u32: {arg}`.
pub fn parse_u32s(args: &[String]) -> (r: Result<Vec<u32>, String>)
    ensures
        r is Ok <==> all_u32_args(args@),
        r matches Ok(v) ==> v@.len() == args@.len()
            && forall|i: int| 0 <= i < args@.len() ==> u32_arg(#[trigger] args@[i]@) == Ok::<nat, ParseFailure>(v@[i] as nat),
        r matches Err(m) ==> exists|i: int| {
            &&& 0 <= i < args@.len()
            &&& u32_arg(#[trigger] args@[i]@) is Err
            &&& forall|j: int| 0 <= j < i ==> u32_arg(#[trigger] args@[j]@) is Ok
            &&& m@ == "not a u32: "@ + args@[i]@
        },
{
    let mut out: Vec<u32> = Vec::new();
    let mut i: usize = 0;
    while i < args.len()
        invariant
            i <= args@.len(),
            out@.len() == i,
            forall|j: int| 0 <= j < i ==> u32_arg(#[trigger] args@[j]@) == Ok::<nat, ParseFailure>(out@[j] as nat),
        decreases args@.len() - i,
    {
        let a = args[i].as_str();
        match parse_unsigned(a, 10, 0xFFFF_FFFFu64) {
            Ok(v) => {
                out.push(v as u32);
            },
            Err(_) => {
                let mut m = String::from_str("not a u32: ");
                m.append(a);
                assert(u32_arg(args@[i as int]@) is Err);
                assert(forall|j: int| 0 <= j < i ==> u32_arg(#[trigger] args@[j]@) is Ok);
                assert(!all_u32_args(args@));
                return Err(m);
            },
        }
        i = i + 1;
    }
    Ok(out)
}

} // verus!
