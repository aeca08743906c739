//! Launch-argument handling: picking the directory a new window was asked
//! to open from the command-line arguments.

use vstd::prelude::*;
use vstd::string::StrSliceExecFns;

verus! {

/// Whether the argument at position `i` qualifies as the directory to open:
/// it follows the program name, it is not a flag, and the caller confirmed
/// it names a directory on disk (`dirs[i]`).
pub open spec fn is_directory_pick(args: Seq<String>, dirs: Seq<bool>, i: int) -> bool {
    1 <= i < args.len() && dirs[i] && !(args[i]@.len() > 0 && args[i]@[0] == '-')
}

/// Picks the directory a launch was asked to open: the first argument after
/// the program name that is not a flag and names an existing directory.
/// The caller supplies, for each argument, whether it is a directory on
/// disk, which keeps filesystem access outside this crate.
pub fn extract_directory_from_args(args: &Vec<String>, dirs: &Vec<bool>) -> (r: Option<String>)
    requires
        args@.len() == dirs@.len(),
    ensures
        match r {
            Option::Some(d) => exists|i: int|
                #[trigger] is_directory_pick(args@, dirs@, i) && d@ == args@[i]@ && (forall|j: int|
                    1 <= j < i ==> !is_directory_pick(args@, dirs@, j)),
            Option::None => forall|i: int| !is_directory_pick(args@, dirs@, i),
        },
{
    let mut i: usize = 1;
    while i < args.len()
        invariant
            args@.len() == dirs@.len(),
            1 <= i,
            forall|j: int| 1 <= j < i ==> !is_directory_pick(args@, dirs@, j),
        decreases args@.len() - i,
    {
        let a = &args[i];
        let is_flag = a.as_str().unicode_len() > 0 && a.as_str().get_char(0) == '-';
        if !is_flag && dirs[i] {
            let picked = a.clone();
            proof {
                assert(is_directory_pick(args@, dirs@, i as int));
            }
            return Some(picked);
        }
        i += 1;
    }
    None
}

} // verus!
