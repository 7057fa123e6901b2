//! Validating the caller's arguments and ordering the translation units:
//! the designated entry unit, when present, is moved to the front so its
//! bootstrap code comes first.

use vstd::prelude::*;
use vstd::string::*;

use crate::text::seq_views;
use crate::text::str_eq;

verus! {

/// The path names the entry unit: it is `Sys.vm` itself or ends in a
/// `/Sys.vm` component.
pub open spec fn is_sys_path(p: Seq<char>) -> bool {
    p == "Sys.vm"@ || (p.len() >= 7 && p.subrange(p.len() - 7, p.len() as int) == "/Sys.vm"@)
}

/// Index of the first entry-unit path, if any.
pub open spec fn find_sys_index(ps: Seq<Seq<char>>) -> Option<int>
    decreases ps.len(),
{
    if ps.len() == 0 {
        None
    } else if is_sys_path(ps[0]) {
        Some(0)
    } else {
        match find_sys_index(ps.drop_first()) {
            Some(i) => Some(i + 1),
            None => None,
        }
    }
}

pub proof fn lemma_find_sys_index(ps: Seq<Seq<char>>)
    ensures
        match find_sys_index(ps) {
            Some(i) => 0 <= i < ps.len() && is_sys_path(ps[i]) && (forall|k: int|
                0 <= k < i ==> !is_sys_path(#[trigger] ps[k])),
            None => forall|k: int| 0 <= k < ps.len() ==> !is_sys_path(#[trigger] ps[k]),
        },
    decreases ps.len(),
{
    if ps.len() > 0 && !is_sys_path(ps[0]) {
        let d = ps.drop_first();
        lemma_find_sys_index(d);
        match find_sys_index(d) {
            Some(i) => {
                assert(d[i] == ps[i + 1]);
                assert forall|k: int| 0 <= k < i + 1 implies !is_sys_path(#[trigger] ps[k]) by {
                    if k > 0 {
                        assert(d[k - 1] == ps[k]);
                    }
                }
            },
            None => {
                assert forall|k: int| 0 <= k < ps.len() implies !is_sys_path(#[trigger] ps[k]) by {
                    if k > 0 {
                        assert(d[k - 1] == ps[k]);
                    }
                }
            },
        }
    }
}

/// The unit order of one run: as given, except that the first entry-unit
/// path, when present, moves to the front.
pub open spec fn spec_order_units(ps: Seq<Seq<char>>) -> Seq<Seq<char>> {
    match find_sys_index(ps) {
        None => ps,
        Some(i) => seq![ps[i]] + ps.subrange(0, i) + ps.subrange(i + 1, ps.len() as int),
    }
}

fn is_sys_file(p: &str) -> (r: bool)
    ensures
        r == is_sys_path(p@),
{
    if str_eq(p, "Sys.vm") {
        return true;
    }
    let n = p.unicode_len();
    if n >= 7 {
        let tail = p.substring_char(n - 7, n);
        str_eq(tail, "/Sys.vm")
    } else {
        false
    }
}

/// Checks the command-line arguments and the unit paths found under them:
/// exactly one path argument must have been given and at least one unit
/// found, and the entry unit, when present, is moved to the front.
pub fn check_valid_vm_files(args: &Vec<String>, vm_files: Vec<String>) -> (r: Result<
    Vec<String>,
    String,
>)
    ensures
        match r {
            Result::Ok(v) => args@.len() == 2 && seq_views(vm_files@).len() > 0 && seq_views(v@)
                == spec_order_units(seq_views(vm_files@)),
            Result::Err(m) => if args@.len() != 2 {
                m@ == "Please enter a file path as an argument to the program."@
            } else {
                seq_views(vm_files@).len() == 0 && m@
                    == "Please ensure the file path entered has files of extension type *.vm"@
            },
        },
{
    if args.len() != 2 {
        return Err(String::from_str("Please enter a file path as an argument to the program."));
    }
    if vm_files.len() == 0 {
        return Err(
            String::from_str(
                "Please ensure the file path entered has files of extension type *.vm",
            ),
        );
    }
    let ghost vs = seq_views(vm_files@);
    let mut vm_files_vec = vm_files;
    let n = vm_files_vec.len();
    let mut i: usize = 0;
    while i < n
        invariant
            n == vm_files_vec@.len(),
            n > 0,
            i <= n,
            args@.len() == 2,
            vs == seq_views(vm_files@),
            vs == seq_views(vm_files_vec@),
            forall|k: int| 0 <= k < i ==> !is_sys_path(#[trigger] vs[k]),
        decreases n - i,
    {
        proof {
            assert(vs[i as int] == vm_files_vec@[i as int]@);
        }
        if is_sys_file(vm_files_vec[i].as_str()) {
            proof {
                lemma_find_sys_index(vs);
                match find_sys_index(vs) {
                    Some(j) => {
                        if j < i {
                            assert(!is_sys_path(vs[j]));
                        }
                        if (i as int) < j {
                            assert(!is_sys_path(vs[i as int]));
                        }
                    },
                    None => {
                        assert(!is_sys_path(vs[i as int]));
                    },
                }
                assert(find_sys_index(vs) == Some(i as int));
            }
            let sys_vm_file = vm_files_vec.remove(i);
            vm_files_vec.insert(0, sys_vm_file);
            proof {
                assert(seq_views(vm_files_vec@) =~= seq![vs[i as int]] + vs.subrange(0, i as int)
                    + vs.subrange(i + 1, vs.len() as int));
            }
            return Ok(vm_files_vec);
        }
        i += 1;
    }
    proof {
        lemma_find_sys_index(vs);
        match find_sys_index(vs) {
            Some(j) => {
                assert(!is_sys_path(vs[j]));
            },
            None => {
            },
        }
        assert(spec_order_units(vs) == vs);
    }
    Ok(vm_files_vec)
}

} // verus!
