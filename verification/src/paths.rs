//! Path-shaped string logic: the file-name stem of the target command, the
//! allowed-target check, and the conventional store location beside an
//! inventory file.
//!
//! Paths are treated as plain character sequences with `/` as the
//! separator; no file system is consulted here.

use vstd::prelude::*;
use vstd::string::StrSliceExecFns;
use vstd::string::StringExecFns;

use crate::strutil::last_index_of;
use crate::strutil::lemma_last_index_of_props;
use crate::strutil::rfind_char;
use crate::strutil::str_eq;

verus! {

/// `s` with every trailing `/` removed.
pub open spec fn strip_trailing_slashes(s: Seq<char>) -> Seq<char>
    decreases s.len(),
{
    if s.len() > 0 && s[s.len() - 1] == '/' {
        strip_trailing_slashes(s.drop_last())
    } else {
        s
    }
}

/// The part of `s` after its last directory separator, trailing separators
/// ignored.
pub open spec fn basename(s: Seq<char>) -> Seq<char> {
    let t = strip_trailing_slashes(s);
    t.skip(last_index_of(t, '/') + 1)
}

/// `name` with its extension removed: everything before the last `.`,
/// unless the `.` is absent or leads the name.
pub open spec fn stem_of(name: Seq<char>) -> Seq<char> {
    let d = last_index_of(name, '.');
    if d <= 0 {
        name
    } else {
        name.take(d)
    }
}

/// The bare file-name stem of `path`: directory and extension stripped.
pub open spec fn file_stem(path: Seq<char>) -> Seq<char> {
    stem_of(basename(path))
}

/// The only target command this launcher accepts: a program whose
/// file-name stem is exactly `jetp`.
pub open spec fn is_jetp_target(path: Seq<char>) -> bool {
    file_stem(path) == "jetp"@
}

/// The store file conventionally expected beside an inventory file: the
/// inventory's directory (or the current directory, when the inventory
/// path has none) with `secrets.json` appended.
pub open spec fn store_beside(inventory: Seq<char>) -> Seq<char> {
    let p = last_index_of(inventory, '/');
    if p < 0 {
        "secrets.json"@
    } else {
        inventory.take(p + 1) + "secrets.json"@
    }
}

/// Computes `file_stem` on an executable path.
pub fn file_stem_of(path: &str) -> (r: String)
    ensures
        r@ == file_stem(path@),
{
    let n = path.unicode_len();
    let mut end: usize = n;
    proof {
        assert(path@.take(n as int) =~= path@);
    }
    loop
        invariant
            end <= n,
            n == path@.len(),
            strip_trailing_slashes(path@) == strip_trailing_slashes(path@.take(end as int)),
        ensures
            end <= n,
            strip_trailing_slashes(path@) == path@.take(end as int),
        decreases end,
    {
        if end == 0 {
            proof {
                assert(path@.take(0) =~= Seq::<char>::empty());
            }
            break ;
        }
        let ch = path.get_char(end - 1);
        if ch != '/' {
            proof {
                let t = path@.take(end as int);
                assert(t[t.len() - 1] != '/');
            }
            break ;
        }
        proof {
            let t = path@.take(end as int);
            assert(t[t.len() - 1] == '/');
            assert(t.drop_last() =~= path@.take(end - 1));
        }
        end = end - 1;
    }
    let trimmed = path.substring_char(0, end);
    proof {
        assert(trimmed@ =~= path@.take(end as int));
        assert(strip_trailing_slashes(path@) == trimmed@);
    }
    let base = match rfind_char(trimmed, '/') {
        Some(p) => trimmed.substring_char(p + 1, end),
        None => trimmed,
    };
    proof {
        lemma_last_index_of_props(trimmed@, '/');
        assert(base@ =~= trimmed@.skip(last_index_of(trimmed@, '/') + 1));
        assert(base@ == basename(path@));
    }
    let stem = match rfind_char(base, '.') {
        Some(d) => {
            if d == 0 {
                base
            } else {
                base.substring_char(0, d)
            }
        },
        None => base,
    };
    proof {
        assert(stem@ =~= stem_of(base@));
    }
    stem.to_owned()
}

/// Decides whether `path` names an allowed target program.
pub fn is_allowed_target(path: &str) -> (r: bool)
    ensures
        r == is_jetp_target(path@),
{
    let stem = file_stem_of(path);
    str_eq(stem.as_str(), "jetp")
}

/// Computes `store_beside` on an inventory path.
pub fn store_path_beside(inventory: &str) -> (r: String)
    ensures
        r@ == store_beside(inventory@),
{
    let n = inventory.unicode_len();
    match rfind_char(inventory, '/') {
        None => String::from_str("secrets.json"),
        Some(p) => {
            let prefix = inventory.substring_char(0, p + 1).to_owned();
            proof {
                assert(prefix@ =~= inventory@.take(p + 1));
            }
            prefix.concat("secrets.json")
        },
    }
}

} // verus!
