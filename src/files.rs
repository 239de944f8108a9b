//! Choosing a file name that is not taken yet.

use vstd::prelude::*;
use crate::digits::{decimal, push_decimal};
use crate::error::AppError;
use crate::text::{chars_of, string_of_range, same_text, concat};
use crate::update::{component_start, extension_dot, extension_dot_exec};

verus! {

/// The stem of a file name: its last component without the extension.
pub open spec fn stem_of(name: Seq<char>) -> Seq<char> {
    let d = extension_dot(name);
    if d >= 0 {
        name.subrange(component_start(name), d)
    } else {
        name.skip(component_start(name))
    }
}

/// The extension of a file name, without its dot (empty when it has none).
pub open spec fn extension_of(name: Seq<char>) -> Seq<char> {
    let d = extension_dot(name);
    if d >= 0 {
        name.skip(d + 1)
    } else {
        Seq::empty()
    }
}

/// The `k`-th name tried for `name`: the name itself, then `stem_k.ext`
/// (`stem_k` when there is no extension).
pub open spec fn candidate(name: Seq<char>, k: nat) -> Seq<char> {
    if k == 0 {
        name
    } else if extension_of(name).len() == 0 {
        stem_of(name) + "_"@ + decimal(k)
    } else {
        stem_of(name) + "_"@ + decimal(k) + "."@ + extension_of(name)
    }
}

/// Whether a name is among the names taken.
pub open spec fn is_taken(taken: Seq<String>, name: Seq<char>) -> bool {
    exists|i: int| 0 <= i < taken.len() && taken[i]@ == name
}

/// The number of names tried before giving up.
pub const MAX_ATTEMPTS: u64 = 9999;

fn is_taken_exec(taken: &Vec<String>, name: &str) -> (r: bool)
    ensures
        r == is_taken(taken@, name@),
{
    let mut i: usize = 0;
    while i < taken.len()
        invariant
            i <= taken@.len(),
            forall|j: int| 0 <= j < i ==> taken@[j]@ != name@,
        decreases taken.len() - i,
    {
        if same_text(taken[i].as_str(), name) {
            return true;
        }
        i = i + 1;
    }
    false
}

/// A name for a new file `filename` in a directory whose files are named
/// `existing`: the first of `filename`, `stem_1.ext`, `stem_2.ext`, ... up to
/// `stem_9998.ext` that is not taken. When all are taken, a file-system error.
pub fn resolve_filename_conflict(existing: &Vec<String>, filename: &str) -> (r: Result<
    String,
    AppError,
>)
    ensures
        r matches Ok(n) ==> exists|k: nat|
            k < MAX_ATTEMPTS && n@ == candidate(filename@, k) && !is_taken(existing@, n@) && forall|
                j: nat,
            |
                j < k ==> is_taken(existing@, #[trigger] candidate(filename@, j)),
        r is Err ==> forall|j: nat|
            j < MAX_ATTEMPTS ==> is_taken(existing@, #[trigger] candidate(filename@, j)),
        r matches Err(e) ==> e is FileSystemError,
{
    let cs = chars_of(filename);
    let dot = extension_dot_exec(&cs);
    let mut start: usize = cs.len();
    while start > 0 && !(cs[start - 1] == '/' || cs[start - 1] == '\\')
        invariant
            start <= cs@.len(),
            crate::update::last_separator_before(cs@, cs@.len() as int)
                == crate::update::last_separator_before(cs@, start as int),
        decreases start,
    {
        start = start - 1;
    }
    assert(component_start(cs@) == start as int);
    let (stem, ext) = match dot {
        Some(d) => {
            proof {
                lemma_dot_after_range(cs@, start as int, cs@.len() as int);
            }
            (string_of_range(&cs, start, d), string_of_range(&cs, d + 1, cs.len()))
        },
        None => (string_of_range(&cs, start, cs.len()), String::new()),
    };
    assert(stem@ == stem_of(filename@));
    assert(ext@ == extension_of(filename@)) by {
        if dot is Some {
            assert(cs@.subrange(dot.unwrap() + 1, cs@.len() as int) =~= cs@.skip(dot.unwrap() + 1));
        }
    }
    if !is_taken_exec(existing, filename) {
        assert(filename@ == candidate(filename@, 0));
        return Ok(filename.to_owned());
    }
    let mut k: u64 = 1;
    while k < MAX_ATTEMPTS
        invariant
            1 <= k <= MAX_ATTEMPTS,
            stem@ == stem_of(filename@),
            ext@ == extension_of(filename@),
            forall|j: nat| j < k ==> is_taken(existing@, #[trigger] candidate(filename@, j)),
        decreases MAX_ATTEMPTS - k,
    {
        let mut name = concat(stem.as_str(), "_");
        push_decimal(&mut name, k);
        if !ext.as_str().is_empty() {
            name.append(".");
            name.append(ext.as_str());
        }
        assert(name@ == candidate(filename@, k as nat));
        if !is_taken_exec(existing, name.as_str()) {
            return Ok(name);
        }
        k = k + 1;
    }
    Err(AppError::FileSystemError("无法生成唯一的文件名".to_owned()))
}

proof fn lemma_dot_after_range(p: Seq<char>, start: int, end: int)
    requires
        0 <= start,
        end <= p.len(),
    ensures
        crate::update::dot_after(p, start, end) == -1 || (start + 1 <= crate::update::dot_after(
            p,
            start,
            end,
        ) < end),
    decreases end - start,
{
    if end > start + 1 && p[end - 1] != '.' {
        lemma_dot_after_range(p, start, end - 1);
    }
}

} // verus!
