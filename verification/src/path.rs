//! Paths with `/` between their parts.
use vstd::prelude::*;

use crate::model::opt;
use crate::text::{same, split_at_char, split_on, strs, Str};

verus! {

/// Whether a part of a path names something: neither empty nor `.`.
pub open spec fn naming_part() -> spec_fn(Str) -> bool {
    |p: Str| p.len() > 0 && p != "."@
}

/// The parts of a path that name something.
pub open spec fn path_parts(s: Str) -> Seq<Str> {
    split_on(s, '/').filter(naming_part())
}

/// The parts of a path that name something.
pub fn parts_of(s: &str) -> (r: Vec<String>)
    ensures
        strs(r@) == path_parts(s@),
{
    let all = split_at_char(s, '/');
    let ghost seen = strs(all@);
    let mut out: Vec<String> = Vec::new();
    let mut i: usize = 0;
    reveal(Seq::filter);
    assert(seen.take(0) =~= Seq::<Str>::empty());
    assert(strs(out@) =~= Seq::<Str>::empty());
    while i < all.len()
        invariant
            i <= all@.len(),
            seen == strs(all@),
            strs(out@) == seen.take(i as int).filter(naming_part()),
        decreases all@.len() - i,
    {
        reveal(Seq::filter);
        let ghost before = strs(out@);
        assert(seen.take(i + 1).drop_last() =~= seen.take(i as int));
        assert(seen[i as int] == all@[i as int]@);
        if !all[i].as_str().is_empty() && !same(all[i].as_str(), ".") {
            out.push(all[i].clone());
            assert(strs(out@) =~= before.push(seen[i as int]));
        }
        i = i + 1;
    }
    assert(seen.take(seen.len() as int) =~= seen);
    out
}

/// The last part of a path, unless it leads upwards.
pub open spec fn file_name(s: Str) -> Option<Str> {
    let parts = path_parts(s);
    if parts.len() == 0 || parts.last() == ".."@ {
        None
    } else {
        Some(parts.last())
    }
}

/// The place of the last dot in front of place `end`.
pub open spec fn last_dot(s: Str, end: int) -> Option<int>
    decreases end,
{
    if end <= 0 {
        None
    } else if s[end - 1] == '.' {
        Some(end - 1)
    } else {
        last_dot(s, end - 1)
    }
}

/// The name without what follows its last dot; a dot in front does not count.
pub open spec fn stem_of(name: Str) -> Str {
    match last_dot(name, name.len() as int) {
        Some(k) => if k == 0 {
            name
        } else {
            name.take(k)
        },
        None => name,
    }
}

/// What follows the last dot of a name; a dot in front does not count.
pub open spec fn extension_of(name: Str) -> Option<Str> {
    match last_dot(name, name.len() as int) {
        Some(k) => if k == 0 {
            None
        } else {
            Some(name.skip(k + 1))
        },
        None => None,
    }
}

/// The stem of a path's file name.
pub open spec fn file_stem(s: Str) -> Option<Str> {
    match file_name(s) {
        Some(n) => Some(stem_of(n)),
        None => None,
    }
}

/// The extension of a path's file name.
pub open spec fn file_extension(s: Str) -> Option<Str> {
    match file_name(s) {
        Some(n) => extension_of(n),
        None => None,
    }
}

/// The last part of a path, unless it leads upwards.
pub fn name_of_path(s: &str) -> (r: Option<String>)
    ensures
        opt(r) == file_name(s@),
{
    let parts = parts_of(s);
    assert(strs(parts@).len() == parts@.len());
    if parts.len() == 0 {
        return None;
    }
    let last = parts[parts.len() - 1].clone();
    assert(strs(parts@).last() == last@);
    if same(last.as_str(), "..") {
        None
    } else {
        Some(last)
    }
}

fn find_last_dot(s: &str) -> (r: Option<usize>)
    ensures
        match r {
            Some(k) => last_dot(s@, s@.len() as int) == Some(k as int) && k < s@.len(),
            None => last_dot(s@, s@.len() as int) is None,
        },
{
    let mut end: usize = s.unicode_len();
    while end > 0
        invariant
            end <= s@.len(),
            last_dot(s@, s@.len() as int) == last_dot(s@, end as int),
        decreases end,
    {
        if s.get_char(end - 1) == '.' {
            return Some(end - 1);
        }
        end = end - 1;
    }
    None
}

/// The stem of a path's file name.
pub fn stem_of_path(s: &str) -> (r: Option<String>)
    ensures
        opt(r) == file_stem(s@),
{
    match name_of_path(s) {
        None => None,
        Some(n) => match find_last_dot(n.as_str()) {
            None => Some(n),
            Some(k) => if k == 0 {
                Some(n)
            } else {
                assert(n@.subrange(0, k as int) =~= n@.take(k as int));
                Some(n.as_str().substring_char(0, k).to_owned())
            },
        },
    }
}

/// The extension of a path's file name.
pub fn extension_of_path(s: &str) -> (r: Option<String>)
    ensures
        opt(r) == file_extension(s@),
{
    match name_of_path(s) {
        None => None,
        Some(n) => match find_last_dot(n.as_str()) {
            None => None,
            Some(k) => if k == 0 {
                None
            } else {
                let len: usize = n.as_str().unicode_len();
                assert(n@.subrange(k + 1, len as int) =~= n@.skip(k + 1));
                Some(n.as_str().substring_char(k + 1, len).to_owned())
            },
        },
    }
}

/// Whether a path starts at the root.
pub open spec fn is_absolute(s: Str) -> bool {
    s.len() > 0 && s[0] == '/'
}

/// Whether a path starts at the root.
pub fn absolute(s: &str) -> (r: bool)
    ensures
        r == is_absolute(s@),
{
    s.unicode_len() > 0 && s.get_char(0) == '/'
}

/// Whether some part of a path leads upwards.
pub open spec fn leads_up(s: Str) -> bool {
    split_on(s, '/').contains(".."@)
}

/// Whether some part of a path leads upwards.
pub fn goes_up(s: &str) -> (r: bool)
    ensures
        r == leads_up(s@),
{
    let parts = split_at_char(s, '/');
    crate::text::holds(&parts, "..")
}

/// Whether a path starts with the part `.`.
pub open spec fn starts_in_place(s: Str) -> bool {
    let parts = split_on(s, '/');
    parts.len() > 0 && parts[0] == "."@
}

/// Whether a path starts with the part `.`.
pub fn starts_here(s: &str) -> (r: bool)
    ensures
        r == starts_in_place(s@),
{
    let parts = split_at_char(s, '/');
    assert(parts@.len() > 0 ==> strs(parts@)[0] == parts@[0]@);
    parts.len() > 0 && same(parts[0].as_str(), ".")
}

} // verus!
