//! Paths as text, in the notation of Unix systems.
use vstd::prelude::*;
use vstd::slice::slice_subrange;
use vstd::string::*;

use crate::text::{
    chars_of, cut_run, lemma_cut_run, lemma_cut_run_is, only, opt_view, other_than, string_of,
};

verus! {

/// Whether `path` starts at the root.
pub open spec fn is_absolute_path(path: Seq<char>) -> bool {
    path.len() > 0 && path[0] == '/'
}

/// `path` taken from the directory `base`. An absolute path replaces it.
pub open spec fn path_join(base: Seq<char>, path: Seq<char>) -> Seq<char> {
    if is_absolute_path(path) {
        path
    } else if base.len() == 0 || base.last() == '/' {
        base + path
    } else {
        base + "/"@ + path
    }
}

/// The last name in `path`, past trailing slashes and single dots. The root and
/// a path that ends in two dots have none.
pub open spec fn path_name(path: Seq<char>) -> Option<Seq<char>>
    decreases path.len(),
    via path_name_decreases
{
    let cut = cut_run(path, only('/'));
    if cut.len() == 0 {
        None
    } else {
        let start = cut_run(cut, other_than('/')).len() as int;
        let name = cut.skip(start);
        if name == seq!['.'] {
            path_name(cut.take(start))
        } else if name == seq!['.', '.'] {
            None
        } else {
            Some(name)
        }
    }
}

#[via_fn]
proof fn path_name_decreases(path: Seq<char>) {
    let cut = cut_run(path, only('/'));
    lemma_cut_run(path, only('/'));
    lemma_cut_run(cut, other_than('/'));
    let start = cut_run(cut, other_than('/')).len() as int;
    if cut.len() > 0 && cut.skip(start) == seq!['.'] {
        assert(cut.skip(start).len() == 1);
    }
}

/// The last name in a path holds no slash.
pub proof fn lemma_path_name_has_no_slash(path: Seq<char>)
    ensures
        path_name(path) matches Some(name) ==> !name.contains('/'),
    decreases path.len(),
{
    let cut = cut_run(path, only('/'));
    lemma_cut_run(path, only('/'));
    lemma_cut_run(cut, other_than('/'));
    if cut.len() > 0 {
        let start = cut_run(cut, other_than('/')).len() as int;
        let name = cut.skip(start);
        assert forall|i: int| 0 <= i < name.len() implies #[trigger] name[i] != '/' by {
            assert(other_than('/')(cut[start + i]));
        }
        if name == seq!['.'] {
            assert(name.len() == 1);
            lemma_path_name_has_no_slash(cut.take(start));
        }
    }
}

/// Whether `name` names an entry of the directory that it is taken from: it is
/// one name, and neither of the two that stand for directories.
pub open spec fn is_entry_name(name: Seq<char>) -> bool {
    name.len() > 0 && !name.contains('/') && name != seq!['.'] && name != seq!['.', '.']
}

/// Whether `path` is an entry of the directory `dir`.
pub open spec fn stands_in(dir: Seq<char>, path: Seq<char>) -> bool {
    exists|name: Seq<char>| is_entry_name(name) && path == #[trigger] path_join(dir, name)
}

/// What follows the last dot of the name of `path`, unless the name starts with
/// it.
pub open spec fn path_extension(path: Seq<char>) -> Option<Seq<char>> {
    match path_name(path) {
        Some(name) => {
            let head = cut_run(name, other_than('.')).len() as int;
            if head > 1 {
                Some(name.skip(head))
            } else {
                None
            }
        },
        None => None,
    }
}

/// Whether `path` starts at the root.
pub fn is_absolute(path: &str) -> (yes: bool)
    ensures
        yes == is_absolute_path(path@),
{
    let chars = chars_of(path);
    chars.len() > 0 && chars[0] == '/'
}

/// `path` taken from the directory `base`.
pub fn join_path(base: &str, path: &str) -> (joined: String)
    ensures
        joined@ == path_join(base@, path@),
{
    if is_absolute(path) {
        return path.to_string();
    }
    let chars = chars_of(base);
    let mut joined = base.to_string();
    if chars.len() > 0 && chars[chars.len() - 1] != '/' {
        joined.append("/");
    }
    joined.append(path);
    joined
}

/// The length of `s` without the trailing run of `c`.
fn cut_same(s: &[char], c: char) -> (end: usize)
    ensures
        end == cut_run(s@, only(c)).len(),
        end <= s@.len(),
        cut_run(s@, only(c)) == s@.take(end as int),
{
    let mut end: usize = s.len();
    while end > 0 && s[end - 1] == c
        invariant
            end <= s.len(),
            forall|k: int| end <= k < s@.len() ==> s@[k] == c,
        decreases end,
    {
        end -= 1;
    }
    proof {
        lemma_cut_run_is(s@, only(c), end as int);
    }
    end
}

/// The length of `s` without the trailing run of characters other than `c`.
fn cut_other(s: &[char], c: char) -> (end: usize)
    ensures
        end == cut_run(s@, other_than(c)).len(),
        end <= s@.len(),
{
    let mut end: usize = s.len();
    while end > 0 && s[end - 1] != c
        invariant
            end <= s.len(),
            forall|k: int| end <= k < s@.len() ==> s@[k] != c,
        decreases end,
    {
        end -= 1;
    }
    proof {
        lemma_cut_run_is(s@, other_than(c), end as int);
    }
    end
}

/// The last name in `path`.
fn name_chars<'a>(path: &'a [char]) -> (name: Option<&'a [char]>)
    ensures
        match name {
            Some(found) => path_name(path@) == Some(found@),
            None => path_name(path@) is None,
        },
    decreases path@.len(),
{
    let end = cut_same(path, '/');
    if end == 0 {
        return None;
    }
    let cut = slice_subrange(path, 0, end);
    assert(cut@ =~= cut_run(path@, only('/')));
    let start = cut_other(cut, '/');
    let name = slice_subrange(cut, start, cut.len());
    assert(name@ =~= cut@.skip(start as int));
    if name.len() == 1 && name[0] == '.' {
        assert(name@ =~= seq!['.']);
        let rest = slice_subrange(cut, 0, start);
        assert(rest@ =~= cut@.take(start as int));
        name_chars(rest)
    } else if name.len() == 2 && name[0] == '.' && name[1] == '.' {
        assert(name@ =~= seq!['.', '.']);
        assert(name@ != seq!['.']) by {
            assert(seq!['.'].len() == 1);
        }
        None
    } else {
        assert(name@ != seq!['.']) by {
            assert(seq!['.'].len() == 1);
        }
        assert(name@ != seq!['.', '.']) by {
            assert(seq!['.', '.'].len() == 2);
        }
        Some(name)
    }
}

/// The last name in `path`.
pub fn file_name(path: &str) -> (name: Option<String>)
    ensures
        opt_view(name) == path_name(path@),
{
    let chars = chars_of(path);
    match name_chars(chars.as_slice()) {
        Some(name) => Some(string_of(name)),
        None => None,
    }
}

/// What follows the last dot of the name of `path`.
pub fn extension(path: &str) -> (found: Option<String>)
    ensures
        opt_view(found) == path_extension(path@),
{
    let chars = chars_of(path);
    match name_chars(chars.as_slice()) {
        Some(name) => {
            let head = cut_other(name, '.');
            if head > 1 {
                let rest = slice_subrange(name, head, name.len());
                assert(rest@ =~= name@.skip(head as int));
                Some(string_of(rest))
            } else {
                None
            }
        },
        None => None,
    }
}

} // verus!
