//! What holds of text, numbers and paths as a whole.
use vstd::prelude::*;

use crate::collections::{lists_keys, lists_values};
use crate::json::{text_at, text_array, JsonView};
use crate::numbers::{ascii_lower, decimal, decimal_int, same_ignoring_case};
use crate::paths::{
    is_absolute_path, is_entry_name, path_extension, path_join, path_name,
};
use crate::patterns::{
    contains_text, join, lemma_nothing_replaced, lines, replace_all, replace_char, stands_at,
    without_cr, without_prefix,
};
use crate::text::{
    cut_run, has_ink, index_from, is_white_space, lemma_cut_run, lemma_cut_run_is, lemma_run_end,
    lemma_run_end_is, only, other_than, run_end, trim, trim_start, trimmed_ink, white,
};

verus! {

// ---------------------------------------------------------------------------
// Text
// ---------------------------------------------------------------------------
/// White space are the control characters from the tab to the carriage return,
/// the space, and the spaces and separators beyond ASCII; no letter, digit or
/// punctuation mark is.
pub proof fn law_white_space(c: char)
    ensures
        is_white_space(c) <==> {
            let n = c as u32;
            9 <= n <= 13 || n == 32 || n == 133 || n == 160 || n == 5760 || 8192 <= n <= 8202 || n
                == 8232 || n == 8233 || n == 8239 || n == 8287 || n == 12288
        },
{
}

/// Trimming takes white space from both ends and nothing else.
pub proof fn law_trim(s: Seq<char>) -> (ends: (Seq<char>, Seq<char>))
    ensures
        s == ends.0 + trim(s) + ends.1,
        forall|i: int| 0 <= i < ends.0.len() ==> is_white_space(#[trigger] ends.0[i]),
        forall|i: int| 0 <= i < ends.1.len() ==> is_white_space(#[trigger] ends.1[i]),
        trim(s).len() > 0 ==> !is_white_space(trim(s)[0]) && !is_white_space(
            trim(s)[trim(s).len() - 1],
        ),
{
    lemma_run_end(s, 0, white());
    let from = run_end(s, 0, white());
    let rest = trim_start(s);
    lemma_cut_run(rest, white());
    let n = trim(s).len() as int;
    let head = s.take(from);
    let tail = rest.skip(n);
    assert(s =~= head + trim(s) + tail);
    assert forall|i: int| 0 <= i < head.len() implies is_white_space(#[trigger] head[i]) by {
        assert(white()(s[i]));
    }
    assert forall|i: int| 0 <= i < tail.len() implies is_white_space(#[trigger] tail[i]) by {
        assert(white()(rest[n + i]));
    }
    if n > 0 {
        assert(trim(s)[0] == s[from]);
        assert(!white()(s[from]));
        assert(!white()(trim(s).last()));
    }
    (head, tail)
}

/// Text has ink exactly where something other than white space stands in it.
pub proof fn law_ink(s: Seq<char>)
    ensures
        has_ink(s) <==> exists|i: int| 0 <= i < s.len() && !is_white_space(#[trigger] s[i]),
{
    let (head, tail) = law_trim(s);
    if has_ink(s) {
        assert(s[head.len() as int] == trim(s)[0]);
    }
    if exists|i: int| 0 <= i < s.len() && !is_white_space(#[trigger] s[i]) {
        let i = choose|i: int| 0 <= i < s.len() && !is_white_space(#[trigger] s[i]);
        if trim(s).len() == 0 {
            if i < head.len() {
                assert(s[i] == head[i]);
            } else {
                assert(s[i] == tail[i - head.len()]);
            }
        }
    }
}

/// Text that neither starts nor ends with white space is trimmed already.
pub proof fn law_trimmed_stays(s: Seq<char>)
    requires
        s.len() > 0,
        !is_white_space(s[0]),
        !is_white_space(s[s.len() - 1]),
    ensures
        trim(s) == s,
        has_ink(s),
{
    lemma_run_end_is(s, 0, white(), 0);
    assert(trim_start(s) =~= s);
    lemma_cut_run_is(s, white(), s.len() as int);
    assert(s.take(s.len() as int) =~= s);
}

/// Trimmed text has no white space around it, and there is none where it would
/// be empty.
pub proof fn law_trimmed_ink(text: Option<Seq<char>>)
    ensures
        match text {
            Some(words) => if exists|i: int|
                0 <= i < words.len() && !is_white_space(#[trigger] words[i]) {
                trimmed_ink(text) == Some(trim(words))
            } else {
                trimmed_ink(text) is None
            },
            None => trimmed_ink(text) is None,
        },
{
    if let Some(words) = text {
        law_ink(words);
    }
}

/// Cutting takes a character from the end as often as it stands there.
pub proof fn law_cut(s: Seq<char>, c: char)
    ensures
        cut_run(s.push(c), only(c)) == cut_run(s, only(c)),
        s.len() == 0 || s.last() != c ==> cut_run(s, only(c)) == s,
{
    assert(s.push(c).drop_last() =~= s);
}

// ---------------------------------------------------------------------------
// Parts of text
// ---------------------------------------------------------------------------
/// A text stands at a place where its characters do.
pub proof fn law_stands_at(s: Seq<char>, at: int, part: Seq<char>)
    ensures
        stands_at(s, at, part) <==> 0 <= at && at + part.len() <= s.len() && forall|i: int|
            0 <= i < part.len() ==> s[at + i] == #[trigger] part[i],
        contains_text(s, part) <==> exists|head: Seq<char>, tail: Seq<char>|
            s == #[trigger] (head + part + tail),
{
    if stands_at(s, at, part) {
        assert forall|i: int| 0 <= i < part.len() implies s[at + i] == #[trigger] part[i] by {
            assert(s.subrange(at, at + part.len())[i] == part[i]);
        }
    }
    if 0 <= at && at + part.len() <= s.len() && forall|i: int|
        0 <= i < part.len() ==> s[at + i] == #[trigger] part[i] {
        assert(s.subrange(at, at + part.len()) =~= part);
    }
    if contains_text(s, part) {
        let k = choose|k: int| #[trigger] stands_at(s, k, part);
        assert(s =~= s.take(k) + part + s.skip(k + part.len()));
    }
    if exists|head: Seq<char>, tail: Seq<char>| s == #[trigger] (head + part + tail) {
        let (head, tail) = choose|head: Seq<char>, tail: Seq<char>|
            s == #[trigger] (head + part + tail);
        let k = head.len() as int;
        assert(s.subrange(k, k + part.len()) =~= part);
        assert(stands_at(s, k, part));
    }
}

/// A prefix is taken off where the text starts with it.
pub proof fn law_without_prefix(prefix: Seq<char>, rest: Seq<char>, other: Seq<char>)
    ensures
        without_prefix(prefix + rest, prefix) == Some(rest),
        without_prefix(other, prefix) matches Some(tail) ==> other == prefix + tail,
        without_prefix(other, prefix) is None ==> other.len() < prefix.len() || other.take(
            prefix.len() as int,
        ) != prefix,
{
    let s = prefix + rest;
    assert(prefix =~= s.take(prefix.len() as int));
    assert(s.skip(prefix.len() as int) =~= rest);
    if let Some(tail) = without_prefix(other, prefix) {
        assert(other =~= prefix + tail);
    }
}

/// Replacing goes through the text from the left: a match is replaced and what
/// follows it is looked at next; another character is kept.
pub proof fn law_replace(part: Seq<char>, with: Seq<char>, rest: Seq<char>, c: char)
    requires
        part.len() > 0,
    ensures
        replace_all(part + rest, part, with) == with + replace_all(rest, part, with),
        !part.is_prefix_of(seq![c] + rest) ==> replace_all(seq![c] + rest, part, with) == seq![c]
            + replace_all(rest, part, with),
        !contains_text(rest, part) ==> replace_all(rest, part, with) == rest,
{
    let s = part + rest;
    assert(part =~= s.take(part.len() as int));
    assert(s.skip(part.len() as int) =~= rest);
    assert((seq![c] + rest).skip(1) =~= rest);
    if !contains_text(rest, part) {
        lemma_nothing_replaced(rest, part, with);
    }
}

/// Replacing a character replaces it wherever it stands, and no other.
pub proof fn law_replace_char(s: Seq<char>, c: char, with: Seq<char>, x: char)
    ensures
        replace_char(s.push(x), c, with) == replace_char(s, c, with) + if x == c {
            with
        } else {
            seq![x]
        },
        replace_char(Seq::empty(), c, with) == Seq::<char>::empty(),
    decreases s.len(),
{
    let last = if x == c {
        with
    } else {
        seq![x]
    };
    let all = s.push(x);
    let none = Seq::<char>::empty();
    assert(replace_char(none, c, with) =~= none);
    if s.len() == 0 {
        assert(s =~= none);
        assert(all.skip(1) =~= none);
        if x == c {
            assert(seq![c] =~= all.take(1));
        } else {
            assert(all.take(1)[0] != seq![c][0]);
        }
        assert(replace_char(all, c, with) == last + replace_char(none, c, with));
        assert(last + none =~= none + last);
    } else {
        law_replace_char(s.skip(1), c, with, x);
        assert(all.skip(1) =~= s.skip(1).push(x));
        assert(all.take(1) =~= s.take(1));
        assert(seq![c].is_prefix_of(all) == seq![c].is_prefix_of(s));
        let rest = replace_char(s.skip(1), c, with);
        let head = if seq![c].is_prefix_of(s) {
            with
        } else {
            seq![s[0]]
        };
        assert(head + (rest + last) =~= head + rest + last);
    }
}

/// Joining puts the separator between neighbours.
pub proof fn law_join(parts: Seq<Seq<char>>, sep: Seq<char>, next: Seq<char>)
    ensures
        join(Seq::empty(), sep) == Seq::<char>::empty(),
        join(seq![next], sep) == next,
        parts.len() > 0 ==> join(parts.push(next), sep) == join(parts, sep) + sep + next,
{
    assert(parts.push(next).drop_last() =~= parts);
}

/// The lines of a text are what stands between its line feeds: no line holds
/// one, and with line feeds between them they make up the text again, up to a
/// line feed at its end.
pub proof fn law_lines(s: Seq<char>)
    requires
        !s.contains('\r'),
    ensures
        forall|i: int| 0 <= i < lines(s).len() ==> !(#[trigger] lines(s)[i]).contains('\n'),
        s.len() > 0 && s.last() == '\n' ==> join(lines(s), "\n"@) + "\n"@ == s,
        s.len() > 0 && s.last() != '\n' ==> join(lines(s), "\n"@) == s,
        s.len() == 0 <==> lines(s).len() == 0,
    decreases s.len(),
{
    reveal_strlit("\n");
    let feed = "\n"@;
    assert(feed =~= seq!['\n']);
    lemma_run_end(s, 0, other_than('\n'));
    let at = run_end(s, 0, other_than('\n'));
    if s.len() > 0 {
        let first = s.take(at);
        assert(!first.contains('\n')) by {
            if first.contains('\n') {
                let i = first.index_of('\n');
                assert(other_than('\n')(s[i]));
            }
        }
        if at < s.len() {
            let rest = s.skip(at + 1);
            assert(!rest.contains('\r')) by {
                if rest.contains('\r') {
                    let i = rest.index_of('\r');
                    assert(s[at + 1 + i] == '\r');
                }
            }
            if at > 0 {
                assert(s.contains(first.last()));
            }
            assert(without_cr(first) == first);
            law_lines(rest);
            let ls = lines(s);
            assert(ls == seq![first] + lines(rest));
            assert forall|i: int| 0 <= i < ls.len() implies !(#[trigger] ls[i]).contains(
                '\n',
            ) by {
                if i > 0 {
                    assert(ls[i] == lines(rest)[i - 1]);
                }
            }
            if rest.len() > 0 {
                lemma_join_head(first, lines(rest), feed);
                assert(rest.last() == s.last());
                assert(s =~= first + feed + rest);
                if s.last() == '\n' {
                    assert(first + feed + join(lines(rest), feed) + feed =~= first + feed + (join(
                        lines(rest),
                        feed,
                    ) + feed));
                }
            } else {
                assert(lines(rest) =~= Seq::<Seq<char>>::empty());
                assert(ls =~= seq![first]);
                assert(s =~= first + feed);
            }
        } else {
            assert(s.take(at) =~= s);
            assert(lines(s) =~= seq![s]);
        }
    } else {
        assert(index_from(s, 0, '\n') is None);
        assert(lines(s) =~= Seq::<Seq<char>>::empty());
    }
}

/// A line ends with a line feed, or with a carriage return and a line feed, which
/// are both left out; the last one may end with the text.
pub proof fn law_first_line(line: Seq<char>, rest: Seq<char>)
    requires
        !line.contains('\n'),
    ensures
        lines(line + seq!['\r', '\n'] + rest) == seq![line] + lines(rest),
        line.len() == 0 || line.last() != '\r' ==> lines(line + seq!['\n'] + rest) == seq![line]
            + lines(rest),
        line.len() > 0 ==> lines(line) == seq![line],
        lines(Seq::empty()).len() == 0,
{
    let n = line.len() as int;
    let closed = line + seq!['\r', '\n'] + rest;
    let fed = line + seq!['\n'] + rest;
    assert forall|k: int| 0 <= k < n implies other_than('\n')(#[trigger] line[k]) by {
        assert(line.contains(line[k]));
    }
    assert forall|k: int| 0 <= k < n + 1 implies other_than('\n')(#[trigger] closed[k]) by {
        if k < n {
            assert(closed[k] == line[k]);
        }
    }
    assert forall|k: int| 0 <= k < n implies other_than('\n')(#[trigger] fed[k]) by {
        assert(fed[k] == line[k]);
    }
    assert(closed[n] == '\r' && closed[n + 1] == '\n' && fed[n] == '\n');
    lemma_run_end_is(closed, 0, other_than('\n'), n + 1);
    lemma_run_end_is(fed, 0, other_than('\n'), n);
    lemma_run_end_is(line, 0, other_than('\n'), n);
    assert(index_from(closed, 0, '\n') == Some(n + 1));
    assert(index_from(fed, 0, '\n') == Some(n));
    assert(index_from(line, 0, '\n') is None);
    assert(closed.take(n + 1) =~= line.push('\r'));
    assert(line.push('\r').drop_last() =~= line);
    assert(closed.skip(n + 2) =~= rest);
    assert(fed.take(n) =~= line);
    assert(fed.skip(n + 1) =~= rest);
}

proof fn lemma_join_head(first: Seq<char>, rest: Seq<Seq<char>>, sep: Seq<char>)
    requires
        rest.len() > 0,
    ensures
        join(seq![first] + rest, sep) == first + sep + join(rest, sep),
    decreases rest.len(),
{
    let all = seq![first] + rest;
    assert(all.last() == rest.last());
    if rest.len() == 1 {
        assert(all.drop_last() =~= seq![first]);
        assert(join(seq![first], sep) == first);
    } else {
        lemma_join_head(first, rest.drop_last(), sep);
        assert(all.drop_last() =~= seq![first] + rest.drop_last());
        let more = join(rest.drop_last(), sep);
        assert(first + sep + more + sep + rest.last() =~= first + sep + (more + sep
            + rest.last()));
    }
}

// ---------------------------------------------------------------------------
// Numbers
// ---------------------------------------------------------------------------
/// A number with one more digit is written with that digit at the end.
pub proof fn law_decimal(n: nat, d: nat)
    requires
        d < 10,
    ensures
        decimal(d) == seq![(48 + d) as char],
        n > 0 ==> decimal(10 * n + d) == decimal(n).push((48 + d) as char),
        decimal_int(n as int) == decimal(n),
        n > 0 ==> decimal_int(-n) == seq!['-'] + decimal(n),
{
    assert((10 * n + d) / 10 == n);
    assert((10 * n + d) % 10 == d);
}

/// Only the 26 capital letters have small ones.
pub proof fn law_case(a: Seq<char>, b: Seq<char>)
    ensures
        same_ignoring_case(a, b) <==> a.len() == b.len() && forall|i: int|
            0 <= i < a.len() ==> {
                ||| #[trigger] a[i] == b[i]
                ||| 'A' <= a[i] <= 'Z' && b[i] as int == a[i] as int + 32
                ||| 'A' <= b[i] <= 'Z' && a[i] as int == b[i] as int + 32
            },
{
    assert forall|x: char, y: char|
        (ascii_lower(x) == ascii_lower(y)) == (x == y || ('A' <= x <= 'Z' && y as int == x as int
            + 32) || ('A' <= y <= 'Z' && x as int == y as int + 32)) by {
        if 'A' <= x <= 'Z' {
            assert(ascii_lower(x) as int == x as int + 32);
        }
        if 'A' <= y <= 'Z' {
            assert(ascii_lower(y) as int == y as int + 32);
        }
    }
    if same_ignoring_case(a, b) {
        assert forall|i: int| 0 <= i < a.len() implies {
            ||| #[trigger] a[i] == b[i]
            ||| 'A' <= a[i] <= 'Z' && b[i] as int == a[i] as int + 32
            ||| 'A' <= b[i] <= 'Z' && a[i] as int == b[i] as int + 32
        } by {
            assert(ascii_lower(a[i]) == ascii_lower(b[i]));
        }
    }
}

// ---------------------------------------------------------------------------
// Paths
// ---------------------------------------------------------------------------
/// A relative path is put behind the directory, one slash between them; an
/// absolute one stays.
pub proof fn law_path_join(dir: Seq<char>, path: Seq<char>)
    ensures
        path.len() > 0 && path[0] == '/' ==> path_join(dir, path) == path,
        !(path.len() > 0 && path[0] == '/') && dir.len() > 0 && dir.last() != '/' ==> path_join(
            dir,
            path,
        ) == dir.push('/') + path,
        !(path.len() > 0 && path[0] == '/') && (dir.len() == 0 || dir.last() == '/')
            ==> path_join(dir, path) == dir + path,
        is_absolute_path(path) <==> path.len() > 0 && path[0] == '/',
{
    reveal_strlit("/");
    assert(dir + "/"@ =~= dir.push('/'));
}

/// The name of an entry of a directory is its name, and the text after its last
/// dot is its extension.
pub proof fn law_path_name(dir: Seq<char>, name: Seq<char>)
    requires
        is_entry_name(name),
    ensures
        path_name(path_join(dir, name)) == Some(name),
{
    reveal_strlit("/");
    let path = path_join(dir, name);
    assert(!is_absolute_path(name)) by {
        assert(name.contains(name[0]));
    }
    let n = (path.len() - name.len()) as int;
    assert(path.skip(n) =~= name);
    assert(n == 0 || path[n - 1] == '/');
    assert forall|k: int| n <= k < path.len() implies path[k] != '/' by {
        assert(path[k] == name[k - n]);
        assert(name.contains(name[k - n]));
    }
    lemma_cut_run_is(path, only('/'), path.len() as int);
    assert(path.take(path.len() as int) =~= path);
    assert forall|k: int| n <= k < path.len() implies other_than('/')(#[trigger] path[k]) by {
    }
    lemma_cut_run_is(path, other_than('/'), n);
    assert(path.take(n).len() == n);
}

/// The extension of a file is what follows the last dot of its name.
pub proof fn law_path_extension(dir: Seq<char>, stem: Seq<char>, ext: Seq<char>)
    requires
        stem.len() > 0,
        !stem.contains('/'),
        !ext.contains('/'),
        !ext.contains('.'),
        is_entry_name(stem + seq!['.'] + ext),
    ensures
        path_extension(path_join(dir, stem + seq!['.'] + ext)) == Some(ext),
{
    let name = stem + seq!['.'] + ext;
    law_path_name(dir, name);
    let n = stem.len() as int + 1;
    assert forall|k: int| n <= k < name.len() implies other_than('.')(#[trigger] name[k]) by {
        assert(name[k] == ext[k - n]);
        assert(ext.contains(ext[k - n]));
    }
    assert(name[n - 1] == '.');
    lemma_cut_run_is(name, other_than('.'), n);
    assert(name.take(n).len() == n);
    assert(name.skip(n) =~= ext);
}

/// A name without a dot has no extension.
pub proof fn law_no_extension(dir: Seq<char>, name: Seq<char>)
    requires
        is_entry_name(name),
        !name.contains('.'),
    ensures
        path_extension(path_join(dir, name)) is None,
{
    law_path_name(dir, name);
    assert forall|k: int| 0 <= k < name.len() implies other_than('.')(#[trigger] name[k]) by {
        assert(name.contains(name[k]));
    }
    lemma_cut_run_is(name, other_than('.'), 0);
}

/// Slashes at the end of a path do not matter, nor does a single dot behind
/// one; a path that ends in two dots has no name.
pub proof fn law_path_ends(path: Seq<char>)
    ensures
        path_name(path.push('/')) == path_name(path),
        path.len() > 0 && path.last() == '/' ==> path_name(path.push('.')) == path_name(path),
        path.len() > 0 && path.last() == '/' ==> path_name(path + seq!['.', '.']) is None,
        path_name(Seq::empty()) is None,
{
    law_cut(path, '/');
    let none = Seq::<char>::empty();
    assert(cut_run(none, only('/')) =~= none);
    let one = path.push('.');
    let two = path + seq!['.', '.'];
    assert(one.last() == '.' && two.last() == '.');
    assert(cut_run(one, only('/')) == one);
    assert(cut_run(two, only('/')) == two);
    if path.len() > 0 && path.last() == '/' {
        let n = path.len() as int;
        assert(one[n - 1] == '/' && two[n - 1] == '/');
        lemma_cut_run_is(one, other_than('/'), n);
        lemma_cut_run_is(two, other_than('/'), n);
        assert(one.take(n) =~= path);
        assert(one.skip(n) =~= seq!['.']);
        assert(two.take(n) =~= path);
        assert(two.skip(n) =~= seq!['.', '.']);
        assert(seq!['.', '.'].len() != seq!['.'].len());
    }
}

/// A name that only starts with a dot has no extension.
pub proof fn law_hidden_names(dir: Seq<char>, name: Seq<char>)
    requires
        name.len() > 0,
        !name.contains('/'),
        !name.contains('.'),
    ensures
        path_extension(path_join(dir, seq!['.'] + name)) is None,
{
    let hidden = seq!['.'] + name;
    assert(!hidden.contains('/')) by {
        if hidden.contains('/') {
            let i = hidden.index_of('/');
            assert(name.contains(name[i - 1]));
        }
    }
    assert(hidden[1] == name[0]);
    assert(name.contains(name[0]));
    assert(hidden != seq!['.', '.']) by {
        if hidden == seq!['.', '.'] {
            assert(seq!['.', '.'][1] == '.');
        }
    }
    assert(hidden.len() > 1);
    law_path_name(dir, hidden);
    assert forall|k: int| 1 <= k < hidden.len() implies other_than('.')(#[trigger] hidden[k]) by {
        assert(hidden[k] == name[k - 1]);
        assert(name.contains(name[k - 1]));
    }
    lemma_cut_run_is(hidden, other_than('.'), 1);
}

/// The values of a map are listed without leaving one out, and without another.
pub proof fn law_listed_values<K, V>(map: Map<K, V>, values: Seq<V>, key: K, i: int)
    requires
        lists_values(map, values),
    ensures
        map.contains_key(key) ==> values.contains(map[key]),
        0 <= i < values.len() ==> exists|key: K|
            #[trigger] map.contains_key(key) && map[key] == values[i],
{
    let keys = choose|keys: Seq<K>| #[trigger]
        lists_keys(map, keys) && keys.len() == values.len() && forall|i: int|
            0 <= i < keys.len() ==> map[keys[i]] == #[trigger] values[i];
    if map.contains_key(key) {
        assert(keys.contains(key));
        let k = keys.index_of(key);
        assert(values[k] == map[keys[k]]);
    }
    if 0 <= i < values.len() {
        assert(map.contains_key(keys[i]));
        assert(map[keys[i]] == values[i]);
    }
}

// ---------------------------------------------------------------------------
// JSON
// ---------------------------------------------------------------------------
/// The text of an entry is the string that the entry holds.
pub proof fn law_text_at(entries: Map<Seq<char>, JsonView>, key: Seq<char>, text: Seq<char>)
    ensures
        text_at(entries, key) == Some(text) <==> entries.contains_key(key) && entries[key]
            == JsonView::Text(text),
        text_at(entries, key) is None <==> !(entries.contains_key(key) && entries[key] is Text),
{
}

/// A list of texts holds each text in its place.
pub proof fn law_text_array(texts: Seq<Seq<char>>)
    ensures
        text_array(texts) matches JsonView::Array(items) && items.len() == texts.len() && forall|
            i: int,
        |
            0 <= i < items.len() ==> #[trigger] items[i] == JsonView::Text(texts[i]),
{
}

} // verus!
