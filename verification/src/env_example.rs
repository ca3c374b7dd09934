//! The keys of an example environment file.
//!
//! The example file lists one `KEY=VALUE` pair per line. Empty lines and
//! comment lines, whose first character that is no white space is `#`, name
//! no key, and neither does a line without `=`. A key is what stands before
//! the first `=` of its line, as it is written. A key that is listed more
//! than once counts where it is listed first.

use crate::text::{
    chars_of, find_char, first_index, is_whitespace, is_whitespace_char,
    lemma_first_index_is_first, lemma_trim_start, lines,
    same_chars, slice_chars, split_lines, string_of, trim_start,
};
use vstd::prelude::*;

verus! {

/// Whether `line` is a comment: its first character that is no white space
/// is `#`.
pub open spec fn is_comment(line: Seq<char>) -> bool {
    let rest = trim_start(line);
    rest.len() > 0 && rest[0] == '#'
}

/// Whether `line` holds nothing but white space.
pub open spec fn is_blank(line: Seq<char>) -> bool {
    forall|i: int| 0 <= i < line.len() ==> is_whitespace(#[trigger] line[i])
}

/// The key that `line` names, if it names one.
pub open spec fn line_key(line: Seq<char>) -> Option<Seq<char>> {
    if line.len() == 0 || is_comment(line) || first_index(line, '=') >= line.len() {
        None
    } else {
        Some(line.take(first_index(line, '=') as int))
    }
}

/// Whether `key` holds no `=`, so that it ends where the `=` of its line
/// stands.
pub open spec fn is_plain_key(key: Seq<char>) -> bool {
    forall|k: int| 0 <= k < key.len() ==> key[k] != '='
}

/// The keys that `lines` name, each once, in the order in which they are
/// first named.
pub open spec fn keys_of_lines(lines: Seq<Seq<char>>) -> Seq<Seq<char>>
    decreases lines.len(),
{
    if lines.len() == 0 {
        Seq::empty()
    } else {
        let earlier = keys_of_lines(lines.drop_last());
        match line_key(lines.last()) {
            Some(key) => if earlier.contains(key) {
                earlier
            } else {
                earlier.push(key)
            },
            None => earlier,
        }
    }
}

/// The keys that the example environment text `text` lists.
pub open spec fn env_keys(text: Seq<char>) -> Seq<Seq<char>> {
    keys_of_lines(lines(text))
}

/// The position of the first of `lines` that names `key`, or the number of
/// lines where none does.
pub open spec fn first_line_naming(lines: Seq<Seq<char>>, key: Seq<char>) -> nat
    decreases lines.len(),
{
    if lines.len() == 0 || line_key(lines[0]) == Some(key) {
        0
    } else {
        1 + first_line_naming(lines.skip(1), key)
    }
}

/// Whether line `i` of `lines` names `key`.
pub open spec fn names_at(lines: Seq<Seq<char>>, i: int, key: Seq<char>) -> bool {
    0 <= i < lines.len() && line_key(lines[i]) == Some(key)
}

/// Whether one of `lines` names `key`.
pub open spec fn is_named(lines: Seq<Seq<char>>, key: Seq<char>) -> bool {
    exists|i: int| names_at(lines, i, key)
}

/// A line that is blank or a comment names no key.
pub proof fn lemma_blank_and_comment_lines_name_no_key(line: Seq<char>)
    requires
        is_blank(line) || is_comment(line),
    ensures
        line_key(line) is None,
{
    if !is_comment(line) {
        lemma_first_index_is_first(line, '=');
    }
}

/// `first_line_naming` is the least position of a line that names `key`.
pub proof fn lemma_first_line_naming(lines: Seq<Seq<char>>, key: Seq<char>, k: int)
    requires
        0 <= k <= lines.len(),
        forall|j: int| 0 <= j < k ==> !names_at(lines, j, key),
        k == lines.len() || names_at(lines, k, key),
    ensures
        first_line_naming(lines, key) == k,
    decreases k,
{
    if k > 0 {
        let rest = lines.skip(1);
        assert(!names_at(lines, 0, key));
        assert forall|j: int| 0 <= j < k - 1 implies !names_at(rest, j, key) by {
            assert(!names_at(lines, j + 1, key));
        }
        lemma_first_line_naming(rest, key, k - 1);
    }
}

/// No line before `first_line_naming` names `key`, and the line at it does
/// unless it is the number of lines.
pub proof fn lemma_first_line_naming_is_first(lines: Seq<Seq<char>>, key: Seq<char>)
    ensures
        first_line_naming(lines, key) <= lines.len(),
        forall|j: int| 0 <= j < first_line_naming(lines, key) ==> !names_at(lines, j, key),
        first_line_naming(lines, key) < lines.len() ==> names_at(
            lines,
            first_line_naming(lines, key) as int,
            key,
        ),
    decreases lines.len(),
{
    if lines.len() == 0 || line_key(lines[0]) == Some(key) {
    } else {
        let rest = lines.skip(1);
        lemma_first_line_naming_is_first(rest, key);
        let first = first_line_naming(lines, key);
        assert forall|j: int| 0 <= j < first implies !names_at(lines, j, key) by {
            if j > 0 {
                assert(!names_at(rest, j - 1, key));
            }
        }
    }
}

/// A key that is named before the last line is first named where it is
/// first named among the lines before the last.
proof fn lemma_first_line_naming_earlier(lines: Seq<Seq<char>>, key: Seq<char>)
    requires
        lines.len() > 0,
        is_named(lines.drop_last(), key),
    ensures
        first_line_naming(lines, key) == first_line_naming(lines.drop_last(), key),
        first_line_naming(lines, key) < lines.len() - 1,
{
    let earlier = lines.drop_last();
    let first = first_line_naming(earlier, key);
    lemma_first_line_naming_is_first(earlier, key);
    assert forall|j: int| 0 <= j < first implies !names_at(lines, j, key) by {
        assert(!names_at(earlier, j, key));
    }
    lemma_first_line_naming(lines, key, first as int);
}

/// The keys of some lines hold each key that a line names, and no other;
/// they hold none twice; and they stand in the order in which the lines
/// first name them.
pub proof fn lemma_keys_of_lines(lines: Seq<Seq<char>>)
    ensures
        keys_of_lines(lines).no_duplicates(),
        forall|key: Seq<char>| #[trigger]
            keys_of_lines(lines).contains(key) <==> is_named(lines, key),
        forall|a: int, b: int|
            0 <= a < b < keys_of_lines(lines).len() ==> first_line_naming(
                lines,
                #[trigger] keys_of_lines(lines)[a],
            ) < first_line_naming(lines, #[trigger] keys_of_lines(lines)[b]),
    decreases lines.len(),
{
    let keys = keys_of_lines(lines);
    if lines.len() == 0 {
        assert forall|key: Seq<char>| !is_named(lines, key) by {
            assert forall|i: int| !names_at(lines, i, key) by {}
        }
    } else {
        let earlier = lines.drop_last();
        let before = keys_of_lines(earlier);
        let last = lines.len() - 1;
        lemma_keys_of_lines(earlier);
        assert forall|key: Seq<char>| #[trigger] keys.contains(key) <==> is_named(
            lines,
            key,
        ) by {
            if is_named(lines, key) {
                let i = choose|i: int| names_at(lines, i, key);
                if i < last {
                    assert(names_at(earlier, i, key));
                    assert(before.contains(key));
                    let at = choose|at: int| 0 <= at < before.len() && before[at] == key;
                    assert(keys[at] == key);
                } else if !before.contains(key) {
                    assert(keys[before.len() as int] == key);
                }
            }
            if keys.contains(key) {
                let at = choose|at: int| 0 <= at < keys.len() && keys[at] == key;
                if at < before.len() {
                    assert(before.contains(key));
                    let i = choose|i: int| names_at(earlier, i, key);
                    assert(names_at(lines, i, key));
                } else {
                    assert(names_at(lines, last, key));
                }
            }
        }
        assert forall|a: int, b: int| 0 <= a < b < keys.len() implies first_line_naming(
            lines,
            #[trigger] keys[a],
        ) < first_line_naming(lines, #[trigger] keys[b]) by {
            assert(before.contains(keys[a]));
            lemma_first_line_naming_earlier(lines, keys[a]);
            if b < before.len() {
                assert(before.contains(keys[b]));
                lemma_first_line_naming_earlier(lines, keys[b]);
            } else {
                let key = keys[b];
                assert forall|j: int| 0 <= j < last implies !names_at(lines, j, key) by {
                    if names_at(lines, j, key) {
                        assert(names_at(earlier, j, key));
                    }
                }
                lemma_first_line_naming(lines, key, last);
            }
        }
    }
}

/// The keys of an example environment text come from its lines that are
/// neither blank nor comments; each key that such a line names is among
/// them once; and they stand in the order in which the text first names
/// them.
pub proof fn lemma_env_keys(text: Seq<char>)
    ensures
        forall|i: int|
            0 <= i < lines(text).len() && (is_blank(#[trigger] lines(text)[i]) || is_comment(
                lines(text)[i],
            )) ==> line_key(lines(text)[i]) is None,
        env_keys(text).no_duplicates(),
        forall|key: Seq<char>| #[trigger]
            env_keys(text).contains(key) <==> is_named(lines(text), key),
        forall|a: int, b: int|
            0 <= a < b < env_keys(text).len() ==> first_line_naming(
                lines(text),
                #[trigger] env_keys(text)[a],
            ) < first_line_naming(lines(text), #[trigger] env_keys(text)[b]),
{
    lemma_keys_of_lines(lines(text));
    assert forall|i: int|
        0 <= i < lines(text).len() && (is_blank(#[trigger] lines(text)[i]) || is_comment(
            lines(text)[i],
        )) implies line_key(lines(text)[i]) is None by {
        lemma_blank_and_comment_lines_name_no_key(lines(text)[i]);
    }
}

/// Every key of an example environment text is plain.
pub proof fn lemma_env_keys_are_plain(text: Seq<char>)
    ensures
        forall|i: int| 0 <= i < env_keys(text).len() ==> is_plain_key(#[trigger] env_keys(text)[i]),
{
    lemma_keys_of_lines(lines(text));
    assert forall|i: int| 0 <= i < env_keys(text).len() implies is_plain_key(
        #[trigger] env_keys(text)[i],
    ) by {
        let key = env_keys(text)[i];
        assert(env_keys(text).contains(key));
        let at = choose|at: int| names_at(lines(text), at, key);
        lemma_first_index_is_first(lines(text)[at], '=');
    }
}

/// A `Vec<char>` is viewed as the characters it holds, at any depth.
pub proof fn lemma_chars_deep_view(v: Vec<char>)
    ensures
        v.deep_view() == v@,
{
}

/// The key that `line` names, if it names one.
pub fn key_of_line(line: &Vec<char>) -> (key: Option<Vec<char>>)
    ensures
        match key {
            Some(k) => line_key(line@) == Some(k@),
            None => line_key(line@) is None,
        },
{
    if line.len() == 0 {
        return None;
    }
    let mut start: usize = 0;
    while start < line.len() && is_whitespace_char(line[start])
        invariant
            start <= line.len(),
            forall|j: int| 0 <= j < start ==> is_whitespace(line@[j]),
        decreases line.len() - start,
    {
        start += 1;
    }
    proof {
        lemma_trim_start(line@, start as int);
    }
    if start < line.len() && line[start] == '#' {
        return None;
    }
    assert(line@.skip(0) =~= line@);
    let at = find_char(line, 0, '=');
    if at >= line.len() {
        return None;
    }
    let key = slice_chars(line, 0, at);
    Some(key)
}

/// Whether `key` is among `keys`.
pub fn holds_key(keys: &Vec<Vec<char>>, key: &Vec<char>) -> (found: bool)
    ensures
        found == keys.deep_view().contains(key@),
{
    let mut i: usize = 0;
    while i < keys.len()
        invariant
            i <= keys.len(),
            forall|j: int| 0 <= j < i ==> keys.deep_view()[j] != key@,
        decreases keys.len() - i,
    {
        proof {
            lemma_chars_deep_view(keys@[i as int]);
        }
        if same_chars(&keys[i], key) {
            assert(keys.deep_view()[i as int] == key@);
            return true;
        }
        i += 1;
    }
    false
}

/// The keys that the example environment text `text` lists: for each line
/// that is neither empty nor a comment and holds `=`, what stands before its
/// first `=`; each key once, in the order in which the keys are first listed.
pub fn extract_env_keys(text: &str) -> (keys: Vec<String>)
    ensures
        keys.deep_view() == env_keys(text@),
{
    let chars = chars_of(text);
    let all = split_lines(&chars);
    let mut found: Vec<Vec<char>> = Vec::new();
    let mut i: usize = 0;
    while i < all.len()
        invariant
            i <= all.len(),
            found.deep_view() == keys_of_lines(all.deep_view().take(i as int)),
        decreases all.len() - i,
    {
        proof {
            lemma_chars_deep_view(all@[i as int]);
            assert(all.deep_view().take(i + 1).drop_last() =~= all.deep_view().take(i as int));
        }
        match key_of_line(&all[i]) {
            Some(key) => {
                if !holds_key(&found, &key) {
                    proof {
                        lemma_chars_deep_view(key);
                    }
                    found.push(key);
                }
            },
            None => {},
        }
        i += 1;
    }
    assert(all.deep_view().take(all.len() as int) =~= all.deep_view());
    let mut keys: Vec<String> = Vec::new();
    let mut j: usize = 0;
    while j < found.len()
        invariant
            j <= found.len(),
            keys.deep_view() == found.deep_view().take(j as int),
        decreases found.len() - j,
    {
        proof {
            lemma_chars_deep_view(found@[j as int]);
        }
        let key = string_of(&found[j]);
        keys.push(key);
        assert(found.deep_view().take(j + 1) =~= found.deep_view().take(j as int).push(
            found@[j as int]@,
        ));
        j += 1;
    }
    keys
}

} // verus!
