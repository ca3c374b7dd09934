//! The text of the environment file.
//!
//! The file holds one `KEY=VALUE` line per entry, in the order of the
//! entries, and neither begins nor ends with white space.

use crate::collector::{collected, is_kept, kept_from, lemma_collected, stored_value};
use crate::env_example::is_plain_key;
use crate::text::{
    first_index, is_whitespace, lemma_first_index, lemma_trim_end, lemma_trim_start, lines,
    push_str, string_of, trim, trim_chars,
};
use vstd::prelude::*;

verus! {

/// The line of the entry of `key` and `value`, with the line feed that
/// parts it from what stands before it.
pub open spec fn entry_line(key: Seq<char>, value: Seq<char>) -> Seq<char> {
    seq!['\n'] + key + seq!['='] + value
}

/// The lines of `entries`, each after a line feed.
pub open spec fn entry_lines(entries: Seq<(Seq<char>, Seq<char>)>) -> Seq<char>
    decreases entries.len(),
{
    if entries.len() == 0 {
        Seq::empty()
    } else {
        entry_lines(entries.drop_last()) + entry_line(entries.last().0, entries.last().1)
    }
}

/// The text of the environment file that holds `entries`.
pub open spec fn env_file_text(entries: Seq<(Seq<char>, Seq<char>)>) -> Seq<char> {
    trim(entry_lines(entries))
}

/// The line of the entry of `key` and `value`.
pub open spec fn entry_text(key: Seq<char>, value: Seq<char>) -> Seq<char> {
    key + seq!['='] + value
}

/// The line of each of `entries`, in their order.
pub open spec fn entry_texts(entries: Seq<(Seq<char>, Seq<char>)>) -> Seq<Seq<char>> {
    Seq::new(entries.len(), |i: int| entry_text(entries[i].0, entries[i].1))
}

/// Whether `entry` fits on one line: its key and its value hold no line
/// feed, and its value does not end with a carriage return, which a line
/// does not keep before its line feed.
pub open spec fn fits_a_line(entry: (Seq<char>, Seq<char>)) -> bool {
    &&& forall|j: int| 0 <= j < entry.0.len() ==> entry.0[j] != '\n'
    &&& forall|j: int| 0 <= j < entry.1.len() ==> entry.1[j] != '\n'
    &&& entry.1.len() > 0 ==> entry.1.last() != '\r'
}

/// Whether the file holds `entries` whole: each of them fits on one line,
/// and trimming the file takes nothing away, neither from the first key nor
/// from the last value.
pub open spec fn are_held_whole(entries: Seq<(Seq<char>, Seq<char>)>) -> bool {
    &&& forall|i: int| 0 <= i < entries.len() ==> fits_a_line(#[trigger] entries[i])
    &&& entries.len() > 0 && entries[0].0.len() > 0 ==> !is_whitespace(entries[0].0.first())
    &&& entries.len() > 0 && entries.last().1.len() > 0 ==> !is_whitespace(
        entries.last().1.last(),
    )
}

/// Whether `line` begins with `key` and the `=` after it.
pub open spec fn names_key(line: Seq<char>, key: Seq<char>) -> bool {
    (key + seq!['=']).is_prefix_of(line)
}

/// Whether line `l` of `text` begins with `key` and the `=` after it.
pub open spec fn names_key_at(text: Seq<char>, l: int, key: Seq<char>) -> bool {
    0 <= l < lines(text).len() && names_key(lines(text)[l], key)
}

/// Whether a line of `text` begins with `key` and the `=` after it.
pub open spec fn names_key_somewhere(text: Seq<char>, key: Seq<char>) -> bool {
    exists|l: int| names_key_at(text, l, key)
}

/// The lines of some entries begin with the line of the first of them.
proof fn lemma_entry_lines_front(entries: Seq<(Seq<char>, Seq<char>)>)
    requires
        entries.len() > 0,
    ensures
        entry_lines(entries) == entry_line(entries[0].0, entries[0].1) + entry_lines(
            entries.skip(1),
        ),
    decreases entries.len(),
{
    if entries.len() == 1 {
        assert(entry_lines(entries.drop_last()) =~= Seq::<char>::empty());
    } else {
        let earlier = entries.drop_last();
        lemma_entry_lines_front(earlier);
        assert(entries.skip(1).drop_last() =~= earlier.skip(1));
    }
}

/// The lines of the text that holds the lines of entries that each fit on
/// one line, parted by line feeds, are the lines of the entries.
proof fn lemma_lines_of_fitting_entries(entries: Seq<(Seq<char>, Seq<char>)>)
    requires
        entries.len() > 0,
        forall|i: int| 0 <= i < entries.len() ==> fits_a_line(#[trigger] entries[i]),
    ensures
        lines(entry_text(entries[0].0, entries[0].1) + entry_lines(entries.skip(1)))
            == entry_texts(entries),
    decreases entries.len(),
{
    let first = entry_text(entries[0].0, entries[0].1);
    let rest = entries.skip(1);
    let text = first + entry_lines(rest);
    assert(fits_a_line(entries[0]));
    assert(first[entries[0].0.len() as int] == '=');
    assert forall|j: int| 0 <= j < first.len() implies first[j] != '\n' by {}
    if rest.len() == 0 {
        assert(text =~= first);
        lemma_first_index(text, '\n', text.len() as int);
        assert(entry_texts(entries) =~= seq![first]);
    } else {
        assert forall|i: int| 0 <= i < rest.len() implies fits_a_line(#[trigger] rest[i]) by {
            assert(rest[i] == entries[i + 1]);
        }
        lemma_entry_lines_front(rest);
        let after = entry_text(rest[0].0, rest[0].1) + entry_lines(rest.skip(1));
        assert(text =~= first + seq!['\n'] + after);
        assert forall|j: int| 0 <= j < first.len() implies text[j] != '\n' by {
            assert(text[j] == first[j]);
        }
        lemma_first_index(text, '\n', first.len() as int);
        assert(text.take(first.len() as int) =~= first);
        assert(text.skip(first.len() as int + 1) =~= after);
        lemma_lines_of_fitting_entries(rest);
        // The line keeps its last character, which is no carriage return.
        if entries[0].1.len() > 0 {
            assert(first.last() == entries[0].1.last());
        }
        assert(first.last() != '\r');
        assert(seq![first] + entry_texts(rest) =~= entry_texts(entries));
    }
}

/// The environment file of entries that it holds whole has one line per
/// entry, in the order of the entries, and no other line: its lines are the
/// lines `KEY=VALUE` of the entries.
pub proof fn lemma_env_file_lines(entries: Seq<(Seq<char>, Seq<char>)>)
    requires
        are_held_whole(entries),
    ensures
        lines(env_file_text(entries)) == entry_texts(entries),
{
    if entries.len() == 0 {
        assert(entry_texts(entries) =~= Seq::<Seq<char>>::empty());
    } else {
        let all = entry_lines(entries);
        let first = entry_text(entries[0].0, entries[0].1);
        let last = entry_text(entries.last().0, entries.last().1);
        let text = first + entry_lines(entries.skip(1));
        lemma_entry_lines_front(entries);
        assert(all =~= seq!['\n'] + text);
        // Trimming takes the line feed at the start, and nothing else.
        assert(first[entries[0].0.len() as int] == '=');
        if entries[0].0.len() > 0 {
            assert(first[0] == entries[0].0.first());
        }
        assert(all[1] == first[0]);
        lemma_trim_start(all, 1);
        assert(all.skip(1) =~= text);
        assert(all =~= entry_lines(entries.drop_last()) + (seq!['\n'] + last));
        assert(last[entries.last().0.len() as int] == '=');
        if entries.last().1.len() > 0 {
            assert(last.last() == entries.last().1.last());
        }
        assert(text.last() == last.last());
        lemma_trim_end(text, text.len() as int);
        assert(text.take(text.len() as int) =~= text);
        lemma_lines_of_fitting_entries(entries);
    }
}

/// The line of an entry with a plain key parts again, at its first `=`,
/// into the key and the value.
pub proof fn lemma_entry_text_parts(key: Seq<char>, value: Seq<char>)
    requires
        is_plain_key(key),
    ensures
        first_index(entry_text(key, value), '=') == key.len(),
        entry_text(key, value).take(key.len() as int) == key,
        entry_text(key, value).skip(key.len() as int + 1) == value,
{
    let line = entry_text(key, value);
    assert forall|k: int| 0 <= k < key.len() implies line[k] != '=' by {
        assert(line[k] == key[k]);
    }
    assert(line[key.len() as int] == '=');
    lemma_first_index(line, '=', key.len() as int);
    assert(line.take(key.len() as int) =~= key);
    assert(line.skip(key.len() as int + 1) =~= value);
}

/// Of the answers that the user gave, each for a key, the environment file
/// holds the line of an answer if and only if the answer is not empty; it
/// has as many lines as there are answers that are not empty, and each of
/// its lines holds a value after its `=`. This holds where the keys are
/// plain and the file holds whole the entries that are kept.
pub proof fn lemma_env_file_holds_answered(answers: Seq<(Seq<char>, Seq<char>)>, i: int)
    requires
        0 <= i < answers.len(),
        forall|j: int| 0 <= j < answers.len() ==> is_plain_key((#[trigger] answers[j]).0),
        are_held_whole(collected(answers)),
    ensures
        lines(env_file_text(collected(answers))).contains(
            entry_text(answers[i].0, stored_value(answers[i].0, answers[i].1)),
        ) <==> answers[i].1.len() > 0,
        lines(env_file_text(collected(answers))) == entry_texts(collected(answers)),
        forall|l: int|
            0 <= l < collected(answers).len() ==> (#[trigger] collected(answers)[l]).1.len() > 0,
{
    let kept = collected(answers);
    let line = entry_text(answers[i].0, stored_value(answers[i].0, answers[i].1));
    lemma_collected(answers);
    lemma_env_file_lines(kept);
    if answers[i].1.len() > 0 {
        let entry = (answers[i].0, stored_value(answers[i].0, answers[i].1));
        assert(kept.contains(entry));
        let at = choose|at: int| 0 <= at < kept.len() && kept[at] == entry;
        assert(entry_texts(kept)[at] == line);
    } else if entry_texts(kept).contains(line) {
        let at = choose|at: int| 0 <= at < kept.len() && entry_texts(kept)[at] == line;
        let entry = kept[at];
        assert(kept.contains(entry));
        assert(is_kept(answers, entry));
        let j = choose|j: int| kept_from(answers, j, entry);
        assert(entry.0 == answers[j].0);
        // The line ends with its first `=`, so the entry would hold no value.
        assert forall|k: int| 0 <= k < entry.0.len() implies line[k] != '=' by {
            assert(entry_text(entry.0, entry.1)[k] == entry.0[k]);
        }
        assert(entry_text(entry.0, entry.1)[entry.0.len() as int] == '=');
        lemma_first_index(line, '=', entry.0.len() as int);
        assert forall|k: int| 0 <= k < answers[i].0.len() implies line[k] != '=' by {
            assert(line[k] == answers[i].0[k]);
        }
        assert(line[answers[i].0.len() as int] == '=');
        lemma_first_index(line, '=', answers[i].0.len() as int);
        assert(entry.1.len() == 0);
    }
}

/// Where no two answers are for the same key, a line of the environment
/// file begins with the key of an answer and `=` if and only if the answer
/// is not empty. This holds where the keys are plain and the file holds
/// whole the entries that are kept.
pub proof fn lemma_env_file_names_answered(answers: Seq<(Seq<char>, Seq<char>)>, i: int)
    requires
        0 <= i < answers.len(),
        forall|j: int| 0 <= j < answers.len() ==> is_plain_key((#[trigger] answers[j]).0),
        forall|a: int, b: int|
            0 <= a < answers.len() && 0 <= b < answers.len() && a != b ==> (
            #[trigger] answers[a]).0 != (#[trigger] answers[b]).0,
        are_held_whole(collected(answers)),
    ensures
        names_key_somewhere(env_file_text(collected(answers)), answers[i].0) <==> answers[i].1.len()
            > 0,
{
    let kept = collected(answers);
    let text = env_file_text(kept);
    let key = answers[i].0;
    lemma_collected(answers);
    lemma_env_file_lines(kept);
    if answers[i].1.len() > 0 {
        let entry = (key, stored_value(key, answers[i].1));
        assert(kept.contains(entry));
        let at = choose|at: int| 0 <= at < kept.len() && kept[at] == entry;
        assert(lines(text)[at] == entry_text(entry.0, entry.1));
        assert((key + seq!['=']) =~= entry_text(entry.0, entry.1).subrange(
            0,
            (key + seq!['=']).len() as int,
        ));
        assert(names_key_at(text, at, key));
    }
    if names_key_somewhere(text, key) {
        let l = choose|l: int| names_key_at(text, l, key);
        let entry = kept[l];
        let line = lines(text)[l];
        assert(line == entry_text(entry.0, entry.1));
        assert(kept.contains(entry));
        assert(is_kept(answers, entry));
        let j = choose|j: int| kept_from(answers, j, entry);
        assert(entry.0 == answers[j].0);
        assert(is_plain_key(answers[j].0));
        assert(is_plain_key(answers[i].0));
        // Both keys end at the first `=` of the line, so they are one key.
        assert forall|k: int| 0 <= k < entry.0.len() implies line[k] != '=' by {
            assert(line[k] == entry.0[k]);
        }
        assert(line[entry.0.len() as int] == '=');
        lemma_first_index(line, '=', entry.0.len() as int);
        let head = key + seq!['='];
        assert(head =~= line.subrange(0, head.len() as int));
        assert forall|k: int| 0 <= k < key.len() implies line[k] != '=' by {
            assert(line[k] == head[k]);
            assert(head[k] == key[k]);
        }
        assert(line[key.len() as int] == head[key.len() as int]);
        lemma_first_index(line, '=', key.len() as int);
        assert(entry.0 =~= key) by {
            assert forall|k: int| 0 <= k < key.len() implies entry.0[k] == key[k] by {
                assert(line[k] == entry.0[k]);
                assert(line[k] == head[k]);
            }
        }
        assert(j == i);
    }
}

/// The text of the environment file that holds `env_values`, each a key
/// with its value: a line `KEY=VALUE` for each of them, in their order, the
/// whole without white space at its start and at its end.
pub fn make_env_file_contents(env_values: Vec<(String, String)>) -> (contents: String)
    ensures
        contents@ == env_file_text(env_values.deep_view()),
{
    env_file_contents(&env_values)
}

/// The text of the environment file that holds `env_values`, which stay
/// with the caller.
pub fn env_file_contents(env_values: &Vec<(String, String)>) -> (contents: String)
    ensures
        contents@ == env_file_text(env_values.deep_view()),
{
    let mut out: Vec<char> = Vec::new();
    let mut i: usize = 0;
    while i < env_values.len()
        invariant
            i <= env_values.len(),
            out@ == entry_lines(env_values.deep_view().take(i as int)),
        decreases env_values.len() - i,
    {
        proof {
            assert(env_values.deep_view().take(i + 1).drop_last() =~= env_values.deep_view().take(
                i as int,
            ));
        }
        out.push('\n');
        push_str(&mut out, env_values[i].0.as_str());
        out.push('=');
        push_str(&mut out, env_values[i].1.as_str());
        i += 1;
    }
    assert(env_values.deep_view().take(env_values.len() as int) =~= env_values.deep_view());
    let trimmed = trim_chars(&out);
    string_of(&trimmed)
}

} // verus!
