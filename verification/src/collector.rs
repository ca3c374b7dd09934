//! What becomes of the answers that the user gives for the keys of the
//! environment.
//!
//! A key whose answer is empty is left out. Every other answer is stored as
//! it was given, but for the application's name: unless it already stands
//! between double quotes, one at its start and one at its end, it is stored
//! between double quotes.

use crate::text::{chars_of, push_all, same_chars, string_of};
use vstd::prelude::*;

verus! {

/// The key whose value is stored between double quotes.
pub const APP_NAME_KEY: &'static str = "APP_NAME";

/// Whether `value` stands between double quotes: it begins with one and
/// ends with one.
pub open spec fn is_quoted(value: Seq<char>) -> bool {
    value.len() > 0 && value.first() == '"' && value.last() == '"'
}

/// `value` between double quotes.
pub open spec fn quoted(value: Seq<char>) -> Seq<char> {
    seq!['"'] + value + seq!['"']
}

/// The value that is stored for `key` when the user answers `value`.
pub open spec fn stored_value(key: Seq<char>, value: Seq<char>) -> Seq<char> {
    if key == APP_NAME_KEY@ && value.len() > 0 && !is_quoted(value) {
        quoted(value)
    } else {
        value
    }
}

/// The entry that is kept for `key` when the user answers `value`: none
/// where the answer is empty.
pub open spec fn collected_entry(key: Seq<char>, value: Seq<char>) -> Option<
    (Seq<char>, Seq<char>),
> {
    if value.len() == 0 {
        None
    } else {
        Some((key, stored_value(key, value)))
    }
}

/// The entries that are kept of `answers`, each a key with the answer given
/// for it, in the order of the answers.
pub open spec fn collected(answers: Seq<(Seq<char>, Seq<char>)>) -> Seq<(Seq<char>, Seq<char>)>
    decreases answers.len(),
{
    if answers.len() == 0 {
        Seq::empty()
    } else {
        let earlier = collected(answers.drop_last());
        match collected_entry(answers.last().0, answers.last().1) {
            Some(entry) => earlier.push(entry),
            None => earlier,
        }
    }
}

/// The text that asks the user for the value of `key`.
pub open spec fn prompt_text(key: Seq<char>) -> Seq<char> {
    "Enter the value for "@ + key + ": "@
}

/// Whether answer `i` of `answers` is kept as `entry`.
pub open spec fn kept_from(
    answers: Seq<(Seq<char>, Seq<char>)>,
    i: int,
    entry: (Seq<char>, Seq<char>),
) -> bool {
    0 <= i < answers.len() && collected_entry(answers[i].0, answers[i].1) == Some(entry)
}

/// Whether one of `answers` is kept as `entry`.
pub open spec fn is_kept(answers: Seq<(Seq<char>, Seq<char>)>, entry: (Seq<char>, Seq<char>)) -> bool {
    exists|i: int| kept_from(answers, i, entry)
}

/// An entry is kept exactly where an answer is not empty: the entries that
/// are kept are those of the answers that are not empty, no entry holds an
/// empty value, and the entry of an answer is among them if and only if the
/// answer is not empty.
pub proof fn lemma_collected(answers: Seq<(Seq<char>, Seq<char>)>)
    ensures
        forall|entry: (Seq<char>, Seq<char>)| #[trigger]
            collected(answers).contains(entry) <==> is_kept(answers, entry),
        forall|j: int|
            0 <= j < collected(answers).len() ==> (#[trigger] collected(answers)[j]).1.len() > 0,
        forall|i: int|
            0 <= i < answers.len() ==> (collected(answers).contains(
                (#[trigger] answers[i].0, stored_value(answers[i].0, answers[i].1)),
            ) <==> answers[i].1.len() > 0),
    decreases answers.len(),
{
    let kept = collected(answers);
    if answers.len() == 0 {
        assert forall|entry: (Seq<char>, Seq<char>)| !is_kept(answers, entry) by {
            assert forall|i: int| !kept_from(answers, i, entry) by {}
        }
    } else {
        let earlier = answers.drop_last();
        let before = collected(earlier);
        let last = answers.len() - 1;
        lemma_collected(earlier);
        assert forall|entry: (Seq<char>, Seq<char>)| #[trigger]
            kept.contains(entry) <==> is_kept(answers, entry) by {
            if kept.contains(entry) {
                let at = choose|at: int| 0 <= at < kept.len() && kept[at] == entry;
                if at < before.len() {
                    assert(before.contains(entry));
                    let i = choose|i: int| kept_from(earlier, i, entry);
                    assert(kept_from(answers, i, entry));
                } else {
                    assert(kept_from(answers, last, entry));
                }
            }
            if is_kept(answers, entry) {
                let i = choose|i: int| kept_from(answers, i, entry);
                if i < last {
                    assert(kept_from(earlier, i, entry));
                    let at = choose|at: int| 0 <= at < before.len() && before[at] == entry;
                    assert(kept[at] == entry);
                } else {
                    assert(kept[before.len() as int] == entry);
                }
            }
        }
        assert forall|j: int| 0 <= j < kept.len() implies (#[trigger] kept[j]).1.len() > 0 by {}
        assert forall|i: int| 0 <= i < answers.len() implies (kept.contains(
            (#[trigger] answers[i].0, stored_value(answers[i].0, answers[i].1)),
        ) <==> answers[i].1.len() > 0) by {
            let entry = (answers[i].0, stored_value(answers[i].0, answers[i].1));
            if answers[i].1.len() > 0 {
                assert(kept_from(answers, i, entry));
            }
        }
    }
}

/// Whatever the user answers for the application's name, unless it is
/// empty, what is stored stands between double quotes: the answer itself
/// where it does so already, else the answer between double quotes.
pub proof fn lemma_app_name_is_stored_between_quotes(value: Seq<char>)
    requires
        value.len() > 0,
    ensures
        is_quoted(stored_value(APP_NAME_KEY@, value)),
        is_quoted(value) ==> stored_value(APP_NAME_KEY@, value) == value,
        !is_quoted(value) ==> stored_value(APP_NAME_KEY@, value) == quoted(value),
{
}

/// The text that asks the user for the value of `key`.
pub fn prompt_for_key(key: &str) -> (prompt: String)
    ensures
        prompt@ == prompt_text(key@),
{
    String::from_str("Enter the value for ").concat(key).concat(": ")
}

/// The value that is stored for `key` when the user answers `value`.
pub fn store_value(key: &str, value: String) -> (stored: String)
    ensures
        stored@ == stored_value(key@, value@),
{
    let key_chars = chars_of(key);
    let name = chars_of(APP_NAME_KEY);
    if !same_chars(&key_chars, &name) {
        return value;
    }
    let chars = chars_of(value.as_str());
    if chars.len() == 0 || (chars[0] == '"' && chars[chars.len() - 1] == '"') {
        return value;
    }
    let mut out: Vec<char> = Vec::new();
    out.push('"');
    push_all(&mut out, &chars);
    out.push('"');
    string_of(&out)
}

/// The entry that is kept for `key` when the user answers `value`: none
/// where the answer is empty, else the key with the value that is stored
/// for it.
pub fn collect_entry(key: String, value: String) -> (entry: Option<(String, String)>)
    ensures
        entry.deep_view() == collected_entry(key@, value@),
{
    if value.as_str().unicode_len() == 0 {
        return None;
    }
    let stored = store_value(key.as_str(), value);
    Some((key, stored))
}

/// The entries that are kept of `answers`, each a key with the answer that
/// the user gave for it: those whose answer is not empty, in the order of
/// the answers, each with the value that is stored for it.
pub fn collect_env_values(answers: &Vec<(String, String)>) -> (entries: Vec<(String, String)>)
    ensures
        entries.deep_view() == collected(answers.deep_view()),
{
    let mut entries: Vec<(String, String)> = Vec::new();
    let mut i: usize = 0;
    while i < answers.len()
        invariant
            i <= answers.len(),
            entries.deep_view() == collected(answers.deep_view().take(i as int)),
        decreases answers.len() - i,
    {
        proof {
            assert(answers.deep_view().take(i + 1).drop_last() =~= answers.deep_view().take(
                i as int,
            ));
        }
        let key = answers[i].0.clone();
        let value = answers[i].1.clone();
        match collect_entry(key, value) {
            Some(entry) => {
                entries.push(entry);
            },
            None => {},
        }
        i += 1;
    }
    assert(answers.deep_view().take(answers.len() as int) =~= answers.deep_view());
    entries
}

} // verus!
