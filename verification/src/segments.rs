//! A template as the pieces it is made of: texts, and between them the
//! placeholders.
//!
//! Rendering is stated on the characters of a template. Seen as pieces, it
//! does what one expects: each placeholder for which a value is handed in
//! gives way to that value, and every other piece stays as it is, in its
//! place. This holds where no text opens a placeholder of its own and no
//! value holds `{`.

use crate::settings::{CADDY_FILE_TEMPLATE, LARAVEL_PROJECT_PATH};
use crate::template::{
    caddyfile_substitutions, caddyfile_text, lemma_render_without_placeholders, placeholder,
    render, substitute, value_of,
};
use crate::text::{occurs_at, occurs_in, replace_all};
use vstd::prelude::*;

verus! {

/// A piece of a template.
pub enum Segment {
    /// Text that stays as it is.
    Text { text: Seq<char> },
    /// The placeholder of `name`.
    Token { name: Seq<char> },
}

/// Whether `name` holds no brace.
pub open spec fn is_plain_name(name: Seq<char>) -> bool {
    forall|k: int| 0 <= k < name.len() ==> name[k] != '{' && name[k] != '}'
}

/// Whether `value` holds no `{`.
pub open spec fn opens_nothing(value: Seq<char>) -> bool {
    forall|k: int| 0 <= k < value.len() ==> value[k] != '{'
}

/// Whether `text` opens no placeholder: each `{` in it is followed, in it,
/// by a character that is no `{`.
pub open spec fn opens_no_placeholder(text: Seq<char>) -> bool {
    forall|q: int|
        0 <= q < text.len() && #[trigger] text[q] == '{' ==> q + 1 < text.len() && text[q + 1]
            != '{'
}

/// Whether `segment` is a text that opens no placeholder, or the
/// placeholder of a plain name.
pub open spec fn is_well_formed(segment: Segment) -> bool {
    match segment {
        Segment::Text { text } => opens_no_placeholder(text),
        Segment::Token { name } => is_plain_name(name),
    }
}

/// Whether the substitutions `substitutions` are for plain names, no two
/// for the same, and hand in values that hold no `{`.
pub open spec fn are_plain(substitutions: Seq<(Seq<char>, Seq<char>)>) -> bool {
    &&& forall|i: int|
        0 <= i < substitutions.len() ==> is_plain_name((#[trigger] substitutions[i]).0)
            && opens_nothing(substitutions[i].1)
    &&& forall|a: int, b: int|
        0 <= a < substitutions.len() && 0 <= b < substitutions.len() && a != b ==> (
        #[trigger] substitutions[a]).0 != (#[trigger] substitutions[b]).0
}

/// What stands for `segment` once `substitutions` are made: a text as it
/// is, a placeholder as the value that is handed in for its name, or as it
/// is written where none is.
pub open spec fn segment_text(
    segment: Segment,
    substitutions: Seq<(Seq<char>, Seq<char>)>,
) -> Seq<char> {
    match segment {
        Segment::Text { text } => text,
        Segment::Token { name } => match value_of(substitutions, name) {
            Some(value) => value,
            None => placeholder(name),
        },
    }
}

/// The text of `segments`, one after the other, once `substitutions` are
/// made. With no substitutions it is the template as it is written.
pub open spec fn filled(
    segments: Seq<Segment>,
    substitutions: Seq<(Seq<char>, Seq<char>)>,
) -> Seq<char>
    decreases segments.len(),
{
    if segments.len() == 0 {
        Seq::empty()
    } else {
        segment_text(segments[0], substitutions) + filled(segments.skip(1), substitutions)
    }
}

/// An occurrence of a pattern begins with the characters of the pattern.
proof fn lemma_occurrence(pattern: Seq<char>, s: Seq<char>, q: int, k: int)
    requires
        occurs_at(pattern, s, q),
        0 <= k < pattern.len(),
    ensures
        s[q + k] == pattern[k],
{
    assert(s.subrange(q, q + pattern.len())[k] == s[q + k]);
}

/// No placeholder of a plain name begins in a text that opens none.
proof fn lemma_none_begins_in_text(text: Seq<char>, tail: Seq<char>, name: Seq<char>, q: int)
    requires
        opens_no_placeholder(text),
        0 <= q < text.len(),
    ensures
        !occurs_at(placeholder(name), text + tail, q),
{
    let token = placeholder(name);
    if occurs_at(token, text + tail, q) {
        lemma_occurrence(token, text + tail, q, 0);
        lemma_occurrence(token, text + tail, q, 1);
        assert(text[q] == '{');
        assert((text + tail)[q + 1] == text[q + 1]);
    }
}

/// No placeholder begins in a value that holds no `{`.
proof fn lemma_none_begins_in_value(value: Seq<char>, tail: Seq<char>, name: Seq<char>, q: int)
    requires
        opens_nothing(value),
        0 <= q < value.len(),
    ensures
        !occurs_at(placeholder(name), value + tail, q),
{
    let token = placeholder(name);
    if occurs_at(token, value + tail, q) {
        lemma_occurrence(token, value + tail, q, 0);
        assert((value + tail)[q] == value[q]);
    }
}

/// No placeholder of a plain name begins in the placeholder of another.
proof fn lemma_none_begins_in_other(other: Seq<char>, tail: Seq<char>, name: Seq<char>, q: int)
    requires
        is_plain_name(other),
        is_plain_name(name),
        other != name,
        0 <= q < placeholder(other).len(),
    ensures
        !occurs_at(placeholder(name), placeholder(other) + tail, q),
{
    let token = placeholder(name);
    let head = placeholder(other);
    let s = head + tail;
    if occurs_at(token, s, q) {
        lemma_occurrence(token, s, q, 0);
        lemma_occurrence(token, s, q, 1);
        assert(s[q] == head[q]);
        if q == 0 {
            let n = name.len() as int;
            let m = other.len() as int;
            if n < m {
                lemma_occurrence(token, s, q, 2 + n);
                assert(s[2 + n] == head[2 + n]);
                assert(head[2 + n] == other[n]);
            } else if n > m {
                lemma_occurrence(token, s, q, 2 + m);
                assert(s[2 + m] == head[2 + m]);
                assert(token[2 + m] == name[m]);
            } else {
                assert forall|k: int| 0 <= k < name.len() implies name[k] == other[k] by {
                    lemma_occurrence(token, s, q, 2 + k);
                    assert(s[2 + k] == head[2 + k]);
                    assert(head[2 + k] == other[k]);
                    assert(token[2 + k] == name[k]);
                }
                assert(name =~= other);
            }
        } else if q == 1 {
            assert(s[2] == head[2]);
            if other.len() > 0 {
                assert(head[2] == other[0]);
            }
        } else {
            if q < 2 + other.len() {
                assert(head[q] == other[q - 2]);
            }
        }
    }
}

/// Where no occurrence of a pattern begins in `head`, replacing the pattern
/// in `head` and what follows it leaves `head` as it is.
pub proof fn lemma_replace_all_after(
    head: Seq<char>,
    tail: Seq<char>,
    pattern: Seq<char>,
    with: Seq<char>,
)
    requires
        pattern.len() > 0,
        forall|q: int| 0 <= q < head.len() ==> !occurs_at(pattern, head + tail, q),
    ensures
        replace_all(head + tail, pattern, with) == head + replace_all(tail, pattern, with),
    decreases head.len(),
{
    let s = head + tail;
    if head.len() == 0 {
        assert(s =~= tail);
        assert(head + replace_all(tail, pattern, with) =~= replace_all(tail, pattern, with));
    } else {
        assert(!occurs_at(pattern, s, 0));
        let rest = head.skip(1);
        assert(s.skip(1) =~= rest + tail);
        assert forall|q: int| 0 <= q < rest.len() implies !occurs_at(pattern, rest + tail, q) by {
            if occurs_at(pattern, rest + tail, q) {
                assert(s.subrange(q + 1, q + 1 + pattern.len()) =~= (rest + tail).subrange(
                    q,
                    q + pattern.len(),
                ));
                assert(occurs_at(pattern, s, q + 1));
            }
        }
        lemma_replace_all_after(rest, tail, pattern, with);
        assert(seq![s[0]] + (rest + replace_all(tail, pattern, with)) =~= head + replace_all(
            tail,
            pattern,
            with,
        ));
    }
}

/// Replacing a pattern in the pattern and what follows it puts the
/// replacement in the place of the pattern.
pub proof fn lemma_replace_all_here(pattern: Seq<char>, tail: Seq<char>, with: Seq<char>)
    requires
        pattern.len() > 0,
    ensures
        replace_all(pattern + tail, pattern, with) == with + replace_all(tail, pattern, with),
{
    let s = pattern + tail;
    assert(pattern =~= s.subrange(0, pattern.len() as int));
    assert(s.skip(pattern.len() as int) =~= tail);
}

/// The value of a key among some entries and one more: that among the
/// entries where they hold the key, else that of the one more where it
/// holds the key.
proof fn lemma_value_of_push(
    entries: Seq<(Seq<char>, Seq<char>)>,
    more: (Seq<char>, Seq<char>),
    key: Seq<char>,
)
    ensures
        value_of(entries.push(more), key) == match value_of(entries, key) {
            Some(value) => Some(value),
            None => if more.0 == key {
                Some(more.1)
            } else {
                None
            },
        },
    decreases entries.len(),
{
    let all = entries.push(more);
    if entries.len() == 0 {
        assert(all[0] == more);
        assert(value_of(all.skip(1), key) is None);
    } else {
        assert(all[0] == entries[0]);
        assert(all.skip(1) =~= entries.skip(1).push(more));
        lemma_value_of_push(entries.skip(1), more, key);
    }
}

/// The value of a key among some entries is the value of one of them that
/// holds the key.
proof fn lemma_value_of_is_held(entries: Seq<(Seq<char>, Seq<char>)>, key: Seq<char>) -> (at: int)
    requires
        value_of(entries, key) is Some,
    ensures
        0 <= at < entries.len(),
        entries[at].0 == key,
        value_of(entries, key) == Some(entries[at].1),
    decreases entries.len(),
{
    if entries[0].0 == key {
        0
    } else {
        let rest = entries.skip(1);
        let at = lemma_value_of_is_held(rest, key);
        assert(rest[at] == entries[at + 1]);
        at + 1
    }
}

/// Where no entry holds a key, the key has no value.
proof fn lemma_value_of_none(entries: Seq<(Seq<char>, Seq<char>)>, key: Seq<char>)
    requires
        forall|i: int| 0 <= i < entries.len() ==> (#[trigger] entries[i]).0 != key,
    ensures
        value_of(entries, key) is None,
    decreases entries.len(),
{
    if entries.len() > 0 {
        let rest = entries.skip(1);
        assert(entries[0].0 != key);
        assert forall|i: int| 0 <= i < rest.len() implies (#[trigger] rest[i]).0 != key by {
            assert(rest[i] == entries[i + 1]);
        }
        lemma_value_of_none(rest, key);
    }
}

/// One more substitution, for a name for which there was none, fills the
/// placeholders of that name and leaves every other piece as it is.
proof fn lemma_substitute_fills(
    segments: Seq<Segment>,
    earlier: Seq<(Seq<char>, Seq<char>)>,
    name: Seq<char>,
    value: Seq<char>,
)
    requires
        forall|i: int| 0 <= i < segments.len() ==> is_well_formed(#[trigger] segments[i]),
        are_plain(earlier.push((name, value))),
    ensures
        substitute(filled(segments, earlier), name, value) == filled(
            segments,
            earlier.push((name, value)),
        ),
    decreases segments.len(),
{
    let all = earlier.push((name, value));
    let token = placeholder(name);
    if segments.len() > 0 {
        let rest = segments.skip(1);
        assert forall|i: int| 0 <= i < rest.len() implies is_well_formed(#[trigger] rest[i]) by {
            assert(rest[i] == segments[i + 1]);
        }
        lemma_substitute_fills(rest, earlier, name, value);
        let tail = filled(rest, earlier);
        let head = segment_text(segments[0], earlier);
        assert(is_well_formed(segments[0]));
        assert(all[earlier.len() as int] == (name, value));
        assert(is_plain_name(name));
        assert forall|i: int| 0 <= i < earlier.len() implies (#[trigger] earlier[i]).0 != name by {
            assert(all[i] == earlier[i]);
        }
        lemma_value_of_none(earlier, name);
        match segments[0] {
            Segment::Text { text } => {
                assert forall|q: int| 0 <= q < head.len() implies !occurs_at(
                    token,
                    head + tail,
                    q,
                ) by {
                    lemma_none_begins_in_text(text, tail, name, q);
                }
                lemma_replace_all_after(head, tail, token, value);
            },
            Segment::Token { name: other } => {
                lemma_value_of_push(earlier, (name, value), other);
                if value_of(earlier, other) is Some {
                    let at = lemma_value_of_is_held(earlier, other);
                    assert(all[at] == earlier[at]);
                    assert(opens_nothing(head));
                    assert forall|q: int| 0 <= q < head.len() implies !occurs_at(
                        token,
                        head + tail,
                        q,
                    ) by {
                        lemma_none_begins_in_value(head, tail, name, q);
                    }
                    lemma_replace_all_after(head, tail, token, value);
                } else if other == name {
                    lemma_replace_all_here(token, tail, value);
                } else {
                    assert forall|q: int| 0 <= q < head.len() implies !occurs_at(
                        token,
                        head + tail,
                        q,
                    ) by {
                        lemma_none_begins_in_other(other, tail, name, q);
                    }
                    lemma_replace_all_after(head, tail, token, value);
                }
            },
        }
    }
}

/// Rendering fills a template piece by piece: each placeholder for which a
/// value is handed in gives way to that value, wherever it stands and
/// however often, and every other piece stays as it is, in its place.
pub proof fn lemma_render_fills(
    segments: Seq<Segment>,
    substitutions: Seq<(Seq<char>, Seq<char>)>,
)
    requires
        forall|i: int| 0 <= i < segments.len() ==> is_well_formed(#[trigger] segments[i]),
        are_plain(substitutions),
    ensures
        render(filled(segments, Seq::empty()), substitutions) == filled(segments, substitutions),
    decreases substitutions.len(),
{
    if substitutions.len() == 0 {
        assert(substitutions =~= Seq::empty());
    } else {
        let earlier = substitutions.drop_last();
        let last = substitutions.last();
        assert(earlier.push((last.0, last.1)) =~= substitutions);
        assert forall|i: int| 0 <= i < earlier.len() implies earlier[i] == substitutions[i] by {}
        assert(are_plain(earlier));
        lemma_render_fills(segments, earlier);
        lemma_substitute_fills(segments, earlier, last.0, last.1);
    }
}

/// Once a template is rendered, no placeholder is left of a name for which
/// a value was handed in.
pub proof fn lemma_no_placeholder_is_left(
    segments: Seq<Segment>,
    substitutions: Seq<(Seq<char>, Seq<char>)>,
    i: int,
)
    requires
        forall|j: int| 0 <= j < segments.len() ==> is_well_formed(#[trigger] segments[j]),
        are_plain(substitutions),
        0 <= i < substitutions.len(),
    ensures
        !occurs_in(
            placeholder(substitutions[i].0),
            render(filled(segments, Seq::empty()), substitutions),
        ),
{
    lemma_render_fills(segments, substitutions);
    lemma_filled_holds_none(segments, substitutions, substitutions[i].0);
}

/// A second rendering with the same substitutions changes nothing.
pub proof fn lemma_render_twice_is_render_once(
    segments: Seq<Segment>,
    substitutions: Seq<(Seq<char>, Seq<char>)>,
)
    requires
        forall|j: int| 0 <= j < segments.len() ==> is_well_formed(#[trigger] segments[j]),
        are_plain(substitutions),
    ensures
        render(render(filled(segments, Seq::empty()), substitutions), substitutions) == render(
            filled(segments, Seq::empty()),
            substitutions,
        ),
{
    let rendered = render(filled(segments, Seq::empty()), substitutions);
    assert forall|i: int| 0 <= i < substitutions.len() implies !occurs_in(
        placeholder((#[trigger] substitutions[i]).0),
        rendered,
    ) by {
        lemma_no_placeholder_is_left(segments, substitutions, i);
    }
    lemma_render_without_placeholders(rendered, substitutions);
}

/// The text of some pieces, once substitutions are made, holds no
/// placeholder of a name for which a value was handed in.
proof fn lemma_filled_holds_none(
    segments: Seq<Segment>,
    substitutions: Seq<(Seq<char>, Seq<char>)>,
    name: Seq<char>,
)
    requires
        forall|j: int| 0 <= j < segments.len() ==> is_well_formed(#[trigger] segments[j]),
        are_plain(substitutions),
        exists|i: int| 0 <= i < substitutions.len() && (#[trigger] substitutions[i]).0 == name,
    ensures
        !occurs_in(placeholder(name), filled(segments, substitutions)),
    decreases segments.len(),
{
    let token = placeholder(name);
    let whole = filled(segments, substitutions);
    let i = choose|i: int| 0 <= i < substitutions.len() && (#[trigger] substitutions[i]).0 == name;
    assert(is_plain_name(name));
    if segments.len() == 0 {
        assert forall|q: int| !occurs_at(token, whole, q) by {}
    } else {
        let rest = segments.skip(1);
        assert forall|j: int| 0 <= j < rest.len() implies is_well_formed(#[trigger] rest[j]) by {
            assert(rest[j] == segments[j + 1]);
        }
        lemma_filled_holds_none(rest, substitutions, name);
        let tail = filled(rest, substitutions);
        let head = segment_text(segments[0], substitutions);
        assert(is_well_formed(segments[0]));
        assert forall|q: int| !occurs_at(token, whole, q) by {
            if occurs_at(token, whole, q) {
                if q < head.len() {
                    match segments[0] {
                        Segment::Text { text } => {
                            lemma_none_begins_in_text(text, tail, name, q);
                        },
                        Segment::Token { name: other } => {
                            if value_of(substitutions, other) is Some {
                                let at = lemma_value_of_is_held(substitutions, other);
                                assert(opens_nothing(substitutions[at].1));
                                lemma_none_begins_in_value(head, tail, name, q);
                            } else {
                                if other == name {
                                    assert forall|j: int|
                                        0 <= j < substitutions.len() implies (
                                    #[trigger] substitutions[j]).0 != name by {
                                        if substitutions[j].0 == name {
                                            lemma_value_of_some(substitutions, name, j);
                                        }
                                    }
                                    assert(substitutions[i].0 == name);
                                }
                                lemma_none_begins_in_other(other, tail, name, q);
                            }
                        },
                    }
                } else {
                    assert(whole.subrange(q, q + token.len()) =~= tail.subrange(
                        q - head.len(),
                        q - head.len() + token.len(),
                    ));
                    assert(occurs_at(token, tail, q - head.len()));
                }
            }
        }
    }
}

/// Where an entry holds a key, the key has a value.
proof fn lemma_value_of_some(entries: Seq<(Seq<char>, Seq<char>)>, key: Seq<char>, at: int)
    requires
        0 <= at < entries.len(),
        entries[at].0 == key,
    ensures
        value_of(entries, key) is Some,
    decreases entries.len(),
{
    if entries[0].0 != key {
        let rest = entries.skip(1);
        assert(rest[at - 1] == entries[at]);
        lemma_value_of_some(rest, key, at - 1);
    }
}

/// The pieces of the proxy configuration before rendering.
pub open spec fn caddyfile_segments() -> Seq<Segment> {
    seq![
        Segment::Token { name: "DOMAIN"@ },
        Segment::Text { text: " {\n    root * "@ },
        Segment::Token { name: "LARAVEL_PROJECT_PATH"@ },
        Segment::Text {
            text: "/public\n    encode zstd gzip\n    php_fastcgi unix//run/php/php8.3-fpm.sock\n    file_server\n}\n\n"@,
        },
        Segment::Token { name: "DOMAIN"@ },
        Segment::Text { text: ":"@ },
        Segment::Token { name: "REVERB_PORT"@ },
        Segment::Text { text: " {\n    reverse_proxy 127.0.0.1:"@ },
        Segment::Token { name: "REVERB_SERVER_PORT"@ },
        Segment::Text { text: "\n}\n"@ },
    ]
}

/// The proxy configuration before rendering is made of its pieces.
pub proof fn lemma_caddyfile_template_is_its_segments()
    ensures
        filled(caddyfile_segments(), Seq::empty()) == CADDY_FILE_TEMPLATE@,
{
    reveal_strlit("DOMAIN");
    reveal_strlit(" {\n    root * ");
    reveal_strlit("LARAVEL_PROJECT_PATH");
    reveal_strlit(
        "/public\n    encode zstd gzip\n    php_fastcgi unix//run/php/php8.3-fpm.sock\n    file_server\n}\n\n",
    );
    reveal_strlit(":");
    reveal_strlit("REVERB_PORT");
    reveal_strlit(" {\n    reverse_proxy 127.0.0.1:");
    reveal_strlit("REVERB_SERVER_PORT");
    reveal_strlit("\n}\n");
    reveal_strlit(
        "{{DOMAIN}} {
    root * {{LARAVEL_PROJECT_PATH}}/public
    encode zstd gzip
    php_fastcgi unix//run/php/php8.3-fpm.sock
    file_server
}

{{DOMAIN}}:{{REVERB_PORT}} {
    reverse_proxy 127.0.0.1:{{REVERB_SERVER_PORT}}
}
",
    );
    reveal_with_fuel(filled, 11);
    assert(filled(caddyfile_segments(), Seq::empty()) =~= CADDY_FILE_TEMPLATE@);
}

/// The proxy configuration with `domain` and the two ports in the place of
/// their placeholders, and all the text around them as it is written.
pub open spec fn caddyfile_filled(
    domain: Seq<char>,
    reverb_port: Seq<char>,
    reverb_server_port: Seq<char>,
) -> Seq<char> {
    domain + " {\n    root * "@ + LARAVEL_PROJECT_PATH@
        + "/public\n    encode zstd gzip\n    php_fastcgi unix//run/php/php8.3-fpm.sock\n    file_server\n}\n\n"@
        + domain + ":"@ + reverb_port + " {\n    reverse_proxy 127.0.0.1:"@ + reverb_server_port
        + "\n}\n"@
}

/// The pieces of the proxy configuration are texts that open no placeholder
/// and placeholders of plain names.
proof fn lemma_caddyfile_segments_are_well_formed()
    ensures
        forall|i: int|
            0 <= i < caddyfile_segments().len() ==> is_well_formed(
                #[trigger] caddyfile_segments()[i],
            ),
{
    reveal_strlit("DOMAIN");
    reveal_strlit(" {\n    root * ");
    reveal_strlit("LARAVEL_PROJECT_PATH");
    reveal_strlit(
        "/public\n    encode zstd gzip\n    php_fastcgi unix//run/php/php8.3-fpm.sock\n    file_server\n}\n\n",
    );
    reveal_strlit(":");
    reveal_strlit("REVERB_PORT");
    reveal_strlit(" {\n    reverse_proxy 127.0.0.1:");
    reveal_strlit("REVERB_SERVER_PORT");
    reveal_strlit("\n}\n");
}

/// The substitutions of the proxy configuration are plain where the domain
/// and the two ports hold no `{`.
proof fn lemma_caddyfile_substitutions_are_plain(
    domain: Seq<char>,
    reverb_port: Seq<char>,
    reverb_server_port: Seq<char>,
)
    requires
        opens_nothing(domain),
        opens_nothing(reverb_port),
        opens_nothing(reverb_server_port),
    ensures
        are_plain(caddyfile_substitutions(domain, reverb_port, reverb_server_port)),
{
    let all = caddyfile_substitutions(domain, reverb_port, reverb_server_port);
    lemma_caddyfile_names();
    assert(opens_nothing(LARAVEL_PROJECT_PATH@)) by {
        reveal_strlit("/var/www/laravel");
    }
    assert forall|i: int| 0 <= i < all.len() implies is_plain_name((#[trigger] all[i]).0)
        && opens_nothing(all[i].1) by {}
    assert forall|a: int, b: int|
        0 <= a < all.len() && 0 <= b < all.len() && a != b implies (#[trigger] all[a]).0 != (
    #[trigger] all[b]).0 by {}
}

/// The four names of the proxy configuration are plain, and no two of them
/// are the same.
proof fn lemma_caddyfile_names()
    ensures
        is_plain_name("DOMAIN"@),
        is_plain_name("REVERB_PORT"@),
        is_plain_name("REVERB_SERVER_PORT"@),
        is_plain_name("LARAVEL_PROJECT_PATH"@),
        "DOMAIN"@.len() == 6,
        "REVERB_PORT"@.len() == 11,
        "REVERB_SERVER_PORT"@.len() == 18,
        "LARAVEL_PROJECT_PATH"@.len() == 20,
{
    reveal_strlit("DOMAIN");
    reveal_strlit("REVERB_PORT");
    reveal_strlit("REVERB_SERVER_PORT");
    reveal_strlit("LARAVEL_PROJECT_PATH");
}

/// The value that the substitutions of the proxy configuration hand in for
/// each of the four names.
proof fn lemma_caddyfile_values(
    domain: Seq<char>,
    reverb_port: Seq<char>,
    reverb_server_port: Seq<char>,
)
    ensures
        value_of(caddyfile_substitutions(domain, reverb_port, reverb_server_port), "DOMAIN"@)
            == Some(domain),
        value_of(caddyfile_substitutions(domain, reverb_port, reverb_server_port), "REVERB_PORT"@)
            == Some(reverb_port),
        value_of(
            caddyfile_substitutions(domain, reverb_port, reverb_server_port),
            "REVERB_SERVER_PORT"@,
        ) == Some(reverb_server_port),
        value_of(
            caddyfile_substitutions(domain, reverb_port, reverb_server_port),
            "LARAVEL_PROJECT_PATH"@,
        ) == Some(LARAVEL_PROJECT_PATH@),
{
    let all = caddyfile_substitutions(domain, reverb_port, reverb_server_port);
    lemma_caddyfile_names();
    lemma_value_of_is_first(all, 0);
    lemma_value_of_is_first(all, 1);
    lemma_value_of_is_first(all, 2);
    lemma_value_of_is_first(all, 3);
}

/// The value of a key is that of the first entry that holds it.
proof fn lemma_value_of_is_first(entries: Seq<(Seq<char>, Seq<char>)>, at: int)
    requires
        0 <= at < entries.len(),
        forall|i: int| 0 <= i < at ==> (#[trigger] entries[i]).0 != entries[at].0,
    ensures
        value_of(entries, entries[at].0) == Some(entries[at].1),
    decreases at,
{
    if at > 0 {
        let rest = entries.skip(1);
        assert(entries[0].0 != entries[at].0);
        assert(rest[at - 1] == entries[at]);
        assert forall|i: int| 0 <= i < at - 1 implies (#[trigger] rest[i]).0 != rest[at - 1].0 by {
            assert(rest[i] == entries[i + 1]);
        }
        lemma_value_of_is_first(rest, at - 1);
    }
}

/// The pieces of the proxy configuration, filled, are the configuration
/// with the values in the place of the placeholders.
proof fn lemma_caddyfile_segments_filled(
    domain: Seq<char>,
    reverb_port: Seq<char>,
    reverb_server_port: Seq<char>,
)
    ensures
        filled(
            caddyfile_segments(),
            caddyfile_substitutions(domain, reverb_port, reverb_server_port),
        ) == caddyfile_filled(domain, reverb_port, reverb_server_port),
{
    lemma_caddyfile_values(domain, reverb_port, reverb_server_port);
    reveal_with_fuel(filled, 11);
    assert(filled(
        caddyfile_segments(),
        caddyfile_substitutions(domain, reverb_port, reverb_server_port),
    ) =~= caddyfile_filled(domain, reverb_port, reverb_server_port));
}

/// Whatever the domain and the two ports, as long as they hold no `{`, the
/// rendered proxy configuration is the template with each of them in the
/// place of its placeholders, wherever they stand, and with the project
/// directory in the place of its own; the text around them is as it is
/// written, and none of the four placeholders is left.
pub proof fn lemma_caddyfile_is_filled(
    domain: Seq<char>,
    reverb_port: Seq<char>,
    reverb_server_port: Seq<char>,
)
    requires
        opens_nothing(domain),
        opens_nothing(reverb_port),
        opens_nothing(reverb_server_port),
    ensures
        caddyfile_text(domain, reverb_port, reverb_server_port) == caddyfile_filled(
            domain,
            reverb_port,
            reverb_server_port,
        ),
        !occurs_in(
            placeholder("DOMAIN"@),
            caddyfile_text(domain, reverb_port, reverb_server_port),
        ),
        !occurs_in(
            placeholder("REVERB_PORT"@),
            caddyfile_text(domain, reverb_port, reverb_server_port),
        ),
        !occurs_in(
            placeholder("REVERB_SERVER_PORT"@),
            caddyfile_text(domain, reverb_port, reverb_server_port),
        ),
        !occurs_in(
            placeholder("LARAVEL_PROJECT_PATH"@),
            caddyfile_text(domain, reverb_port, reverb_server_port),
        ),
{
    let segments = caddyfile_segments();
    let substitutions = caddyfile_substitutions(domain, reverb_port, reverb_server_port);
    lemma_caddyfile_template_is_its_segments();
    lemma_caddyfile_segments_are_well_formed();
    lemma_caddyfile_substitutions_are_plain(domain, reverb_port, reverb_server_port);
    lemma_render_fills(segments, substitutions);
    lemma_caddyfile_segments_filled(domain, reverb_port, reverb_server_port);
    lemma_no_placeholder_is_left(segments, substitutions, 0);
    lemma_no_placeholder_is_left(segments, substitutions, 1);
    lemma_no_placeholder_is_left(segments, substitutions, 2);
    lemma_no_placeholder_is_left(segments, substitutions, 3);
}

} // verus!
