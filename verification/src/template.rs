//! Rendering of a template: each placeholder `{{NAME}}` of a text gives way
//! to the value that is handed in for `NAME`.
//!
//! The substitutions are made one after the other, in the order in which
//! they are handed in. A placeholder for which no value is handed in stays
//! as it is written, and nothing is escaped.

use crate::settings::{
    CADDY_FILE_TEMPLATE, DEFAULT_REVERB_PORT, DEFAULT_REVERB_SERVER_PORT, LARAVEL_PROJECT_PATH,
};
use crate::text::{
    chars_of, lemma_replace_all_absent, occurs_in, push_all, replace_all, replace_chars,
    same_chars, string_of,
};
use vstd::prelude::*;

verus! {

/// The placeholder of the name `name`.
pub open spec fn placeholder(name: Seq<char>) -> Seq<char> {
    seq!['{', '{'] + name + seq!['}', '}']
}

/// `text` with every placeholder of `name` replaced by `value`.
pub open spec fn substitute(text: Seq<char>, name: Seq<char>, value: Seq<char>) -> Seq<char> {
    replace_all(text, placeholder(name), value)
}

/// `template` after the substitutions `substitutions`, each a name with its
/// value, made one after the other.
pub open spec fn render(template: Seq<char>, substitutions: Seq<(Seq<char>, Seq<char>)>) -> Seq<
    char,
>
    decreases substitutions.len(),
{
    if substitutions.len() == 0 {
        template
    } else {
        substitute(
            render(template, substitutions.drop_last()),
            substitutions.last().0,
            substitutions.last().1,
        )
    }
}

/// The substitutions that are made in the proxy configuration.
pub open spec fn caddyfile_substitutions(
    domain: Seq<char>,
    reverb_port: Seq<char>,
    reverb_server_port: Seq<char>,
) -> Seq<(Seq<char>, Seq<char>)> {
    seq![
        ("DOMAIN"@, domain),
        ("REVERB_PORT"@, reverb_port),
        ("REVERB_SERVER_PORT"@, reverb_server_port),
        ("LARAVEL_PROJECT_PATH"@, LARAVEL_PROJECT_PATH@),
    ]
}

/// The proxy configuration of the site at `domain` with the two Reverb
/// ports.
pub open spec fn caddyfile_text(
    domain: Seq<char>,
    reverb_port: Seq<char>,
    reverb_server_port: Seq<char>,
) -> Seq<char> {
    render(CADDY_FILE_TEMPLATE@, caddyfile_substitutions(domain, reverb_port, reverb_server_port))
}

/// The value of the first of `entries` that holds `key`, if one does.
pub open spec fn value_of(entries: Seq<(Seq<char>, Seq<char>)>, key: Seq<char>) -> Option<
    Seq<char>,
>
    decreases entries.len(),
{
    if entries.len() == 0 {
        None
    } else if entries[0].0 == key {
        Some(entries[0].1)
    } else {
        value_of(entries.skip(1), key)
    }
}

/// The value of the first of `entries` that holds `key`, or `default` where
/// none does.
pub open spec fn value_or(
    entries: Seq<(Seq<char>, Seq<char>)>,
    key: Seq<char>,
    default: Seq<char>,
) -> Seq<char> {
    match value_of(entries, key) {
        Some(value) => value,
        None => default,
    }
}

/// The proxy configuration of the site at `domain` whose environment holds
/// `entries`: the Reverb ports are those of the entries `REVERB_PORT` and
/// `REVERB_SERVER_PORT`, or their defaults where the entries hold none.
pub open spec fn site_caddyfile_text(domain: Seq<char>, entries: Seq<(Seq<char>, Seq<char>)>) -> Seq<
    char,
> {
    caddyfile_text(
        domain,
        value_or(entries, "REVERB_PORT"@, DEFAULT_REVERB_PORT@),
        value_or(entries, "REVERB_SERVER_PORT"@, DEFAULT_REVERB_SERVER_PORT@),
    )
}

/// Rendering changes nothing in a template that holds none of the
/// placeholders for which a value is handed in.
pub proof fn lemma_render_without_placeholders(
    template: Seq<char>,
    substitutions: Seq<(Seq<char>, Seq<char>)>,
)
    requires
        forall|i: int|
            0 <= i < substitutions.len() ==> !occurs_in(
                placeholder((#[trigger] substitutions[i]).0),
                template,
            ),
    ensures
        render(template, substitutions) == template,
    decreases substitutions.len(),
{
    if substitutions.len() > 0 {
        let earlier = substitutions.drop_last();
        assert forall|i: int| 0 <= i < earlier.len() implies !occurs_in(
            placeholder((#[trigger] earlier[i]).0),
            template,
        ) by {}
        lemma_render_without_placeholders(template, earlier);
        let last = substitutions.last();
        lemma_replace_all_absent(template, placeholder(last.0), last.1);
    }
}

/// Where no entry holds `key`, its value is the default.
pub proof fn lemma_value_or_default(
    entries: Seq<(Seq<char>, Seq<char>)>,
    key: Seq<char>,
    default: Seq<char>,
)
    requires
        forall|i: int| 0 <= i < entries.len() ==> (#[trigger] entries[i]).0 != key,
    ensures
        value_or(entries, key, default) == default,
    decreases entries.len(),
{
    if entries.len() > 0 {
        let rest = entries.skip(1);
        assert forall|i: int| 0 <= i < rest.len() implies (#[trigger] rest[i]).0 != key by {}
        lemma_value_or_default(rest, key, default);
    }
}

/// Where the environment holds neither of the two Reverb ports, the proxy
/// configuration is rendered with their defaults.
pub proof fn lemma_default_ports(domain: Seq<char>, entries: Seq<(Seq<char>, Seq<char>)>)
    requires
        forall|i: int|
            0 <= i < entries.len() ==> (#[trigger] entries[i]).0 != "REVERB_PORT"@ && entries[i].0
                != "REVERB_SERVER_PORT"@,
    ensures
        site_caddyfile_text(domain, entries) == caddyfile_text(
            domain,
            DEFAULT_REVERB_PORT@,
            DEFAULT_REVERB_SERVER_PORT@,
        ),
{
    lemma_value_or_default(entries, "REVERB_PORT"@, DEFAULT_REVERB_PORT@);
    lemma_value_or_default(entries, "REVERB_SERVER_PORT"@, DEFAULT_REVERB_SERVER_PORT@);
}

/// The placeholder of the name `name`.
pub fn placeholder_of(name: &str) -> (token: Vec<char>)
    ensures
        token@ == placeholder(name@),
{
    let mut token: Vec<char> = Vec::new();
    token.push('{');
    token.push('{');
    let chars = chars_of(name);
    push_all(&mut token, &chars);
    token.push('}');
    token.push('}');
    token
}

/// `template` with the substitutions `substitutions` made: for each of
/// them, a name with its value, every placeholder of the name gives way to
/// the value. They are made one after the other, in their order.
pub fn render_template(template: &str, substitutions: &Vec<(String, String)>) -> (rendered: String)
    ensures
        rendered@ == render(template@, substitutions.deep_view()),
{
    let mut text = chars_of(template);
    let mut i: usize = 0;
    while i < substitutions.len()
        invariant
            i <= substitutions.len(),
            text@ == render(template@, substitutions.deep_view().take(i as int)),
        decreases substitutions.len() - i,
    {
        proof {
            assert(substitutions.deep_view().take(i + 1).drop_last()
                =~= substitutions.deep_view().take(i as int));
        }
        let token = placeholder_of(substitutions[i].0.as_str());
        let value = chars_of(substitutions[i].1.as_str());
        text = replace_chars(&text, &token, &value);
        i += 1;
    }
    assert(substitutions.deep_view().take(substitutions.len() as int)
        =~= substitutions.deep_view());
    string_of(&text)
}

/// The proxy configuration of the site at `domain`: the template with the
/// domain, the two Reverb ports and the project directory in the place of
/// their placeholders.
pub fn replace_placeholders_in_caddyfile(
    domain: String,
    reverb_port: String,
    reverb_server_port: String,
) -> (caddyfile: String)
    ensures
        caddyfile@ == caddyfile_text(domain@, reverb_port@, reverb_server_port@),
{
    let mut substitutions: Vec<(String, String)> = Vec::new();
    substitutions.push((String::from_str("DOMAIN"), domain));
    substitutions.push((String::from_str("REVERB_PORT"), reverb_port));
    substitutions.push((String::from_str("REVERB_SERVER_PORT"), reverb_server_port));
    substitutions.push(
        (String::from_str("LARAVEL_PROJECT_PATH"), String::from_str(LARAVEL_PROJECT_PATH)),
    );
    assert(substitutions.deep_view() =~= caddyfile_substitutions(
        domain@,
        reverb_port@,
        reverb_server_port@,
    ));
    render_template(CADDY_FILE_TEMPLATE, &substitutions)
}

/// The value of the first of `entries` that holds `key`, or `default` where
/// none does.
pub fn lookup_or(entries: &Vec<(String, String)>, key: &str, default: &str) -> (value: String)
    ensures
        value@ == value_or(entries.deep_view(), key@, default@),
{
    let wanted = chars_of(key);
    let mut i: usize = 0;
    assert(entries.deep_view().skip(0) =~= entries.deep_view());
    while i < entries.len()
        invariant
            i <= entries.len(),
            wanted@ == key@,
            value_of(entries.deep_view(), key@) == value_of(
                entries.deep_view().skip(i as int),
                key@,
            ),
        decreases entries.len() - i,
    {
        let ghost rest = entries.deep_view().skip(i as int);
        let found = chars_of(entries[i].0.as_str());
        if same_chars(&found, &wanted) {
            return entries[i].1.clone();
        }
        assert(rest.skip(1) =~= entries.deep_view().skip(i + 1));
        i += 1;
    }
    String::from_str(default)
}

/// The proxy configuration of the site at `domain` whose environment holds
/// `entries`.
pub fn render_site_caddyfile(domain: &str, entries: &Vec<(String, String)>) -> (caddyfile: String)
    ensures
        caddyfile@ == site_caddyfile_text(domain@, entries.deep_view()),
{
    let reverb_port = lookup_or(entries, "REVERB_PORT", DEFAULT_REVERB_PORT);
    let reverb_server_port = lookup_or(entries, "REVERB_SERVER_PORT", DEFAULT_REVERB_SERVER_PORT);
    replace_placeholders_in_caddyfile(String::from_str(domain), reverb_port, reverb_server_port)
}

} // verus!
