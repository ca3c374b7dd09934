use laraploy::settings::{
    CADDY_FILE_PATH, CADDY_FILE_TEMPLATE, DEFAULT_REVERB_PORT, DEFAULT_REVERB_SERVER_PORT,
    LARAVEL_PROJECT_PATH,
};
use laraploy::template::{
    lookup_or, placeholder_of, render_site_caddyfile, render_template,
    replace_placeholders_in_caddyfile,
};

fn named(name: &str, value: &str) -> (String, String) {
    (name.to_string(), value.to_string())
}

const RENDERED: &str = "example.com {
    root * /var/www/laravel/public
    encode zstd gzip
    php_fastcgi unix//run/php/php8.3-fpm.sock
    file_server
}

example.com:8001 {
    reverse_proxy 127.0.0.1:8002
}
";

#[test]
fn a_placeholder_is_a_name_between_double_braces() {
    let token: String = placeholder_of("DOMAIN").into_iter().collect();
    assert_eq!(token, "{{DOMAIN}}");
    let empty: String = placeholder_of("").into_iter().collect();
    assert_eq!(empty, "{{}}");
}

#[test]
fn the_template_names_all_four_placeholders() {
    for token in ["{{DOMAIN}}", "{{REVERB_PORT}}", "{{REVERB_SERVER_PORT}}", "{{LARAVEL_PROJECT_PATH}}"] {
        assert!(CADDY_FILE_TEMPLATE.contains(token));
    }
    assert_eq!(CADDY_FILE_PATH, "/etc/caddy/Caddyfile");
    assert_eq!(LARAVEL_PROJECT_PATH, "/var/www/laravel");
}

#[test]
fn rendering_replaces_every_placeholder_and_nothing_else() {
    let rendered = replace_placeholders_in_caddyfile(
        "example.com".to_string(),
        "8001".to_string(),
        "8002".to_string(),
    );
    assert_eq!(rendered, RENDERED);
    assert!(!rendered.contains("{{"));
    assert!(!rendered.contains("}}"));
}

#[test]
fn rendering_twice_gives_the_same_text() {
    let first = replace_placeholders_in_caddyfile(
        "example.com".to_string(),
        "8001".to_string(),
        "8002".to_string(),
    );
    let second = replace_placeholders_in_caddyfile(
        "example.com".to_string(),
        "8001".to_string(),
        "8002".to_string(),
    );
    assert_eq!(first, second);
}

#[test]
fn rendering_agrees_with_replacing_by_hand() {
    let want = CADDY_FILE_TEMPLATE
        .replace("{{DOMAIN}}", "shop.test")
        .replace("{{REVERB_PORT}}", "9001")
        .replace("{{REVERB_SERVER_PORT}}", "9002")
        .replace("{{LARAVEL_PROJECT_PATH}}", LARAVEL_PROJECT_PATH);
    let got = replace_placeholders_in_caddyfile(
        "shop.test".to_string(),
        "9001".to_string(),
        "9002".to_string(),
    );
    assert_eq!(got, want);
}

#[test]
fn a_text_without_placeholders_is_rendered_unchanged() {
    let text = "plain text { with } braces {{ but no name";
    let rendered = render_template(text, &vec![named("DOMAIN", "example.com"), named("X", "y")]);
    assert_eq!(rendered, text);
}

#[test]
fn a_placeholder_without_a_value_stays_as_it_is_written() {
    let rendered = render_template("{{A}} {{B}} {{A}}", &vec![named("A", "1")]);
    assert_eq!(rendered, "1 {{B}} 1");
}

#[test]
fn rendering_with_no_substitutions_changes_nothing() {
    assert_eq!(render_template("{{A}}", &Vec::new()), "{{A}}");
    assert_eq!(render_template("", &vec![named("A", "1")]), "");
}

#[test]
fn substitutions_are_made_one_after_the_other() {
    let rendered = render_template("{{A}}", &vec![named("A", "{{B}}"), named("B", "2")]);
    assert_eq!(rendered, "2");
    let other = render_template("{{A}}", &vec![named("B", "2"), named("A", "{{B}}")]);
    assert_eq!(other, "{{B}}");
}

#[test]
fn values_are_not_escaped() {
    let rendered = render_template("host {{DOMAIN}};", &vec![named("DOMAIN", "a b\n{c}")]);
    assert_eq!(rendered, "host a b\n{c};");
}

#[test]
fn the_first_entry_of_a_key_gives_its_value() {
    let entries = vec![named("A", "1"), named("REVERB_PORT", "9000"), named("REVERB_PORT", "9999")];
    assert_eq!(lookup_or(&entries, "REVERB_PORT", "8001"), "9000");
    assert_eq!(lookup_or(&entries, "A", "x"), "1");
}

#[test]
fn a_key_without_an_entry_gives_the_default() {
    let entries = vec![named("A", "1")];
    assert_eq!(lookup_or(&entries, "REVERB_PORT", DEFAULT_REVERB_PORT), "8001");
    assert_eq!(lookup_or(&entries, "REVERB_SERVER_PORT", DEFAULT_REVERB_SERVER_PORT), "8002");
    assert_eq!(lookup_or(&Vec::new(), "A", ""), "");
}

#[test]
fn the_ports_default_where_the_environment_names_none() {
    let rendered = render_site_caddyfile("example.com", &vec![named("APP_NAME", "\"Shop\"")]);
    assert_eq!(rendered, RENDERED);
    assert!(rendered.contains("example.com:8001 {"));
    assert!(rendered.contains("reverse_proxy 127.0.0.1:8002"));
}

#[test]
fn the_ports_of_the_environment_are_rendered() {
    let entries = vec![named("REVERB_SERVER_PORT", "7002"), named("REVERB_PORT", "7001")];
    let rendered = render_site_caddyfile("example.com", &entries);
    assert!(rendered.contains("example.com:7001 {"));
    assert!(rendered.contains("reverse_proxy 127.0.0.1:7002"));
    assert!(!rendered.contains("8001"));
    assert!(!rendered.contains("8002"));
}

#[test]
fn one_port_may_default_while_the_other_is_set() {
    let rendered = render_site_caddyfile("example.com", &vec![named("REVERB_PORT", "7001")]);
    assert!(rendered.contains("example.com:7001 {"));
    assert!(rendered.contains("reverse_proxy 127.0.0.1:8002"));
}

#[test]
fn braces_around_a_placeholder_stay_as_they_are() {
    assert_eq!(render_template("{{{A}}", &vec![named("A", "x")]), "{x");
    assert_eq!(render_template("{{A}}}", &vec![named("A", "x")]), "x}");
    assert_eq!(render_template("{ {{A}} }", &vec![named("A", "x")]), "{ x }");
    assert_eq!(render_template("{{A}}{{A}}", &vec![named("A", "x")]), "xx");
    assert_eq!(render_template("{{A}}{{B}}{{A}}", &vec![named("A", "1"), named("B", "2")]), "121");
}

#[test]
fn every_occurrence_is_replaced_and_the_text_between_is_kept() {
    let rendered = render_template(
        "a {{X}} b {{Y}} c {{X}} d {{Z}} e",
        &vec![named("X", "1"), named("Y", ""), named("W", "9")],
    );
    assert_eq!(rendered, "a 1 b  c 1 d {{Z}} e");
}

#[test]
fn the_proxy_configuration_is_the_template_with_the_values_in_place() {
    let rendered = replace_placeholders_in_caddyfile("d.test".to_string(), "1".to_string(), "2".to_string());
    let want = [
        "d.test",
        " {\n    root * ",
        LARAVEL_PROJECT_PATH,
        "/public\n    encode zstd gzip\n    php_fastcgi unix//run/php/php8.3-fpm.sock\n    file_server\n}\n\n",
        "d.test",
        ":",
        "1",
        " {\n    reverse_proxy 127.0.0.1:",
        "2",
        "\n}\n",
    ]
    .concat();
    assert_eq!(rendered, want);
    for token in ["{{DOMAIN}}", "{{REVERB_PORT}}", "{{REVERB_SERVER_PORT}}", "{{LARAVEL_PROJECT_PATH}}"] {
        assert!(!rendered.contains(token));
    }
}
