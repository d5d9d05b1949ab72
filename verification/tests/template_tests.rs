use webtiles_rs::templates::{render_embedded, render_str, TemplateContext, TemplateError, TemplateLibrary};

fn lib() -> TemplateLibrary {
    TemplateLibrary::new() // no includes used in these tests
}

/// Stand-ins for the bundled `banner.html` and `client.html`: the same
/// shape (a conditional greeting, and a page that includes the banner and
/// sets the socket server), so that includes and conditionals are
/// exercised together.
fn bundled() -> TemplateLibrary {
    let mut l = TemplateLibrary::new();
    l.insert(
        "banner.html",
        "<h1>Welcome to WebTiles!</h1>{% if username %}<p>Hello, {{ username }}!</p>{% end %}",
    );
    l.insert(
        "client.html",
        "<html>{% include banner.html %}<script>var socket_server = \"{{ socket_server }}\";var game_version = \"{{ game_version }}\";</script></html>",
    );
    l
}

#[test]
fn static_url_becomes_static_path() {
    let ctx = TemplateContext::default();
    let out = render_str(r#"<script src="{{ static_url("scripts/app.js") }}">"#, &lib(), &ctx).unwrap();
    assert_eq!(out, r#"<script src="/static/scripts/app.js">"#);
}

#[test]
fn simple_string_substitution() {
    let ctx = TemplateContext::default().with_string("socket_server", "ws://x/socket");
    let out = render_str(r#"var s = "{{ socket_server }}";"#, &lib(), &ctx).unwrap();
    assert_eq!(out, r#"var s = "ws://x/socket";"#);
}

#[test]
fn set_tag_is_stripped() {
    let ctx = TemplateContext::default();
    let out = render_str("{% set x = 1 %}rest", &lib(), &ctx).unwrap();
    assert_eq!(out, "rest");
}

#[test]
fn getattr_conditional_true_keeps_content() {
    let ctx = TemplateContext::default().with_bool("allow_password_reset", true);
    let out = render_str(
        r#"a{% if getattr(config, "allow_password_reset", False) %}b{% end %}c"#,
        &lib(),
        &ctx,
    )
    .unwrap();
    assert_eq!(out, "abc");
}

#[test]
fn getattr_conditional_false_drops_content() {
    let ctx = TemplateContext::default();
    let out = render_str(
        r#"a{% if getattr(config, "allow_password_reset", False) %}b{% end %}c"#,
        &lib(),
        &ctx,
    )
    .unwrap();
    assert_eq!(out, "ac");
}

#[test]
fn nested_if_else_matches_reset_token_flow() {
    let ctx = TemplateContext::default()
        .with_bool("reset_token", true)
        .with_bool("reset_token_error", false)
        .with_string("reset_token", "abc123");
    let template = "{% if reset_token %}{% if reset_token_error %}ERR{% else %}OK:{{ reset_token }}{% end %}{% end %}";
    let out = render_str(template, &lib(), &ctx).unwrap();
    assert_eq!(out, "OK:abc123");
}

#[test]
fn nested_if_takes_error_branch() {
    let ctx = TemplateContext::default()
        .with_bool("reset_token", true)
        .with_bool("reset_token_error", true)
        .with_string("reset_token_error", "bad token");
    let template = "{% if reset_token %}{% if reset_token_error %}ERR:{{ reset_token_error }}{% else %}OK{% end %}{% end %}";
    let out = render_str(template, &lib(), &ctx).unwrap();
    assert_eq!(out, "ERR:bad token");
}

#[test]
fn outer_false_skips_inner_entirely() {
    let ctx = TemplateContext::default();
    let template = "before{% if reset_token %}{% if reset_token_error %}ERR{% else %}OK{% end %}{% end %}after";
    let out = render_str(template, &lib(), &ctx).unwrap();
    assert_eq!(out, "beforeafter");
}

#[test]
fn renders_real_banner_template() {
    let ctx = TemplateContext::default()
        .with_bool("username", true)
        .with_string("username", "alice");
    let out = render_embedded("banner.html", &bundled(), &ctx).unwrap();
    assert!(out.contains("Welcome to WebTiles!"));
    assert!(out.contains("Hello, alice!"));
}

#[test]
fn renders_real_client_html_with_banner_include() {
    let ctx = TemplateContext::default()
        .with_string("socket_server", "ws://x/socket")
        .with_string("game_version", "0.34")
        .with_string("fail_safe_game_version", "0.34");
    let out = render_embedded("client.html", &bundled(), &ctx).unwrap();
    assert!(out.contains("Welcome to WebTiles!"));
    assert!(out.contains(r#"var socket_server = "ws://x/socket";"#));
}

#[test]
fn plain_text_renders_unchanged() {
    let ctx = TemplateContext::default();
    let out = render_str("no tags here: 100% sure", &lib(), &ctx).unwrap();
    assert_eq!(out, "no tags here: 100% sure");
}

#[test]
fn missing_template_is_reported() {
    let ctx = TemplateContext::default();
    let err = render_embedded("nope.html", &lib(), &ctx).unwrap_err();
    assert!(matches!(err, TemplateError::NotFound(_)));
}

#[test]
fn unterminated_if_is_an_error() {
    let ctx = TemplateContext::default();
    assert!(render_str("a{% if x %}b", &lib(), &ctx).is_err());
}

#[test]
fn top_level_else_after_nested_block_is_found() {
    let t = "{% if a %}{% if b %}X{% end %}Y{% else %}Z{% end %}";
    let off = TemplateContext::new();
    assert_eq!(render_str(t, &lib(), &off).unwrap(), "Z");
    let on = TemplateContext::new().with_bool("a", true);
    assert_eq!(render_str(t, &lib(), &on).unwrap(), "Y");
    let both = TemplateContext::new().with_bool("a", true).with_bool("b", true);
    assert_eq!(render_str(t, &lib(), &both).unwrap(), "XY");
}
