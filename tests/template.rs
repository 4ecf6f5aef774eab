use reedact::template::{
    find_template, is_template_source, render_outcome, TemplateError, TemplateRegistry,
    TEMPLATE_SUFFIX,
};
use tera::Context;

fn pairs(items: &[(&str, &str)]) -> Vec<(String, String)> {
    items.iter().map(|(n, s)| (n.to_string(), s.to_string())).collect()
}

fn render_template(
    reg: &TemplateRegistry,
    name: &str,
    ctx: &Context,
) -> Result<String, TemplateError> {
    find_template(reg, name)?;
    render_outcome(reg.engine().render(name, ctx))
}

fn registry(items: &[(&str, &str)]) -> TemplateRegistry {
    match TemplateRegistry::from_sources(&pairs(items)) {
        Ok(r) => r,
        Err(_) => panic!("templates should compile"),
    }
}

#[test]
fn valid_sources_compile_and_are_registered() {
    let reg = registry(&[("index.html", "<p>{{ name }}</p>"), ("mail.txt", "Hi {{ name }}")]);
    assert!(reg.contains("index.html"));
    assert!(reg.contains("mail.txt"));
    assert!(!reg.contains("other.html"));
}

#[test]
fn empty_source_set_compiles() {
    let reg = registry(&[]);
    assert!(!reg.contains("index.html"));
}

#[test]
fn invalid_source_fails_compilation() {
    let r = TemplateRegistry::from_sources(&pairs(&[
        ("good.html", "fine"),
        ("bad.html", "{{ unclosed"),
    ]));
    assert!(matches!(r, Err(TemplateError::Compilation(_))));
}

#[test]
fn unresolved_parent_fails_compilation() {
    let r = TemplateRegistry::from_sources(&pairs(&[(
        "child.html",
        "{% extends \"missing.html\" %}",
    )]));
    assert!(matches!(r, Err(TemplateError::Compilation(_))));
}

#[test]
fn render_substitutes_variables() {
    let reg = registry(&[("hello.txt", "Hello {{ name }}!")]);
    let mut ctx = Context::new();
    ctx.insert("name", "World");
    let out = render_template(&reg, "hello.txt", &ctx);
    assert!(matches!(out, Ok(ref s) if s == "Hello World!"));
}

#[test]
fn rendering_twice_gives_identical_output() {
    let reg = registry(&[("page.html", "<h1>{{ title }}</h1>{% for i in items %}{{ i }},{% endfor %}")]);
    let mut ctx = Context::new();
    ctx.insert("title", "Same");
    ctx.insert("items", &vec![1, 2, 3]);
    let a = render_template(&reg, "page.html", &ctx);
    let b = render_template(&reg, "page.html", &ctx);
    match (a, b) {
        (Ok(x), Ok(y)) => {
            assert_eq!(x, y);
            assert_eq!(x, "<h1>Same</h1>1,2,3,");
        }
        _ => panic!("both renders should succeed"),
    }
}

#[test]
fn html_template_escapes_values() {
    let reg = registry(&[("page.html", "<div>{{ v }}</div>")]);
    let mut ctx = Context::new();
    ctx.insert("v", "<script>");
    match render_template(&reg, "page.html", &ctx) {
        Ok(s) => assert_eq!(s, "<div>&lt;script&gt;</div>"),
        Err(_) => panic!("render should succeed"),
    }
}

#[test]
fn tera_template_escapes_values() {
    let reg = registry(&[("page.tera", "{{ v }}")]);
    let mut ctx = Context::new();
    ctx.insert("v", "<script>");
    match render_template(&reg, "page.tera", &ctx) {
        Ok(s) => assert_eq!(s, "&lt;script&gt;"),
        Err(_) => panic!("render should succeed"),
    }
}

#[test]
fn other_suffix_leaves_values_unescaped() {
    let reg = registry(&[("page.txt", "{{ v }}"), ("page.htm", "{{ v }}")]);
    let mut ctx = Context::new();
    ctx.insert("v", "<script>");
    for name in ["page.txt", "page.htm"] {
        match render_template(&reg, name, &ctx) {
            Ok(s) => assert_eq!(s, "<script>"),
            Err(_) => panic!("render should succeed"),
        }
    }
}

#[test]
fn missing_template_is_not_found() {
    let reg = registry(&[("index.html", "x")]);
    let r = render_template(&reg, "nonexistent", &Context::new());
    match r {
        Err(TemplateError::NotFound(name)) => assert_eq!(name, "nonexistent"),
        _ => panic!("expected NotFound"),
    }
}

#[test]
fn missing_variable_is_a_render_error() {
    let reg = registry(&[("hello.txt", "Hello {{ name }}!")]);
    let r = render_template(&reg, "hello.txt", &Context::new());
    assert!(matches!(r, Err(TemplateError::Render(_))));
}

#[test]
fn outcome_keeps_text_and_marks_failure() {
    assert!(matches!(render_outcome(Ok("abc".to_string())), Ok(ref s) if s == "abc"));
    let e = tera::Error::msg("boom");
    assert!(matches!(render_outcome(Err(e)), Err(TemplateError::Render(_))));
}

#[test]
fn template_sources_are_picked_by_suffix() {
    assert_eq!(TEMPLATE_SUFFIX, ".tera");
    assert!(is_template_source("templates/index.tera"));
    assert!(is_template_source("a/b/c.html.tera"));
    assert!(is_template_source(".tera"));
    assert!(!is_template_source("templates/index.html"));
    assert!(!is_template_source("index.tera.bak"));
    assert!(!is_template_source("tera"));
    assert!(!is_template_source(""));
}

#[test]
fn self_parent_behind_another_is_circular() {
    let r = TemplateRegistry::from_sources(&pairs(&[
        ("a", "{% extends \"b\" %}"),
        ("b", "{% extends \"b\" %}"),
    ]));
    assert!(matches!(r, Err(TemplateError::CircularExtend(_))));
}

#[test]
fn two_templates_extending_each_other_are_circular() {
    let r = TemplateRegistry::from_sources(&pairs(&[
        ("a.html", "{% extends \"b.html\" %}"),
        ("b.html", "{% extends \"a.html\" %}"),
    ]));
    assert!(matches!(r, Err(TemplateError::CircularExtend(_))));
}

#[test]
fn inheritance_chain_compiles_and_renders() {
    let reg = registry(&[
        ("base.html", "<b>{% block body %}base{% endblock body %}</b>"),
        ("mid.html", "{% extends \"base.html\" %}"),
        ("page.html", "{% extends \"mid.html\" %}{% block body %}{{ v }}{% endblock body %}"),
    ]);
    let mut ctx = Context::new();
    ctx.insert("v", "<i>");
    match render_template(&reg, "page.html", &ctx) {
        Ok(s) => assert_eq!(s, "<b>&lt;i&gt;</b>"),
        Err(_) => panic!("render should succeed"),
    }
}

#[test]
fn later_source_of_a_name_replaces_earlier() {
    let reg = registry(&[("t.txt", "first"), ("t.txt", "second")]);
    match render_template(&reg, "t.txt", &Context::new()) {
        Ok(s) => assert_eq!(s, "second"),
        Err(_) => panic!("render should succeed"),
    }
}

#[test]
fn find_template_reports_missing_names() {
    let reg = registry(&[("index.html", "x")]);
    assert!(find_template(&reg, "index.html").is_ok());
    match find_template(&reg, "other.html") {
        Err(TemplateError::NotFound(n)) => assert_eq!(n, "other.html"),
        _ => panic!("expected NotFound"),
    }
}
