use finanalize::error::FinanalizeError;
use finanalize::latex::renderer::{render_bibliography, render_report};
use finanalize::latex::{LatexCommand, Source};

#[test]
fn report_templates_are_filled_in() {
    let commands = vec![
        LatexCommand::new("section".to_string(), "Intro".to_string()),
        LatexCommand::new("par".to_string(), String::new()),
    ];
    let tex = render_report(
        "{{report_title}}|{{report_subtitle}}|{{#each components}}{{command}}:{{args}};{{/each}}",
        "Title",
        "Sub",
        &commands,
    )
    .unwrap();
    assert_eq!(tex, "Title|Sub|section:Intro;par:;");
}

#[test]
fn report_templates_escape_html_in_double_braces() {
    let tex = render_report("{{report_title}} {{{report_subtitle}}}", "A & B", "C & D", &[]).unwrap();
    assert_eq!(tex, "A &amp; B C & D");
}

#[test]
fn bibliography_templates_are_filled_in() {
    let sources = vec![Source::new(
        "article".to_string(),
        "key1".to_string(),
        "Ada".to_string(),
        "On Reports".to_string(),
        2024,
        "Journal".to_string(),
        "http://example.com/x".to_string(),
    )];
    let bib = render_bibliography(
        "{{#each sources}}[{{source_type}}|{{citation_key}}|{{author}}|{{title}}|{{year}}|{{journal}}|{{url}}]{{/each}}",
        &sources,
    )
    .unwrap();
    assert_eq!(bib, "[article|key1|Ada|On Reports|2024|Journal|http://example.com/x]");
}

#[test]
fn broken_templates_are_handlebars_errors() {
    let e = render_report("{{#each components}}", "T", "S", &[]).unwrap_err();
    assert!(matches!(e, FinanalizeError::Handlebars(_)));
    assert!(matches!(render_bibliography("{{#if}", &[]), Err(FinanalizeError::Handlebars(_))));
}
