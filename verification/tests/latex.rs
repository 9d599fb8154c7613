use finanalize::latex::renderer::{cleanup_action, replace_spaces, report_file_stem, tex_file_name, CleanupAction};
use finanalize::latex::{
    escape_special_chars, format_table_command, get_commands, Figure, LatexComponent, Link, List, Quotation,
    Section, Source, Subsection, Table,
};

fn pairs(components: Vec<LatexComponent>) -> Vec<(String, String)> {
    get_commands(components)
        .unwrap()
        .iter()
        .map(|c| (c.command().to_string(), c.args().to_string()))
        .collect()
}

fn p(a: &str, b: &str) -> (String, String) {
    (a.to_string(), b.to_string())
}

#[test]
fn sections_and_text() {
    let got = pairs(vec![
        LatexComponent::Section(Section { heading: "Intro".to_string() }),
        LatexComponent::Subsection(Subsection { heading: "Part".to_string() }),
        LatexComponent::Text("50% & $5".to_string()),
        LatexComponent::Citation("smith2024".to_string()),
    ]);
    assert_eq!(
        got,
        vec![
            p("\\section{Intro}", ""),
            p("\\subsection{Part}", ""),
            p("", "50\\% \\& \\$5"),
            p("\\textcite{smith2024}", ""),
        ]
    );
}

#[test]
fn lists_links_quotes_figures() {
    let got = pairs(vec![
        LatexComponent::List(List { is_numbered: true, items: vec!["a".to_string(), "b".to_string()] }),
        LatexComponent::List(List { is_numbered: false, items: vec![] }),
        LatexComponent::Link(Link { is_mailto: true, text: "Mail".to_string(), url: "a@b.c".to_string() }),
        LatexComponent::Link(Link { is_mailto: false, text: "Site".to_string(), url: "https://x".to_string() }),
        LatexComponent::Quotation(Quotation { text: "Q".to_string(), author: "A".to_string() }),
        LatexComponent::Figure(Figure { caption: "C".to_string(), path: "img".to_string() }),
    ]);
    assert_eq!(
        got,
        vec![
            p("\\begin{enumerate}", ""),
            p("\\item", "a"),
            p("\\item", "b"),
            p("\\end{enumerate}", ""),
            p("\\begin{itemize}", ""),
            p("\\end{itemize}", ""),
            p("\\href{mailto:a@b.c}", "{Mail}"),
            p("\\href{https://x}", "{Site}"),
            p("\\begin{quote}", ""),
            p("\\textbf{\\LARGE}", "\\lq Q\\rq"),
            p("\\hfill---", "A"),
            p("\\end{quote}", ""),
            p("\\begin{figure}[H]", ""),
            p("\\includegraphics[width=\\linewidth]", "{img}"),
            p("\\caption{C}", ""),
            p("\\end{figure}", ""),
        ]
    );
}

#[test]
fn tables() {
    let table = Table {
        caption: "T".to_string(),
        rows: vec![vec!["a".to_string(), "b".to_string()], vec!["c".to_string(), "d".to_string()]],
        columns: vec!["H1".to_string(), "H2".to_string()],
    };
    let header = format_table_command(&table, true);
    assert_eq!(header.command(), "\\textbf{H1} & \\textbf{H2}");
    assert_eq!(header.args(), " \\\\");
    let body = format_table_command(&table, false);
    assert_eq!(body.command(), "a & b \\\\c & d");
    let got = pairs(vec![LatexComponent::Table(table)]);
    assert_eq!(got.len(), 10);
    assert_eq!(got[0], p("\\begin{table}[H]", ""));
    assert_eq!(got[1], p("\\caption{T}", ""));
    assert_eq!(got[9], p("\\end{table}", ""));
}

#[test]
fn commands_of_a_concatenation_are_concatenated() {
    let a = pairs(vec![LatexComponent::Section(Section { heading: "A".to_string() })]);
    let b = pairs(vec![LatexComponent::Text("B".to_string())]);
    let ab = pairs(vec![
        LatexComponent::Section(Section { heading: "A".to_string() }),
        LatexComponent::Text("B".to_string()),
    ]);
    let mut joined = a.clone();
    joined.extend(b);
    assert_eq!(ab, joined);
    assert!(pairs(vec![]).is_empty());
}

#[test]
fn escaping() {
    assert_eq!(escape_special_chars("a_b#c{d}~^\\".to_string()), "a\\_b\\#c\\{d\\}\\~\\^\\\\");
    assert_eq!(escape_special_chars("plain".to_string()), "plain");
}

#[test]
fn sources_keep_their_fields() {
    let s = Source::new(
        "MISC".to_string(),
        "smith2024".to_string(),
        "John Smith".to_string(),
        "The Future of AI".to_string(),
        2024,
        "Tech Insights".to_string(),
        "https://example.com/future-ai".to_string(),
    );
    assert_eq!(s.citation_key, "smith2024");
    assert_eq!(s.year, 2024);
}

#[test]
fn report_file_names() {
    assert_eq!(replace_spaces("Test Report 1"), "Test_Report_1");
    assert_eq!(report_file_stem("Test Report"), "test_report");
    assert_eq!(tex_file_name("Q4 Results"), "q4_results.tex");
}

#[test]
fn cleanup_keeps_only_pdfs() {
    assert_eq!(cleanup_action(true, None), CleanupAction::RemoveDir);
    assert_eq!(cleanup_action(true, Some("pdf")), CleanupAction::RemoveDir);
    assert_eq!(cleanup_action(false, Some("pdf")), CleanupAction::Keep);
    assert_eq!(cleanup_action(false, Some("tex")), CleanupAction::RemoveFile);
    assert_eq!(cleanup_action(false, None), CleanupAction::Keep);
}
