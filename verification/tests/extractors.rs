use finanalize::error::FinanalizeError;
use finanalize::extractors::csv::{markdown_table, column_description, data_from_columns, ClassifierColumn, DataClassifierOuput};
use finanalize::extractors::excel::{first_sheet, rows_to_csv};
use finanalize::extractors::figure::FigureExtractor;
use finanalize::extractors::html::HTMLExtractor;
use finanalize::extractors::md::{MarkdownExtractor, markdown_line};
use finanalize::extractors::pdf::{PdfExtractor, content_of_pdf_html};
use finanalize::extractors::text::TextExtractor;
use finanalize::extractors::text_extractor::TextExtractor as PlainTextExtractor;
use finanalize::extractors::{Content, ContentExtract, FileType};

#[test]
fn test_html_to_markdown_conversion() {
    let sample_html = r#"
        <html>
            <body>
                <h1>Title</h1>
                <p>This is a paragraph.</p>
                <ul>
                    <li>Item 1</li>
                    <li>Item 2</li>
                </ul>
                <h2>Subtitle</h2>
            </body>
        </html>
        "#;
    let buffer = sample_html.to_string();
    let extractor = MarkdownExtractor;
    let result = extractor
        .extract(FileType::MarkDown(buffer))
        .expect("Markdown extraction failed");
    assert_eq!(result.len(), 1);
    if let Content::MarkDown(markdown) = &result[0] {
        assert!(markdown.contains("# Title"), "Markdown should contain '# Title'");
        assert!(markdown.contains("## Subtitle"), "Markdown should contain '## Subtitle'");
        assert!(markdown.contains("- Item 1"), "Markdown should contain '- Item 1'");
        assert!(markdown.contains("- Item 2"), "Markdown should contain '- Item 2'");
        assert!(markdown.contains("This is a paragraph."), "Markdown should contain the paragraph text");
    } else {
        panic!("Expected Content::MarkDown variant");
    }
}

#[test]
fn test_plain_text_conversion() {
    let sample_text = "This is plain text input.";
    let extractor = MarkdownExtractor;
    let result = extractor
        .extract(FileType::MarkDown(sample_text.to_string()))
        .expect("Markdown extraction failed for plain text");
    assert_eq!(result.len(), 1);
    if let Content::MarkDown(markdown) = &result[0] {
        assert_eq!(markdown, sample_text, "Plain text should be returned as-is");
    } else {
        panic!("Expected Content::MarkDown variant");
    }
}

#[test]
fn test_empty_input() {
    let sample_text = "";
    let extractor = MarkdownExtractor;
    let result = extractor.extract(FileType::MarkDown(sample_text.to_string()));
    assert!(result.is_err(), "Empty input should return an error");
    if let Err(FinanalizeError::NotFound) = result {
    } else {
        panic!("Expected NotFound error for empty input");
    }
}

#[test]
fn markdown_of_exact_html() {
    let html = "<html><body><h1>A</h1><p>B</p><li>C</li><h3>D</h3><span>E</span></body></html>";
    let result = MarkdownExtractor.extract(FileType::MarkDown(html.to_string())).unwrap();
    match &result[0] {
        Content::MarkDown(md) => assert_eq!(md, "# A\n\nB\n\n- C\n### D\n\nE"),
        _ => panic!("expected markdown"),
    }
}

#[test]
fn markdown_of_html_without_body_text_is_not_found() {
    let result = MarkdownExtractor.extract(FileType::MarkDown("   <html></html>".to_string()));
    assert!(matches!(result, Err(FinanalizeError::NotFound)));
}

#[test]
fn markdown_whitespace_text_is_kept() {
    let result = MarkdownExtractor.extract(FileType::MarkDown("  ".to_string())).unwrap();
    match &result[0] {
        Content::MarkDown(md) => assert_eq!(md, "  "),
        _ => panic!("expected markdown"),
    }
}

#[test]
fn markdown_rejects_other_kinds() {
    let result = MarkdownExtractor.extract(FileType::Text("x".to_string()));
    match result {
        Err(FinanalizeError::ParseError(m)) => assert_eq!(m, "Invalid input type"),
        _ => panic!("expected a parse error"),
    }
}

#[test]
fn markdown_lines_by_tag() {
    assert_eq!(markdown_line("h1", "T"), "# T\n\n");
    assert_eq!(markdown_line("h2", "T"), "## T\n\n");
    assert_eq!(markdown_line("h3", "T"), "### T\n\n");
    assert_eq!(markdown_line("p", "T"), "T\n\n");
    assert_eq!(markdown_line("li", "T"), "- T\n");
    assert_eq!(markdown_line("div", "T"), "T\n");
}

#[test]
fn test_figure_extraction() {
    let test_html = r#"
        <html>
            <body>
                <figure>
                    <img src="image1.jpg" alt="Image 1 Description">
                    <figcaption>Figure 1 Caption</figcaption>
                </figure>
                <figure>
                    <img src="image2.png">
                    <figcaption>Figure 2 Caption</figcaption>
                </figure>
                <img src="standalone.jpg" alt="Standalone Image">
            </body>
        </html>
        "#;
    let file = FileType::Html(test_html.to_string());
    let extractor = FigureExtractor;
    match extractor.extract(file) {
        Ok(result) => {
            println!("Extraction result: {:?}", result);
            if let Content::Figures(figures) = &result[0] {
                assert_eq!(figures.len(), 2);
                assert_eq!(figures[0].url, "image1.jpg");
                assert_eq!(figures[0].alt_text, Some("Image 1 Description".to_string()));
                assert_eq!(figures[0].caption, Some("Figure 1 Caption".to_string()));
                assert_eq!(figures[1].url, "image2.png");
                assert_eq!(figures[1].alt_text, None);
                assert_eq!(figures[1].caption, Some("Figure 2 Caption".to_string()));
            } else {
                panic!("Expected Content::Figures variant");
            }
        }
        Err(err) => {
            panic!("Test failed with error: {:?}", err);
        }
    }
}

#[test]
fn figure_without_image_or_caption() {
    let html = "<figure><figcaption>Only text</figcaption></figure><figure><img alt=\"x\"></figure>";
    let result = FigureExtractor.extract(FileType::Html(html.to_string())).unwrap();
    match &result[0] {
        Content::Figures(figures) => {
            assert_eq!(figures.len(), 1);
            assert_eq!(figures[0].url, "");
            assert_eq!(figures[0].alt_text, Some("x".to_string()));
            assert_eq!(figures[0].caption, None);
        }
        _ => panic!("expected figures"),
    }
}

#[test]
fn test_html_extraction() {
    let test_html = r#"
        <html>
            <body>
                <header><h1>Header Title</h1></header>
                <nav>Navigation Links</nav>
                <aside>Sidebar Content</aside>
                <div>Main Content</div>
                <article>Another Important Section</article>
                <figure>
                    <img src="image1.jpg" alt="Image 1">
                    <figcaption>Caption for Image 1</figcaption>
                </figure>
                <footer>Footer Information</footer>
            </body>
        </html>
        "#;
    let file = FileType::Html(test_html.to_string());
    let extractor = HTMLExtractor;
    match extractor.extract(file) {
        Ok(result) => {
            println!("Extraction result: {:?}", result);
            assert!(result.iter().any(|content| matches!(content, Content::Figures(_))));
            assert!(result.iter().any(|content| matches!(content, Content::MarkDown(_))));
            if let Some(Content::Figures(figures)) = result.iter().find(|content| matches!(content, Content::Figures(_))) {
                assert_eq!(figures.len(), 1);
                let figure = &figures[0];
                assert_eq!(figure.url, "image1.jpg");
                assert_eq!(figure.alt_text.as_deref(), Some("Image 1"));
                assert_eq!(figure.caption.as_deref(), Some("Caption for Image 1"));
            }
            if let Some(Content::MarkDown(markdown)) = result.iter().find(|content| matches!(content, Content::MarkDown(_))) {
                assert!(markdown.contains("Main Content"));
                assert!(markdown.contains("Another Important Section"));
                assert!(!markdown.contains("Header Title"));
                assert!(!markdown.contains("Navigation Links"));
                assert!(!markdown.contains("Sidebar Content"));
                assert!(!markdown.contains("Footer Information"));
            }
        }
        Err(err) => {
            panic!("Test failed with error: {:?}", err);
        }
    }
}

#[test]
fn html_without_sections_is_not_found() {
    let result = HTMLExtractor.extract(FileType::Html("<html><body><p>Only a paragraph</p></body></html>".to_string()));
    assert!(matches!(result, Err(FinanalizeError::NotFound)));
}

#[test]
fn html_sections_inside_nav_are_left_out() {
    let html = "<nav><div>menu</div></nav><div>kept</div>";
    let result = HTMLExtractor.extract(FileType::Html(html.to_string())).unwrap();
    assert_eq!(result.len(), 2);
    match &result[1] {
        Content::MarkDown(md) => assert_eq!(md, "kept"),
        _ => panic!("expected markdown"),
    }
}

#[test]
fn text_test_extract() {
    let text: &str = "Once upon a time, in a vast kingdom surrounded by towering mountains and endless forests, there lived a wise old storyteller named Eldrin. \
        He traveled from village to village, sharing tales of ancient heroes, mystical creatures, and forgotten lands. Children gathered around him, eyes wide with wonder, \
        as he spoke of dragons soaring through the skies, knights embarking on perilous quests, and hidden treasures buried deep beneath the earth. \
        His voice carried the weight of history, weaving a tapestry of imagination that spanned generations. Eldrin believed that stories held power—the power to inspire, \
        to teach, and to unite. Even kings sought his wisdom, hoping to learn from the past through his words. But one day, as he reached the final village on his journey, \
        Eldrin encountered a young girl who claimed she had a story he had never heard before. Intrigued, he sat and listened as she spoke of a world beyond the stars, \
        where dreams shaped reality and hope never faded. Eldrin smiled, knowing that every story leads to another.";
    let extractor = TextExtractor;
    let chunks = extractor.extract(FileType::Text(text.into())).unwrap();
    for chunk in &chunks {
        if let Content::Text(text_chunk) = chunk {
            assert!(text_chunk.len() <= 512, "Chunk exceeds 512 characters!");
        } else {
            panic!("Chunk is not wrapped as Content::Text");
        }
    }
}

#[test]
fn text_chunks_close_at_the_limit() {
    let word = "a".repeat(300);
    let input = format!("{} {} b", word, word);
    let chunks = PlainTextExtractor.extract(&input);
    assert_eq!(chunks, vec![word.clone(), format!("{} b", word)]);
    assert_eq!(PlainTextExtractor.extract("  one   two "), vec!["one two".to_string()]);
    assert!(PlainTextExtractor.extract("   ").is_empty());
}

#[test]
fn text_extractor_rejects_other_kinds() {
    let result = TextExtractor.extract(FileType::Csv("a,b".to_string()));
    assert!(matches!(result, Err(FinanalizeError::ParseError(_))));
}

#[test]
fn pdf_rendering_errors_are_passed_on() {
    let result = PdfExtractor.read_rendering(Err(FinanalizeError::InternalServerError));
    assert!(matches!(result, Err(FinanalizeError::InternalServerError)));
    let result = PdfExtractor.read_rendering(Ok(b"<article>Filing text</article>".to_vec())).unwrap();
    match &result[1] {
        Content::MarkDown(md) => assert_eq!(md, "Filing text"),
        _ => panic!("expected markdown"),
    }
}

#[test]
fn pdf_html_is_read_as_a_page() {
    let result = content_of_pdf_html(vec![0xff, 0xfe]);
    assert!(matches!(result, Err(FinanalizeError::Utf8(_))));
    let result = content_of_pdf_html(b"<div>Page one</div>".to_vec()).unwrap();
    assert_eq!(result.len(), 2);
    match &result[1] {
        Content::MarkDown(md) => assert_eq!(md, "Page one"),
        _ => panic!("expected markdown"),
    }
}

#[test]
fn csv_preview_table() {
    let names = vec!["name".to_string(), "age".to_string()];
    let columns = vec![
        vec!["Alice".to_string(), "Bob".to_string()],
        vec!["30".to_string(), "25".to_string()],
    ];
    let table = markdown_table(&names, &columns);
    assert_eq!(
        table,
        "| name | age | \n| --- | --- | \n| Alice | 30 | \n| Bob | 25 | \n| null | null | \n| null | null | \n| null | null | \n"
    );
}

#[test]
fn csv_column_descriptions() {
    let cols = vec![
        ClassifierColumn { title: "age".to_string(), description: "Age in years".to_string() },
        ClassifierColumn { title: "age".to_string(), description: "second".to_string() },
    ];
    assert_eq!(column_description(&cols, "age"), "Age in years");
    assert_eq!(column_description(&cols, "city"), "");
    let output = DataClassifierOuput { title: "People".to_string(), description: "Some people".to_string(), columns: cols };
    let data = data_from_columns(
        output,
        vec!["age".to_string(), "city".to_string()],
        vec![vec![Some("30".to_string()), None], vec![Some("Ghent".to_string())]],
    );
    assert_eq!(data.title, "People");
    assert_eq!(data.description, "Some people");
    assert_eq!(data.columns.len(), 2);
    assert_eq!(data.columns[0].description, "Age in years");
    assert_eq!(data.columns[0].values, vec!["30".to_string(), "".to_string()]);
    assert_eq!(data.columns[1].name, "city");
    assert_eq!(data.columns[1].description, "");
}

#[test]
fn excel_rows_as_csv() {
    let rows = vec![
        vec!["name".to_string(), "age".to_string()],
        vec!["Alice".to_string(), "30".to_string()],
    ];
    assert_eq!(rows_to_csv(&rows), "name,age\nAlice,30\n");
    assert!(matches!(first_sheet(&vec![]), Err(FinanalizeError::InternalServerError)));
    assert_eq!(first_sheet(&vec!["S1".to_string(), "S2".to_string()]).unwrap(), "S1");
}
