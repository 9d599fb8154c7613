//! The LaTeX source and bibliography of a report, filled in from their
//! templates, where the report is written, and which files of its build
//! folder are cleared away once the PDF is made.
use serde_json::Value;
use vstd::prelude::*;
use crate::error::FinanalizeError;
use crate::latex::{LatexCommand, Source};
use crate::text::{chars_of, string_of, str_eq};

verus! {

/// A compiled report: the identifier of its build folder, its title and the
/// path of its PDF.
#[derive(Debug)]
pub struct PdfReport {
    pub uuid: String,
    pub report_title: String,
    pub report_path: String,
}

/// The lowercase form of a text, as `str::to_lowercase` gives it (Unicode
/// lowercase mapping, which may change the length). It depends on the text
/// alone.
pub uninterp spec fn lowercase(s: Seq<char>) -> Seq<char>;

/// The lowercase form of a text (`str::to_lowercase`).
#[verifier::external_body]
fn to_lowercase(s: &str) -> (r: String)
    ensures
        r@ == lowercase(s@),
{
    s.to_lowercase()
}

/// The text with every space replaced by an underscore.
pub open spec fn underscored(s: Seq<char>) -> Seq<char> {
    s.map_values(|c: char| if c == ' ' { '_' } else { c })
}

/// The name of a report's files, without extension: its title with spaces
/// replaced by underscores, in lowercase.
pub open spec fn file_stem(title: Seq<char>) -> Seq<char> {
    lowercase(underscored(title))
}

/// The text with every space replaced by an underscore.
pub fn replace_spaces(s: &str) -> (r: String)
    ensures
        r@ == underscored(s@),
{
    let cs = chars_of(s);
    let mut out: Vec<char> = Vec::new();
    let mut i: usize = 0;
    while i < cs.len()
        invariant
            i <= cs.len(),
            cs@ == s@,
            out@ == underscored(s@).take(i as int),
        decreases cs.len() - i,
    {
        let c = cs[i];
        out.push(if c == ' ' { '_' } else { c });
        assert(out@ =~= underscored(s@).take(i + 1));
        i = i + 1;
    }
    assert(underscored(s@).take(cs.len() as int) =~= underscored(s@));
    string_of(&out)
}

/// The name of a report's files, without extension.
pub fn report_file_stem(title: &str) -> (r: String)
    ensures
        r@ == file_stem(title@),
{
    let spaced = replace_spaces(title);
    to_lowercase(spaced.as_str())
}

/// The name of the LaTeX file of a report.
pub fn tex_file_name(title: &str) -> (r: String)
    ensures
        r@ == file_stem(title@) + ".tex"@,
{
    let mut r = report_file_stem(title);
    r.append(".tex");
    r
}

/// What becomes of an entry of a report's build folder once the PDF is made.
#[derive(Debug, Clone, Copy, PartialEq, Eq, Structural)]
pub enum CleanupAction {
    /// A folder: removed with all it holds.
    RemoveDir,
    /// A file with an extension other than `pdf`: removed.
    RemoveFile,
    /// A PDF, or a file without extension: kept.
    Keep,
}

/// What becomes of an entry: folders go, files go unless their extension is
/// `pdf` or they have none.
pub open spec fn cleanup_of(is_dir: bool, extension: Option<Seq<char>>) -> CleanupAction {
    if is_dir {
        CleanupAction::RemoveDir
    } else {
        match extension {
            Some(ext) => if ext != "pdf"@ {
                CleanupAction::RemoveFile
            } else {
                CleanupAction::Keep
            },
            None => CleanupAction::Keep,
        }
    }
}

/// What becomes of an entry of a report's build folder.
pub fn cleanup_action(is_dir: bool, extension: Option<&str>) -> (a: CleanupAction)
    ensures
        a == cleanup_of(
            is_dir,
            match extension {
                Some(e) => Some(e@),
                None => None,
            },
        ),
{
    if is_dir {
        CleanupAction::RemoveDir
    } else {
        match extension {
            Some(ext) => if !str_eq(ext, "pdf") {
                CleanupAction::RemoveFile
            } else {
                CleanupAction::Keep
            },
            None => CleanupAction::Keep,
        }
    }
}

/// What the report template reads of each command: its text and the text
/// that follows it.
pub open spec fn command_views(cs: Seq<LatexCommand>) -> Seq<(Seq<char>, Seq<char>)> {
    cs.map_values(|c: LatexCommand| c@)
}

/// What the bibliography template reads of a source: its type, citation
/// key, author, title, year, journal and URL.
pub open spec fn source_fields(s: Source) -> (Seq<char>, Seq<char>, Seq<char>, Seq<char>, i32, Seq<char>, Seq<char>) {
    (s.source_type@, s.citation_key@, s.author@, s.title@, s.year, s.journal@, s.url@)
}

/// What the bibliography template reads of each source.
pub open spec fn source_views(ss: Seq<Source>) -> Seq<(Seq<char>, Seq<char>, Seq<char>, Seq<char>, i32, Seq<char>, Seq<char>)> {
    ss.map_values(|s: Source| source_fields(s))
}

/// The text that `Handlebars::render_template` makes of the report template
/// with the data `{report_title, report_subtitle, components: [{command,
/// args}]}`. It depends on its arguments alone.
pub uninterp spec fn rendered_report(template: Seq<char>, title: Seq<char>, subtitle: Seq<char>, components: Seq<(Seq<char>, Seq<char>)>) -> Seq<char>;

/// Whether `Handlebars::render_template` fills in the report template with
/// that data without error: the template parses, and what it calls exists.
/// It depends on its arguments alone.
pub uninterp spec fn report_renders(template: Seq<char>, title: Seq<char>, subtitle: Seq<char>, components: Seq<(Seq<char>, Seq<char>)>) -> bool;

/// Whether `Handlebars::render_template` fills in the bibliography template
/// with that data without error. It depends on its arguments alone.
pub uninterp spec fn bibliography_renders(template: Seq<char>, sources: Seq<(Seq<char>, Seq<char>, Seq<char>, Seq<char>, i32, Seq<char>, Seq<char>)>) -> bool;

/// The text that `Handlebars::render_template` makes of the bibliography
/// template with the data `{sources: [{source_type, citation_key, author,
/// title, year, journal, url}]}`. It depends on its arguments alone.
pub uninterp spec fn rendered_bibliography(template: Seq<char>, sources: Seq<(Seq<char>, Seq<char>, Seq<char>, Seq<char>, i32, Seq<char>, Seq<char>)>) -> Seq<char>;

/// Fills in the report template with `Handlebars::new().render_template`,
/// the data given as a JSON object of the title, the subtitle and the
/// commands. It succeeds exactly when `report_renders` holds, and what comes
/// back is the text named by `rendered_report`.
#[verifier::external_body]
fn render_report_template(template: &str, title: &str, subtitle: &str, commands: &[LatexCommand]) -> (r: Result<String, handlebars::RenderError>)
    ensures
        r is Ok <==> report_renders(template@, title@, subtitle@, command_views(commands@)),
        r matches Ok(s) ==> s@ == rendered_report(template@, title@, subtitle@, command_views(commands@)),
{
    let components: Vec<Value> =
        commands.iter().map(|c| Value::from_iter([("command", c.command()), ("args", c.args())])).collect();
    let data = Value::from_iter([
        ("report_title", Value::from(title)),
        ("report_subtitle", Value::from(subtitle)),
        ("components", Value::from(components)),
    ]);
    handlebars::Handlebars::new().render_template(template, &data)
}

/// Fills in the bibliography template with
/// `Handlebars::new().render_template`, the data given as a JSON object of
/// the sources. It succeeds exactly when `bibliography_renders` holds, and
/// what comes back is the text named by `rendered_bibliography`.
#[verifier::external_body]
fn render_bibliography_template(template: &str, sources: &[Source]) -> (r: Result<String, handlebars::RenderError>)
    ensures
        r is Ok <==> bibliography_renders(template@, source_views(sources@)),
        r matches Ok(s) ==> s@ == rendered_bibliography(template@, source_views(sources@)),
{
    let entries: Vec<Value> = sources.iter().map(|s| Value::from_iter([
        ("source_type", Value::from(s.source_type.as_str())),
        ("citation_key", Value::from(s.citation_key.as_str())),
        ("author", Value::from(s.author.as_str())),
        ("title", Value::from(s.title.as_str())),
        ("year", Value::from(s.year)),
        ("journal", Value::from(s.journal.as_str())),
        ("url", Value::from(s.url.as_str())),
    ])).collect();
    handlebars::Handlebars::new().render_template(template, &Value::from_iter([("sources", entries)]))
}

/// The LaTeX source of a report: the report template filled in with the
/// report's title, subtitle and commands.
pub fn render_report(template: &str, title: &str, subtitle: &str, commands: &[LatexCommand]) -> (r: Result<String, FinanalizeError>)
    ensures
        r is Ok <==> report_renders(template@, title@, subtitle@, command_views(commands@)),
        r matches Ok(s) ==> s@ == rendered_report(template@, title@, subtitle@, command_views(commands@)),
        r matches Err(e) ==> e is Handlebars,
{
    match render_report_template(template, title, subtitle, commands) {
        Ok(s) => Ok(s),
        Err(e) => Err(FinanalizeError::Handlebars(e)),
    }
}

/// The bibliography of a report: the bibliography template filled in with
/// the report's sources.
pub fn render_bibliography(template: &str, sources: &[Source]) -> (r: Result<String, FinanalizeError>)
    ensures
        r is Ok <==> bibliography_renders(template@, source_views(sources@)),
        r matches Ok(s) ==> s@ == rendered_bibliography(template@, source_views(sources@)),
        r matches Err(e) ==> e is Handlebars,
{
    match render_bibliography_template(template, sources) {
        Ok(s) => Ok(s),
        Err(e) => Err(FinanalizeError::Handlebars(e)),
    }
}

} // verus!
