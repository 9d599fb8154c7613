//! The parts of a report and the LaTeX commands that typeset them.
use vstd::prelude::*;
use crate::error::FinanalizeError;
use crate::text::{join, join_strings, views, chars_of, push_char, laid_out, lemma_join_laid_out};

pub mod renderer;

verus! {

/// One part of a report.
pub enum LatexComponent {
    Section(Section),
    Subsection(Subsection),
    Text(String),
    Figure(Figure),
    Table(Table),
    Quotation(Quotation),
    Citation(String),
    List(List),
    Link(Link),
}

pub struct Section {
    pub heading: String,
}

pub struct Subsection {
    pub heading: String,
}

pub struct Figure {
    pub caption: String,
    pub path: String,
}

pub struct Table {
    pub caption: String,
    pub rows: Vec<Vec<String>>,
    pub columns: Vec<String>,
}

pub struct Quotation {
    pub text: String,
    pub author: String,
}

pub struct Citation {
    pub source: String,
}

pub struct List {
    pub is_numbered: bool,
    pub items: Vec<String>,
}

pub struct Link {
    pub is_mailto: bool,
    pub text: String,
    pub url: String,
}

/// A bibliography entry.
pub struct Source {
    pub source_type: String,
    pub citation_key: String,
    pub author: String,
    pub title: String,
    pub year: i32,
    pub journal: String,
    pub url: String,
}

impl Source {
    pub fn new(
        source_type: String,
        citation_key: String,
        author: String,
        title: String,
        year: i32,
        journal: String,
        url: String,
    ) -> (s: Self)
        ensures
            s.source_type == source_type,
            s.citation_key == citation_key,
            s.author == author,
            s.title == title,
            s.year == year,
            s.journal == journal,
            s.url == url,
    {
        Source { source_type, citation_key, author, title, year, journal, url }
    }
}

/// A LaTeX command and the text that follows it.
pub struct LatexCommand {
    command: String,
    args: String,
}

impl View for LatexCommand {
    type V = (Seq<char>, Seq<char>);

    closed spec fn view(&self) -> (Seq<char>, Seq<char>) {
        (self.command@, self.args@)
    }
}

impl LatexCommand {
    pub fn new(command: String, args: String) -> (c: Self)
        ensures
            c@ == (command@, args@),
    {
        LatexCommand { command, args }
    }

    pub fn command(&self) -> (s: &str)
        ensures
            s@ == self@.0,
    {
        self.command.as_str()
    }

    pub fn args(&self) -> (s: &str)
        ensures
            s@ == self@.1,
    {
        self.args.as_str()
    }
}

/// The views of a sequence of commands.
pub open spec fn command_views(v: Seq<LatexCommand>) -> Seq<(Seq<char>, Seq<char>)> {
    v.map_values(|c: LatexCommand| c@)
}

/// The characters that LaTeX treats specially in running text.
pub open spec fn is_special(c: char) -> bool {
    ||| c == '&'
    ||| c == '%'
    ||| c == '$'
    ||| c == '#'
    ||| c == '_'
    ||| c == '{'
    ||| c == '}'
    ||| c == '~'
    ||| c == '^'
    ||| c == '\u{20ac}'
    ||| c == '\\'
}

/// `s` with a backslash in front of each special character.
pub open spec fn escape(s: Seq<char>) -> Seq<char>
    decreases s.len(),
{
    if s.len() == 0 {
        seq![]
    } else {
        let e = escape(s.drop_last());
        if is_special(s.last()) {
            e.push('\\').push(s.last())
        } else {
            e.push(s.last())
        }
    }
}

/// Escapes the characters of `input` that LaTeX treats specially.
pub fn escape_special_chars(input: String) -> (r: String)
    ensures
        r@ == escape(input@),
{
    let v = chars_of(input.as_str());
    let mut escaped = String::new();
    let mut i: usize = 0;
    while i < v.len()
        invariant
            i <= v.len(),
            v@ == input@,
            escaped@ == escape(v@.take(i as int)),
        decreases v.len() - i,
    {
        let ch = v[i];
        assert(v@.take(i + 1).drop_last() == v@.take(i as int));
        if ch == '&' || ch == '%' || ch == '$' || ch == '#' || ch == '_' || ch == '{' || ch == '}'
            || ch == '~' || ch == '^' || ch == '\u{20ac}' || ch == '\\' {
            push_char(&mut escaped, '\\');
        }
        push_char(&mut escaped, ch);
        i = i + 1;
    }
    assert(v@.take(v.len() as int) == v@);
    escaped
}

/// The command at the start of a list.
pub open spec fn list_begin(is_numbered: bool) -> Seq<char> {
    if is_numbered { "\\begin{enumerate}"@ } else { "\\begin{itemize}"@ }
}

/// The command at the end of a list.
pub open spec fn list_end(is_numbered: bool) -> Seq<char> {
    if is_numbered { "\\end{enumerate}"@ } else { "\\end{itemize}"@ }
}

/// One `\item` command per list item.
pub open spec fn item_commands(items: Seq<Seq<char>>) -> Seq<(Seq<char>, Seq<char>)> {
    items.map_values(|i: Seq<char>| ("\\item"@, i))
}

/// The views of the rows of a table.
pub open spec fn row_views(rows: Seq<Vec<String>>) -> Seq<Seq<Seq<char>>> {
    rows.map_values(|r: Vec<String>| views(r@))
}

/// The header line of a table: each column name in bold, separated by `&`.
pub open spec fn header_line(columns: Seq<Seq<char>>) -> Seq<char> {
    join(columns.map_values(|c: Seq<char>| "\\textbf{"@ + c + "}"@), " & "@)
}

/// The body of a table: the cells of each row separated by `&`, the rows
/// separated by a line break.
pub open spec fn body_lines(rows: Seq<Seq<Seq<char>>>) -> Seq<char> {
    join(rows.map_values(|r: Seq<Seq<char>>| join(r, " & "@)), " \\\\"@)
}

/// The command that a table line is typeset with.
pub open spec fn table_line(table: Table, is_column: bool) -> (Seq<char>, Seq<char>) {
    if is_column {
        (header_line(views(table.columns@)), " \\\\"@)
    } else {
        (body_lines(row_views(table.rows@)), " \\\\"@)
    }
}

/// The commands that typeset one part of a report.
pub open spec fn component_commands(c: LatexComponent) -> Seq<(Seq<char>, Seq<char>)> {
    let none = Seq::<char>::empty();
    match c {
        LatexComponent::Section(s) => seq![("\\section{"@ + s.heading@ + "}"@, none)],
        LatexComponent::Subsection(s) => seq![("\\subsection{"@ + s.heading@ + "}"@, none)],
        LatexComponent::Text(t) => seq![(none, escape(t@))],
        LatexComponent::Citation(k) => seq![("\\textcite{"@ + k@ + "}"@, none)],
        LatexComponent::List(l) => seq![(list_begin(l.is_numbered), none)] + item_commands(
            views(l.items@),
        ) + seq![(list_end(l.is_numbered), none)],
        LatexComponent::Link(l) => if l.is_mailto {
            seq![("\\href{mailto:"@ + l.url@ + "}"@, "{"@ + l.text@ + "}"@)]
        } else {
            seq![("\\href{"@ + l.url@ + "}"@, "{"@ + l.text@ + "}"@)]
        },
        LatexComponent::Quotation(q) => seq![
            ("\\begin{quote}"@, none),
            ("\\textbf{\\LARGE}"@, "\\lq "@ + q.text@ + "\\rq"@),
            ("\\hfill---"@, q.author@),
            ("\\end{quote}"@, none),
        ],
        LatexComponent::Figure(f) => seq![
            ("\\begin{figure}[H]"@, none),
            ("\\includegraphics[width=\\linewidth]"@, "{"@ + f.path@ + "}"@),
            ("\\caption{"@ + f.caption@ + "}"@, none),
            ("\\end{figure}"@, none),
        ],
        LatexComponent::Table(t) => seq![
            ("\\begin{table}[H]"@, none),
            ("\\caption{"@ + t.caption@ + "}"@, none),
            ("\\begin{tabular}{L{0.35\\linewidth} L{0.38\\linewidth} L{0.16\\linewidth}}"@, none),
            ("\\toprule"@, none),
            table_line(t, true),
            ("\\midrule"@, none),
            table_line(t, false),
            ("\\bottomrule"@, none),
            ("\\end{tabular}"@, none),
            ("\\end{table}"@, none),
        ],
    }
}

/// The commands that typeset the parts of a report, in order.
pub open spec fn all_commands(cs: Seq<LatexComponent>) -> Seq<(Seq<char>, Seq<char>)>
    decreases cs.len(),
{
    if cs.len() == 0 {
        seq![]
    } else {
        all_commands(cs.drop_last()) + component_commands(cs.last())
    }
}

/// A string holding `s`.
fn owned(s: &str) -> (r: String)
    ensures
        r@ == s@,
{
    String::from_str(s)
}

/// `a`, `b` and `c` one after the other.
fn concat3(a: &str, b: &str, c: &str) -> (r: String)
    ensures
        r@ == a@ + b@ + c@,
{
    let mut r = String::from_str(a);
    r.append(b);
    r.append(c);
    r
}

/// Appends a command to `out`.
fn push_command(out: &mut Vec<LatexCommand>, command: String, args: String)
    ensures
        command_views(final(out)@) == command_views(old(out)@).push((command@, args@)),
{
    push_made(out, LatexCommand::new(command, args));
}

/// Appends a command that is already made.
fn push_made(out: &mut Vec<LatexCommand>, c: LatexCommand)
    ensures
        command_views(final(out)@) == command_views(old(out)@).push(c@),
{
    out.push(c);
    assert(command_views(out@) =~= command_views(old(out)@).push(c@));
}

/// Appends a command with no text after it.
fn push_bare(out: &mut Vec<LatexCommand>, command: &str)
    ensures
        command_views(final(out)@) == command_views(old(out)@).push((command@, Seq::<char>::empty())),
{
    push_command(out, owned(command), String::new());
}

/// The command for the header line (`is_column`) or the body of a table.
pub fn format_table_command(table: &Table, is_column: bool) -> (c: LatexCommand)
    ensures
        c@ == table_line(*table, is_column),
{
    if is_column {
        let mut cells: Vec<String> = Vec::new();
        let mut i: usize = 0;
        while i < table.columns.len()
            invariant
                i <= table.columns.len(),
                views(cells@) == views(table.columns@).take(i as int).map_values(
                    |c: Seq<char>| "\\textbf{"@ + c + "}"@,
                ),
            decreases table.columns.len() - i,
        {
            let ghost before = cells@;
            cells.push(concat3("\\textbf{", table.columns[i].as_str(), "}"));
            assert(views(cells@) =~= views(table.columns@).take(i + 1).map_values(
                |c: Seq<char>| "\\textbf{"@ + c + "}"@,
            )) by {
                assert(views(cells@) =~= views(before).push(cells@[i as int]@));
            }
            i = i + 1;
        }
        assert(views(table.columns@).take(i as int) == views(table.columns@));
        LatexCommand::new(join_strings(&cells, " & "), owned(" \\\\"))
    } else {
        let mut lines: Vec<String> = Vec::new();
        let mut i: usize = 0;
        while i < table.rows.len()
            invariant
                i <= table.rows.len(),
                views(lines@) == row_views(table.rows@).take(i as int).map_values(
                    |r: Seq<Seq<char>>| join(r, " & "@),
                ),
            decreases table.rows.len() - i,
        {
            let ghost before = lines@;
            lines.push(join_strings(&table.rows[i], " & "));
            assert(views(lines@) =~= row_views(table.rows@).take(i + 1).map_values(
                |r: Seq<Seq<char>>| join(r, " & "@),
            )) by {
                assert(views(lines@) =~= views(before).push(lines@[i as int]@));
            }
            i = i + 1;
        }
        assert(row_views(table.rows@).take(i as int) == row_views(table.rows@));
        LatexCommand::new(join_strings(&lines, " \\\\"), owned(" \\\\"))
    }
}

/// Appends the commands of a list.
fn push_list(l: &List, out: &mut Vec<LatexCommand>)
    ensures
        command_views(final(out)@) == command_views(old(out)@) + seq![
            (list_begin(l.is_numbered), Seq::<char>::empty()),
        ] + item_commands(views(l.items@)) + seq![(list_end(l.is_numbered), Seq::<char>::empty())],
{
    let ghost start = command_views(out@);
    if l.is_numbered {
        push_bare(out, "\\begin{enumerate}");
    } else {
        push_bare(out, "\\begin{itemize}");
    }
    let mut i: usize = 0;
    while i < l.items.len()
        invariant
            i <= l.items.len(),
            command_views(out@) == start + seq![(list_begin(l.is_numbered), Seq::<char>::empty())]
                + item_commands(views(l.items@).take(i as int)),
        decreases l.items.len() - i,
    {
        push_command(out, owned("\\item"), l.items[i].clone());
        assert(item_commands(views(l.items@).take(i + 1)) =~= item_commands(
            views(l.items@).take(i as int),
        ).push(("\\item"@, l.items@[i as int]@)));
        i = i + 1;
    }
    assert(views(l.items@).take(i as int) == views(l.items@));
    if l.is_numbered {
        push_bare(out, "\\end{enumerate}");
    } else {
        push_bare(out, "\\end{itemize}");
    }
}

/// Appends the commands of a table.
fn push_table(t: &Table, out: &mut Vec<LatexCommand>)
    ensures
        command_views(final(out)@) == command_views(old(out)@) + component_commands(
            LatexComponent::Table(*t),
        ),
{
    let ghost start = command_views(out@);
    push_bare(out, "\\begin{table}[H]");
    push_command(out, concat3("\\caption{", t.caption.as_str(), "}"), String::new());
    push_bare(out, "\\begin{tabular}{L{0.35\\linewidth} L{0.38\\linewidth} L{0.16\\linewidth}}");
    push_bare(out, "\\toprule");
    let header = format_table_command(t, true);
    push_made(out, header);
    push_bare(out, "\\midrule");
    let body = format_table_command(t, false);
    push_made(out, body);
    push_bare(out, "\\bottomrule");
    push_bare(out, "\\end{tabular}");
    push_bare(out, "\\end{table}");
    assert(command_views(out@) =~= start + component_commands(LatexComponent::Table(*t)));
}

/// Appends the commands that typeset one part of a report.
fn push_component(c: &LatexComponent, out: &mut Vec<LatexCommand>)
    ensures
        command_views(final(out)@) == command_views(old(out)@) + component_commands(*c),
{
    let ghost start = command_views(out@);
    match c {
        LatexComponent::Section(section) => {
            push_command(out, concat3("\\section{", section.heading.as_str(), "}"), String::new());
        },
        LatexComponent::Subsection(subsection) => {
            push_command(
                out,
                concat3("\\subsection{", subsection.heading.as_str(), "}"),
                String::new(),
            );
        },
        LatexComponent::Text(text) => {
            let escaped_text = escape_special_chars(text.clone());
            push_command(out, String::new(), escaped_text);
        },
        LatexComponent::Citation(citation_key) => {
            push_command(out, concat3("\\textcite{", citation_key.as_str(), "}"), String::new());
        },
        LatexComponent::List(list) => {
            push_list(list, out);
        },
        LatexComponent::Link(link) => {
            if link.is_mailto {
                push_command(
                    out,
                    concat3("\\href{mailto:", link.url.as_str(), "}"),
                    concat3("{", link.text.as_str(), "}"),
                );
            } else {
                push_command(
                    out,
                    concat3("\\href{", link.url.as_str(), "}"),
                    concat3("{", link.text.as_str(), "}"),
                );
            }
        },
        LatexComponent::Quotation(quotation) => {
            push_bare(out, "\\begin{quote}");
            push_command(
                out,
                owned("\\textbf{\\LARGE}"),
                concat3("\\lq ", quotation.text.as_str(), "\\rq"),
            );
            push_command(out, owned("\\hfill---"), quotation.author.clone());
            push_bare(out, "\\end{quote}");
        },
        LatexComponent::Figure(figure) => {
            push_bare(out, "\\begin{figure}[H]");
            push_command(
                out,
                owned("\\includegraphics[width=\\linewidth]"),
                concat3("{", figure.path.as_str(), "}"),
            );
            push_command(out, concat3("\\caption{", figure.caption.as_str(), "}"), String::new());
            push_bare(out, "\\end{figure}");
        },
        LatexComponent::Table(table) => {
            push_table(table, out);
        },
    }
    assert(command_views(out@) =~= start + component_commands(*c));
}

/// The LaTeX commands that typeset the given parts of a report, in order.
/// It never fails.
pub fn get_commands(components: Vec<LatexComponent>) -> (r: Result<Vec<LatexCommand>, FinanalizeError>)
    ensures
        r is Ok,
        r matches Ok(cmds) ==> command_views(cmds@) == all_commands(components@),
{
    let mut commands: Vec<LatexCommand> = Vec::new();
    let mut i: usize = 0;
    while i < components.len()
        invariant
            i <= components.len(),
            command_views(commands@) == all_commands(components@.take(i as int)),
        decreases components.len() - i,
    {
        assert(components@.take(i + 1).drop_last() == components@.take(i as int));
        push_component(&components[i], &mut commands);
        i = i + 1;
    }
    assert(components@.take(i as int) == components@);
    Ok(commands)
}

/// The commands for the parts of two reports put one after the other are
/// the commands for the first followed by those for the second.
pub proof fn lemma_all_commands_append(a: Seq<LatexComponent>, b: Seq<LatexComponent>)
    ensures
        all_commands(a + b) == all_commands(a) + all_commands(b),
    decreases b.len(),
{
    if b.len() == 0 {
        assert(a + b == a);
        assert(all_commands(b) == Seq::<(Seq<char>, Seq<char>)>::empty());
        assert(all_commands(a) + all_commands(b) == all_commands(a));
    } else {
        lemma_all_commands_append(a, b.drop_last());
        assert((a + b).drop_last() == a + b.drop_last());
        assert((a + b).last() == b.last());
        assert(all_commands(a) + all_commands(b) == all_commands(a) + (all_commands(b.drop_last())
            + component_commands(b.last())));
    }
}

/// Each part of a report is typeset by at least one command, so a report
/// has at least as many commands as parts.
pub proof fn lemma_commands_cover_parts(cs: Seq<LatexComponent>)
    ensures
        all_commands(cs).len() >= cs.len(),
    decreases cs.len(),
{
    if cs.len() > 0 {
        lemma_commands_cover_parts(cs.drop_last());
        let c = cs.last();
        assert(component_commands(c).len() >= 1) by {
            match c {
                LatexComponent::List(l) => {
                    assert(item_commands(views(l.items@)).len() == l.items@.len());
                },
                _ => {},
            }
        }
    }
}

/// The commands of the parts before a last part are followed by that
/// part's commands.
proof fn lemma_all_commands_push(a: Seq<LatexComponent>, c: LatexComponent)
    ensures
        all_commands(a.push(c)) == all_commands(a) + component_commands(c),
{
    assert(a.push(c).drop_last() =~= a);
}

/// A table is typeset between `\toprule` and `\bottomrule` with its header
/// above `\midrule` and its rows below it, wherever it stands in a report:
/// the fifth command of its block is the column names, each in
/// `\textbf{..}`, one after the other with ` & ` between, and the seventh is
/// the rows, each its cells with ` & ` between, one after the other with
/// ` \\` between. Both end with ` \\`.
pub proof fn lemma_table_header_above_body(a: Seq<LatexComponent>, t: Table, b: Seq<LatexComponent>)
    ensures
        ({
            let cs = all_commands(a.push(LatexComponent::Table(t)) + b);
            let o = all_commands(a).len() as int;
            &&& cs[o + 3] == ("\\toprule"@, Seq::<char>::empty())
            &&& laid_out(
                cs[o + 4].0,
                t.columns@.map_values(|c: String| "\\textbf{"@ + c@ + "}"@),
                " & "@,
            )
            &&& cs[o + 4].1 == " \\\\"@
            &&& cs[o + 5] == ("\\midrule"@, Seq::<char>::empty())
            &&& exists|row_texts: Seq<Seq<char>>|
                #![trigger laid_out(cs[o + 6].0, row_texts, " \\\\"@)]
                {
                    &&& row_texts.len() == t.rows@.len()
                    &&& forall|k: int|
                        0 <= k < row_texts.len() ==> laid_out(
                            #[trigger] row_texts[k],
                            views(t.rows@[k]@),
                            " & "@,
                        )
                    &&& laid_out(cs[o + 6].0, row_texts, " \\\\"@)
                }
            &&& cs[o + 6].1 == " \\\\"@
        }),
{
    let c = LatexComponent::Table(t);
    lemma_all_commands_push(a, c);
    lemma_all_commands_append(a.push(c), b);
    let cs = all_commands(a.push(c) + b);
    let o = all_commands(a).len() as int;
    let block = component_commands(c);
    assert(block.len() == 10);
    assert(cs == all_commands(a) + block + all_commands(b));
    assert(cs[o + 3] == block[3]);
    assert(cs[o + 4] == block[4]);
    assert(cs[o + 5] == block[5]);
    assert(cs[o + 6] == block[6]);
    let bold = t.columns@.map_values(|c: String| "\\textbf{"@ + c@ + "}"@);
    assert(views(t.columns@).map_values(|c: Seq<char>| "\\textbf{"@ + c + "}"@) =~= bold);
    lemma_join_laid_out(bold, " & "@);
    let rows = row_views(t.rows@);
    let row_texts = rows.map_values(|r: Seq<Seq<char>>| join(r, " & "@));
    assert forall|k: int| 0 <= k < row_texts.len() implies laid_out(
        #[trigger] row_texts[k],
        views(t.rows@[k]@),
        " & "@,
    ) by {
        assert(rows[k] == views(t.rows@[k]@));
        lemma_join_laid_out(rows[k], " & "@);
    }
    lemma_join_laid_out(row_texts, " \\\\"@);
    assert(laid_out(cs[o + 6].0, row_texts, " \\\\"@));
}

} // verus!
