//! The prompt templates that ship with the library, looked up by name.
use vstd::prelude::*;
use vstd::utf8::*;
use crate::error::FinanalizeError;
use crate::text::string_from_utf8;

verus! {

/// The prompt that asks for the title of a report.
pub const TITLE_PROMPT: &'static str = "This tool generates the title of a financial report. The user names a financial instrument (a stock, a bond, a cryptocurrency, ...) that the report analyses; the tool answers with a short, objective title for that report.

<Input>
```json
{
    \"user_input\": \"{{user_input}}\"
}
```
</Input>

<Output>
```json
{
    \"title\": \"";

/// The prompt that asks what a table of data is about and what its columns
/// hold.
pub const DATA_CLASSIFIER_PROMPT: &'static str = "This tool describes a table of data. It receives the first rows of the table as a markdown table and answers with a title and a description of the table, and with a description of each column, in JSON.

<Input>
{{input}}
</Input>

<Output>
```json
{
    \"title\": \"";

/// Where the template of a prompt is stored.
pub open spec fn prompt_path(id: Seq<char>) -> Seq<char> {
    id + "/"@ + id + ".prompt.hbs"@
}

/// The stored templates: each path with the bytes stored there.
pub open spec fn prompt_store() -> Seq<(Seq<char>, Seq<u8>)> {
    seq![
        (prompt_path("title"@), encode_utf8(TITLE_PROMPT@)),
        (prompt_path("data-classifier"@), encode_utf8(DATA_CLASSIFIER_PROMPT@)),
    ]
}

/// The bytes stored at a path, if any (the first entry with that path).
pub open spec fn stored_at(store: Seq<(Seq<char>, Seq<u8>)>, path: Seq<char>) -> Option<Seq<u8>>
    decreases store.len(),
{
    if store.len() == 0 {
        None
    } else if store[0].0 == path {
        Some(store[0].1)
    } else {
        stored_at(store.drop_first(), path)
    }
}

/// The stored templates.
fn prompt_files() -> (r: Vec<(String, Vec<u8>)>)
    ensures
        r@.map_values(|e: (String, Vec<u8>)| (e.0@, e.1@)) == prompt_store(),
{
    let mut r: Vec<(String, Vec<u8>)> = Vec::new();
    r.push((path_of("title"), vstd::slice::slice_to_vec(TITLE_PROMPT.as_bytes())));
    r.push(
        (path_of("data-classifier"), vstd::slice::slice_to_vec(DATA_CLASSIFIER_PROMPT.as_bytes())),
    );
    assert(r@.map_values(|e: (String, Vec<u8>)| (e.0@, e.1@)) =~= prompt_store());
    r
}

/// Where the template of a prompt is stored.
pub fn path_of(id: &str) -> (p: String)
    ensures
        p@ == prompt_path(id@),
{
    let mut p = String::from_str(id);
    p.append("/");
    p.append(id);
    p.append(".prompt.hbs");
    p
}

/// The template of the prompt `id`. It fails when no template is stored for it,
/// or when the stored template is not UTF-8 text.
pub fn get_prompt(id: String) -> (r: Result<String, FinanalizeError>)
    ensures
        stored_at(prompt_store(), prompt_path(id@)) is None ==> (r matches Err(
            FinanalizeError::MissingPromptFile(p),
        ) && p@ == prompt_path(id@)),
        stored_at(prompt_store(), prompt_path(id@)) matches Some(bytes) ==> {
            &&& valid_utf8(bytes) ==> (r matches Ok(s) && s@ == decode_utf8(bytes))
            &&& !valid_utf8(bytes) ==> (r matches Err(FinanalizeError::MissingPromptUTF8(p))
                && p@ == prompt_path(id@))
        },
{
    let path = path_of(id.as_str());
    let files = prompt_files();
    let ghost store = prompt_store();
    let mut i: usize = 0;
    assert(store.skip(0) == store);
    while i < files.len()
        invariant
            i <= files.len(),
            files@.map_values(|e: (String, Vec<u8>)| (e.0@, e.1@)) == store,
            store == prompt_store(),
            path@ == prompt_path(id@),
            stored_at(store, path@) == stored_at(store.skip(i as int), path@),
        decreases files.len() - i,
    {
        let ghost rest = store.skip(i as int);
        assert(rest[0] == (files@[i as int].0@, files@[i as int].1@));
        assert(rest.drop_first() == store.skip(i + 1));
        if files[i].0 == path {
            assert(rest[0].0 == path@);
            assert(stored_at(rest, path@) == Some(rest[0].1));
            let bytes = files[i].1.clone();
            assert(bytes@ == rest[0].1);
            return match string_from_utf8(bytes) {
                Ok(s) => Ok(s),
                Err(_) => Err(FinanalizeError::MissingPromptUTF8(path)),
            };
        }
        i = i + 1;
    }
    Err(FinanalizeError::MissingPromptFile(path))
}

} // verus!
