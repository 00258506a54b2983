//! Helpers round the converter.

use vstd::prelude::*;
use vstd::string::StrSliceExecFns;
use std::path::Path;

verus! {

/// The style sheet of a page that comes with no style sheet of its own.
pub const DEFAULT_CSS: &'static str = r#"
    body {
        font-family: -apple-system, BlinkMacSystemFont, 'Segoe UI', Roboto, Oxygen, Ubuntu, Cantarell, 'Open Sans', 'Helvetica Neue', sans-serif;
        line-height: 1.6;
        max-width: 800px;
        margin: 0 auto;
        padding: 2rem;
        color: #333;
    }

    h1, h2, h3, h4, h5, h6 {
        color: #2c3e50;
        margin-top: 1.5em;
        margin-bottom: 0.5em;
    }

    code {
        background-color: #f5f5f5;
        padding: 0.2em 0.4em;
        border-radius: 3px;
        font-family: 'Courier New', Courier, monospace;
    }

    pre {
        background-color: #f5f5f5;
        padding: 1em;
        border-radius: 5px;
        overflow-x: auto;
    }

    blockquote {
        border-left: 4px solid #42b983;
        margin: 1em 0;
        padding-left: 1em;
        color: #666;
    }

    table {
        border-collapse: collapse;
        width: 100%;
        margin: 1em 0;
    }

    th, td {
        border: 1px solid #ddd;
        padding: 8px;
        text-align: left;
    }

    th {
        background-color: #f5f5f5;
    }
    "#;

/// The default style sheet.
pub fn create_default_css() -> (r: &'static str)
    ensures
        r@ == DEFAULT_CSS@,
{
    DEFAULT_CSS
}

/// Whether `extension` is `md`, in upper or lower case.
pub open spec fn is_markdown_extension(extension: Seq<char>) -> bool {
    &&& extension.len() == 2
    &&& (extension[0] == 'm' || extension[0] == 'M')
    &&& (extension[1] == 'd' || extension[1] == 'D')
}

/// A path in the file system, borrowed. Nothing is known here of what it
/// holds.
#[verifier::external_type_specification]
#[verifier::external_body]
pub struct ExPath(Path);

/// The extension of the path, where the path has one, as the standard
/// library's `Path::extension` finds it and `OsStr::to_string_lossy` reads
/// it as text. What counts as the extension is the platform's to say.
pub uninterp spec fn path_extension(path: &Path) -> Option<Seq<char>>;

/// `Path::extension`: the extension of the path as text, where the path
/// has one.
#[verifier::external_body]
fn extension_of(path: &Path) -> (r: Option<String>)
    ensures
        path_extension(path) == match r {
            Some(e) => Some(e@),
            None => None,
        },
{
    path.extension().map(|e| e.to_string_lossy().into_owned())
}

/// Tells whether `extension` is that of a Markdown file.
pub fn has_markdown_extension(extension: &str) -> (r: bool)
    ensures
        r == is_markdown_extension(extension@),
{
    if extension.unicode_len() != 2 {
        return false;
    }
    let m = extension.get_char(0);
    let d = extension.get_char(1);
    (m == 'm' || m == 'M') && (d == 'd' || d == 'D')
}

/// Tells whether the path names a Markdown file: whether it has an
/// extension, and that extension is `md` in upper or lower case.
pub fn is_markdown_file(path: &Path) -> (r: bool)
    ensures
        r == is_markdown_name(path_extension(path)),
{
    let extension = extension_of(path);
    names_markdown_file(&extension)
}

/// Whether the extension of a path, where it has one, is that of a
/// Markdown file. A path without an extension names none.
pub open spec fn is_markdown_name(extension: Option<Seq<char>>) -> bool {
    match extension {
        Some(e) => is_markdown_extension(e),
        None => false,
    }
}

/// Tells from the extension of a path, where it has one, whether the path
/// names a Markdown file.
pub fn names_markdown_file(extension: &Option<String>) -> (r: bool)
    ensures
        r == is_markdown_name(
            match extension {
                Some(e) => Some(e@),
                None => None,
            },
        ),
{
    match extension {
        Some(e) => has_markdown_extension(e.as_str()),
        None => false,
    }
}

} // verus!
