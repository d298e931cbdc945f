//! What `download` and `render` fetch, and the local names they write.

use vstd::prelude::*;

use crate::cli::error::{spec_from_metadata, CliError, CliErrorView};
use crate::cli::labels::{file_type_label, spec_file_type_label};
use crate::metadata::path_resolver::{resolve, spec_resolve, Resolved};
use crate::metadata::tree::{spec_extension, DocumentEntry, DocumentTree, EntryView, FileType, ItemKind};
use crate::metadata::uuid_text::{spec_uuid_text, uuid_text};
use crate::text::{append_char, chars_of, decimal, decimal_text};

verus! {

/// A visible name as a local file name: path separators and NUL become `_`.
pub open spec fn spec_sanitize_name(name: Seq<char>) -> Seq<char> {
    name.map_values(|c: char| if c == '/' || c == '\\' || c == '\0' { '_' } else { c })
}

pub fn sanitize_name(name: &str) -> (s: String)
    ensures
        s@ == spec_sanitize_name(name@),
        s@.len() == name@.len(),
        forall|i: int| 0 <= i < s@.len() ==> #[trigger] s@[i] != '/' && s@[i] != '\\' && s@[i] != '\0',
{
    let v = chars_of(name);
    let mut s = String::new();
    let mut i: usize = 0;
    while i < v.len()
        invariant
            v@ == name@,
            i <= v@.len(),
            s@ == spec_sanitize_name(v@.take(i as int)),
        decreases v@.len() - i,
    {
        let c = v[i];
        let d = if c == '/' || c == '\\' || c == '\0' {
            '_'
        } else {
            c
        };
        append_char(&mut s, d);
        i = i + 1;
        proof {
            assert(spec_sanitize_name(v@.take(i as int)) =~= spec_sanitize_name(
                v@.take(i - 1),
            ).push(d));
            assert(s@ =~= spec_sanitize_name(v@.take(i as int)));
        }
    }
    proof {
        assert(v@.take(v@.len() as int) =~= v@);
    }
    s
}

/// The document a `download` fetches and its type, or why it cannot.
pub open spec fn spec_download_target(es: Seq<EntryView>, input: Seq<char>, with_pages: bool) -> Result<(EntryView, FileType), CliErrorView> {
    match spec_resolve(es, input) {
        Err(e) => Err(spec_from_metadata(e)),
        Ok(None) => Err(CliErrorView::InvalidPath("cannot download root; specify a document"@)),
        Ok(Some(e)) => match e.kind {
            ItemKind::Folder => Err(
                CliErrorView::InvalidPath("cannot download folder `"@ + e.name + "`"@),
            ),
            ItemKind::Template => Err(
                CliErrorView::InvalidPath("cannot download template `"@ + e.name + "`"@),
            ),
            ItemKind::Document { file_type, .. } => if with_pages && file_type
                != FileType::Notebook {
                Err(CliErrorView::InvalidPath("--pages is only valid for notebooks"@))
            } else {
                Ok((e, file_type))
            },
        },
    }
}

pub fn download_target<'a>(tree: &'a DocumentTree, input: &str, with_pages: bool) -> (r: Result<(&'a DocumentEntry, FileType), CliError>)
    ensures
        match (r, spec_download_target(tree@, input@, with_pages)) {
            (Ok((e, ft)), Ok((v, gt))) => e@ == v && ft == gt,
            (Err(e), Err(f)) => e@ == f,
            _ => false,
        },
{
    let entry = match resolve(tree, input) {
        Err(e) => {
            return Err(CliError::from_metadata(e));
        },
        Ok(Resolved::Root) => {
            let mut m = String::new();
            m.append("cannot download root; specify a document");
            return Err(CliError::InvalidPath(m));
        },
        Ok(Resolved::Entry(e)) => e,
    };
    match entry.kind {
        ItemKind::Folder => {
            let mut m = String::new();
            m.append("cannot download folder `");
            m.append(entry.visible_name.as_str());
            m.append("`");
            Err(CliError::InvalidPath(m))
        },
        ItemKind::Template => {
            let mut m = String::new();
            m.append("cannot download template `");
            m.append(entry.visible_name.as_str());
            m.append("`");
            Err(CliError::InvalidPath(m))
        },
        ItemKind::Document { file_type, .. } => {
            if with_pages && file_type != FileType::Notebook {
                let mut m = String::new();
                m.append("--pages is only valid for notebooks");
                return Err(CliError::InvalidPath(m));
            }
            Ok((entry, file_type))
        },
    }
}

/// `<data_dir>/<uuid>.<ext>`: where the tablet keeps a document's source.
pub open spec fn spec_source_path(data_dir: Seq<char>, uuid: u128, ft: FileType) -> Seq<char> {
    data_dir + seq!['/'] + spec_uuid_text(uuid) + seq!['.'] + spec_extension(ft)
}

pub fn source_path(data_dir: &str, uuid: u128, ft: FileType) -> (s: String)
    ensures
        s@ == spec_source_path(data_dir@, uuid, ft),
{
    let mut s = String::new();
    s.append(data_dir);
    append_char(&mut s, '/');
    let u = uuid_text(uuid);
    s.append(u.as_str());
    append_char(&mut s, '.');
    s.append(ft.extension());
    proof {
        assert(s@ =~= spec_source_path(data_dir@, uuid, ft));
    }
    s
}

/// `<data_dir>/<uuid>.content`: where the tablet keeps a document's content
/// record (its page order among others).
pub open spec fn spec_content_path(data_dir: Seq<char>, uuid: u128) -> Seq<char> {
    data_dir + seq!['/'] + spec_uuid_text(uuid) + ".content"@
}

pub fn content_path(data_dir: &str, uuid: u128) -> (s: String)
    ensures
        s@ == spec_content_path(data_dir@, uuid),
{
    let mut s = String::new();
    s.append(data_dir);
    append_char(&mut s, '/');
    let u = uuid_text(uuid);
    s.append(u.as_str());
    s.append(".content");
    proof {
        assert(s@ =~= spec_content_path(data_dir@, uuid));
    }
    s
}

/// `<name>.<ext>` with the name made safe: the default local file name.
pub open spec fn spec_default_file_name(name: Seq<char>, ft: FileType) -> Seq<char> {
    spec_sanitize_name(name) + seq!['.'] + spec_extension(ft)
}

pub fn default_file_name(name: &str, ft: FileType) -> (s: String)
    ensures
        s@ == spec_default_file_name(name@, ft),
{
    let mut s = sanitize_name(name);
    append_char(&mut s, '.');
    s.append(ft.extension());
    proof {
        assert(s@ =~= spec_default_file_name(name@, ft));
    }
    s
}

/// A notebook that `render` accepts, or why not.
pub open spec fn spec_notebook_error(e: EntryView) -> Option<CliErrorView> {
    match e.kind {
        ItemKind::Document { file_type, .. } => if file_type == FileType::Notebook {
            None
        } else {
            Some(
                CliErrorView::InvalidPath(
                    "cannot render `"@ + e.name + "` (file_type: "@ + spec_file_type_label(
                        file_type,
                    ) + "); render only supports notebooks"@,
                ),
            )
        },
        ItemKind::Folder => Some(CliErrorView::InvalidPath("cannot render folder `"@ + e.name + "`"@)),
        ItemKind::Template => Some(
            CliErrorView::InvalidPath("cannot render template `"@ + e.name + "`"@),
        ),
    }
}

pub fn expect_notebook(entry: &DocumentEntry) -> (r: Result<(), CliError>)
    ensures
        match (r, spec_notebook_error(entry@)) {
            (Ok(()), None) => true,
            (Err(e), Some(f)) => e@ == f,
            _ => false,
        },
{
    let mut m = String::new();
    match entry.kind {
        ItemKind::Document { file_type, .. } => {
            if file_type == FileType::Notebook {
                return Ok(());
            }
            m.append("cannot render `");
            m.append(entry.visible_name.as_str());
            m.append("` (file_type: ");
            m.append(file_type_label(file_type));
            m.append("); render only supports notebooks");
        },
        ItemKind::Folder => {
            m.append("cannot render folder `");
            m.append(entry.visible_name.as_str());
            m.append("`");
        },
        ItemKind::Template => {
            m.append("cannot render template `");
            m.append(entry.visible_name.as_str());
            m.append("`");
        },
    }
    Err(CliError::InvalidPath(m))
}

/// The notebook `render` draws, or why it cannot.
pub open spec fn spec_render_target(es: Seq<EntryView>, input: Seq<char>) -> Result<EntryView, CliErrorView> {
    match spec_resolve(es, input) {
        Err(e) => Err(spec_from_metadata(e)),
        Ok(None) => Err(CliErrorView::InvalidPath("cannot render root; specify a notebook"@)),
        Ok(Some(e)) => match spec_notebook_error(e) {
            Some(f) => Err(f),
            None => Ok(e),
        },
    }
}

pub fn render_target<'a>(tree: &'a DocumentTree, input: &str) -> (r: Result<&'a DocumentEntry, CliError>)
    ensures
        match (r, spec_render_target(tree@, input@)) {
            (Ok(e), Ok(v)) => e@ == v,
            (Err(e), Err(f)) => e@ == f,
            _ => false,
        },
{
    let entry = match resolve(tree, input) {
        Err(e) => {
            return Err(CliError::from_metadata(e));
        },
        Ok(Resolved::Root) => {
            let mut m = String::new();
            m.append("cannot render root; specify a notebook");
            return Err(CliError::InvalidPath(m));
        },
        Ok(Resolved::Entry(e)) => e,
    };
    match expect_notebook(entry) {
        Err(e) => Err(e),
        Ok(()) => Ok(entry),
    }
}

/// What a `download` wrote: the document, where, how many bytes, and for a
/// notebook how many page files.
#[derive(Debug, Clone)]
pub struct DownloadOutput {
    pub uuid: u128,
    pub name: String,
    pub file_type: FileType,
    pub output_path: String,
    pub size_bytes: u64,
    pub pages_written: Option<usize>,
}

/// What a `render` wrote: the notebook, the output directory, the canvas
/// width and resolution asked for, and each page image.
#[derive(Debug, Clone)]
pub struct RenderOutput {
    pub uuid: u128,
    pub name: String,
    pub output_dir: String,
    pub width: u32,
    pub dpi: u32,
    pub pages: Vec<RenderedPage>,
}

/// One rendered page as reported: its number, the image written, and the
/// image height in pixels.
#[derive(Debug, Clone)]
pub struct RenderedPage {
    pub page: u32,
    pub output_path: String,
    pub height: u32,
}

/// `<uuid>_page_<n>.png`: the image file of page `n`.
pub open spec fn spec_page_image_name(uuid: u128, page: u32) -> Seq<char> {
    spec_uuid_text(uuid) + "_page_"@ + decimal(page as nat) + ".png"@
}

pub fn page_image_name(uuid: u128, page: u32) -> (s: String)
    ensures
        s@ == spec_page_image_name(uuid, page),
{
    let mut s = uuid_text(uuid);
    s.append("_page_");
    let d = decimal_text(page as u64);
    s.append(d.as_str());
    s.append(".png");
    proof {
        assert(s@ =~= spec_page_image_name(uuid, page));
    }
    s
}

/// `<data_dir>/<uuid>/<file>`: a page file of a notebook on the tablet.
pub open spec fn spec_page_path(data_dir: Seq<char>, uuid: u128, file: Seq<char>) -> Seq<char> {
    data_dir + seq!['/'] + spec_uuid_text(uuid) + seq!['/'] + file
}

pub fn page_path(data_dir: &str, uuid: u128, file: &str) -> (s: String)
    ensures
        s@ == spec_page_path(data_dir@, uuid, file@),
{
    let mut s = String::new();
    s.append(data_dir);
    append_char(&mut s, '/');
    let u = uuid_text(uuid);
    s.append(u.as_str());
    append_char(&mut s, '/');
    s.append(file);
    proof {
        assert(s@ =~= spec_page_path(data_dir@, uuid, file@));
    }
    s
}

} // verus!
