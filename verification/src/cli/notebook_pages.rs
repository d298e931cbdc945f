//! The page files of a notebook and their order.
//!
//! A notebook's `.content` records its pages in order; the page directory
//! holds one `<page-id>.rm` file per page. Recorded pages come first in
//! their recorded order (those missing on disk dropped), files the record
//! does not name follow sorted by name.

use vstd::prelude::*;

use crate::metadata::page_range::{spec_selects, PageSelection};
use crate::metadata::suggest::views;
use crate::order::{lex_order, sort_strings};
use crate::tablet::remote::RemoteEntry;
use crate::text::{chars_of, str_eq};

verus! {

/// One element of the `pages` array of a `.content` file: a bare page id,
/// an object with string `id` and/or `uuid` fields (`None` when the field is
/// absent or not a string), or anything else.
#[derive(Debug, Clone)]
pub enum PageValue {
    Text(String),
    Object { id: Option<String>, uuid: Option<String> },
    Other,
}

pub enum PageValueView {
    Text(Seq<char>),
    Object { id: Option<Seq<char>>, uuid: Option<Seq<char>> },
    Other,
}

pub open spec fn opt_chars(o: Option<String>) -> Option<Seq<char>> {
    match o {
        Some(s) => Some(s@),
        None => None,
    }
}

impl View for PageValue {
    type V = PageValueView;

    open spec fn view(&self) -> PageValueView {
        match self {
            PageValue::Text(s) => PageValueView::Text(s@),
            PageValue::Object { id, uuid } => PageValueView::Object {
                id: opt_chars(*id),
                uuid: opt_chars(*uuid),
            },
            PageValue::Other => PageValueView::Other,
        }
    }
}

pub open spec fn page_views(v: Seq<PageValue>) -> Seq<PageValueView> {
    v.map_values(|p: PageValue| p@)
}

/// What the page logic reads of a notebook's `.content` file.
#[derive(Debug, Clone)]
pub struct NotebookContent {
    /// The recorded page order, when the file has a `pages` array.
    pub pages: Option<Vec<PageValue>>,
    /// The `pageCount` field, when present.
    pub page_count: Option<u64>,
}

/// The page id an element names: the string itself, else the object's
/// `id`, else its `uuid`.
pub open spec fn spec_page_id(v: PageValueView) -> Option<Seq<char>> {
    match v {
        PageValueView::Text(s) => Some(s),
        PageValueView::Object { id, uuid } => match id {
            Some(i) => Some(i),
            None => uuid,
        },
        PageValueView::Other => None,
    }
}

pub fn extract_page_id(item: &PageValue) -> (r: Option<&str>)
    ensures
        match (r, spec_page_id(item@)) {
            (Some(s), Some(t)) => s@ == t,
            (None, None) => true,
            _ => false,
        },
{
    match item {
        PageValue::Text(s) => Some(s.as_str()),
        PageValue::Object { id, uuid } => match id {
            Some(i) => Some(i.as_str()),
            None => match uuid {
                Some(u) => Some(u.as_str()),
                None => None,
            },
        },
        PageValue::Other => None,
    }
}

/// The file holding page `id`.
pub open spec fn page_file(id: Seq<char>) -> Seq<char> {
    id + ".rm"@
}

/// `s` without repeats, first occurrences in order.
pub open spec fn dedup(s: Seq<Seq<char>>) -> Seq<Seq<char>>
    decreases s.len(),
{
    if s.len() == 0 {
        Seq::empty()
    } else {
        let prev = dedup(s.drop_last());
        if prev.contains(s.last()) {
            prev
        } else {
            prev.push(s.last())
        }
    }
}

/// The files of `names` that the recorded pages name, in recorded order,
/// each once.
pub open spec fn recorded_order(items: Seq<PageValueView>, names: Seq<Seq<char>>) -> Seq<Seq<char>>
    decreases items.len(),
{
    if items.len() == 0 {
        Seq::empty()
    } else {
        let prev = recorded_order(items.drop_last(), names);
        match spec_page_id(items.last()) {
            Some(id) => if names.contains(page_file(id)) && !prev.contains(page_file(id)) {
                prev.push(page_file(id))
            } else {
                prev
            },
            None => prev,
        }
    }
}

/// The files of `names` not in `used`, each once, in first-seen order.
pub open spec fn unrecorded(names: Seq<Seq<char>>, used: Seq<Seq<char>>) -> Seq<Seq<char>> {
    dedup(names).filter(|x: Seq<char>| !used.contains(x))
}

/// The page files in render order: with a recorded order, the recorded
/// files first and the others sorted after them; without, all sorted.
pub open spec fn spec_order_pages(pages: Option<Seq<PageValueView>>, discovered: Seq<Seq<char>>) -> Seq<Seq<char>> {
    match pages {
        None => discovered.sort_by(lex_order()),
        Some(items) => {
            let o = recorded_order(items, discovered);
            o + unrecorded(discovered, o).sort_by(lex_order())
        },
    }
}

fn contains_name(v: &Vec<String>, s: &str) -> (b: bool)
    ensures
        b == views(v@).contains(s@),
{
    let mut k: usize = 0;
    while k < v.len()
        invariant
            k <= v@.len(),
            forall|j: int| 0 <= j < k ==> v@[j]@ != s@,
        decreases v@.len() - k,
    {
        if str_eq(v[k].as_str(), s) {
            assert(views(v@)[k as int] == s@);
            return true;
        }
        k = k + 1;
    }
    assert forall|j: int| 0 <= j < views(v@).len() implies views(v@)[j] != s@ by {
        assert(views(v@)[j] == v@[j]@);
    }
    false
}

fn dedup_names(v: &Vec<String>) -> (r: Vec<String>)
    ensures
        views(r@) == dedup(views(v@)),
{
    let ghost vs = views(v@);
    let mut out: Vec<String> = Vec::new();
    let mut i: usize = 0;
    proof {
        assert(views(out@) =~= dedup(vs.take(0)));
    }
    while i < v.len()
        invariant
            vs == views(v@),
            i <= vs.len(),
            views(out@) == dedup(vs.take(i as int)),
        decreases vs.len() - i,
    {
        proof {
            assert(vs.take(i + 1).drop_last() =~= vs.take(i as int));
            assert(vs.take(i + 1).last() == v@[i as int]@);
        }
        if !contains_name(&out, v[i].as_str()) {
            let ghost before = out@;
            let x = v[i].clone();
            out.push(x);
            proof {
                assert(views(out@) =~= views(before).push(x@));
            }
        }
        i = i + 1;
    }
    proof {
        assert(vs.take(vs.len() as int) =~= vs);
    }
    out
}

fn page_file_name(id: &str) -> (r: String)
    ensures
        r@ == page_file(id@),
{
    let mut r = String::new();
    r.append(id);
    r.append(".rm");
    r
}

/// The files of `names` not in `used`, each once, in first-seen order.
fn unrecorded_names(uniq: &Vec<String>, used: &Vec<String>) -> (r: Vec<String>)
    ensures
        views(r@) == views(uniq@).filter(|x: Seq<char>| !views(used@).contains(x)),
{
    let ghost us = views(uniq@);
    let ghost pred = |x: Seq<char>| !views(used@).contains(x);
    let mut out: Vec<String> = Vec::new();
    let mut i: usize = 0;
    proof {
        reveal(Seq::filter);
        assert(views(out@) =~= us.take(0).filter(pred));
    }
    while i < uniq.len()
        invariant
            us == views(uniq@),
            pred == (|x: Seq<char>| !views(used@).contains(x)),
            i <= us.len(),
            views(out@) == us.take(i as int).filter(pred),
        decreases us.len() - i,
    {
        proof {
            assert(us.take(i + 1).drop_last() =~= us.take(i as int));
            assert(us.take(i + 1).last() == uniq@[i as int]@);
        }
        let keep = !contains_name(used, uniq[i].as_str());
        proof {
            reveal(Seq::filter);
            let cur = us.take(i + 1);
            assert(pred(cur.last()) == keep);
            assert(cur.filter(pred) == (if pred(cur.last()) {
                cur.drop_last().filter(pred).push(cur.last())
            } else {
                cur.drop_last().filter(pred)
            }));
        }
        if keep {
            let ghost before = out@;
            let x = uniq[i].clone();
            out.push(x);
            proof {
                assert(views(out@) =~= views(before).push(x@));
            }
        }
        i = i + 1;
    }
    proof {
        assert(us.take(us.len() as int) =~= us);
    }
    out
}

/// Order the discovered page files by the recorded pages (if any). Every
/// discovered file is in the result; `discovered` is left empty.
pub fn order_page_files_from_pages(pages: Option<&Vec<PageValue>>, discovered: &mut Vec<String>) -> (r: Vec<String>)
    ensures
        final(discovered)@.len() == 0,
        views(r@) == spec_order_pages(
            match pages {
                Some(p) => Some(page_views(p@)),
                None => None,
            },
            views(old(discovered)@),
        ),
{
    let mut all: Vec<String> = Vec::new();
    std::mem::swap(&mut all, discovered);
    let items = match pages {
        None => {
            return sort_strings(all);
        },
        Some(p) => p,
    };
    let ghost names = views(all@);
    let ghost iv = page_views(items@);
    let uniq = dedup_names(&all);
    let mut ordered: Vec<String> = Vec::new();
    let mut i: usize = 0;
    proof {
        assert(views(ordered@) =~= recorded_order(iv.take(0), names));
    }
    while i < items.len()
        invariant
            names == views(all@),
            iv == page_views(items@),
            views(uniq@) == dedup(names),
            i <= iv.len(),
            views(ordered@) == recorded_order(iv.take(i as int), names),
        decreases iv.len() - i,
    {
        proof {
            assert(iv.take(i + 1).drop_last() =~= iv.take(i as int));
            assert(iv.take(i + 1).last() == items@[i as int]@);
        }
        match extract_page_id(&items[i]) {
            Some(id) => {
                let f = page_file_name(id);
                if contains_name(&all, f.as_str()) && !contains_name(&ordered, f.as_str()) {
                    let ghost before = ordered@;
                    ordered.push(f);
                    proof {
                        assert(views(ordered@) =~= views(before).push(f@));
                    }
                }
            },
            None => {},
        }
        i = i + 1;
    }
    proof {
        assert(iv.take(iv.len() as int) =~= iv);
    }
    let rest = unrecorded_names(&uniq, &ordered);
    let sorted = sort_strings(rest);
    let ghost o = ordered@;
    let mut result = ordered;
    let mut tail = sorted;
    let ghost t = tail@;
    result.append(&mut tail);
    proof {
        assert(views(result@) =~= views(o) + views(t));
    }
    result
}

/// A numbered page list as plain values.
pub open spec fn numbered_views(v: Seq<(u32, String)>) -> Seq<(u32, Seq<char>)> {
    v.map_values(|p: (u32, String)| (p.0, p.1@))
}

pub open spec fn files_of(s: Seq<(u32, Seq<char>)>) -> Seq<Seq<char>> {
    s.map_values(|p: (u32, Seq<char>)| p.1)
}

/// The 1-based page number of position `index`, when it fits in `u32`.
pub open spec fn spec_page_number(index: int) -> Option<u32> {
    if index + 1 <= u32::MAX {
        Some((index + 1) as u32)
    } else {
        None
    }
}

pub fn one_based_page_number(index: usize) -> (r: Option<u32>)
    requires
        index < usize::MAX,
    ensures
        r == spec_page_number(index as int),
{
    if index < 0xFFFF_FFFF {
        Some((index + 1) as u32)
    } else {
        None
    }
}

fn page_number_after(offset: usize, j: usize) -> (r: Option<u32>)
    ensures
        r == spec_page_number(offset + j),
{
    if offset < 0xFFFF_FFFF && j < 0xFFFF_FFFF - offset {
        Some((offset + j + 1) as u32)
    } else {
        None
    }
}

/// The recorded pages present on disk with their 1-based positions in the
/// record, each file once.
pub open spec fn recorded_numbered(items: Seq<PageValueView>, names: Seq<Seq<char>>) -> Seq<(u32, Seq<char>)>
    decreases items.len(),
{
    if items.len() == 0 {
        Seq::empty()
    } else {
        let prev = recorded_numbered(items.drop_last(), names);
        match spec_page_number(items.len() - 1) {
            Some(n) => match spec_page_id(items.last()) {
                Some(id) => if names.contains(page_file(id)) && !files_of(prev).contains(
                    page_file(id),
                ) {
                    prev.push((n, page_file(id)))
                } else {
                    prev
                },
                None => prev,
            },
            None => prev,
        }
    }
}

/// `names` numbered from `offset + 1` on, dropping numbers past `u32`.
pub open spec fn number_from(names: Seq<Seq<char>>, offset: int) -> Seq<(u32, Seq<char>)>
    decreases names.len(),
{
    if names.len() == 0 {
        Seq::empty()
    } else {
        let prev = number_from(names.drop_last(), offset);
        match spec_page_number(offset + names.len() - 1) {
            Some(n) => prev.push((n, names.last())),
            None => prev,
        }
    }
}

/// Pages numbered by their recorded position; files the record does not
/// name follow, sorted, numbered after the last recorded position.
pub open spec fn spec_select_from_pages(items: Seq<PageValueView>, discovered: Seq<Seq<char>>) -> Seq<(u32, Seq<char>)> {
    let o = recorded_numbered(items, discovered);
    o + number_from(unrecorded(discovered, files_of(o)).sort_by(lex_order()), items.len() as int)
}

fn number_names(names: Vec<String>, offset: usize) -> (r: Vec<(u32, String)>)
    ensures
        numbered_views(r@) == number_from(views(names@), offset as int),
{
    let ghost ns = views(names@);
    let mut out: Vec<(u32, String)> = Vec::new();
    let mut j: usize = 0;
    proof {
        assert(numbered_views(out@) =~= number_from(ns.take(0), offset as int));
    }
    while j < names.len()
        invariant
            ns == views(names@),
            j <= ns.len(),
            numbered_views(out@) == number_from(ns.take(j as int), offset as int),
        decreases ns.len() - j,
    {
        proof {
            assert(ns.take(j + 1).drop_last() =~= ns.take(j as int));
            assert(ns.take(j + 1).last() == names@[j as int]@);
        }
        match page_number_after(offset, j) {
            Some(n) => {
                let ghost before = out@;
                let x = names[j].clone();
                out.push((n, x));
                proof {
                    assert(numbered_views(out@) =~= numbered_views(before).push((n, x@)));
                }
            },
            None => {},
        }
        j = j + 1;
    }
    proof {
        assert(ns.take(ns.len() as int) =~= ns);
    }
    out
}

/// Every page file numbered 1, 2, ... in the given order.
pub fn enumerate_page_files(ordered: Vec<String>) -> (r: Vec<(u32, String)>)
    ensures
        numbered_views(r@) == number_from(views(ordered@), 0),
{
    number_names(ordered, 0)
}

fn contains_file(v: &Vec<(u32, String)>, s: &str) -> (b: bool)
    ensures
        b == files_of(numbered_views(v@)).contains(s@),
{
    let ghost fs = files_of(numbered_views(v@));
    let mut k: usize = 0;
    while k < v.len()
        invariant
            fs == files_of(numbered_views(v@)),
            k <= v@.len(),
            forall|j: int| 0 <= j < k ==> v@[j].1@ != s@,
        decreases v@.len() - k,
    {
        if str_eq(v[k].1.as_str(), s) {
            assert(fs[k as int] == s@);
            return true;
        }
        k = k + 1;
    }
    assert forall|j: int| 0 <= j < fs.len() implies fs[j] != s@ by {
        assert(fs[j] == v@[j].1@);
    }
    false
}

fn file_names(v: &Vec<(u32, String)>) -> (r: Vec<String>)
    ensures
        views(r@) == files_of(numbered_views(v@)),
{
    let mut out: Vec<String> = Vec::new();
    let mut k: usize = 0;
    while k < v.len()
        invariant
            k <= v@.len(),
            views(out@) == files_of(numbered_views(v@)).take(k as int),
        decreases v@.len() - k,
    {
        let ghost before = out@;
        let x = v[k].1.clone();
        out.push(x);
        proof {
            let fs = files_of(numbered_views(v@));
            assert(fs[k as int] == v@[k as int].1@);
            assert(fs.take(k + 1) =~= fs.take(k as int).push(fs[k as int]));
            assert(views(out@) =~= views(before).push(x@));
        }
        k = k + 1;
    }
    proof {
        assert(files_of(numbered_views(v@)).take(v@.len() as int) =~= files_of(numbered_views(v@)));
    }
    out
}

/// Number the discovered page files by the recorded order; `discovered`
/// is left empty.
pub fn select_page_files_from_pages(pages: &Vec<PageValue>, discovered: &mut Vec<String>) -> (r: Vec<(u32, String)>)
    ensures
        final(discovered)@.len() == 0,
        numbered_views(r@) == spec_select_from_pages(page_views(pages@), views(old(discovered)@)),
{
    let mut all: Vec<String> = Vec::new();
    std::mem::swap(&mut all, discovered);
    let ghost names = views(all@);
    let ghost iv = page_views(pages@);
    let uniq = dedup_names(&all);
    let mut ordered: Vec<(u32, String)> = Vec::new();
    let mut i: usize = 0;
    proof {
        assert(numbered_views(ordered@) =~= recorded_numbered(iv.take(0), names));
    }
    while i < pages.len()
        invariant
            names == views(all@),
            iv == page_views(pages@),
            views(uniq@) == dedup(names),
            i <= iv.len(),
            numbered_views(ordered@) == recorded_numbered(iv.take(i as int), names),
        decreases iv.len() - i,
    {
        proof {
            assert(iv.take(i + 1).drop_last() =~= iv.take(i as int));
            assert(iv.take(i + 1).last() == pages@[i as int]@);
            assert(iv.take(i + 1).len() - 1 == i);
        }
        match one_based_page_number(i) {
            Some(n) => match extract_page_id(&pages[i]) {
                Some(id) => {
                    let f = page_file_name(id);
                    if contains_name(&all, f.as_str()) && !contains_file(&ordered, f.as_str()) {
                        let ghost before = ordered@;
                        ordered.push((n, f));
                        proof {
                            assert(numbered_views(ordered@) =~= numbered_views(before).push(
                                (n, f@),
                            ));
                        }
                    }
                },
                None => {},
            },
            None => {},
        }
        i = i + 1;
    }
    proof {
        assert(iv.take(iv.len() as int) =~= iv);
    }
    let used = file_names(&ordered);
    let rest = unrecorded_names(&uniq, &used);
    let sorted = sort_strings(rest);
    let mut tail = number_names(sorted, pages.len());
    let ghost o = ordered@;
    let ghost t = tail@;
    let mut result = ordered;
    result.append(&mut tail);
    proof {
        assert(numbered_views(result@) =~= numbered_views(o) + numbered_views(t));
    }
    result
}

/// The numbered pages the selection keeps, in order.
pub open spec fn keep_selected(s: Seq<(u32, Seq<char>)>, ranges: Seq<(u32, u32)>) -> Seq<(u32, Seq<char>)>
    decreases s.len(),
{
    if s.len() == 0 {
        Seq::empty()
    } else {
        let prev = keep_selected(s.drop_last(), ranges);
        if spec_selects(ranges, s.last().0) {
            prev.push(s.last())
        } else {
            prev
        }
    }
}

/// Why the page order a request needs is not available.
#[derive(Debug, Clone, Copy, PartialEq, Eq, Structural)]
pub enum PagesError {
    /// `--pages` was given but the `.content` file could not be read.
    OrderUnreadable,
    /// `--pages` was given but the `.content` file is not valid.
    ContentUnparsable,
    /// The `.content` file has no `pages` array.
    MissingPagesArray,
}

/// The description that `message` gives for each kind; `content_path` is
/// where the notebook's `.content` file was looked for.
pub open spec fn spec_pages_message(e: PagesError, content_path: Seq<char>) -> Seq<char> {
    match e {
        PagesError::OrderUnreadable => "readable notebook page order required from "@ + content_path
            + " when using --pages"@,
        PagesError::ContentUnparsable => "parse notebook .content"@,
        PagesError::MissingPagesArray => "notebook .content is missing a pages array; --pages requires recorded page order"@,
    }
}

impl PagesError {
    /// The description of the error for the notebook whose `.content` file
    /// is at `content_path`.
    pub fn message(&self, content_path: &str) -> (s: String)
        ensures
            s@ == spec_pages_message(*self, content_path@),
    {
        let mut s = String::new();
        match self {
            PagesError::OrderUnreadable => {
                s.append("readable notebook page order required from ");
                s.append(content_path);
                s.append(" when using --pages");
            },
            PagesError::ContentUnparsable => {
                s.append("parse notebook .content");
            },
            PagesError::MissingPagesArray => {
                s.append("notebook .content is missing a pages array; --pages requires recorded page order");
            },
        }
        proof {
            assert(s@ =~= spec_pages_message(*self, content_path@));
        }
        s
    }
}

/// The selected pages, numbered by the recorded order, which must exist.
pub fn select_page_files_strict(
    content: &NotebookContent,
    discovered: &mut Vec<String>,
    selection: &PageSelection,
) -> (r: Result<Vec<(u32, String)>, PagesError>)
    ensures
        match content.pages {
            None => r == Err::<Vec<(u32, String)>, PagesError>(PagesError::MissingPagesArray),
            Some(p) => r is Ok && numbered_views(r->Ok_0@) == keep_selected(
                spec_select_from_pages(page_views(p@), views(old(discovered)@)),
                selection.ranges@,
            ),
        },
        r is Err ==> final(discovered)@ == old(discovered)@,
        r is Ok ==> final(discovered)@.len() == 0,
{
    let pages = match &content.pages {
        None => {
            return Err(PagesError::MissingPagesArray);
        },
        Some(p) => p,
    };
    let all = select_page_files_from_pages(pages, discovered);
    let ghost av = numbered_views(all@);
    let mut out: Vec<(u32, String)> = Vec::new();
    let mut k: usize = 0;
    proof {
        assert(numbered_views(out@) =~= keep_selected(av.take(0), selection.ranges@));
    }
    while k < all.len()
        invariant
            av == numbered_views(all@),
            k <= av.len(),
            numbered_views(out@) == keep_selected(av.take(k as int), selection.ranges@),
        decreases av.len() - k,
    {
        proof {
            assert(av.take(k + 1).drop_last() =~= av.take(k as int));
            assert(av.take(k + 1).last() == (all@[k as int].0, all@[k as int].1@));
        }
        if selection.contains(all[k].0) {
            let ghost before = out@;
            let x = all[k].1.clone();
            out.push((all[k].0, x));
            proof {
                assert(numbered_views(out@) =~= numbered_views(before).push((all@[k as int].0, x@)));
            }
        }
        k = k + 1;
    }
    proof {
        assert(av.take(av.len() as int) =~= av);
    }
    Ok(out)
}

/// The page files in the recorded order, which must exist.
pub fn order_page_files_strict(content: &NotebookContent, discovered: &mut Vec<String>) -> (r: Result<Vec<String>, PagesError>)
    ensures
        match content.pages {
            None => r == Err::<Vec<String>, PagesError>(PagesError::MissingPagesArray),
            Some(p) => r is Ok && views(r->Ok_0@) == spec_order_pages(
                Some(page_views(p@)),
                views(old(discovered)@),
            ),
        },
        r is Err ==> final(discovered)@ == old(discovered)@,
        r is Ok ==> final(discovered)@.len() == 0,
{
    match &content.pages {
        None => Err(PagesError::MissingPagesArray),
        Some(p) => Ok(order_page_files_from_pages(Some(p), discovered)),
    }
}

/// The page files in the recorded order when `.content` gives one, else
/// sorted by name.
pub fn order_page_files_best_effort(content: Option<&NotebookContent>, discovered: &mut Vec<String>) -> (r: Vec<String>)
    ensures
        views(r@) == spec_order_pages(
            match content {
                Some(c) => match c.pages {
                    Some(p) => Some(page_views(p@)),
                    None => None,
                },
                None => None,
            },
            views(old(discovered)@),
        ),
        final(discovered)@.len() == 0,
{
    match content {
        Some(c) => match &c.pages {
            Some(p) => order_page_files_from_pages(Some(p), discovered),
            None => order_page_files_from_pages(None, discovered),
        },
        None => order_page_files_from_pages(None, discovered),
    }
}

/// The number of pages a `.content` file declares: its `pageCount`, else
/// the length of its `pages` array.
pub open spec fn spec_effective_page_count(c: NotebookContent) -> Option<int> {
    match c.page_count {
        Some(n) => Some(n as int),
        None => match c.pages {
            Some(p) => Some(p@.len() as int),
            None => None,
        },
    }
}

/// The `.content` file declares no pages.
pub fn page_count_zero(content: Option<&NotebookContent>) -> (b: bool)
    ensures
        b == (match content {
            Some(c) => spec_effective_page_count(*c) == Some(0int),
            None => false,
        }),
{
    match content {
        None => false,
        Some(c) => match c.page_count {
            Some(n) => n == 0,
            None => match &c.pages {
                Some(p) => p.len() == 0,
                None => false,
            },
        },
    }
}

/// A listed name is a page file: it ends in `.rm` (any letter case) after
/// a non-empty stem.
pub open spec fn spec_is_page_file(name: Seq<char>) -> bool {
    name.len() > 3 && name[name.len() - 3] == '.' && (name[name.len() - 2] == 'r' || name[
        name.len() - 2
    ] == 'R') && (name[name.len() - 1] == 'm' || name[name.len() - 1] == 'M')
}

pub open spec fn page_files_of(es: Seq<RemoteEntry>) -> Seq<Seq<char>>
    decreases es.len(),
{
    if es.len() == 0 {
        Seq::empty()
    } else {
        let prev = page_files_of(es.drop_last());
        if spec_is_page_file(es.last().name@) {
            prev.push(es.last().name@)
        } else {
            prev
        }
    }
}

/// The page files of a page-directory listing, in listing order.
pub fn page_file_names(entries: &Vec<RemoteEntry>) -> (r: Vec<String>)
    ensures
        views(r@) == page_files_of(entries@),
{
    let mut out: Vec<String> = Vec::new();
    let mut i: usize = 0;
    proof {
        assert(views(out@) =~= page_files_of(entries@.take(0)));
    }
    while i < entries.len()
        invariant
            i <= entries@.len(),
            views(out@) == page_files_of(entries@.take(i as int)),
        decreases entries@.len() - i,
    {
        proof {
            assert(entries@.take(i + 1).drop_last() =~= entries@.take(i as int));
        }
        let n = chars_of(entries[i].name.as_str());
        let l = n.len();
        if l > 3 && n[l - 3] == '.' && (n[l - 2] == 'r' || n[l - 2] == 'R') && (n[l - 1] == 'm'
            || n[l - 1] == 'M') {
            let ghost before = out@;
            let x = entries[i].name.clone();
            out.push(x);
            proof {
                assert(views(out@) =~= views(before).push(x@));
            }
        }
        i = i + 1;
    }
    proof {
        assert(entries@.take(entries@.len() as int) =~= entries@);
    }
    out
}

/// What was read of the notebook's `.content` file.
#[derive(Debug, Clone)]
pub enum ContentState {
    Unreadable,
    Unparsable,
    Parsed(NotebookContent),
}

/// The pages to process, `(1-based page number, file name)` in order: the
/// selection over the recorded order when `--pages` is given (which then
/// needs a readable `.content` with a `pages` array), else every page file.
pub open spec fn spec_select_listed(content: ContentState, files: Seq<Seq<char>>, selection: Option<Seq<(u32, u32)>>) -> Result<
    Seq<(u32, Seq<char>)>,
    PagesError,
> {
    match selection {
        Some(ranges) => match content {
            ContentState::Unreadable => Err(PagesError::OrderUnreadable),
            ContentState::Unparsable => Err(PagesError::ContentUnparsable),
            ContentState::Parsed(c) => match c.pages {
                None => Err(PagesError::MissingPagesArray),
                Some(p) => Ok(keep_selected(spec_select_from_pages(page_views(p@), files), ranges)),
            },
        },
        None => Ok(
            number_from(
                spec_order_pages(
                    match content {
                        ContentState::Parsed(c) => match c.pages {
                            Some(p) => Some(page_views(p@)),
                            None => None,
                        },
                        _ => None,
                    },
                    files,
                ),
                0,
            ),
        ),
    }
}

pub fn select_listed_pages(content: &ContentState, entries: &Vec<RemoteEntry>, pages: Option<&PageSelection>) -> (r: Result<Vec<(u32, String)>, PagesError>)
    ensures
        match (r, spec_select_listed(*content, page_files_of(entries@), match pages {
            Some(s) => Some(s.ranges@),
            None => None,
        })) {
            (Ok(v), Ok(w)) => numbered_views(v@) == w,
            (Err(e), Err(f)) => e == f,
            _ => false,
        },
{
    let mut files = page_file_names(entries);
    match pages {
        Some(selection) => match content {
            ContentState::Unreadable => Err(PagesError::OrderUnreadable),
            ContentState::Unparsable => Err(PagesError::ContentUnparsable),
            ContentState::Parsed(c) => select_page_files_strict(c, &mut files, selection),
        },
        None => {
            let ordered = match content {
                ContentState::Parsed(c) => order_page_files_best_effort(Some(c), &mut files),
                _ => order_page_files_best_effort(None, &mut files),
            };
            Ok(enumerate_page_files(ordered))
        },
    }
}

} // verus!
