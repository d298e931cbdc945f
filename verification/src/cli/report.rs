//! Human-readable reports of the mutating commands.

use vstd::prelude::*;

use crate::cli::download::{DownloadOutput, RenderOutput, RenderedPage};
use crate::cli::labels::{file_type_label, spec_file_type_label, spec_type_label, type_label};
use crate::cli::mkdir::{CreatedFolder, MkdirOutput};
use crate::cli::mv::MvOutput;
use crate::cli::rm::{DeletedItem, RmOutput};
use crate::metadata::suggest::views;
use crate::metadata::tree::ItemKind;
use crate::metadata::uuid_text::{spec_uuid_text, uuid_text};
use crate::text::{append_char, chars_of, decimal, decimal_text, join, join_strings};

verus! {

pub open spec fn created_line(path: Seq<char>, uuid: u128) -> Seq<char> {
    "  - "@ + path + "  uuid="@ + spec_uuid_text(uuid)
}

pub open spec fn created_lines(cs: Seq<CreatedFolder>) -> Seq<Seq<char>> {
    cs.map_values(|c: CreatedFolder| created_line(c.path@, c.uuid))
}

/// The `mkdir` report: the folders created, or that there was nothing to do.
pub open spec fn spec_mkdir_report(path: Seq<char>, created: Seq<CreatedFolder>) -> Seq<char> {
    if created.len() == 0 {
        path + " already exists, nothing to create"@
    } else {
        join(
            seq!["created "@ + decimal(created.len()) + " folder(s)"@] + created_lines(created),
            "\n"@,
        )
    }
}

pub fn mkdir_report(o: &MkdirOutput) -> (s: String)
    ensures
        s@ == spec_mkdir_report(o.path@, o.created@),
{
    if o.created.len() == 0 {
        let mut s = o.path.clone();
        s.append(" already exists, nothing to create");
        return s;
    }
    let mut lines: Vec<String> = Vec::new();
    let mut head = String::new();
    head.append("created ");
    let n = decimal_text(o.created.len() as u64);
    head.append(n.as_str());
    head.append(" folder(s)");
    lines.push(head);
    let ghost first = seq![head@];
    let mut i: usize = 0;
    proof {
        assert(views(lines@) =~= first + created_lines(o.created@.take(0)));
    }
    while i < o.created.len()
        invariant
            i <= o.created@.len(),
            first == seq!["created "@ + decimal(o.created@.len()) + " folder(s)"@],
            views(lines@) == first + created_lines(o.created@.take(i as int)),
        decreases o.created@.len() - i,
    {
        let c = &o.created[i];
        let mut line = String::new();
        line.append("  - ");
        line.append(c.path.as_str());
        line.append("  uuid=");
        let u = uuid_text(c.uuid);
        line.append(u.as_str());
        let ghost before = lines@;
        lines.push(line);
        proof {
            assert(line@ =~= created_line(c.path@, c.uuid));
            assert(o.created@.take(i + 1) =~= o.created@.take(i as int).push(*c));
            assert(created_lines(o.created@.take(i + 1)) =~= created_lines(
                o.created@.take(i as int),
            ).push(line@));
            assert(views(lines@) =~= views(before).push(line@));
        }
        i = i + 1;
    }
    proof {
        assert(o.created@.take(o.created@.len() as int) =~= o.created@);
    }
    join_strings(&lines, "\n")
}

pub open spec fn warning_lines(ws: Seq<Seq<char>>) -> Seq<Seq<char>> {
    ws.map_values(|w: Seq<char>| "warning: "@ + w)
}

/// The `mv` report: the move (or that nothing changed), then any warnings.
pub open spec fn spec_mv_report(o: MvOutput) -> Seq<char> {
    let head = if o.no_op {
        "no change: '"@ + o.name@ + "' is already in '"@ + o.to@ + "'"@
    } else {
        "moved: '"@ + o.from@ + "' → '"@ + o.to@ + "'  uuid="@ + spec_uuid_text(o.uuid)
    };
    join(seq![head] + warning_lines(views(o.warnings@)), "\n"@)
}

pub fn mv_report(o: &MvOutput) -> (s: String)
    ensures
        s@ == spec_mv_report(*o),
{
    let mut head = String::new();
    if o.no_op {
        head.append("no change: '");
        head.append(o.name.as_str());
        head.append("' is already in '");
        head.append(o.to.as_str());
        head.append("'");
    } else {
        head.append("moved: '");
        head.append(o.from.as_str());
        head.append("' → '");
        head.append(o.to.as_str());
        head.append("'  uuid=");
        let u = uuid_text(o.uuid);
        head.append(u.as_str());
    }
    let ghost first = seq![head@];
    let ghost ws = views(o.warnings@);
    let mut lines: Vec<String> = Vec::new();
    lines.push(head);
    let mut i: usize = 0;
    proof {
        assert(views(lines@) =~= first + warning_lines(ws.take(0)));
    }
    while i < o.warnings.len()
        invariant
            i <= ws.len(),
            ws == views(o.warnings@),
            views(lines@) == first + warning_lines(ws.take(i as int)),
        decreases ws.len() - i,
    {
        let mut line = String::new();
        line.append("warning: ");
        line.append(o.warnings[i].as_str());
        let ghost before = lines@;
        lines.push(line);
        proof {
            assert(ws[i as int] == o.warnings@[i as int]@);
            assert(ws.take(i + 1) =~= ws.take(i as int).push(ws[i as int]));
            assert(warning_lines(ws.take(i + 1)) =~= warning_lines(ws.take(i as int)).push(
                line@,
            ));
            assert(views(lines@) =~= views(before).push(line@));
        }
        i = i + 1;
    }
    proof {
        assert(ws.take(ws.len() as int) =~= ws);
        assert(head@ == first[0]);
    }
    let s = join_strings(&lines, "\n");
    proof {
        let expected_head = if o.no_op {
            "no change: '"@ + o.name@ + "' is already in '"@ + o.to@ + "'"@
        } else {
            "moved: '"@ + o.from@ + "' → '"@ + o.to@ + "'  uuid="@ + spec_uuid_text(o.uuid)
        };
        assert(first[0] =~= expected_head);
    }
    s
}

pub open spec fn deleted_line(d: DeletedItem) -> Seq<char> {
    "  - "@ + d.path@ + "  "@ + spec_type_label(d.kind) + "  uuid="@ + spec_uuid_text(d.uuid)
}

pub open spec fn deleted_lines(ds: Seq<DeletedItem>) -> Seq<Seq<char>> {
    ds.map_values(|d: DeletedItem| deleted_line(d))
}

/// The `rm` report: what was trashed or deleted, and how many descendants
/// a recursive permanent delete wiped.
pub open spec fn spec_rm_report(o: RmOutput) -> Seq<char> {
    if o.no_op {
        "no change: all targets were already in trash"@
    } else {
        let mode = if o.permanent {
            "permanently deleted"@
        } else {
            "trashed"@
        };
        let head = mode + " "@ + decimal(o.deleted@.len()) + " item(s)"@;
        let tail = match o.descendant_uuids_removed {
            Some(n) => seq!["  + "@ + decimal(n as nat) + " descendant UUIDs wiped"@],
            None => Seq::empty(),
        };
        join(seq![head] + deleted_lines(o.deleted@) + tail, "\n"@)
    }
}

pub fn rm_report(o: &RmOutput) -> (s: String)
    ensures
        s@ == spec_rm_report(*o),
{
    if o.no_op {
        let mut s = String::new();
        s.append("no change: all targets were already in trash");
        return s;
    }
    let mut head = String::new();
    if o.permanent {
        head.append("permanently deleted");
    } else {
        head.append("trashed");
    }
    head.append(" ");
    let n = decimal_text(o.deleted.len() as u64);
    head.append(n.as_str());
    head.append(" item(s)");
    let ghost first = seq![head@];
    let mut lines: Vec<String> = Vec::new();
    lines.push(head);
    let mut i: usize = 0;
    proof {
        assert(views(lines@) =~= first + deleted_lines(o.deleted@.take(0)));
    }
    while i < o.deleted.len()
        invariant
            i <= o.deleted@.len(),
            views(lines@) == first + deleted_lines(o.deleted@.take(i as int)),
        decreases o.deleted@.len() - i,
    {
        let d = &o.deleted[i];
        let mut line = String::new();
        line.append("  - ");
        line.append(d.path.as_str());
        line.append("  ");
        line.append(type_label(&d.kind));
        line.append("  uuid=");
        let u = uuid_text(d.uuid);
        line.append(u.as_str());
        let ghost before = lines@;
        lines.push(line);
        proof {
            assert(line@ =~= deleted_line(*d));
            assert(o.deleted@.take(i + 1) =~= o.deleted@.take(i as int).push(*d));
            assert(deleted_lines(o.deleted@.take(i + 1)) =~= deleted_lines(
                o.deleted@.take(i as int),
            ).push(line@));
            assert(views(lines@) =~= views(before).push(line@));
        }
        i = i + 1;
    }
    proof {
        assert(o.deleted@.take(o.deleted@.len() as int) =~= o.deleted@);
    }
    let ghost body = views(lines@);
    match o.descendant_uuids_removed {
        Some(k) => {
            let mut line = String::new();
            line.append("  + ");
            let t = decimal_text(k as u64);
            line.append(t.as_str());
            line.append(" descendant UUIDs wiped");
            lines.push(line);
            proof {
                assert(views(lines@) =~= body + seq![line@]);
            }
        },
        None => {
            proof {
                assert(views(lines@) =~= body + Seq::<Seq<char>>::empty());
            }
        },
    }
    proof {
        let mode = if o.permanent {
            "permanently deleted"@
        } else {
            "trashed"@
        };
        assert(first[0] =~= mode + " "@ + decimal(o.deleted@.len()) + " item(s)"@);
    }
    join_strings(&lines, "\n")
}


/// The `download` report: one labelled line per field, the page count last
/// and only for a notebook.
pub open spec fn spec_download_report(o: DownloadOutput) -> Seq<char> {
    let lines = seq![
        "uuid:         "@ + spec_uuid_text(o.uuid),
        "name:         "@ + o.name@,
        "file_type:    "@ + spec_file_type_label(o.file_type),
        "output_path:  "@ + o.output_path@,
        "size_bytes:   "@ + decimal(o.size_bytes as nat),
    ];
    let tail = match o.pages_written {
        Some(n) => seq!["pages_written: "@ + decimal(n as nat)],
        None => Seq::empty(),
    };
    join(lines + tail, "\n"@)
}

fn labelled(label: &str, value: &str) -> (s: String)
    ensures
        s@ == label@ + value@,
{
    let mut s = String::new();
    s.append(label);
    s.append(value);
    s
}

pub fn download_report(o: &DownloadOutput) -> (s: String)
    ensures
        s@ == spec_download_report(*o),
{
    let mut lines: Vec<String> = Vec::new();
    let u = uuid_text(o.uuid);
    lines.push(labelled("uuid:         ", u.as_str()));
    lines.push(labelled("name:         ", o.name.as_str()));
    lines.push(labelled("file_type:    ", file_type_label(o.file_type)));
    lines.push(labelled("output_path:  ", o.output_path.as_str()));
    let n = decimal_text(o.size_bytes);
    lines.push(labelled("size_bytes:   ", n.as_str()));
    match o.pages_written {
        Some(k) => {
            let t = decimal_text(k as u64);
            lines.push(labelled("pages_written: ", t.as_str()));
        },
        None => {},
    }
    proof {
        let expected = seq![
            "uuid:         "@ + spec_uuid_text(o.uuid),
            "name:         "@ + o.name@,
            "file_type:    "@ + spec_file_type_label(o.file_type),
            "output_path:  "@ + o.output_path@,
            "size_bytes:   "@ + decimal(o.size_bytes as nat),
        ];
        let tail = match o.pages_written {
            Some(k) => seq!["pages_written: "@ + decimal(k as nat)],
            None => Seq::<Seq<char>>::empty(),
        };
        assert(views(lines@) =~= expected + tail);
    }
    join_strings(&lines, "\n")
}

/// `s` right-aligned in a field of three characters.
pub open spec fn pad3(s: Seq<char>) -> Seq<char> {
    if s.len() < 3 {
        Seq::new((3 - s.len()) as nat, |i: int| ' ') + s
    } else {
        s
    }
}

fn pad3_text(s: &str) -> (r: String)
    ensures
        r@ == pad3(s@),
{
    let v = chars_of(s);
    let mut r = String::new();
    let mut k: usize = v.len();
    while k < 3
        invariant
            v@ == s@,
            v@.len() <= k <= 3 || (v@.len() > 3 && k == v@.len()),
            r@ == Seq::new((k - v@.len()) as nat, |i: int| ' '),
        decreases 3 - k,
    {
        append_char(&mut r, ' ');
        k = k + 1;
        proof {
            assert(r@ =~= Seq::new((k - v@.len()) as nat, |i: int| ' '));
        }
    }
    r.append(s);
    proof {
        if v@.len() >= 3 {
            assert(r@ =~= s@);
        }
    }
    r
}

pub open spec fn page_line(p: RenderedPage, width: u32) -> Seq<char> {
    "  page "@ + pad3(decimal(p.page as nat)) + ": "@ + p.output_path@ + " ("@ + decimal(
        width as nat,
    ) + "x"@ + decimal(p.height as nat) + ")"@
}

pub open spec fn page_lines(ps: Seq<RenderedPage>, width: u32) -> Seq<Seq<char>> {
    ps.map_values(|p: RenderedPage| page_line(p, width))
}

pub open spec fn render_head(o: RenderOutput) -> Seq<Seq<char>> {
    seq![
        "uuid:        "@ + spec_uuid_text(o.uuid),
        "name:        "@ + o.name@,
        "output_dir:  "@ + o.output_dir@,
        "width:       "@ + decimal(o.width as nat),
        "dpi:         "@ + decimal(o.dpi as nat),
        "pages:       "@ + decimal(o.pages@.len()),
    ]
}

/// The `render` report: the notebook and settings, then one line per page
/// image with its number right-aligned and its pixel size.
pub open spec fn spec_render_report(o: RenderOutput) -> Seq<char> {
    join(render_head(o) + page_lines(o.pages@, o.width), "\n"@)
}

pub fn render_report(o: &RenderOutput) -> (s: String)
    ensures
        s@ == spec_render_report(*o),
{
    let mut lines: Vec<String> = Vec::new();
    let u = uuid_text(o.uuid);
    lines.push(labelled("uuid:        ", u.as_str()));
    lines.push(labelled("name:        ", o.name.as_str()));
    lines.push(labelled("output_dir:  ", o.output_dir.as_str()));
    let w = decimal_text(o.width as u64);
    lines.push(labelled("width:       ", w.as_str()));
    let d = decimal_text(o.dpi as u64);
    lines.push(labelled("dpi:         ", d.as_str()));
    let n = decimal_text(o.pages.len() as u64);
    lines.push(labelled("pages:       ", n.as_str()));
    let ghost head = render_head(*o);
    proof {
        assert(views(lines@) =~= head + page_lines(o.pages@.take(0), o.width));
    }
    let mut i: usize = 0;
    while i < o.pages.len()
        invariant
            i <= o.pages@.len(),
            head == render_head(*o),
            w@ == decimal(o.width as nat),
            views(lines@) == head + page_lines(o.pages@.take(i as int), o.width),
        decreases o.pages@.len() - i,
    {
        let p = &o.pages[i];
        let mut line = String::new();
        line.append("  page ");
        let num = decimal_text(p.page as u64);
        let padded = pad3_text(num.as_str());
        line.append(padded.as_str());
        line.append(": ");
        line.append(p.output_path.as_str());
        line.append(" (");
        line.append(w.as_str());
        line.append("x");
        let h = decimal_text(p.height as u64);
        line.append(h.as_str());
        line.append(")");
        let ghost before = lines@;
        lines.push(line);
        proof {
            assert(line@ =~= page_line(*p, o.width));
            assert(o.pages@.take(i + 1) =~= o.pages@.take(i as int).push(*p));
            assert(page_lines(o.pages@.take(i + 1), o.width) =~= page_lines(
                o.pages@.take(i as int),
                o.width,
            ).push(line@));
            assert(views(lines@) =~= views(before).push(line@));
        }
        i = i + 1;
    }
    proof {
        assert(o.pages@.take(o.pages@.len() as int) =~= o.pages@);
    }
    join_strings(&lines, "\n")
}

} // verus!
