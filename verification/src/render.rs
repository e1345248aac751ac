//! The renderer: turns a listing (flat list or built tree) plus frozen
//! column widths into formatted lines. A line is plain text, then a colored
//! stretch: the caller emits the plain part, switches the foreground color,
//! emits the colored part, and resets.

use vstd::prelude::*;

use crate::display::display_matches;
use crate::display::make_display;
use crate::display::spec_name_color;
use crate::display::styled_marker;
use crate::display::DisplayRecord;
use crate::entry::FileEntry;
use crate::git::spec_status_of;
use crate::git::status_of;
use crate::git::GitStatusCache;
use crate::icons::dir_icon;
use crate::icons::get_icon_for_file;
use crate::icons::spec_dir_icon;
use crate::icons::spec_icon;
use crate::status::Color;
use crate::text::pad_left;
use crate::text::pad_left_spec;
use crate::text::pad_right;
use crate::text::pad_right_spec;
use crate::tree::TreeNode;
use crate::widths::calculate_data_widths;
use crate::widths::column_widths;
use crate::widths::list_owner_width;
use crate::widths::list_size_width;
use crate::widths::tree_owner_width;
use crate::widths::tree_size_width;
use crate::widths::ColumnWidths;

verus! {

/// One output line: uncolored text, then a stretch drawn in `color`.
pub struct Line {
    pub plain: String,
    pub color: Color,
    pub colored: String,
}

/// The mathematical content of a line.
pub ghost struct LineModel {
    pub plain: Seq<char>,
    pub color: Color,
    pub colored: Seq<char>,
}

impl View for Line {
    type V = LineModel;

    open spec fn view(&self) -> LineModel {
        LineModel { plain: self.plain@, color: self.color, colored: self.colored@ }
    }
}

/// The contents of a line sequence.
pub open spec fn line_views(s: Seq<Line>) -> Seq<LineModel> {
    s.map_values(|l: Line| l@)
}

/// The colored stretch of an entry line: icon, name, and a trailing slash
/// on directories.
pub open spec fn icon_name_slash(d: DisplayRecord) -> Seq<char> {
    d.icon@ + d.name@ + (if d.is_directory {
        "/"@
    } else {
        Seq::<char>::empty()
    })
}

/// Builds the colored stretch of an entry line.
fn name_part(d: &DisplayRecord) -> (r: String)
    ensures
        r@ == icon_name_slash(*d),
{
    let mut r = String::from_str(d.icon.as_str());
    r.append(d.name.as_str());
    if d.is_directory {
        r.append("/");
    }
    proof {
        assert(r@ =~= icon_name_slash(*d));
    }
    r
}

/// What one flat-simple line says about its entry: the plain part is the
/// styled marker (whose exact escape codes the environment decides) and a
/// space; the colored part is icon, name and kind slash in the entry's
/// final name color.
pub open spec fn simple_line_for(l: LineModel, f: FileEntry, cache: Option<GitStatusCache>) -> bool {
    let rec = spec_status_of(cache, f.canonical);
    &&& (exists|g: Seq<char>| g.contains(rec.marker) && l.plain == g + " "@)
    &&& l.color == spec_name_color(rec, f.is_dir)
    &&& l.colored == (if f.is_dir {
        spec_dir_icon()
    } else {
        spec_icon(f.name@)
    }) + f.name@ + (if f.is_dir {
        "/"@
    } else {
        Seq::<char>::empty()
    })
}

/// Renders the flat simple view: one line per entry, marker first, then
/// icon and name, directories marked with a trailing slash.
pub fn render_simple_view(files: &Vec<FileEntry>, cache: &Option<GitStatusCache>) -> (lines: Vec<
    Line,
>)
    ensures
        lines@.len() == files@.len(),
        forall|i: int|
            0 <= i < lines@.len() ==> simple_line_for(#[trigger] lines@[i]@, files@[i], *cache),
{
    let mut lines: Vec<Line> = Vec::new();
    let mut i: usize = 0;
    while i < files.len()
        invariant
            i <= files@.len(),
            lines@.len() == i,
            forall|k: int|
                0 <= k < i ==> simple_line_for(#[trigger] lines@[k]@, files@[k], *cache),
        decreases files@.len() - i,
    {
        let f = &files[i];
        let rec = status_of(cache, &f.canonical);
        let mut plain = styled_marker(rec.marker, rec.color);
        plain.append(" ");
        let color = crate::display::resolve_name_color(&rec, f.is_dir);
        let mut colored = if f.is_dir {
            String::from_str(dir_icon())
        } else {
            String::from_str(get_icon_for_file(f.name.as_str()))
        };
        colored.append(f.name.as_str());
        if f.is_dir {
            colored.append("/");
        }
        let ghost lm = LineModel { plain: plain@, color, colored: colored@ };
        lines.push(Line { plain, color, colored });
        proof {
            assert(lines@[i as int]@ == lm);
            assert(simple_line_for(lm, files@[i as int], *cache)) by {
                let rec0 = spec_status_of(*cache, files@[i as int].canonical);
                let g = choose|g: Seq<char>| lm.plain == g + " "@ && g.contains(rec0.marker);
                assert(lm.colored =~= (if files@[i as int].is_dir {
                    spec_dir_icon()
                } else {
                    spec_icon(files@[i as int].name@)
                }) + files@[i as int].name@ + (if files@[i as int].is_dir {
                    "/"@
                } else {
                    Seq::<char>::empty()
                }));
            }
        }
        i = i + 1;
    }
    lines
}

/// The fixed field block of one long-format row: permissions left-aligned
/// to eleven columns, owner left-aligned and size right-aligned to the
/// frozen widths, then timestamp and styled marker, each with its
/// separating spaces.
pub open spec fn spec_long_fields(d: DisplayRecord, w: ColumnWidths) -> Seq<char> {
    pad_right_spec(d.permissions@, 11) + " "@ + pad_right_spec(d.owner@, w.owner as nat) + "  "@
        + pad_left_spec(d.size@, w.size as nat) + " "@ + d.time@ + " "@ + d.git@ + "  "@
}

/// Builds the field block of one long-format row.
fn long_fields(d: &DisplayRecord, w: &ColumnWidths) -> (r: String)
    ensures
        r@ == spec_long_fields(*d, *w),
{
    let mut r = pad_right(d.permissions.as_str(), 11);
    r.append(" ");
    let po = pad_right(d.owner.as_str(), w.owner);
    r.append(po.as_str());
    r.append("  ");
    let ps = pad_left(d.size.as_str(), w.size);
    r.append(ps.as_str());
    r.append(" ");
    r.append(d.time.as_str());
    r.append(" ");
    r.append(d.git.as_str());
    r.append("  ");
    proof {
        assert(r@ =~= spec_long_fields(*d, *w));
    }
    r
}

/// A long-format row: the field block, then a tree prefix (empty in flat
/// mode), then the colored icon-and-name stretch.
pub open spec fn long_row_model(d: DisplayRecord, w: ColumnWidths, prefix: Seq<char>) -> LineModel {
    LineModel {
        plain: spec_long_fields(d, w) + prefix,
        color: d.name_color,
        colored: icon_name_slash(d),
    }
}

/// The filler glyph row under a column title.
pub open spec fn line_fill(n: nat) -> Seq<char> {
    Seq::new(n, |i: int| '\u{2500}')
}

/// Builds a filler row of `n` box-drawing dashes.
fn line_fill_string(n: usize) -> (r: String)
    ensures
        r@ == line_fill(n as nat),
{
    let mut r = String::new();
    let mut i: usize = 0;
    while i < n
        invariant
            i <= n,
            r@ == line_fill(i as nat),
        decreases n - i,
    {
        r.append("\u{2500}");
        i = i + 1;
        proof {
            reveal_strlit("\u{2500}");
            assert(r@ =~= line_fill(i as nat));
        }
    }
    proof {
        assert(r@ =~= line_fill(n as nat));
    }
    r
}

/// The long-format title row, sized to the frozen widths.
pub open spec fn spec_header_title(w: ColumnWidths) -> Seq<char> {
    pad_right_spec("Permissions"@, 11) + " "@ + pad_right_spec("Owner"@, w.owner as nat) + "  "@
        + pad_left_spec("Size"@, w.size as nat) + " "@ + "Last Modified    "@ + "Git "@ + "Name"@
}

/// The long-format underline row, sized to the frozen widths.
pub open spec fn spec_header_underline(w: ColumnWidths) -> Seq<char> {
    pad_right_spec("-----------"@, 11) + " "@ + line_fill(w.owner as nat) + "  "@ + line_fill(
        w.size as nat,
    ) + " "@ + "---------------- "@ + "--- "@ + "----"@
}

/// Builds the title row.
fn header_title(w: &ColumnWidths) -> (r: String)
    ensures
        r@ == spec_header_title(*w),
{
    let mut r = pad_right("Permissions", 11);
    r.append(" ");
    let po = pad_right("Owner", w.owner);
    r.append(po.as_str());
    r.append("  ");
    let ps = pad_left("Size", w.size);
    r.append(ps.as_str());
    r.append(" ");
    r.append("Last Modified    ");
    r.append("Git ");
    r.append("Name");
    proof {
        assert(r@ =~= spec_header_title(*w));
    }
    r
}

/// Builds the underline row.
fn header_underline(w: &ColumnWidths) -> (r: String)
    ensures
        r@ == spec_header_underline(*w),
{
    let mut r = pad_right("-----------", 11);
    r.append(" ");
    let fo = line_fill_string(w.owner);
    r.append(fo.as_str());
    r.append("  ");
    let fs = line_fill_string(w.size);
    r.append(fs.as_str());
    r.append(" ");
    r.append("---------------- ");
    r.append("--- ");
    r.append("----");
    proof {
        assert(r@ =~= spec_header_underline(*w));
    }
    r
}

/// The two header lines, drawn whole in green.
pub open spec fn header_models(w: ColumnWidths) -> Seq<LineModel> {
    seq![
        LineModel { plain: Seq::<char>::empty(), color: Color::Green, colored: spec_header_title(w) },
        LineModel {
            plain: Seq::<char>::empty(),
            color: Color::Green,
            colored: spec_header_underline(w),
        },
    ]
}

/// Builds the two header lines.
fn header_lines(w: &ColumnWidths) -> (r: Vec<Line>)
    ensures
        line_views(r@) == header_models(*w),
{
    let mut r: Vec<Line> = Vec::new();
    r.push(Line { plain: String::new(), color: Color::Green, colored: header_title(w) });
    r.push(Line { plain: String::new(), color: Color::Green, colored: header_underline(w) });
    proof {
        assert(line_views(r@) =~= header_models(*w));
    }
    r
}

/// What the flat long view promises: below the two header rows, one row
/// per entry, laid out with one frozen pair of column widths — the exact
/// maxima over the displayed records, which resolve the given entries.
pub open spec fn long_view_for(
    lines: Seq<LineModel>,
    ds: Seq<DisplayRecord>,
    w: ColumnWidths,
    files: Seq<FileEntry>,
    cache: Option<GitStatusCache>,
) -> bool {
    &&& ds.len() == files.len()
    &&& (forall|i: int| 0 <= i < ds.len() ==> display_matches(#[trigger] ds[i], files[i], cache))
    &&& w.owner as nat == list_owner_width(ds)
    &&& w.size as nat == list_size_width(ds)
    &&& lines.len() == 2 + ds.len()
    &&& lines.take(2) == header_models(w)
    &&& (forall|i: int|
        0 <= i < ds.len() ==> lines[2 + i] == long_row_model(
            #[trigger] ds[i],
            w,
            Seq::<char>::empty(),
        ))
}

/// Renders the flat long view: a title row, an underline row, then one
/// aligned row per entry. An empty listing renders nothing.
pub fn render_long_view(files: &Vec<FileEntry>, cache: &Option<GitStatusCache>) -> (lines: Vec<
    Line,
>)
    ensures
        files@.len() == 0 ==> lines@.len() == 0,
        files@.len() > 0 ==> (exists|ds: Seq<DisplayRecord>, w: ColumnWidths|
            long_view_for(line_views(lines@), ds, w, files@, *cache)),
{
    let mut lines: Vec<Line> = Vec::new();
    if files.len() == 0 {
        return lines;
    }
    let mut ds: Vec<DisplayRecord> = Vec::new();
    let mut i: usize = 0;
    while i < files.len()
        invariant
            i <= files@.len(),
            ds@.len() == i,
            forall|k: int| 0 <= k < i ==> display_matches(#[trigger] ds@[k], files@[k], *cache),
        decreases files@.len() - i,
    {
        let d = make_display(&files[i], cache);
        ds.push(d);
        i = i + 1;
    }
    let w = column_widths(&ds);
    let mut lines = header_lines(&w);
    proof {
        assert(lines@.len() == line_views(lines@).len());
        assert(lines@.len() == 2);
        assert(line_views(lines@).take(2) =~= line_views(lines@));
    }
    let ghost gds = ds@;
    let mut j: usize = 0;
    while j < ds.len()
        invariant
            j <= gds.len(),
            ds@ == gds,
            lines@.len() == 2 + j,
            line_views(lines@).take(2) == header_models(w),
            forall|k: int|
                0 <= k < j ==> line_views(lines@)[2 + k] == long_row_model(
                    #[trigger] gds[k],
                    w,
                    Seq::<char>::empty(),
                ),
        decreases gds.len() - j,
    {
        let plain = long_fields(&ds[j], &w);
        let colored = name_part(&ds[j]);
        let color = ds[j].name_color;
        lines.push(Line { plain, color, colored });
        j = j + 1;
        proof {
            assert(line_views(lines@).take(2) =~= header_models(w));
            assert(line_views(lines@)[2 + j as int - 1].plain =~= spec_long_fields(gds[j as int - 1], w)
                + Seq::<char>::empty());
        }
    }
    proof {
        assert(long_view_for(line_views(lines@), gds, w, files@, *cache));
    }
    lines
}

/// The connector glyph before a node's own line.
pub open spec fn connector(is_last: bool) -> Seq<char> {
    if is_last {
        "\u{2514}\u{2500}\u{2500} "@
    } else {
        "\u{251c}\u{2500}\u{2500} "@
    }
}

/// The continuation glyph prepended to every descendant's prefix.
pub open spec fn continuation(is_last: bool) -> Seq<char> {
    if is_last {
        "    "@
    } else {
        "\u{2502}   "@
    }
}

/// Picks the connector for a node.
fn connector_str(is_last: bool) -> (r: &'static str)
    ensures
        r@ == connector(is_last),
{
    if is_last {
        "\u{2514}\u{2500}\u{2500} "
    } else {
        "\u{251c}\u{2500}\u{2500} "
    }
}

/// Picks the continuation for a node's descendants.
fn continuation_str(is_last: bool) -> (r: &'static str)
    ensures
        r@ == continuation(is_last),
{
    if is_last {
        "    "
    } else {
        "\u{2502}   "
    }
}

/// The tree-simple lines of a forest under the given ancestor prefix:
/// depth-first pre-order, each node's line carrying its prefix, connector,
/// styled marker and a space, then the colored icon-and-name stretch; the
/// last sibling gets the closing connector and a blank continuation.
pub open spec fn spec_tree_simple(nodes: Seq<TreeNode>, prefix: Seq<char>) -> Seq<LineModel>
    decreases nodes,
{
    if nodes.len() == 0 {
        Seq::empty()
    } else {
        let n = nodes[0];
        let is_last = nodes.len() == 1;
        seq![
            LineModel {
                plain: prefix + connector(is_last) + n.info.git@ + " "@,
                color: n.info.name_color,
                colored: icon_name_slash(n.info),
            },
        ] + spec_tree_simple(n.children@, prefix + continuation(is_last)) + spec_tree_simple(
            nodes.drop_first(),
            prefix,
        )
    }
}

/// The tree-long lines of a forest: the same traversal, with the aligned
/// field block before each node's prefix and connector.
pub open spec fn spec_tree_long(
    nodes: Seq<TreeNode>,
    prefix: Seq<char>,
    w: ColumnWidths,
) -> Seq<LineModel>
    decreases nodes,
{
    if nodes.len() == 0 {
        Seq::empty()
    } else {
        let n = nodes[0];
        let is_last = nodes.len() == 1;
        seq![
            LineModel {
                plain: spec_long_fields(n.info, w) + prefix + connector(is_last),
                color: n.info.name_color,
                colored: icon_name_slash(n.info),
            },
        ] + spec_tree_long(n.children@, prefix + continuation(is_last), w) + spec_tree_long(
            nodes.drop_first(),
            prefix,
            w,
        )
    }
}

/// Appends the tree-simple lines of a forest to `out`.
#[verifier::loop_isolation(false)]
pub fn render_tree_nodes_simple(nodes: &Vec<TreeNode>, prefix: &str, out: &mut Vec<Line>)
    ensures
        line_views(final(out)@) == line_views(old(out)@) + spec_tree_simple(nodes@, prefix@),
    decreases nodes,
{
    let ghost base = line_views(out@);
    let mut i: usize = 0;
    proof {
        assert(nodes@.skip(0) =~= nodes@);
        assert(base + spec_tree_simple(nodes@.skip(0), prefix@) =~= base + spec_tree_simple(
            nodes@,
            prefix@,
        ));
    }
    while i < nodes.len()
        invariant
            i <= nodes@.len(),
            line_views(out@) + spec_tree_simple(nodes@.skip(i as int), prefix@) == base
                + spec_tree_simple(nodes@, prefix@),
        decreases nodes@.len() - i,
    {
        let ghost tail = nodes@.skip(i as int);
        let ghost mid0 = line_views(out@);
        let is_last = i + 1 == nodes.len();
        proof {
            assert(tail[0] == nodes@[i as int]);
            assert(tail.len() == nodes@.len() - i);
            assert(is_last <==> tail.len() == 1);
            assert(tail.drop_first() =~= nodes@.skip(i as int + 1));
        }
        let mut plain = String::from_str(prefix);
        plain.append(connector_str(is_last));
        plain.append(nodes[i].info.git.as_str());
        plain.append(" ");
        let colored = name_part(&nodes[i].info);
        let color = nodes[i].info.name_color;
        let ghost lm = LineModel { plain: plain@, color, colored: colored@ };
        out.push(Line { plain, color, colored });
        proof {
            assert(line_views(out@) =~= mid0.push(lm));
            assert(lm.plain =~= prefix@ + connector(is_last) + nodes@[i as int].info.git@ + " "@);
        }
        let mut new_prefix = String::from_str(prefix);
        new_prefix.append(continuation_str(is_last));
        proof {
            assert(decreases_to!(nodes => nodes@));
            assert(decreases_to!(nodes@ => nodes@[i as int]));
            assert(decreases_to!(nodes@[i as int] => nodes@[i as int].children));
        }
        render_tree_nodes_simple(&nodes[i].children, new_prefix.as_str(), out);
        i = i + 1;
        proof {
            let head = seq![
                LineModel {
                    plain: prefix@ + connector(is_last) + tail[0].info.git@ + " "@,
                    color: tail[0].info.name_color,
                    colored: icon_name_slash(tail[0].info),
                },
            ];
            let child_lines = spec_tree_simple(tail[0].children@, prefix@ + continuation(is_last));
            assert(spec_tree_simple(tail, prefix@) == head + child_lines + spec_tree_simple(
                nodes@.skip(i as int),
                prefix@,
            ));
            assert(line_views(out@) =~= mid0.push(lm) + child_lines);
            assert(mid0.push(lm) =~= mid0 + head);
            assert(line_views(out@) + spec_tree_simple(nodes@.skip(i as int), prefix@) =~= mid0
                + spec_tree_simple(tail, prefix@));
        }
    }
    proof {
        assert(nodes@.skip(nodes@.len() as int) =~= Seq::<TreeNode>::empty());
        assert(line_views(out@) + spec_tree_simple(nodes@.skip(nodes@.len() as int), prefix@)
            =~= line_views(out@));
    }
}

/// Appends the tree-long lines of a forest to `out`, using one frozen pair
/// of column widths for every depth.
#[verifier::loop_isolation(false)]
pub fn render_tree_nodes_long(
    nodes: &Vec<TreeNode>,
    prefix: &str,
    w: &ColumnWidths,
    out: &mut Vec<Line>,
)
    ensures
        line_views(final(out)@) == line_views(old(out)@) + spec_tree_long(nodes@, prefix@, *w),
    decreases nodes,
{
    let ghost base = line_views(out@);
    let mut i: usize = 0;
    proof {
        assert(nodes@.skip(0) =~= nodes@);
        assert(base + spec_tree_long(nodes@.skip(0), prefix@, *w) =~= base + spec_tree_long(
            nodes@,
            prefix@,
            *w,
        ));
    }
    while i < nodes.len()
        invariant
            i <= nodes@.len(),
            line_views(out@) + spec_tree_long(nodes@.skip(i as int), prefix@, *w) == base
                + spec_tree_long(nodes@, prefix@, *w),
        decreases nodes@.len() - i,
    {
        let ghost tail = nodes@.skip(i as int);
        let ghost mid0 = line_views(out@);
        let is_last = i + 1 == nodes.len();
        proof {
            assert(tail[0] == nodes@[i as int]);
            assert(tail.len() == nodes@.len() - i);
            assert(is_last <==> tail.len() == 1);
            assert(tail.drop_first() =~= nodes@.skip(i as int + 1));
        }
        let mut plain = long_fields(&nodes[i].info, w);
        plain.append(prefix);
        plain.append(connector_str(is_last));
        let colored = name_part(&nodes[i].info);
        let color = nodes[i].info.name_color;
        let ghost lm = LineModel { plain: plain@, color, colored: colored@ };
        out.push(Line { plain, color, colored });
        proof {
            assert(line_views(out@) =~= mid0.push(lm));
            assert(lm.plain =~= spec_long_fields(nodes@[i as int].info, *w) + prefix@ + connector(
                is_last,
            ));
        }
        let mut new_prefix = String::from_str(prefix);
        new_prefix.append(continuation_str(is_last));
        proof {
            assert(decreases_to!(nodes => nodes@));
            assert(decreases_to!(nodes@ => nodes@[i as int]));
            assert(decreases_to!(nodes@[i as int] => nodes@[i as int].children));
        }
        render_tree_nodes_long(&nodes[i].children, new_prefix.as_str(), w, out);
        i = i + 1;
        proof {
            let head = seq![
                LineModel {
                    plain: spec_long_fields(tail[0].info, *w) + prefix@ + connector(is_last),
                    color: tail[0].info.name_color,
                    colored: icon_name_slash(tail[0].info),
                },
            ];
            let child_lines = spec_tree_long(
                tail[0].children@,
                prefix@ + continuation(is_last),
                *w,
            );
            assert(spec_tree_long(tail, prefix@, *w) == head + child_lines + spec_tree_long(
                nodes@.skip(i as int),
                prefix@,
                *w,
            ));
            assert(line_views(out@) =~= mid0.push(lm) + child_lines);
            assert(mid0.push(lm) =~= mid0 + head);
            assert(line_views(out@) + spec_tree_long(nodes@.skip(i as int), prefix@, *w) =~= mid0
                + spec_tree_long(tail, prefix@, *w));
        }
    }
    proof {
        assert(nodes@.skip(nodes@.len() as int) =~= Seq::<TreeNode>::empty());
        assert(line_views(out@) + spec_tree_long(nodes@.skip(nodes@.len() as int), prefix@, *w)
            =~= line_views(out@));
    }
}

/// The number of nodes in a forest, at every depth.
pub open spec fn count_nodes(nodes: Seq<TreeNode>) -> nat
    decreases nodes,
{
    if nodes.len() == 0 {
        0
    } else {
        1 + count_nodes(nodes[0].children@) + count_nodes(nodes.drop_first())
    }
}

/// Depth-bound law, output side: the simple tree rendering emits exactly
/// one line per built node — so a node absent from a depth-bounded tree
/// never appears in its output.
pub proof fn lemma_tree_simple_one_line_per_node(nodes: Seq<TreeNode>, prefix: Seq<char>)
    ensures
        spec_tree_simple(nodes, prefix).len() == count_nodes(nodes),
    decreases nodes,
{
    if nodes.len() > 0 {
        let is_last = nodes.len() == 1;
        lemma_tree_simple_one_line_per_node(nodes[0].children@, prefix + continuation(is_last));
        lemma_tree_simple_one_line_per_node(nodes.drop_first(), prefix);
    }
}

/// Depth-bound law, output side, long form: the long tree rendering also
/// emits exactly one line per built node.
pub proof fn lemma_tree_long_one_line_per_node(
    nodes: Seq<TreeNode>,
    prefix: Seq<char>,
    w: ColumnWidths,
)
    ensures
        spec_tree_long(nodes, prefix, w).len() == count_nodes(nodes),
    decreases nodes,
{
    if nodes.len() > 0 {
        let is_last = nodes.len() == 1;
        lemma_tree_long_one_line_per_node(nodes[0].children@, prefix + continuation(is_last), w);
        lemma_tree_long_one_line_per_node(nodes.drop_first(), prefix, w);
    }
}

/// The uncolored line naming the traversal root, printed above a tree.
pub open spec fn root_model(label: Seq<char>) -> LineModel {
    LineModel { plain: label, color: Color::Reset, colored: Seq::<char>::empty() }
}

/// Renders the tree view: the root label, then — in long format — the two
/// header rows sized to the widths of the whole tree, then the connector-
/// prefixed lines of every node in pre-order.
pub fn render_tree_view(root_label: &str, nodes: &Vec<TreeNode>, long: bool) -> (lines: Vec<Line>)
    ensures
        !long ==> line_views(lines@) == seq![root_model(root_label@)] + spec_tree_simple(
            nodes@,
            Seq::<char>::empty(),
        ),
        long ==> (exists|w: ColumnWidths|
            {
                &&& w.owner as nat == tree_owner_width(nodes@)
                &&& w.size as nat == tree_size_width(nodes@)
                &&& line_views(lines@) == seq![root_model(root_label@)] + header_models(w)
                    + spec_tree_long(nodes@, Seq::<char>::empty(), w)
            }),
{
    let mut lines: Vec<Line> = Vec::new();
    lines.push(
        Line { plain: String::from_str(root_label), color: Color::Reset, colored: String::new() },
    );
    proof {
        assert(line_views(lines@) =~= seq![root_model(root_label@)]);
        reveal_strlit("");
        assert(""@ =~= Seq::<char>::empty());
    }
    if long {
        let mut w = ColumnWidths { owner: 0, size: 0 };
        calculate_data_widths(nodes, &mut w);
        let hdr = header_lines(&w);
        let ghost before = line_views(lines@);
        let mut hv = hdr;
        let mut hi: usize = 0;
        while hi < hv.len()
            invariant
                hi <= hv@.len(),
                line_views(lines@) == before + line_views(hv@).take(hi as int),
            decreases hv@.len() - hi,
        {
            let ghost pre = line_views(lines@);
            let l = Line {
                plain: hv[hi].plain.clone(),
                color: hv[hi].color,
                colored: hv[hi].colored.clone(),
            };
            proof {
                assert(l@ == hv@[hi as int]@);
            }
            lines.push(l);
            hi = hi + 1;
            proof {
                assert(line_views(lines@) =~= pre.push(hv@[hi as int - 1]@));
                assert(line_views(hv@).take(hi as int) =~= line_views(hv@).take(hi as int - 1).push(
                    hv@[hi as int - 1]@,
                ));
                assert(line_views(lines@) =~= before + line_views(hv@).take(hi as int));
            }
        }
        proof {
            assert(line_views(hv@).take(hv@.len() as int) =~= line_views(hv@));
            assert(line_views(lines@) =~= seq![root_model(root_label@)] + header_models(w));
        }
        render_tree_nodes_long(nodes, "", &w, &mut lines);
        proof {
            assert(line_views(lines@) =~= seq![root_model(root_label@)] + header_models(w)
                + spec_tree_long(nodes@, Seq::<char>::empty(), w));
        }
    } else {
        render_tree_nodes_simple(nodes, "", &mut lines);
        proof {
            assert(line_views(lines@) =~= seq![root_model(root_label@)] + spec_tree_simple(
                nodes@,
                Seq::<char>::empty(),
            ));
        }
    }
    lines
}

} // verus!
