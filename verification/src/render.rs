//! The snapshot renderer: a pure function from the pending table and the
//! directory cache to the status text and the tooltip text.
//!
//! The status text holds one token per pending entry, `"<glyph>
//! <floor-percent>%/<bytes>"`, joined by `" | "`.  The tooltip holds one
//! line per entry, `"<device>: <folder> (<rounded-percent>%, <bytes>)"`
//! with both name columns left-aligned to ten characters, joined by
//! newlines.  A row with no folders contributes nothing.  Entry order
//! follows the table's own row and folder order.

use vstd::prelude::*;

use crate::directory::DirectoryCache;
use crate::format::{
    join_strings, pad_left_aligned, spec_bytes_string, spec_digits, spec_join,
    spec_pad_left_aligned, spec_round_half_even,
};
use crate::pending::{DeviceRow, FolderEntry, PendingTable};

verus! {

/// One status-text token: glyph, floored percent, slash, byte count.
pub open spec fn spec_status_token(e: FolderEntry) -> Seq<char> {
    "\u{f2f1} "@ + spec_digits(e.completion.hundredths as int / 100) + "%/"@
        + spec_bytes_string(e.need_bytes.0 as int)
}

/// The status tokens one row contributes, in folder order.
pub open spec fn spec_row_tokens(row: DeviceRow) -> Seq<Seq<char>> {
    row.folders@.map_values(|e: FolderEntry| spec_status_token(e))
}

/// All status tokens, in row order.
pub open spec fn spec_status_tokens(rows: Seq<DeviceRow>) -> Seq<Seq<char>>
    decreases rows.len(),
{
    if rows.len() == 0 {
        Seq::empty()
    } else {
        spec_status_tokens(rows.drop_last()) + spec_row_tokens(rows.last())
    }
}

/// The whole status text: the tokens joined by `" | "`.
pub open spec fn spec_status_text(rows: Seq<DeviceRow>) -> Seq<char> {
    spec_join(spec_status_tokens(rows), " | "@)
}

/// One tooltip line, from the resolved display names and the entry.
pub open spec fn spec_tooltip_line(
    device_name: Seq<char>,
    folder_name: Seq<char>,
    e: FolderEntry,
) -> Seq<char> {
    spec_pad_left_aligned(device_name + ":"@, 10) + " "@ + spec_pad_left_aligned(folder_name, 10)
        + " ("@ + spec_digits(spec_round_half_even(e.completion.hundredths as int, 100)) + "%, "@
        + spec_bytes_string(e.need_bytes.0 as int) + ")"@
}

/// The tooltip lines one row contributes, in folder order.
pub open spec fn spec_row_lines(dir: DirectoryCache, row: DeviceRow) -> Seq<Seq<char>> {
    row.folders@.map_values(
        |e: FolderEntry|
            spec_tooltip_line(
                dir.spec_device_display(row.device@),
                dir.spec_folder_display(e.folder@),
                e,
            ),
    )
}

/// All tooltip lines, in row order.
pub open spec fn spec_tooltip_lines(dir: DirectoryCache, rows: Seq<DeviceRow>) -> Seq<Seq<char>>
    decreases rows.len(),
{
    if rows.len() == 0 {
        Seq::empty()
    } else {
        spec_tooltip_lines(dir, rows.drop_last()) + spec_row_lines(dir, rows.last())
    }
}

/// The whole tooltip text: the lines joined by newlines.
pub open spec fn spec_tooltip_text(dir: DirectoryCache, rows: Seq<DeviceRow>) -> Seq<char> {
    spec_join(spec_tooltip_lines(dir, rows), "\n"@)
}

fn status_token(e: &FolderEntry) -> (r: String)
    ensures
        r@ == spec_status_token(*e),
{
    let mut s = String::from_str("\u{f2f1} ");
    let pct = e.completion.floor_string();
    s.append(pct.as_str());
    s.append("%/");
    let bytes = e.need_bytes.format();
    s.append(bytes.as_str());
    proof {
        assert(s@ =~= spec_status_token(*e));
    }
    s
}

/// The compact status text for the whole table.
pub fn render_status(table: &PendingTable) -> (r: String)
    ensures
        r@ == spec_status_text(table.rows@),
{
    let rows = &table.rows;
    let mut tokens: Vec<String> = Vec::new();
    let mut i: usize = 0;
    while i < rows.len()
        invariant
            i <= rows@.len(),
            rows@ == table.rows@,
            tokens@.map_values(|t: String| t@) == spec_status_tokens(rows@.take(i as int)),
        decreases rows@.len() - i,
    {
        let folders = &rows[i].folders;
        let mut j: usize = 0;
        while j < folders.len()
            invariant
                i < rows@.len(),
                j <= folders@.len(),
                rows@ == table.rows@,
                folders@ == rows@[i as int].folders@,
                tokens@.map_values(|t: String| t@) == spec_status_tokens(rows@.take(i as int))
                    + spec_row_tokens(rows@[i as int]).take(j as int),
            decreases folders@.len() - j,
        {
            let t = status_token(&folders[j]);
            let ghost tokens0 = tokens@;
            tokens.push(t);
            proof {
                assert(tokens@ =~= tokens0.push(t));
                assert(tokens@.map_values(|t: String| t@) =~= tokens0.map_values(
                    |t: String| t@,
                ).push(t@));
                assert(spec_row_tokens(rows@[i as int]).take(j as int + 1) =~= spec_row_tokens(
                    rows@[i as int],
                ).take(j as int).push(spec_status_token(folders@[j as int])));
                assert(tokens@.map_values(|t: String| t@) =~= spec_status_tokens(
                    rows@.take(i as int),
                ) + spec_row_tokens(rows@[i as int]).take(j as int + 1));
            }
            j = j + 1;
        }
        proof {
            assert(spec_row_tokens(rows@[i as int]).take(folders@.len() as int)
                =~= spec_row_tokens(rows@[i as int]));
            assert(rows@.take(i as int + 1).drop_last() =~= rows@.take(i as int));
            assert(rows@.take(i as int + 1).last() == rows@[i as int]);
            assert(tokens@.map_values(|t: String| t@) =~= spec_status_tokens(
                rows@.take(i as int + 1),
            ));
        }
        i = i + 1;
    }
    proof {
        assert(rows@.take(rows@.len() as int) =~= rows@);
    }
    join_strings(&tokens, " | ")
}

fn tooltip_line(device_name: &String, folder_name: String, e: &FolderEntry) -> (r: String)
    ensures
        r@ == spec_tooltip_line(device_name@, folder_name@, *e),
{
    let mut head = device_name.clone();
    head.append(":");
    let mut s = pad_left_aligned(head, 10);
    s.append(" ");
    let padded_folder = pad_left_aligned(folder_name, 10);
    s.append(padded_folder.as_str());
    s.append(" (");
    let pct = e.completion.rounded_string();
    s.append(pct.as_str());
    s.append("%, ");
    let bytes = e.need_bytes.format();
    s.append(bytes.as_str());
    s.append(")");
    proof {
        assert(s@ =~= spec_tooltip_line(device_name@, folder_name@, *e));
    }
    s
}

/// The multi-line tooltip text for the whole table.
pub fn render_tooltip(dir: &DirectoryCache, table: &PendingTable) -> (r: String)
    ensures
        r@ == spec_tooltip_text(*dir, table.rows@),
{
    let rows = &table.rows;
    let mut lines: Vec<String> = Vec::new();
    let mut i: usize = 0;
    while i < rows.len()
        invariant
            i <= rows@.len(),
            rows@ == table.rows@,
            lines@.map_values(|t: String| t@) == spec_tooltip_lines(*dir, rows@.take(i as int)),
        decreases rows@.len() - i,
    {
        let device_name = dir.device_display(&rows[i].device);
        let folders = &rows[i].folders;
        let mut j: usize = 0;
        while j < folders.len()
            invariant
                i < rows@.len(),
                j <= folders@.len(),
                rows@ == table.rows@,
                folders@ == rows@[i as int].folders@,
                device_name@ == dir.spec_device_display(rows@[i as int].device@),
                lines@.map_values(|t: String| t@) == spec_tooltip_lines(
                    *dir,
                    rows@.take(i as int),
                ) + spec_row_lines(*dir, rows@[i as int]).take(j as int),
            decreases folders@.len() - j,
        {
            let folder_name = dir.folder_display(&folders[j].folder);
            let line = tooltip_line(&device_name, folder_name, &folders[j]);
            let ghost lines0 = lines@;
            lines.push(line);
            proof {
                assert(lines@ =~= lines0.push(line));
                assert(lines@.map_values(|t: String| t@) =~= lines0.map_values(
                    |t: String| t@,
                ).push(line@));
                assert(spec_row_lines(*dir, rows@[i as int]).take(j as int + 1)
                    =~= spec_row_lines(*dir, rows@[i as int]).take(j as int).push(
                    spec_tooltip_line(
                        dir.spec_device_display(rows@[i as int].device@),
                        dir.spec_folder_display(folders@[j as int].folder@),
                        folders@[j as int],
                    ),
                ));
                assert(lines@.map_values(|t: String| t@) =~= spec_tooltip_lines(
                    *dir,
                    rows@.take(i as int),
                ) + spec_row_lines(*dir, rows@[i as int]).take(j as int + 1));
            }
            j = j + 1;
        }
        proof {
            assert(spec_row_lines(*dir, rows@[i as int]).take(folders@.len() as int)
                =~= spec_row_lines(*dir, rows@[i as int]));
            assert(rows@.take(i as int + 1).drop_last() =~= rows@.take(i as int));
            assert(rows@.take(i as int + 1).last() == rows@[i as int]);
            assert(lines@.map_values(|t: String| t@) =~= spec_tooltip_lines(
                *dir,
                rows@.take(i as int + 1),
            ));
        }
        i = i + 1;
    }
    proof {
        assert(rows@.take(rows@.len() as int) =~= rows@);
    }
    join_strings(&lines, "\n")
}

} // verus!
