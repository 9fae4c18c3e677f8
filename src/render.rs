//! Choosing an output format, and the text layouts of a single record and of
//! a directory listing. The structured formats (JSON, YAML) are serialised by
//! the caller.

use vstd::prelude::*;
use crate::info::FileInfo;
use crate::text::{push_padded, space_padded};
use crate::time::{push_time, time_text};

verus! {

/// A text layout.
#[derive(Clone, Copy, Debug, PartialEq, Eq, Structural)]
pub enum Layout {
    Columns,
    List,
    Table,
}

/// An output format.
#[derive(Clone, Copy, Debug, PartialEq, Eq, Structural)]
pub enum Format {
    Json,
    Yaml,
    Text(Layout),
}

/// Picks the format from the five format flags: the first set one in the
/// order json, yaml, columns, list, table wins; with none set, columns.
pub fn select_format(json: bool, yaml: bool, columns: bool, list: bool, table: bool) -> (r: Format)
    ensures
        json ==> r == Format::Json,
        !json && yaml ==> r == Format::Yaml,
        !json && !yaml && columns ==> r == Format::Text(Layout::Columns),
        !json && !yaml && !columns && list ==> r == Format::Text(Layout::List),
        !json && !yaml && !columns && !list && table ==> r == Format::Text(Layout::Table),
        !json && !yaml && !columns && !list && !table ==> r == Format::Text(Layout::Columns),
{
    if json {
        Format::Json
    } else if yaml {
        Format::Yaml
    } else if columns {
        Format::Text(Layout::Columns)
    } else if list {
        Format::Text(Layout::List)
    } else if table {
        Format::Text(Layout::Table)
    } else {
        Format::Text(Layout::Columns)
    }
}

/// Whether two strings hold the same characters.
pub fn str_eq(a: &str, b: &str) -> (r: bool)
    ensures
        r == (a@ == b@),
{
    let n = a.unicode_len();
    if n != b.unicode_len() {
        return false;
    }
    let mut i: usize = 0;
    while i < n
        invariant
            n == a@.len() == b@.len(),
            i <= n,
            a@.take(i as int) == b@.take(i as int),
        decreases n - i,
    {
        if a.get_char(i) != b.get_char(i) {
            assert(a@[i as int] != b@[i as int]);
            return false;
        }
        assert(a@.take(i + 1) =~= a@.take(i as int).push(a@[i as int]));
        assert(b@.take(i + 1) =~= b@.take(i as int).push(b@[i as int]));
        i = i + 1;
    }
    assert(a@ =~= a@.take(n as int));
    assert(b@ =~= b@.take(n as int));
    true
}

/// The format of a format name: "json", "yaml", "columns", "list" or "table".
pub open spec fn format_named(name: Seq<char>) -> Option<Format> {
    if name == "json"@ { Some(Format::Json) }
    else if name == "yaml"@ { Some(Format::Yaml) }
    else if name == "columns"@ { Some(Format::Text(Layout::Columns)) }
    else if name == "list"@ { Some(Format::Text(Layout::List)) }
    else if name == "table"@ { Some(Format::Text(Layout::Table)) }
    else { None }
}

/// Reads a format name; `None` for a name that is not one of the five.
pub fn parse_format(name: &str) -> (r: Option<Format>)
    ensures
        r == format_named(name@),
{
    if str_eq(name, "json") {
        Some(Format::Json)
    } else if str_eq(name, "yaml") {
        Some(Format::Yaml)
    } else if str_eq(name, "columns") {
        Some(Format::Text(Layout::Columns))
    } else if str_eq(name, "list") {
        Some(Format::Text(Layout::List))
    } else if str_eq(name, "table") {
        Some(Format::Text(Layout::Table))
    } else {
        None
    }
}

/// The diagnostic for a format name that is not one of the five.
pub fn invalid_format_message() -> (r: String)
    ensures
        r@ == "Invalid format. Please choose one of json/yaml/columns/list/table."@,
{
    String::from_str("Invalid format. Please choose one of json/yaml/columns/list/table.")
}

/// The line that names what is listed: a directory or a single file, given
/// the path as it is to be shown.
pub fn banner(is_dir: bool, shown_path: &str) -> (r: String)
    ensures
        r@ == (if is_dir { "Directory: "@ } else { "File: "@ }) + shown_path@,
{
    let mut s = if is_dir { String::from_str("Directory: ") } else { String::from_str("File: ") };
    s.append(shown_path);
    s
}

/// What std's `Debug` writes for a string: the string quoted, with escapes.
pub uninterp spec fn debug_text(s: Seq<char>) -> Seq<char>;

/// Relies on std's `Debug` for `str`, whose text depends on the string alone.
#[verifier::external_body]
fn debug_quoted(s: &str) -> (r: String)
    ensures
        r@ == debug_text(s@),
{
    format!("{:?}", s)
}

/// `sep`, `label`, then `value`.
pub open spec fn field(sep: Seq<char>, label: Seq<char>, value: Seq<char>) -> Seq<char> {
    sep + label + value
}

/// The labelled fields of `info` that every platform has, its name shown as
/// `name`, separated by `sep`.
pub open spec fn labelled_head(info: FileInfo, name: Seq<char>, sep: Seq<char>) -> Seq<char> {
    "Filename: "@ + name + field(sep, "Size: "@, info.size@) + field(sep, "Type: "@, info.file_type@)
        + field(sep, "Mode: "@, info.mode@) + field(sep, "Created: "@, time_text(info.created))
        + field(sep, "Modified: "@, time_text(info.modified))
}

/// The labelled owner and group of `info`, where it has them, followed by its
/// mode once more.
pub open spec fn labelled_tail(info: FileInfo, sep: Seq<char>) -> Seq<char> {
    match info.ownership {
        Some(o) => field(sep, "Owner: "@, o.owner@) + field(sep, "Group: "@, o.group@)
            + field(sep, "Mode: "@, info.mode@),
        None => seq![],
    }
}

/// `s` padded with spaces to `width`, and one space more.
pub open spec fn cell(s: Seq<char>, width: nat) -> Seq<char> {
    space_padded(s, width) + seq![' ']
}

/// The header of a table, with the owner and group columns where `ids`.
#[verifier::opaque]
pub open spec fn table_header(ids: bool) -> Seq<char> {
    cell("Type"@, 10) + cell("Mode"@, 10) + cell("Created"@, 20) + cell("Modified"@, 20)
        + cell("Size"@, 10)
        + (if ids { cell("Owner"@, 10) + cell("Group"@, 10) } else { seq![] })
        + "Filename"@
}

/// The row of `info` in a table, its name shown as `name`.
#[verifier::opaque]
pub open spec fn table_row(info: FileInfo, name: Seq<char>) -> Seq<char> {
    cell(info.file_type@, 10) + cell(info.mode@, 10) + cell(time_text(info.created), 20)
        + cell(time_text(info.modified), 20) + cell(info.size@, 10)
        + (match info.ownership {
            Some(o) => cell(o.owner@, 10) + cell(o.group@, 10),
            None => seq![],
        })
        + name
}

/// The text of a single record in `layout`, its name shown as `name`. Its
/// table has the columns of a listing's table, in the same order.
pub open spec fn file_text(info: FileInfo, name: Seq<char>, layout: Layout) -> Seq<char> {
    match layout {
        Layout::Columns => labelled_head(info, name, "   "@) + labelled_tail(info, "   "@) + "\n"@,
        Layout::List => labelled_head(info, name, "\n"@) + labelled_tail(info, "\n"@) + "\n"@
            + (if info.ownership is None { "\n"@ } else { seq![] }),
        Layout::Table => table_header(info.ownership is Some) + "\n"@ + table_row(info, name) + "\n"@,
    }
}

fn push_field(s: &mut String, sep: &str, label: &str, value: &str)
    ensures
        final(s)@ == old(s)@ + field(sep@, label@, value@),
{
    s.append(sep);
    s.append(label);
    s.append(value);
    assert(s@ =~= old(s)@ + field(sep@, label@, value@));
}

fn push_time_field(s: &mut String, sep: &str, label: &str, t: &crate::time::LocalTime)
    ensures
        final(s)@ == old(s)@ + field(sep@, label@, time_text(*t)),
{
    s.append(sep);
    s.append(label);
    push_time(s, t);
    assert(s@ =~= old(s)@ + field(sep@, label@, time_text(*t)));
}

fn push_labelled_head(s: &mut String, info: &FileInfo, name: &str, sep: &str)
    ensures
        final(s)@ == old(s)@ + labelled_head(*info, name@, sep@),
{
    push_field(s, "", "Filename: ", name);
    proof { reveal_strlit(""); }
    push_field(s, sep, "Size: ", info.size.as_str());
    push_field(s, sep, "Type: ", info.file_type.as_str());
    push_field(s, sep, "Mode: ", info.mode.as_str());
    push_time_field(s, sep, "Created: ", &info.created);
    push_time_field(s, sep, "Modified: ", &info.modified);
    assert(s@ =~= old(s)@ + labelled_head(*info, name@, sep@));
}

fn push_labelled_tail(s: &mut String, info: &FileInfo, sep: &str)
    ensures
        final(s)@ == old(s)@ + labelled_tail(*info, sep@),
{
    match &info.ownership {
        Some(o) => {
            push_field(s, sep, "Owner: ", o.owner.as_str());
            push_field(s, sep, "Group: ", o.group.as_str());
            push_field(s, sep, "Mode: ", info.mode.as_str());
            assert(s@ =~= old(s)@ + labelled_tail(*info, sep@));
        },
        None => {
            assert(s@ =~= old(s)@ + labelled_tail(*info, sep@));
        },
    }
}

fn push_cell(s: &mut String, t: &str, width: usize)
    ensures
        final(s)@ == old(s)@ + cell(t@, width as nat),
{
    proof { reveal_strlit(" "); }
    push_padded(s, t, width);
    s.append(" ");
    assert(s@ =~= old(s)@ + cell(t@, width as nat));
}

fn push_table_header(s: &mut String, ids: bool)
    ensures
        final(s)@ == old(s)@ + table_header(ids),
{
    push_cell(s, "Type", 10);
    push_cell(s, "Mode", 10);
    push_cell(s, "Created", 20);
    push_cell(s, "Modified", 20);
    push_cell(s, "Size", 10);
    let ghost mid = s@;
    if ids {
        push_cell(s, "Owner", 10);
        push_cell(s, "Group", 10);
    }
    assert(s@ =~= mid + (if ids { cell("Owner"@, 10) + cell("Group"@, 10) } else { seq![] }));
    s.append("Filename");
    proof { reveal(table_header); }
    assert(s@ =~= old(s)@ + table_header(ids));
}

fn push_table_row(s: &mut String, info: &FileInfo, name: &str)
    ensures
        final(s)@ == old(s)@ + table_row(*info, name@),
{
    push_cell(s, info.file_type.as_str(), 10);
    push_cell(s, info.mode.as_str(), 10);
    let created = crate::time::format_time(&info.created);
    push_cell(s, created.as_str(), 20);
    let modified = crate::time::format_time(&info.modified);
    push_cell(s, modified.as_str(), 20);
    push_cell(s, info.size.as_str(), 10);
    let ghost mid = s@;
    match &info.ownership {
        Some(o) => {
            push_cell(s, o.owner.as_str(), 10);
            push_cell(s, o.group.as_str(), 10);
        },
        None => {},
    }
    assert(s@ =~= mid + match info.ownership {
        Some(o) => cell(o.owner@, 10) + cell(o.group@, 10),
        None => seq![],
    });
    s.append(name);
    proof { reveal(table_row); }
    assert(s@ =~= old(s)@ + table_row(*info, name@));
}

/// The text of a single record in `layout`, its name shown as given in
/// `shown_name`.
pub fn render_file_named(info: &FileInfo, shown_name: &str, layout: Layout) -> (r: String)
    ensures
        r@ == file_text(*info, shown_name@, layout),
{
    proof { reveal_strlit("\n"); }
    let mut s = String::new();
    match layout {
        Layout::Columns => {
            push_labelled_head(&mut s, info, shown_name, "   ");
            push_labelled_tail(&mut s, info, "   ");
            s.append("\n");
        },
        Layout::List => {
            push_labelled_head(&mut s, info, shown_name, "\n");
            push_labelled_tail(&mut s, info, "\n");
            s.append("\n");
            if info.ownership.is_none() {
                s.append("\n");
            }
        },
        Layout::Table => {
            push_table_header(&mut s, info.ownership.is_some());
            s.append("\n");
            push_table_row(&mut s, info, shown_name);
            s.append("\n");
        },
    }
    assert(s@ =~= file_text(*info, shown_name@, layout));
    s
}

/// The text of a single record in `layout`, its name quoted and escaped as
/// std's `Debug` writes it.
pub fn render_file(info: &FileInfo, layout: Layout) -> (r: String)
    ensures
        r@ == file_text(*info, debug_text(info.filename@), layout),
{
    let shown = debug_quoted(info.filename.as_str());
    render_file_named(info, shown.as_str(), layout)
}

/// Each item followed by `sep`, in order.
pub open spec fn each_followed(items: Seq<Seq<char>>, sep: Seq<char>) -> Seq<char>
    decreases items.len(),
{
    if items.len() == 0 {
        seq![]
    } else {
        each_followed(items.drop_last(), sep) + items.last() + sep
    }
}

/// The names of the records, in order.
pub open spec fn filenames(infos: Seq<FileInfo>) -> Seq<Seq<char>> {
    infos.map_values(|i: FileInfo| i.filename@)
}

/// The table rows of the records, in order.
pub open spec fn table_rows(infos: Seq<FileInfo>) -> Seq<Seq<char>> {
    infos.map_values(|i: FileInfo| table_row(i, i.filename@))
}

/// The text of a listing in `layout`: the names each followed by three
/// spaces, or each on a line of its own, or a table (with the owner and
/// group columns where `ids`) of one row per record.
pub open spec fn listing_text(infos: Seq<FileInfo>, ids: bool, layout: Layout) -> Seq<char> {
    match layout {
        Layout::Columns => each_followed(filenames(infos), "   "@),
        Layout::List => each_followed(filenames(infos), "\n"@),
        Layout::Table => table_header(ids) + "\n"@ + each_followed(table_rows(infos), "\n"@),
    }
}

fn push_names(s: &mut String, infos: &Vec<FileInfo>, sep: &str)
    ensures
        final(s)@ == old(s)@ + each_followed(filenames(infos@), sep@),
{
    let ghost start = s@;
    let ghost items = filenames(infos@);
    let mut i: usize = 0;
    while i < infos.len()
        invariant
            i <= infos@.len(),
            items == filenames(infos@),
            s@ == start + each_followed(items.take(i as int), sep@),
        decreases infos@.len() - i,
    {
        s.append(infos[i].filename.as_str());
        s.append(sep);
        assert(items.take(i + 1).drop_last() =~= items.take(i as int));
        assert(s@ =~= start + each_followed(items.take(i + 1), sep@));
        i = i + 1;
    }
    assert(items.take(infos@.len() as int) =~= items);
}

fn push_rows(s: &mut String, infos: &Vec<FileInfo>)
    ensures
        final(s)@ == old(s)@ + each_followed(table_rows(infos@), "\n"@),
{
    proof { reveal_strlit("\n"); }
    let ghost start = s@;
    let ghost items = table_rows(infos@);
    let mut i: usize = 0;
    while i < infos.len()
        invariant
            i <= infos@.len(),
            items == table_rows(infos@),
            s@ == start + each_followed(items.take(i as int), "\n"@),
        decreases infos@.len() - i,
    {
        push_table_row(s, &infos[i], infos[i].filename.as_str());
        s.append("\n");
        assert(items.take(i + 1).drop_last() =~= items.take(i as int));
        assert(s@ =~= start + each_followed(items.take(i + 1), "\n"@));
        i = i + 1;
    }
    assert(items.take(infos@.len() as int) =~= items);
}

/// The text of a directory listing in `layout`, in the order of `infos`; `ids`
/// says whether the platform has owner and group ids.
pub fn render_listing(infos: &Vec<FileInfo>, ids: bool, layout: Layout) -> (r: String)
    ensures
        r@ == listing_text(infos@, ids, layout),
{
    proof {
        reveal_strlit("\n");
        reveal_strlit("   ");
    }
    let mut s = String::new();
    match layout {
        Layout::Columns => push_names(&mut s, infos, "   "),
        Layout::List => push_names(&mut s, infos, "\n"),
        Layout::Table => {
            push_table_header(&mut s, ids);
            s.append("\n");
            push_rows(&mut s, infos);
        },
    }
    assert(s@ =~= listing_text(infos@, ids, layout));
    s
}

/// The number of line breaks in `s`.
pub open spec fn newlines(s: Seq<char>) -> nat
    decreases s.len(),
{
    if s.len() == 0 {
        0
    } else {
        newlines(s.drop_last()) + (if s.last() == '\n' { 1nat } else { 0nat })
    }
}

proof fn lemma_newlines_append(a: Seq<char>, b: Seq<char>)
    ensures
        newlines(a + b) == newlines(a) + newlines(b),
    decreases b.len(),
{
    if b.len() > 0 {
        assert((a + b).drop_last() =~= a + b.drop_last());
        lemma_newlines_append(a, b.drop_last());
    } else {
        assert(a + b =~= a);
    }
}

/// A listing in the list layout is one line per record, in order: each
/// record's name followed by a line break. Where no name holds a line break,
/// the text holds exactly as many line breaks as there are records.
pub proof fn lemma_list_lines(infos: Seq<FileInfo>, ids: bool)
    requires
        forall|k: int| 0 <= k < infos.len() ==> !(#[trigger] infos[k].filename@).contains('\n'),
    ensures
        listing_text(infos, ids, Layout::List) == each_followed(filenames(infos), "\n"@),
        newlines(listing_text(infos, ids, Layout::List)) == infos.len(),
    decreases infos.len(),
{
    reveal_strlit("\n");
    if infos.len() > 0 {
        let rest = infos.drop_last();
        assert(filenames(infos).drop_last() =~= filenames(rest));
        assert forall|k: int| 0 <= k < rest.len() implies !(#[trigger] rest[k].filename@).contains('\n') by {
            assert(rest[k] == infos[k]);
        }
        lemma_list_lines(rest, ids);
        let name = infos.last().filename@;
        assert(!infos[infos.len() - 1].filename@.contains('\n'));
        assert(newlines(name) == 0) by {
            lemma_no_newline(name);
        }
        let head = each_followed(filenames(rest), "\n"@);
        lemma_newlines_append(head, name);
        lemma_newlines_append(head + name, "\n"@);
        assert(newlines("\n"@) == 1) by {
            reveal_strlit("\n");
            assert("\n"@.drop_last() =~= Seq::<char>::empty());
            assert(newlines("\n"@.drop_last()) == 0);
            assert("\n"@.last() == '\n');
        }
    }
}

proof fn lemma_no_newline(s: Seq<char>)
    requires
        !s.contains('\n'),
    ensures
        newlines(s) == 0,
    decreases s.len(),
{
    if s.len() > 0 {
        assert(s.drop_last().contains('\n') ==> s.contains('\n')) by {
            if s.drop_last().contains('\n') {
                let j = choose|j: int| 0 <= j < s.drop_last().len() && s.drop_last()[j] == '\n';
                assert(s[j] == '\n');
            }
        }
        lemma_no_newline(s.drop_last());
        assert(s[s.len() - 1] != '\n');
    }
}

} // verus!
