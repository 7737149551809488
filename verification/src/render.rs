//! The rows of a query as text, and the place of a fault in a query.
//!
//! Aligning columns, drawing a table, writing JSON and colouring are left to
//! the `tabwriter`, `comfy-table`, `serde_json` and `ansi_term` crates. What
//! is handed to them, and what is made of their answers, is decided here.

use vstd::prelude::*;
use vstd::string::StringExecFns;
use vstd::string::StringSliceAdditionalSpecFns;
use vstd::utf8::decode_utf8;
use vstd::utf8::encode_utf8_decode_utf8;
use vstd::utf8::is_char_boundary;
use crate::relation::distinct_by;
use crate::relation::lemma_push_distinct;
use crate::SomeError;
use crate::table::none_to_blank;
use crate::table::or_blank;
use crate::table::tables;
use crate::tag::clone_opt;
use crate::tag::opt_view;
use crate::text::join;
use crate::text::joined;
use crate::text::texts;

verus! {

/// The error type of the `serde_json` crate, carried through unopened.
#[verifier::external_type_specification]
#[verifier::external_body]
pub struct ExJsonError(serde_json::Error);

/// The text that the `tabwriter` crate makes of `text` with the given
/// padding: the cells between tabs aligned in columns. `None` where it
/// reports an error.
pub uninterp spec fn tab_aligned(text: Seq<char>, padding: usize) -> Option<Seq<char>>;

/// The table that the `comfy-table` crate draws of a header and rows to fill
/// the given width.
pub uninterp spec fn table_of_width(
    header: Seq<Seq<char>>,
    rows: Seq<Seq<Seq<char>>>,
    width: u16,
) -> Seq<char>;

/// The table that the `comfy-table` crate draws of a header and rows where
/// no width is given.
pub uninterp spec fn table_unbounded(header: Seq<Seq<char>>, rows: Seq<Seq<Seq<char>>>) -> Seq<
    char,
>;

/// The text that `serde_json::to_string_pretty` writes for a map that is
/// walked in the given order: one JSON object with these members, a value
/// that is absent written as `null`.
pub uninterp spec fn json_object_in(order: Seq<(Seq<char>, Option<Seq<char>>)>) -> Seq<char>;

/// The text with the first `count` characters `pattern` replaced by `with`.
pub open spec fn replaced(text: Seq<char>, pattern: char, with: Seq<char>, count: nat) -> Seq<char>
    decreases text.len(),
{
    if text.len() == 0 || count == 0 {
        text
    } else if text[0] == pattern {
        with + replaced(text.drop_first(), pattern, with, (count - 1) as nat)
    } else {
        seq![text[0]] + replaced(text.drop_first(), pattern, with, count)
    }
}

/// The text that the `ansi_term` crate writes for `text` painted red.
pub uninterp spec fn red(text: Seq<char>) -> Seq<char>;

/// Writes `text` to a `tabwriter::TabWriter` over an empty buffer, with the
/// given padding, and returns the buffer as text after `into_inner` has
/// flushed it. The contract only names the outcome.
#[verifier::external_body]
fn align_tabs(text: &str, padding: usize) -> (res: Option<String>)
    ensures
        opt_view(res) == tab_aligned(text@, padding),
{
    let mut writer = tabwriter::TabWriter::new(Vec::new()).padding(padding);
    std::io::Write::write_all(&mut writer, text.as_bytes()).ok()?;
    String::from_utf8(writer.into_inner().ok()?).ok()
}

/// Asks `comfy_table::Table::width` of a new table: the width of the
/// terminal where the output goes to one whose width can be told, and `None`
/// otherwise. The answer is the machine's: nothing is promised of it.
#[verifier::external_body]
fn terminal_width() -> (res: Option<u16>) {
    comfy_table::Table::new().width()
}

/// Draws a table with `comfy_table::Table`: the preset `UTF8_FULL`, the
/// given header and rows, the arrangement `DynamicFullWidth` and, by
/// `set_width`, the given width in place of the terminal's. With the width
/// set the drawing goes by nothing but what is given, and the contract names
/// it.
#[verifier::external_body]
fn draw_table_of_width(header: &Vec<String>, rows: &Vec<Vec<String>>, width: u16) -> (res: String)
    ensures
        res@ == table_of_width(texts(header@), tables(rows@), width),
{
    let mut table = comfy_table::Table::new();
    table
        .load_preset(comfy_table::presets::UTF8_FULL)
        .set_header(header)
        .set_content_arrangement(comfy_table::ContentArrangement::DynamicFullWidth)
        .set_width(width)
        .add_rows(rows);
    table.to_string()
}

/// Draws a table with `comfy_table::Table`: the preset `UTF8_FULL`, the
/// given header and rows, the arrangement `DynamicFullWidth` and, by
/// `force_no_tty`, no width at all, so that every column is as wide as its
/// widest cell. The drawing goes by nothing but what is given, and the
/// contract names it.
#[verifier::external_body]
fn draw_table_unbounded(header: &Vec<String>, rows: &Vec<Vec<String>>) -> (res: String)
    ensures
        res@ == table_unbounded(texts(header@), tables(rows@)),
{
    let mut table = comfy_table::Table::new();
    table
        .load_preset(comfy_table::presets::UTF8_FULL)
        .set_header(header)
        .set_content_arrangement(comfy_table::ContentArrangement::DynamicFullWidth)
        .force_no_tty()
        .add_rows(rows);
    table.to_string()
}

/// Writes the values under their names as one JSON object with
/// `serde_json::to_string_pretty`, from a hash map of the names, which must
/// differ from each other, to their values. The map holds each member once
/// and is walked in an order of its own, and the members are written as
/// they are walked: so the text is that of the members in some order. The
/// crate reports an error only where a value refuses to be written or a key
/// is no string; texts and absent values give neither, so the call succeeds.
#[verifier::external_body]
fn pretty_object(names: &Vec<String>, values: &Vec<Option<String>>) -> (res: Result<
    String,
    serde_json::Error,
>)
    requires
        names@.len() == values@.len(),
        distinct_by(paired(texts(names@), opt_views(values@)), member_key()),
    ensures
        res.is_ok(),
        res matches Ok(text) ==> exists|order: Seq<(Seq<char>, Option<Seq<char>>)>|
            #[trigger] is_walk(order, paired(texts(names@), opt_views(values@))) && text@
                == json_object_in(order),
{
    let map: std::collections::HashMap<String, Option<String>> =
        names.iter().cloned().zip(values.iter().cloned()).collect();
    serde_json::to_string_pretty(&map)
}

/// Calls `str::replacen` with a character for the pattern: the first
/// `count` characters `pattern` of `text`, from the left, are replaced by
/// `with`, and the rest of `text` is kept.
#[verifier::external_body]
fn replace_first(text: &str, pattern: char, with: &str, count: usize) -> (res: String)
    ensures
        res@ == replaced(text@, pattern, with@, count as nat),
{
    text.replacen(pattern, with, count)
}

/// Calls `ansi_term::Colour::Red.paint` and writes the painted text. The
/// contract only names the outcome.
#[verifier::external_body]
fn paint_red(text: &str) -> (res: String)
    ensures
        res@ == red(text@),
{
    ansi_term::Colour::Red.paint(text).to_string()
}

/// The cells of a row as they are shown: an absent value is empty.
pub open spec fn shown_row(row: Seq<Option<String>>) -> Seq<Seq<char>> {
    Seq::new(row.len(), |i: int| none_to_blank(opt_view(row[i])))
}

/// The cells of all rows as they are shown.
pub open spec fn shown_rows(rows: Seq<Vec<Option<String>>>) -> Seq<Seq<Seq<char>>> {
    Seq::new(rows.len(), |i: int| shown_row(rows[i]@))
}

/// The cells of a row as they are shown.
pub fn cells(row: &Vec<Option<String>>) -> (res: Vec<String>)
    ensures
        texts(res@) == shown_row(row@),
{
    let mut out: Vec<String> = Vec::new();
    let mut i: usize = 0;
    while i < row.len()
        invariant
            i <= row@.len(),
            out@.len() == i,
            forall|k: int| 0 <= k < i ==> out@[k]@ == none_to_blank(opt_view(row@[k])),
        decreases row@.len() - i,
    {
        out.push(or_blank(&row[i]));
        i += 1;
    }
    assert(texts(out@) =~= shown_row(row@));
    out
}

/// The cells of all rows as they are shown.
pub fn all_cells(rows: &Vec<Vec<Option<String>>>) -> (res: Vec<Vec<String>>)
    ensures
        tables(res@) == shown_rows(rows@),
{
    let mut out: Vec<Vec<String>> = Vec::new();
    let mut i: usize = 0;
    while i < rows.len()
        invariant
            i <= rows@.len(),
            out@.len() == i,
            forall|k: int| 0 <= k < i ==> texts(out@[k]@) == shown_row(rows@[k]@),
        decreases rows@.len() - i,
    {
        out.push(cells(&rows[i]));
        i += 1;
    }
    assert(tables(out@) =~= shown_rows(rows@));
    out
}

/// The rows as lines: the cells of a row with a tab between them, and a
/// line feed behind each row.
pub open spec fn tab_lines(table: Seq<Seq<Seq<char>>>) -> Seq<char>
    decreases table.len(),
{
    if table.len() == 0 {
        Seq::empty()
    } else {
        tab_lines(table.drop_last()) + joined(table.last(), "\t"@) + "\n"@
    }
}

/// Writes the rows as lines of cells with a tab between them.
pub fn write_tab_lines(out: &mut String, table: &Vec<Vec<String>>)
    ensures
        final(out)@ == old(out)@ + tab_lines(tables(table@)),
{
    let ghost all = tables(table@);
    let mut i: usize = 0;
    assert(all.take(0) =~= Seq::<Seq<Seq<char>>>::empty());
    assert(out@ =~= old(out)@ + tab_lines(all.take(0)));
    while i < table.len()
        invariant
            i <= table@.len(),
            all == tables(table@),
            out@ == old(out)@ + tab_lines(all.take(i as int)),
        decreases table@.len() - i,
    {
        proof {
            assert(all.take(i + 1).drop_last() =~= all.take(i as int));
            assert(all.take(i + 1).last() == texts(table@[i as int]@));
        }
        out.append(join(&table[i], "\t").as_str());
        out.append("\n");
        assert(out@ =~= old(out)@ + tab_lines(all.take(i + 1)));
        i += 1;
    }
    assert(all.take(i as int) =~= all);
}

/// The names of the columns and the rows below them, aligned in columns.
/// `None` where the text cannot be aligned.
pub fn render_tabbed(columns: &Vec<String>, rows: &Vec<Vec<Option<String>>>) -> (res: Option<
    String,
>)
    ensures
        opt_view(res) == tab_aligned(
            joined(texts(columns@), "\t"@) + "\n"@ + tab_lines(shown_rows(rows@)),
            2,
        ),
{
    let mut text = join(columns, "\t");
    text.append("\n");
    let shown = all_cells(rows);
    write_tab_lines(&mut text, &shown);
    align_tabs(text.as_str(), 2)
}

/// The table of a header and rows for a width, or for none.
pub open spec fn table_text(
    header: Seq<Seq<char>>,
    rows: Seq<Seq<Seq<char>>>,
    width: Option<u16>,
) -> Seq<char> {
    match width {
        Some(w) => table_of_width(header, rows, w),
        None => table_unbounded(header, rows),
    }
}

/// The names of the columns and the rows below them, each absent value
/// shown empty, drawn as a table: one that fills the given width, or, where
/// there is none, one whose columns are as wide as their widest cell.
pub fn render_table_at(
    columns: &Vec<String>,
    rows: &Vec<Vec<Option<String>>>,
    width: Option<u16>,
) -> (res: String)
    ensures
        res@ == table_text(texts(columns@), shown_rows(rows@), width),
{
    let shown = all_cells(rows);
    match width {
        Some(w) => draw_table_of_width(columns, &shown, w),
        None => draw_table_unbounded(columns, &shown),
    }
}

/// The names of the columns and the rows below them, drawn as a table that
/// fills the terminal: the table for the width of the terminal, or for no
/// width where the terminal tells none.
pub fn render_table(columns: &Vec<String>, rows: &Vec<Vec<Option<String>>>) -> (res: String)
    ensures
        exists|width: Option<u16>|
            res@ == #[trigger] table_text(texts(columns@), shown_rows(rows@), width),
{
    let width = terminal_width();
    let text = render_table_at(columns, rows, width);
    assert(text@ == table_text(texts(columns@), shown_rows(rows@), width));
    text
}

/// The views of a list of optional values.
pub open spec fn opt_views(values: Seq<Option<String>>) -> Seq<Option<Seq<char>>> {
    Seq::new(values.len(), |i: int| opt_view(values[i]))
}

/// The names with their values, one by one, as far as both lists go.
pub open spec fn paired(names: Seq<Seq<char>>, values: Seq<Option<Seq<char>>>) -> Seq<
    (Seq<char>, Option<Seq<char>>),
> {
    Seq::new(
        if names.len() <= values.len() {
            names.len()
        } else {
            values.len()
        },
        |i: int| (names[i], values[i]),
    )
}

/// The name of a member.
pub open spec fn member_key() -> spec_fn((Seq<char>, Option<Seq<char>>)) -> Seq<char> {
    |m: (Seq<char>, Option<Seq<char>>)| m.0
}

/// No pair behind the pair at `i` has its name.
pub open spec fn is_last(pairs: Seq<(Seq<char>, Option<Seq<char>>)>, i: int) -> bool {
    forall|j: int| i < j < pairs.len() ==> (#[trigger] pairs[j]).0 != pairs[i].0
}

/// The pair is the last of its name: where one name comes more than once,
/// the value that comes last stands under it.
pub open spec fn is_member(
    pairs: Seq<(Seq<char>, Option<Seq<char>>)>,
    m: (Seq<char>, Option<Seq<char>>),
) -> bool {
    exists|i: int| 0 <= i < pairs.len() && #[trigger] pairs[i] == m && is_last(pairs, i)
}

/// The pair is the last of its name and stands before the place `end`.
pub open spec fn is_member_before(
    pairs: Seq<(Seq<char>, Option<Seq<char>>)>,
    m: (Seq<char>, Option<Seq<char>>),
    end: int,
) -> bool {
    exists|idx: int| 0 <= idx < end && #[trigger] pairs[idx] == m && is_last(pairs, idx)
}

/// The members of an object in some order: each name once, with the value
/// that is the last under that name among the pairs.
pub open spec fn is_walk(
    order: Seq<(Seq<char>, Option<Seq<char>>)>,
    pairs: Seq<(Seq<char>, Option<Seq<char>>)>,
) -> bool {
    &&& distinct_by(order, member_key())
    &&& forall|m: (Seq<char>, Option<Seq<char>>)| #[trigger] order.contains(m) <==> is_member(pairs, m)
}

/// Among pairs of different names every pair is the last of its name.
pub proof fn lemma_distinct_pairs_are_members(
    pairs: Seq<(Seq<char>, Option<Seq<char>>)>,
    m: (Seq<char>, Option<Seq<char>>),
)
    requires
        distinct_by(pairs, member_key()),
    ensures
        pairs.contains(m) <==> is_member(pairs, m),
{
    if pairs.contains(m) {
        let i = choose|i: int| 0 <= i < pairs.len() && pairs[i] == m;
        assert forall|j: int| i < j < pairs.len() implies (#[trigger] pairs[j]).0 != pairs[i].0 by {
            assert(member_key()(pairs[i]) != member_key()(pairs[j]));
        }
        assert(pairs[i] == m && is_last(pairs, i));
    }
    if is_member(pairs, m) {
        let i = choose|i: int| 0 <= i < pairs.len() && #[trigger] pairs[i] == m && is_last(pairs, i);
        assert(pairs[i] == m);
    }
}

/// Whether a name behind the place `i`, and before the place `end`, is the
/// name at `i`.
fn comes_again(names: &Vec<String>, i: usize, end: usize) -> (res: bool)
    requires
        i < end <= names@.len(),
    ensures
        res == exists|j: int| i < j < end && #[trigger] names@[j]@ == names@[i as int]@,
{
    let mut j: usize = i + 1;
    while j < end
        invariant
            i < j <= end,
            end <= names@.len(),
            forall|k: int| i < k < j ==> #[trigger] names@[k]@ != names@[i as int]@,
        decreases end - j,
    {
        if names[j] == names[i] {
            return true;
        }
        j += 1;
    }
    false
}

/// The members of the object of a row: the names of the columns that have a
/// value, each once, with the value of the last column of that name.
pub fn members(columns: &Vec<String>, row: &Vec<Option<String>>) -> (res: (
    Vec<String>,
    Vec<Option<String>>,
))
    ensures
        res.0@.len() == res.1@.len(),
        is_walk(
            paired(texts(res.0@), opt_views(res.1@)),
            paired(texts(columns@), opt_views(row@)),
        ),
{
    let ghost pairs = paired(texts(columns@), opt_views(row@));
    let end = if columns.len() <= row.len() {
        columns.len()
    } else {
        row.len()
    };
    let mut names: Vec<String> = Vec::new();
    let mut values: Vec<Option<String>> = Vec::new();
    let mut i: usize = 0;
    while i < end
        invariant
            i <= end,
            end == pairs.len(),
            end <= columns@.len(),
            end <= row@.len(),
            pairs == paired(texts(columns@), opt_views(row@)),
            names@.len() == values@.len(),
            distinct_by(paired(texts(names@), opt_views(values@)), member_key()),
            forall|k: int|
                0 <= k < names@.len() ==> is_member_before(
                    pairs,
                    #[trigger] paired(texts(names@), opt_views(values@))[k],
                    i as int,
                ),
            forall|idx: int|
                0 <= idx < i && is_last(pairs, idx) ==> paired(
                    texts(names@),
                    opt_views(values@),
                ).contains(#[trigger] pairs[idx]),
        decreases end - i,
    {
        let ghost before = paired(texts(names@), opt_views(values@));
        let again = comes_again(columns, i, end);
        proof {
            if again {
                let j = choose|j: int| i < j < end && #[trigger] columns@[j]@ == columns@[i as int]@;
                assert(pairs[j].0 == pairs[i as int].0);
                assert(!is_last(pairs, i as int));
            } else {
                assert forall|j: int| i < j < pairs.len() implies (#[trigger] pairs[j]).0
                    != pairs[i as int].0 by {
                    assert(columns@[j]@ != columns@[i as int]@);
                }
                assert(is_last(pairs, i as int));
            }
        }
        if !again {
            names.push(columns[i].clone());
            values.push(clone_opt(&row[i]));
            proof {
                let after = paired(texts(names@), opt_views(values@));
                assert(after =~= before.push(pairs[i as int]));
                assert forall|k: int| 0 <= k < before.len() implies member_key()(
                    #[trigger] before[k],
                ) != member_key()(pairs[i as int]) by {
                    assert(is_member_before(pairs, before[k], i as int));
                    let idx = choose|idx: int|
                        0 <= idx < i && #[trigger] pairs[idx] == before[k] && is_last(pairs, idx);
                    assert(pairs[i as int].0 != pairs[idx].0);
                }
                lemma_push_distinct(before, pairs[i as int], member_key());
                assert forall|idx: int| 0 <= idx < i + 1 && is_last(pairs, idx) implies after.contains(
                    #[trigger] pairs[idx],
                ) by {
                    if idx < i {
                        assert(before.contains(pairs[idx]));
                        let k = choose|k: int| 0 <= k < before.len() && before[k] == pairs[idx];
                        assert(after[k] == pairs[idx]);
                    } else {
                        assert(after[before.len() as int] == pairs[idx]);
                    }
                }
            }
        }
        proof {
            let kept = paired(texts(names@), opt_views(values@));
            assert forall|k: int| 0 <= k < kept.len() implies is_member_before(
                pairs,
                #[trigger] kept[k],
                i + 1,
            ) by {
                if k < before.len() {
                    assert(kept[k] == before[k]);
                    assert(is_member_before(pairs, before[k], i as int));
                    let idx = choose|idx: int|
                        0 <= idx < i && #[trigger] pairs[idx] == before[k] && is_last(pairs, idx);
                    assert(0 <= idx < i + 1 && pairs[idx] == kept[k] && is_last(pairs, idx));
                } else {
                    assert(pairs[i as int] == kept[k] && is_last(pairs, i as int));
                }
            }
        }
        i += 1;
    }
    proof {
        let out = paired(texts(names@), opt_views(values@));
        assert forall|m: (Seq<char>, Option<Seq<char>>)| #[trigger]
            out.contains(m) <==> is_member(pairs, m) by {
            if out.contains(m) {
                let k = choose|k: int| 0 <= k < out.len() && out[k] == m;
                assert(is_member_before(pairs, out[k], i as int));
                let idx = choose|idx: int|
                    0 <= idx < i && #[trigger] pairs[idx] == out[k] && is_last(pairs, idx);
                assert(pairs[idx] == m && is_last(pairs, idx));
            }
            if is_member(pairs, m) {
                let idx = choose|idx: int|
                    0 <= idx < pairs.len() && #[trigger] pairs[idx] == m && is_last(pairs, idx);
                assert(out.contains(pairs[idx]));
            }
        }
    }
    (names, values)
}

/// What is made of the answer of the JSON writer: its text as it is, or its
/// error as the library's.
pub fn jsonline_of(outcome: Result<String, serde_json::Error>) -> (res: Result<String, SomeError>)
    ensures
        match outcome {
            Ok(text) => res == Ok::<String, SomeError>(text),
            Err(e) => res == Err::<String, SomeError>(SomeError::Json(e)),
        },
{
    match outcome {
        Ok(text) => Ok(text),
        Err(e) => Err(SomeError::Json(e)),
    }
}

/// A row as a JSON object: each value under the name of its column, an
/// absent value as `null`. Columns of one name are one member, which holds
/// the value of the last of them; a column without a value in the row, or a
/// value without a column, is left out. The members stand in the order in
/// which a hash map of them is walked: the text is that of the members in
/// some order.
pub fn render_jsonline(columns: &Vec<String>, row: &Vec<Option<String>>) -> (res: Result<
    String,
    SomeError,
>)
    ensures
        res matches Ok(text) && exists|order: Seq<(Seq<char>, Option<Seq<char>>)>|
            #[trigger] is_walk(order, paired(texts(columns@), opt_views(row@))) && text@
                == json_object_in(order),
{
    let (names, values) = members(columns, row);
    let outcome = pretty_object(&names, &values);
    proof {
        let given = paired(texts(names@), opt_views(values@));
        let pairs = paired(texts(columns@), opt_views(row@));
        if outcome.is_ok() {
            let text = outcome.unwrap();
            let order = choose|order: Seq<(Seq<char>, Option<Seq<char>>)>|
                #[trigger] is_walk(order, given) && text@ == json_object_in(order);
            assert forall|m: (Seq<char>, Option<Seq<char>>)| #[trigger]
                order.contains(m) <==> is_member(pairs, m) by {
                lemma_distinct_pairs_are_members(given, m);
            }
            assert(is_walk(order, pairs) && text@ == json_object_in(order));
        }
    }
    jsonline_of(outcome)
}

/// As many spaces as `count`.
pub open spec fn spaces(count: nat) -> Seq<char>
    decreases count,
{
    if count == 0 {
        Seq::empty()
    } else {
        spaces((count - 1) as nat) + " "@
    }
}

/// Writes as many spaces as `count`.
pub fn write_spaces(out: &mut String, count: usize)
    ensures
        final(out)@ == old(out)@ + spaces(count as nat),
{
    let mut i: usize = 0;
    assert(out@ =~= old(out)@ + spaces(0));
    while i < count
        invariant
            i <= count,
            out@ == old(out)@ + spaces(i as nat),
        decreases count - i,
    {
        out.append(" ");
        assert(out@ =~= old(out)@ + spaces((i + 1) as nat));
        i += 1;
    }
}

/// The three lines that show a fault in a query: the query on one line with
/// what follows the fault in red, a mark below the place of the fault, and
/// the message below the mark.
pub open spec fn fault_lines(msg: Seq<char>, query: Seq<char>, offset: usize) -> Seq<Seq<char>> {
    let bytes = vstd::utf8::encode_utf8(query);
    let left = decode_utf8(bytes.subrange(0, offset as int));
    let right = decode_utf8(bytes.subrange(offset as int, bytes.len() as int));
    seq![
        replaced(left, '\n', " "@, 20) + red(replaced(right, '\n', ""@, 20)),
        spaces(offset as nat) + "^"@,
        spaces(offset as nat) + msg,
    ]
}

/// The lines that show a fault at the byte `offset` of a query, or `None`
/// where no character of the query begins at that byte.
pub fn error_lines(msg: &str, query: &str, offset: usize) -> (res: Option<Vec<String>>)
    ensures
        !is_char_boundary(query.spec_bytes(), offset as int) ==> res.is_none(),
        is_char_boundary(query.spec_bytes(), offset as int) ==> (res matches Some(lines) && texts(
            lines@,
        ) == fault_lines(msg@, query@, offset)),
{
    if !query.is_char_boundary(offset) {
        return None;
    }
    let (left, right) = query.split_at(offset);
    proof {
        encode_utf8_decode_utf8(left@);
        encode_utf8_decode_utf8(right@);
    }
    let mut first = replace_first(left, '\n', " ", 20);
    first.append(paint_red(replace_first(right, '\n', "", 20).as_str()).as_str());
    let mut second = String::new();
    write_spaces(&mut second, offset);
    second.append("^");
    let mut third = String::new();
    write_spaces(&mut third, offset);
    third.append(msg);
    let mut lines: Vec<String> = Vec::new();
    lines.push(first);
    lines.push(second);
    lines.push(third);
    assert(second@ =~= spaces(offset as nat) + "^"@);
    assert(third@ =~= spaces(offset as nat) + msg@);
    assert(texts(lines@) =~= fault_lines(msg@, query@, offset));
    Some(lines)
}

} // verus!
