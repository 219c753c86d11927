//! The offline, script-emitting backend: instead of talking to a device it
//! accumulates configuration-script text, and mirrors each category's rows
//! in memory so that a later fetch sees the staged writes.

use vstd::prelude::*;

use crate::RosError;
use crate::ValueFormat;
use crate::client::Client;
use crate::client::vec_entry_mut;
use crate::resource::RouterOsApiFieldAccess;
use crate::resource::RouterOsResource;
use crate::resource::id_field_spec;
use crate::resource::is_modified;
use crate::resource::is_modified_spec;
use crate::text::push_char;
use crate::text::str_eq;
use vstd::string::StrSliceExecFns;
use vstd::string::StringExecFns;

verus! {

/// A mirrored row, mathematically: `key = value` cells in order.
pub type RowV = Seq<(Seq<char>, Seq<char>)>;

/// One `key=value` cell of a mirrored row.
#[derive(Debug)]
pub struct RowEntry {
    pub key: String,
    pub value: String,
}

/// One mirrored row of a resource category.
#[derive(Debug)]
pub struct Row {
    pub entries: Vec<RowEntry>,
}

impl View for Row {
    type V = RowV;

    closed spec fn view(&self) -> RowV {
        self.entries@.map_values(|e: RowEntry| (e.key@, e.value@))
    }
}

/// The value stored under `key`, reading the first occurrence.
pub open spec fn row_get(row: RowV, key: Seq<char>) -> Option<Seq<char>>
    decreases row.len(),
{
    if row.len() == 0 {
        None
    } else if row[0].0 == key {
        Some(row[0].1)
    } else {
        row_get(row.skip(1), key)
    }
}

/// The row with `key` set to `value`: the first occurrence replaced, or a
/// new cell appended.
pub open spec fn row_set(row: RowV, key: Seq<char>, value: Seq<char>) -> RowV
    decreases row.len(),
{
    if row.len() == 0 {
        seq![(key, value)]
    } else if row[0].0 == key {
        seq![(key, value)] + row.skip(1)
    } else {
        seq![row[0]] + row_set(row.skip(1), key, value)
    }
}

/// Setting then reading a key gives the value back.
pub proof fn lemma_row_set_get(row: RowV, key: Seq<char>, value: Seq<char>)
    ensures
        row_get(row_set(row, key, value), key) == Some(value),
    decreases row.len(),
{
    if row.len() == 0 {
    } else if row[0].0 == key {
        assert((seq![(key, value)] + row.skip(1))[0] == (key, value));
    } else {
        lemma_row_set_get(row.skip(1), key, value);
        let out = seq![row[0]] + row_set(row.skip(1), key, value);
        assert(out[0] == row[0]);
        assert(out.skip(1) =~= row_set(row.skip(1), key, value));
    }
}

/// Setting one key leaves every other key's value alone.
pub proof fn lemma_row_set_frame(row: RowV, key: Seq<char>, value: Seq<char>, other: Seq<char>)
    requires
        other != key,
    ensures
        row_get(row_set(row, key, value), other) == row_get(row, other),
    decreases row.len(),
{
    if row.len() == 0 {
        let out = seq![(key, value)];
        assert(out[0] == (key, value));
        assert(out[0].0 == key && key != other);
        assert(out.skip(1) =~= Seq::<(Seq<char>, Seq<char>)>::empty());
        assert(row_get(out.skip(1), other) is None);
        assert(out[0].0 != other);
        assert(row_get(out, other) is None);
    } else if row[0].0 == key {
        let out = seq![(key, value)] + row.skip(1);
        assert(out[0] == (key, value));
        assert(out.skip(1) =~= row.skip(1));
    } else {
        lemma_row_set_frame(row.skip(1), key, value, other);
        let out = seq![row[0]] + row_set(row.skip(1), key, value);
        assert(out[0] == row[0]);
        assert(out.skip(1) =~= row_set(row.skip(1), key, value));
    }
}

/// Reads the value stored under `key`, as `row_get` says.
pub fn row_get_exec(row: &Row, key: &str) -> (r: Option<String>)
    ensures
        match (r, row_get(row@, key@)) {
            (Some(a), Some(b)) => a@ == b,
            (None, None) => true,
            _ => false,
        },
{
    let n = row.entries.len();
    let mut i: usize = 0;
    proof {
        assert(row@.skip(0) =~= row@);
    }
    while i < n
        invariant
            n == row.entries@.len(),
            row@.len() == n,
            0 <= i <= n,
            row_get(row@, key@) == row_get(row@.skip(i as int), key@),
        decreases n - i,
    {
        proof {
            let sub = row@.skip(i as int);
            assert(sub[0] == row@[i as int]);
            assert(row@[i as int] == (row.entries@[i as int].key@, row.entries@[i as int].value@));
            assert(sub.skip(1) =~= row@.skip(i + 1));
        }
        if str_eq(row.entries[i].key.as_str(), key) {
            return Some(row.entries[i].value.clone());
        }
        i = i + 1;
    }
    proof {
        assert(row@.skip(n as int) =~= Seq::<(Seq<char>, Seq<char>)>::empty());
    }
    None
}

/// `row_set` keeps a prefix free of the key untouched.
proof fn lemma_row_set_prefix(row: RowV, i: int, key: Seq<char>, value: Seq<char>)
    requires
        0 <= i <= row.len(),
        forall|j: int| 0 <= j < i ==> (#[trigger] row[j]).0 != key,
    ensures
        row_set(row, key, value) == row.take(i) + row_set(row.skip(i), key, value),
    decreases i,
{
    if i == 0 {
        assert(row.take(0) =~= Seq::<(Seq<char>, Seq<char>)>::empty());
        assert(row.skip(0) =~= row);
        assert(row.take(0) + row_set(row, key, value) =~= row_set(row, key, value));
    } else {
        lemma_row_set_prefix(row, i - 1, key, value);
        let sub = row.skip(i - 1);
        assert(sub[0] == row[i - 1]);
        assert(sub[0].0 != key);
        assert(row_set(sub, key, value) == seq![sub[0]] + row_set(sub.skip(1), key, value));
        assert(sub.skip(1) =~= row.skip(i));
        assert(row.take(i - 1) + (seq![row[i - 1]] + row_set(row.skip(i), key, value))
            =~= row.take(i) + row_set(row.skip(i), key, value));
    }
}

/// Writes `value` under `key`, as `row_set` says.
pub fn row_set_exec(row: &mut Row, key: &str, value: &str)
    ensures
        final(row)@ == row_set(old(row)@, key@, value@),
{
    let n = row.entries.len();
    let mut i: usize = 0;
    while i < n
        invariant
            n == row.entries@.len(),
            row@.len() == n,
            *row == *old(row),
            0 <= i <= n,
            forall|j: int| 0 <= j < i ==> (#[trigger] row@[j]).0 != key@,
        decreases n - i,
    {
        proof {
            assert(row@[i as int] == (row.entries@[i as int].key@, row.entries@[i as int].value@));
        }
        if str_eq(row.entries[i].key.as_str(), key) {
            let mut e = row.entries.remove(i);
            e.value = value.to_owned();
            row.entries.insert(i, e);
            proof {
                lemma_row_set_prefix(old(row)@, i as int, key@, value@);
                let sub = old(row)@.skip(i as int);
                assert(sub[0] == old(row)@[i as int]);
                assert(row_set(sub, key@, value@) == seq![(key@, value@)] + sub.skip(1));
                assert(sub.skip(1) =~= old(row)@.skip(i + 1));
                assert(row@ =~= old(row)@.take(i as int) + (seq![(key@, value@)] + old(
                    row,
                )@.skip(i + 1)));
                assert(row@ =~= row_set(old(row)@, key@, value@));
            }
            return ;
        }
        i = i + 1;
    }
    row.entries.push(RowEntry { key: key.to_owned(), value: value.to_owned() });
    proof {
        lemma_row_set_prefix(old(row)@, n as int, key@, value@);
        let sub = old(row)@.skip(n as int);
        assert(sub =~= Seq::<(Seq<char>, Seq<char>)>::empty());
        assert(row_set(sub, key@, value@) == seq![(key@, value@)]);
        assert(old(row)@.take(n as int) =~= old(row)@);
        assert(row@ =~= old(row)@ + seq![(key@, value@)]);
        assert(row@ =~= row_set(old(row)@, key@, value@));
    }
}


/// How one character is escaped inside a quoted script value.
pub open spec fn esc_char(c: char) -> Seq<char> {
    if c == '"' {
        seq!['\\', '"']
    } else if c == '\n' {
        seq!['\\', 'n']
    } else if c == '\t' {
        seq!['\\', 't']
    } else if c == '$' {
        seq!['\\', '$']
    } else {
        seq![c]
    }
}

pub open spec fn escape_text(s: Seq<char>) -> Seq<char>
    decreases s.len(),
{
    if s.len() == 0 {
        Seq::empty()
    } else {
        escape_text(s.drop_last()) + esc_char(s.last())
    }
}

/// A value as the script writes it: quoted, with `"`, newline, tab and `$`
/// escaped.
pub open spec fn spec_quote(s: Seq<char>) -> Seq<char> {
    seq!['"'] + escape_text(s) + seq!['"']
}

/// Quotes a value for the script, as `spec_quote` says.
pub fn quote_routeros(value: &str) -> (r: String)
    ensures
        r@ == spec_quote(value@),
{
    let len = value.unicode_len();
    let mut out = String::new();
    push_char(&mut out, '"');
    let mut i: usize = 0;
    while i < len
        invariant
            len == value@.len(),
            0 <= i <= len,
            out@ == seq!['"'] + escape_text(value@.take(i as int)),
        decreases len - i,
    {
        let c = value.get_char(i);
        proof {
            assert(value@.take(i + 1).drop_last() =~= value@.take(i as int));
            assert(value@.take(i + 1).last() == c);
        }
        if c == '"' {
            push_char(&mut out, '\\');
            push_char(&mut out, '"');
        } else if c == '\n' {
            push_char(&mut out, '\\');
            push_char(&mut out, 'n');
        } else if c == '\t' {
            push_char(&mut out, '\\');
            push_char(&mut out, 't');
        } else if c == '$' {
            push_char(&mut out, '\\');
            push_char(&mut out, '$');
        } else {
            push_char(&mut out, c);
        }
        proof {
            assert(out@ =~= seq!['"'] + escape_text(value@.take(i + 1)));
        }
        i = i + 1;
    }
    push_char(&mut out, '"');
    proof {
        assert(value@.take(len as int) =~= value@);
        assert(out@ =~= spec_quote(value@));
    }
    out
}

/// A resource path as a script section header writes it: `/` separators
/// become spaces.
pub open spec fn path_as_words(path: Seq<char>) -> Seq<char> {
    path.map_values(
        |c: char|
            if c == '/' {
                ' '
            } else {
                c
            },
    )
}

/// The section header line for a path.
pub open spec fn context_line(path: Seq<char>) -> Seq<char> {
    seq!['/'] + path_as_words(path) + seq!['\n']
}

/// What a write prepends: the header when the path changes, nothing else.
pub open spec fn context_prefix(current: Seq<char>, path: Seq<char>) -> Seq<char> {
    if current == path {
        Seq::empty()
    } else {
        context_line(path)
    }
}

/// The ` key="value"` text of the first `i` fields that are modified, in
/// the script format.
pub open spec fn modified_fields_upto<R: RouterOsApiFieldAccess>(item: R, i: int) -> Seq<char>
    decreases i,
{
    if i <= 0 {
        Seq::empty()
    } else {
        modified_fields_upto(item, i - 1) + match item.field_modified_spec(
            i - 1,
            ValueFormat::Cli,
        ) {
            Some(v) => seq![' '] + R::field_name_spec(i - 1) + seq!['='] + spec_quote(v),
            None => Seq::empty(),
        }
    }
}

/// The ` key="value"` text of every modified field, in field order.
pub open spec fn modified_fields_text<R: RouterOsApiFieldAccess>(item: R) -> Seq<char> {
    modified_fields_upto(item, R::field_count_spec() as int)
}

/// The row after every field of `item` wrote its value into it, in field
/// order.
pub open spec fn written_row_upto<R: RouterOsApiFieldAccess>(item: R, row: RowV, i: int) -> RowV
    decreases i,
{
    if i <= 0 {
        row
    } else {
        row_set(
            written_row_upto(item, row, i - 1),
            R::field_name_spec(i - 1),
            item.field_value_spec(i - 1, ValueFormat::Cli),
        )
    }
}

pub open spec fn written_row<R: RouterOsApiFieldAccess>(item: R, row: RowV) -> RowV {
    written_row_upto(item, row, R::field_count_spec() as int)
}

/// The item a mirrored row decodes to: every field's remembered text is the
/// row's value under the field's name (empty when the row has none), and no
/// field is modified.
pub open spec fn decoded_from_row<R: RouterOsApiFieldAccess>(item: R, row: RowV) -> bool {
    (forall|j: int|
        0 <= j < R::field_count_spec() ==> match row_get(row, R::field_name_spec(j)) {
            Some(v) => (#[trigger] item.field_orig_spec(j)) == v,
            None => item.field_orig_spec(j).len() == 0,
        }) && (forall|j: int, f: ValueFormat|
        0 <= j < R::field_count_spec() ==> (#[trigger] item.field_modified_spec(j, f)) is None)
}

/// Every item decodes from its row.
pub open spec fn rows_decode<R: RouterOsApiFieldAccess>(rows: Seq<RowV>, items: Seq<R>) -> bool {
    items.len() == rows.len() && forall|k: int|
        0 <= k < items.len() ==> decoded_from_row(#[trigger] items[k], rows[k])
}

/// Within the first `i` fields, the last write under a name wins; once
/// field `j` has written and no later field shares its name, the row keeps
/// field `j`'s value.
proof fn lemma_written_row_upto_get<R: RouterOsApiFieldAccess>(item: R, row: RowV, i: int, j: int)
    requires
        0 <= j < i <= R::field_count_spec(),
        forall|j2: int, k2: int|
            0 <= j2 < k2 < R::field_count_spec() ==> R::field_name_spec(j2)
                != R::field_name_spec(k2),
    ensures
        row_get(written_row_upto(item, row, i), R::field_name_spec(j)) == Some(
            item.field_value_spec(j, ValueFormat::Cli),
        ),
    decreases i,
{
    if i == j + 1 {
        lemma_row_set_get(
            written_row_upto(item, row, j),
            R::field_name_spec(j),
            item.field_value_spec(j, ValueFormat::Cli),
        );
    } else {
        lemma_written_row_upto_get(item, row, i - 1, j);
        assert(R::field_name_spec(i - 1) != R::field_name_spec(j));
        lemma_row_set_frame(
            written_row_upto(item, row, i - 1),
            R::field_name_spec(i - 1),
            item.field_value_spec(i - 1, ValueFormat::Cli),
            R::field_name_spec(j),
        );
    }
}

/// What a write to the mirror stores, a later fetch reads back: the row a
/// resource wrote holds, under every field's name, exactly that field's
/// rendered value.
pub proof fn lemma_written_row_reads_back<R: RouterOsApiFieldAccess>(item: R, row: RowV, j: int)
    requires
        0 <= j < R::field_count_spec(),
    ensures
        row_get(written_row(item, row), R::field_name_spec(j)) == Some(
            item.field_value_spec(j, ValueFormat::Cli),
        ),
{
    R::field_layout_wf();
    lemma_written_row_upto_get(item, row, R::field_count_spec() as int, j);
}

/// The rows of the first group with the given path, or none.
pub open spec fn spec_group_rows(groups: Seq<(Seq<char>, Seq<RowV>)>, path: Seq<char>) -> Seq<
    RowV,
>
    decreases groups.len(),
{
    if groups.len() == 0 {
        Seq::empty()
    } else if groups[0].0 == path {
        groups[0].1
    } else {
        spec_group_rows(groups.skip(1), path)
    }
}


/// The first group with the given path.
pub open spec fn spec_find_group(groups: Seq<(Seq<char>, Seq<RowV>)>, path: Seq<char>) -> Option<
    int,
>
    decreases groups.len(),
{
    if groups.len() == 0 {
        None
    } else if groups[0].0 == path {
        Some(0)
    } else {
        match spec_find_group(groups.skip(1), path) {
            Some(i) => Some(i + 1),
            None => None,
        }
    }
}

proof fn lemma_find_group_props(groups: Seq<(Seq<char>, Seq<RowV>)>, path: Seq<char>)
    ensures
        match spec_find_group(groups, path) {
            Some(i) => 0 <= i < groups.len() && groups[i].0 == path && (forall|j: int|
                0 <= j < i ==> (#[trigger] groups[j]).0 != path),
            None => forall|j: int| 0 <= j < groups.len() ==> (#[trigger] groups[j]).0 != path,
        },
    decreases groups.len(),
{
    if groups.len() > 0 && groups[0].0 != path {
        let t = groups.skip(1);
        lemma_find_group_props(t, path);
        assert(forall|j: int| 0 <= j < t.len() ==> #[trigger] t[j] == groups[j + 1]);
        match spec_find_group(t, path) {
            Some(i) => {
                assert forall|j: int| 0 <= j < i + 1 implies (#[trigger] groups[j]).0
                    != path by {
                    if j > 0 {
                        assert(t[j - 1] == groups[j]);
                    }
                }
            },
            None => {
                assert forall|j: int| 0 <= j < groups.len() implies (#[trigger] groups[j]).0
                    != path by {
                    if j > 0 {
                        assert(t[j - 1] == groups[j]);
                    }
                }
            },
        }
    }
}

/// The rows a lookup returns are the first matching group's.
proof fn lemma_group_rows_from_find(groups: Seq<(Seq<char>, Seq<RowV>)>, path: Seq<char>)
    ensures
        match spec_find_group(groups, path) {
            Some(i) => spec_group_rows(groups, path) == groups[i].1,
            None => spec_group_rows(groups, path) == Seq::<RowV>::empty(),
        },
    decreases groups.len(),
{
    if groups.len() > 0 && groups[0].0 != path {
        let t = groups.skip(1);
        lemma_group_rows_from_find(t, path);
        lemma_find_group_props(t, path);
        match spec_find_group(t, path) {
            Some(i) => {
                assert(t[i] == groups[i + 1]);
            },
            None => {},
        }
    }
}

/// Replacing the first matching group's rows changes that path's rows and
/// no other's.
proof fn lemma_group_rows_update(
    groups: Seq<(Seq<char>, Seq<RowV>)>,
    path: Seq<char>,
    i: int,
    rows2: Seq<RowV>,
)
    requires
        spec_find_group(groups, path) == Some(i),
    ensures
        spec_group_rows(groups.update(i, (path, rows2)), path) == rows2,
        forall|p: Seq<char>|
            p != path ==> spec_group_rows(groups.update(i, (path, rows2)), p)
                == #[trigger] spec_group_rows(groups, p),
    decreases groups.len(),
{
    lemma_find_group_props(groups, path);
    let out = groups.update(i, (path, rows2));
    if i == 0 {
        assert(out[0] == (path, rows2));
        assert forall|p: Seq<char>| p != path implies spec_group_rows(out, p)
            == #[trigger] spec_group_rows(groups, p) by {
            assert(out.skip(1) =~= groups.skip(1));
        }
    } else {
        assert(groups[0].0 != path);
        assert(out[0] == groups[0]);
        let t = groups.skip(1);
        assert(spec_find_group(t, path) == Some(i - 1)) by {
            lemma_find_group_props(t, path);
            match spec_find_group(t, path) {
                Some(k) => {
                    assert(t[k] == groups[k + 1]);
                    if k < i - 1 {
                        assert(groups[k + 1].0 == path);
                    }
                    if k > i - 1 {
                        assert(t[i - 1].0 != path);
                        assert(groups[i].0 == path);
                    }
                },
                None => {
                    assert(t[i - 1] == groups[i]);
                },
            }
        }
        lemma_group_rows_update(t, path, i - 1, rows2);
        assert(out.skip(1) =~= t.update(i - 1, (path, rows2)));
        assert forall|p: Seq<char>| p != path implies spec_group_rows(out, p)
            == #[trigger] spec_group_rows(groups, p) by {
            assert(spec_group_rows(t.update(i - 1, (path, rows2)), p) == spec_group_rows(
                t,
                p,
            ));
        }
    }
}

/// Appending a group for an absent path makes its rows that path's rows and
/// no other's.
proof fn lemma_group_rows_push(
    groups: Seq<(Seq<char>, Seq<RowV>)>,
    path: Seq<char>,
    rows2: Seq<RowV>,
)
    requires
        spec_find_group(groups, path) is None,
    ensures
        spec_group_rows(groups.push((path, rows2)), path) == rows2,
        forall|p: Seq<char>|
            p != path ==> spec_group_rows(groups.push((path, rows2)), p)
                == #[trigger] spec_group_rows(groups, p),
    decreases groups.len(),
{
    lemma_find_group_props(groups, path);
    let out = groups.push((path, rows2));
    if groups.len() == 0 {
        assert(out[0] == (path, rows2));
        assert forall|p: Seq<char>| p != path implies spec_group_rows(out, p)
            == #[trigger] spec_group_rows(groups, p) by {
            assert(out.skip(1) =~= Seq::<(Seq<char>, Seq<RowV>)>::empty());
            assert(spec_group_rows(out.skip(1), p) == Seq::<RowV>::empty());
            assert(out[0].0 == path && p != path);
        }
    } else {
        assert(groups[0].0 != path);
        assert(out[0] == groups[0]);
        let t = groups.skip(1);
        assert(spec_find_group(t, path) is None) by {
            lemma_find_group_props(t, path);
            if spec_find_group(t, path) is Some {
                let k = spec_find_group(t, path).unwrap();
                assert(t[k] == groups[k + 1]);
            }
        }
        lemma_group_rows_push(t, path, rows2);
        assert(out.skip(1) =~= t.push((path, rows2)));
        assert forall|p: Seq<char>| p != path implies spec_group_rows(out, p)
            == spec_group_rows(groups, p) by {
            assert(spec_group_rows(t.push((path, rows2)), p) == spec_group_rows(t, p));
        }
    }
}

/// The first row whose value under `key` is `val`.
pub open spec fn spec_find_row(rows: Seq<RowV>, key: Seq<char>, val: Seq<char>) -> Option<int>
    decreases rows.len(),
{
    if rows.len() == 0 {
        None
    } else if row_get(rows[0], key) == Some(val) {
        Some(0)
    } else {
        match spec_find_row(rows.skip(1), key, val) {
            Some(i) => Some(i + 1),
            None => None,
        }
    }
}

proof fn lemma_find_row_props(rows: Seq<RowV>, key: Seq<char>, val: Seq<char>)
    ensures
        match spec_find_row(rows, key, val) {
            Some(i) => 0 <= i < rows.len() && row_get(rows[i], key) == Some(val) && (forall|
                j: int,
            |
                0 <= j < i ==> row_get(#[trigger] rows[j], key) != Some(val)),
            None => forall|j: int|
                0 <= j < rows.len() ==> row_get(#[trigger] rows[j], key) != Some(val),
        },
    decreases rows.len(),
{
    if rows.len() > 0 && row_get(rows[0], key) != Some(val) {
        let t = rows.skip(1);
        lemma_find_row_props(t, key, val);
        assert(forall|j: int| 0 <= j < t.len() ==> #[trigger] t[j] == rows[j + 1]);
        match spec_find_row(t, key, val) {
            Some(i) => {
                assert forall|j: int| 0 <= j < i + 1 implies row_get(
                    #[trigger] rows[j],
                    key,
                ) != Some(val) by {
                    if j > 0 {
                        assert(t[j - 1] == rows[j]);
                    }
                }
            },
            None => {
                assert forall|j: int| 0 <= j < rows.len() implies row_get(
                    #[trigger] rows[j],
                    key,
                ) != Some(val) by {
                    if j > 0 {
                        assert(t[j - 1] == rows[j]);
                    }
                }
            },
        }
    }
}

/// The rows without those whose value under `key` is `val`.
pub open spec fn rows_without(rows: Seq<RowV>, key: Seq<char>, val: Seq<char>) -> Seq<RowV> {
    rows.filter(|row: RowV| row_get(row, key) != Some(val))
}

/// The mirrored rows of one resource path.
#[derive(Debug)]
struct PathGroup {
    path: String,
    rows: Vec<Row>,
}

/// The script backend: the script text written so far, the mirrored rows of
/// every path written to, and the path of the last section header.
#[derive(Debug)]
pub struct ConfigClient {
    output: String,
    model: Vec<PathGroup>,
    current_context: String,
}

impl ConfigClient {
    /// The script text accumulated so far.
    pub closed spec fn output_spec(&self) -> Seq<char> {
        self.output@
    }

    /// The path of the last section header written.
    pub closed spec fn context_spec(&self) -> Seq<char> {
        self.current_context@
    }

    /// The mirror: one group of rows per path.
    pub closed spec fn groups(&self) -> Seq<(Seq<char>, Seq<RowV>)> {
        self.model@.map_values(
            |g: PathGroup| (g.path@, g.rows@.map_values(|r: Row| r@)),
        )
    }

    /// The mirrored rows of one path.
    pub open spec fn rows_of(&self, path: Seq<char>) -> Seq<RowV> {
        spec_group_rows(self.groups(), path)
    }

    /// An empty script and an empty mirror.
    pub fn new() -> (r: ConfigClient)
        ensures
            r.output_spec().len() == 0,
            r.context_spec().len() == 0,
            forall|p: Seq<char>| #[trigger] r.rows_of(p) == Seq::<RowV>::empty(),
    {
        let r = ConfigClient {
            output: String::new(),
            model: Vec::new(),
            current_context: String::new(),
        };
        proof {
            assert(r.groups() =~= Seq::<(Seq<char>, Seq<RowV>)>::empty());
        }
        r
    }

    /// Hands the accumulated script over and starts a fresh one (the mirror
    /// is kept, so later fetches still see the staged rows).
    pub fn dump_cmd(&mut self) -> (r: String)
        ensures
            r@ == old(self).output_spec(),
            final(self).output_spec().len() == 0,
            final(self).context_spec().len() == 0,
            final(self).groups() == old(self).groups(),
    {
        self.current_context = String::new();
        let mut out = String::new();
        core::mem::swap(&mut out, &mut self.output);
        out
    }

    /// Writes the section header when the path differs from the current
    /// one.
    pub fn ensure_context(&mut self, resource_path: &str)
        ensures
            final(self).output_spec() == old(self).output_spec() + context_prefix(
                old(self).context_spec(),
                resource_path@,
            ),
            final(self).context_spec() == resource_path@,
            final(self).groups() == old(self).groups(),
    {
        if !str_eq(self.current_context.as_str(), resource_path) {
            let ghost base = self.output@;
            push_char(&mut self.output, '/');
            let len = resource_path.unicode_len();
            let mut i: usize = 0;
            while i < len
                invariant
                    len == resource_path@.len(),
                    0 <= i <= len,
                    self.output@.len() == base.len() + 1 + i,
                    self.output@ == base + seq!['/'] + path_as_words(resource_path@).take(
                        i as int,
                    ),
                    self.model@ == old(self).model@,
                decreases len - i,
            {
                let c = resource_path.get_char(i);
                if c == '/' {
                    push_char(&mut self.output, ' ');
                } else {
                    push_char(&mut self.output, c);
                }
                proof {
                    assert(path_as_words(resource_path@)[i as int] == (if c == '/' {
                        ' '
                    } else {
                        c
                    }));
                    assert(self.output@ =~= base + seq!['/'] + path_as_words(
                        resource_path@,
                    ).take(i + 1));
                }
                i = i + 1;
            }
            push_char(&mut self.output, '\n');
            self.current_context = resource_path.to_owned();
            proof {
                assert(path_as_words(resource_path@).take(len as int) =~= path_as_words(
                    resource_path@,
                ));
                assert(self.output@ =~= base + context_line(resource_path@));
            }
        }
    }

    /// Appends ` key="value"` for every modified field, in field order and
    /// in the script format.
    fn append_modified_fields<R: RouterOsApiFieldAccess>(&mut self, resource: &R)
        ensures
            final(self).output_spec() == old(self).output_spec() + modified_fields_text(
                *resource,
            ),
            final(self).context_spec() == old(self).context_spec(),
            final(self).groups() == old(self).groups(),
    {
        let ghost base = self.output@;
        let n = R::field_count();
        let mut i: usize = 0;
        while i < n
            invariant
                n == R::field_count_spec(),
                0 <= i <= n,
                self.output@ == base + modified_fields_upto(*resource, i as int),
                self.current_context@ == old(self).current_context@,
                self.model@ == old(self).model@,
            decreases n - i,
        {
            match resource.field_modified_value(i, &ValueFormat::Cli) {
                Some(v) => {
                    let d = R::field_description(i);
                    push_char(&mut self.output, ' ');
                    self.output.append(d.name);
                    push_char(&mut self.output, '=');
                    let q = quote_routeros(v.as_str());
                    self.output.append(q.as_str());
                    proof {
                        assert(self.output@ =~= base + modified_fields_upto(
                            *resource,
                            i + 1,
                        ));
                    }
                },
                None => {
                    proof {
                        assert(self.output@ =~= base + modified_fields_upto(
                            *resource,
                            i + 1,
                        ));
                    }
                },
            }
            i = i + 1;
        }
    }

    /// The index of the group for this path, creating an empty one if none
    /// exists yet.
    fn group_index_or_create(&mut self, path: &str) -> (g: usize)
        ensures
            g < final(self).model@.len(),
            final(self).output_spec() == old(self).output_spec(),
            final(self).context_spec() == old(self).context_spec(),
            final(self).groups().len() >= old(self).groups().len(),
            final(self).groups()[g as int].0 == path@,
            spec_find_group(final(self).groups(), path@) == Some(g as int),
            final(self).rows_of(path@) == old(self).rows_of(path@),
            final(self).groups()[g as int].1 == old(self).rows_of(path@),
            forall|p: Seq<char>|
                p != path@ ==> #[trigger] final(self).rows_of(p) == old(self).rows_of(p),
    {
        let n = self.model.len();
        let mut i: usize = 0;
        while i < n
            invariant
                n == self.model@.len(),
                0 <= i <= n,
                self.groups().len() == n,
                forall|j: int| 0 <= j < i ==> (#[trigger] self.groups()[j]).0 != path@,
            decreases n - i,
        {
            proof {
                assert(self.groups()[i as int] == (self.model@[i as int].path@, self.model@[
                    i as int].rows@.map_values(|r: Row| r@)));
            }
            if str_eq(self.model[i].path.as_str(), path) {
                proof {
                    lemma_find_group_props(self.groups(), path@);
                    lemma_group_rows_from_find(self.groups(), path@);
                    match spec_find_group(self.groups(), path@) {
                        Some(k) => {
                            assert(k == i);
                        },
                        None => {
                            assert(self.groups()[i as int].0 != path@);
                        },
                    }
                }
                return i;
            }
            i = i + 1;
        }
        proof {
            lemma_find_group_props(self.groups(), path@);
            if spec_find_group(self.groups(), path@) is Some {
                let k = spec_find_group(self.groups(), path@).unwrap();
                assert(self.groups()[k].0 != path@);
            }
            lemma_group_rows_from_find(self.groups(), path@);
        }
        let ghost pre_groups = self.groups();
        self.model.push(PathGroup { path: path.to_owned(), rows: Vec::new() });
        let g = self.model.len() - 1;
        proof {
            assert(self.groups() =~~= pre_groups.push((path@, Seq::<RowV>::empty())));
            lemma_group_rows_push(pre_groups, path@, Seq::<RowV>::empty());
            lemma_find_group_props(self.groups(), path@);
            lemma_group_rows_from_find(self.groups(), path@);
            match spec_find_group(self.groups(), path@) {
                Some(k) => {
                    if k < g {
                        assert(self.groups()[k] == pre_groups[k]);
                    }
                },
                None => {
                    assert(self.groups()[g as int].0 == path@);
                },
            }
        }
        g
    }

    /// Writes every field's current value into the row, in field order.
    fn write_resource_into<R: RouterOsApiFieldAccess>(resource: &R, row: &mut Row)
        ensures
            final(row)@ == written_row(*resource, old(row)@),
    {
        let n = R::field_count();
        let mut i: usize = 0;
        while i < n
            invariant
                n == R::field_count_spec(),
                0 <= i <= n,
                row@ == written_row_upto(*resource, old(row)@, i as int),
            decreases n - i,
        {
            let d = R::field_description(i);
            let v = resource.field_api_value(i, &ValueFormat::Cli);
            row_set_exec(row, d.name, v.as_str());
            i = i + 1;
        }
    }
}


/// The id key of an item: the name of its (unique) id field with a value.
pub open spec fn id_key_of<R: RouterOsApiFieldAccess>(item: R) -> Seq<char> {
    R::field_name_spec(id_field_spec(item).unwrap())
}

/// The id value of an item, in the script format.
pub open spec fn id_val_of<R: RouterOsApiFieldAccess>(item: R) -> Seq<char> {
    item.field_value_spec(id_field_spec(item).unwrap(), ValueFormat::Cli)
}

impl<R: RouterOsResource> Client<R> for ConfigClient {
    /// Listing reads the mirror: one decoded item per mirrored row, in
    /// order, and the backend is untouched.
    open spec fn list_post(pre: Self, post: Self, items: Seq<R>) -> bool {
        post == pre && rows_decode::<R>(pre.rows_of(R::resource_path_spec()), items)
    }

    /// An update on an identified, modified item writes one
    /// `set [ find where id ] fields` line (under the section header when
    /// the context changes) and rewrites the first mirrored row carrying
    /// that id; anything else is a no-op.
    open spec fn update_post(pre: Self, post: Self, item: R) -> bool {
        let path = R::resource_path_spec();
        if id_field_spec(item) is Some && is_modified_spec(item) {
            let key = id_key_of(item);
            let val = id_val_of(item);
            let rows = pre.rows_of(path);
            post.output_spec() == pre.output_spec() + context_prefix(pre.context_spec(), path)
                + "set [ find where "@ + key + seq!['='] + spec_quote(val) + " ]"@
                + modified_fields_text(item) + seq!['\n'] && post.context_spec() == path && (
            match spec_find_row(rows, key, val) {
                Some(k) => post.rows_of(path) == rows.update(k, written_row(item, rows[k])),
                None => post.rows_of(path) == rows,
            }) && (forall|p: Seq<char>|
                p != path ==> #[trigger] post.rows_of(p) == pre.rows_of(p))
        } else {
            post == pre
        }
    }

    /// A single-instance write emits one `set fields` line and rewrites the
    /// first mirrored row (creating it if none exists).
    open spec fn set_post(pre: Self, post: Self, item: R) -> bool {
        let path = R::resource_path_spec();
        let rows = pre.rows_of(path);
        post.output_spec() == pre.output_spec() + context_prefix(pre.context_spec(), path)
            + "set"@ + modified_fields_text(item) + seq!['\n'] && post.context_spec() == path
            && (if rows.len() == 0 {
            post.rows_of(path) == seq![written_row(item, Seq::<(Seq<char>, Seq<char>)>::empty())]
        } else {
            post.rows_of(path) == rows.update(0, written_row(item, rows[0]))
        }) && (forall|p: Seq<char>| p != path ==> #[trigger] post.rows_of(p) == pre.rows_of(p))
    }

    /// An add on a modified item emits one `add fields` line and appends a
    /// mirrored row holding every field's value; an unmodified item is a
    /// no-op.
    open spec fn add_post(pre: Self, post: Self, item: R) -> bool {
        let path = R::resource_path_spec();
        if is_modified_spec(item) {
            post.output_spec() == pre.output_spec() + context_prefix(pre.context_spec(), path)
                + "add"@ + modified_fields_text(item) + seq!['\n'] && post.context_spec()
                == path && post.rows_of(path) == pre.rows_of(path).push(
                written_row(item, Seq::<(Seq<char>, Seq<char>)>::empty()),
            ) && (forall|p: Seq<char>|
                p != path ==> #[trigger] post.rows_of(p) == pre.rows_of(p))
        } else {
            post == pre
        }
    }

    /// A delete on an identified item emits one `remove [find where id]`
    /// line and drops every mirrored row carrying that id; an item without
    /// an id is a no-op.
    open spec fn delete_post(pre: Self, post: Self, item: R) -> bool {
        let path = R::resource_path_spec();
        if id_field_spec(item) is Some {
            let key = id_key_of(item);
            let val = id_val_of(item);
            post.output_spec() == pre.output_spec() + context_prefix(pre.context_spec(), path)
                + "remove [find where "@ + key + seq!['='] + spec_quote(val) + "]"@
                + seq!['\n'] && post.context_spec() == path && post.rows_of(path)
                == rows_without(pre.rows_of(path), key, val) && (forall|p: Seq<char>|
                p != path ==> #[trigger] post.rows_of(p) == pre.rows_of(p))
        } else {
            post == pre
        }
    }

    #[verifier::loop_isolation(false)]
    fn list(&mut self) -> (r: Result<Vec<R>, RosError>)
        ensures
            r matches Result::<Vec<R>, RosError>::Err(_) ==> *final(self) == *old(self),
            (forall|k: int, j: int|
                0 <= k < old(self).rows_of(R::resource_path_spec()).len() && 0 <= j
                    < R::field_count_spec() ==> (match #[trigger] row_get(
                    old(self).rows_of(R::resource_path_spec())[k],
                    R::field_name_spec(j),
                ) {
                    Some(v) => R::field_accepts_spec(j, v),
                    None => true,
                })) ==> r matches Result::<Vec<R>, RosError>::Ok(_),
    {
        let path = R::resource_path();
        let mut items: Vec<R> = Vec::new();
        let gi = self.find_group_ro(path);
        match gi {
            None => {
                Ok(items)
            },
            Some(g) => {
                let ghost rowsv = self.rows_of(path@);
                let m = self.model[g].rows.len();
                let mut k: usize = 0;
                while k < m
                    invariant
                        *self == *old(self),
                        g < self.model@.len(),
                        m == self.model@[g as int].rows@.len(),
                        rowsv == self.rows_of(R::resource_path_spec()),
                        R::resource_path_spec() == path@,
                        rowsv == self.model@[g as int].rows@.map_values(|r: Row| r@),
                        rowsv.len() == m,
                        0 <= k <= m,
                        items@.len() == k,
                        forall|k2: int|
                            0 <= k2 < k ==> decoded_from_row(
                                #[trigger] items@[k2],
                                rowsv[k2],
                            ),
                    decreases m - k,
                {
                    let mut item = R::new_default();
                    let fc = R::field_count();
                    let mut j: usize = 0;
                    while j < fc
                        invariant
                            *self == *old(self),
                            g < self.model@.len(),
                            k < m,
                            m == self.model@[g as int].rows@.len(),
                            rowsv == self.model@[g as int].rows@.map_values(|r: Row| r@),
                            rowsv.len() == m,
                            fc == R::field_count_spec(),
                            0 <= j <= fc,
                            forall|j2: int|
                                0 <= j2 < j ==> match row_get(
                                    rowsv[k as int],
                                    R::field_name_spec(j2),
                                ) {
                                    Some(v) => (#[trigger] item.field_orig_spec(j2)) == v,
                                    None => item.field_orig_spec(j2).len() == 0,
                                },
                            forall|j2: int|
                                j <= j2 < fc ==> (#[trigger] item.field_orig_spec(
                                    j2,
                                )).len() == 0,
                            forall|j2: int, f: ValueFormat|
                                0 <= j2 < fc ==> (#[trigger] item.field_modified_spec(
                                    j2,
                                    f,
                                )) is None,
                        decreases fc - j,
                    {
                        let d = R::field_description(j);
                        proof {
                            assert(rowsv[k as int] == self.model@[g as int].rows@[k as int]@);
                        }
                        match row_get_exec(&self.model[g].rows[k], d.name) {
                            Some(v) => {
                                match item.field_set_from_api(j, v.as_str()) {
                                    Ok(_) => {},
                                    Err(e) => {
                                        proof {
                                            // this row's value is the witness that not
                                            // every mirrored value decodes
                                            assert(row_get(
                                                old(self).rows_of(R::resource_path_spec())[
                                                    k as int],
                                                R::field_name_spec(j as int),
                                            ) == Some(v@));
                                            assert(!R::field_accepts_spec(j as int, v@));
                                        }
                                        return Err(
                                            RosError::FieldWriteError {
                                                field_name: d.name.to_owned(),
                                                field_value: v,
                                                error: Box::new(e),
                                            },
                                        );
                                    },
                                }
                            },
                            None => {},
                        }
                        j = j + 1;
                    }
                    items.push(item);
                    k = k + 1;
                }
                Ok(items)
            },
        }
    }

    #[verifier::loop_isolation(false)]
    fn update(&mut self, resource: &R) -> (r: Result<(), RosError>)
        ensures
            r is Ok,
    {
        let idx = match crate::resource::id_field(resource) {
            Some(i) => i,
            None => {
                return Ok(());
            },
        };
        if !is_modified(resource) {
            return Ok(());
        }
        proof {
            R::field_layout_wf();
            let c = id_field_spec(*resource).unwrap();
            if c != idx as int {
                assert(R::field_is_id_spec(c) && R::field_is_id_spec(idx as int));
                assert(false);
            }
            assert(id_field_spec(*resource) == Some(idx as int));
        }
        let path = R::resource_path();
        let d = R::field_description(idx);
        let api_value = resource.field_api_value(idx, &ValueFormat::Cli);
        let quoted = quote_routeros(api_value.as_str());
        self.ensure_context(path);
        let ghost base = self.output@;
        self.output.append("set [ find where ");
        self.output.append(d.name);
        push_char(&mut self.output, '=');
        self.output.append(quoted.as_str());
        self.output.append(" ]");
        self.append_modified_fields(resource);
        push_char(&mut self.output, '\n');
        proof {
            assert(self.output@ =~= base + "set [ find where "@ + R::field_name_spec(
                idx as int,
            ) + seq!['='] + spec_quote(api_value@) + " ]"@ + modified_fields_text(*resource)
                + seq!['\n']);
        }
        // rewrite the first mirrored row that carries this id
        let ghost out_after = self.output@;
        let ghost rowsv = self.rows_of(path@);
        let ghost groups0 = self.groups();
        let g = match self.find_group_ro(path) {
            Some(g) => g,
            None => {
                proof {
                    lemma_find_row_props(rowsv, d.name@, api_value@);
                }
                return Ok(());
            },
        };
        let m = self.model[g].rows.len();
        let mut k: usize = 0;
        while k < m
            invariant
                g < self.model@.len(),
                m == self.model@[g as int].rows@.len(),
                rowsv == self.model@[g as int].rows@.map_values(|r: Row| r@),
                rowsv.len() == m,
                0 <= k <= m,
                self.output@ == out_after,
                self.current_context@ == path@,
                self.groups() == groups0,
                spec_find_group(groups0, path@) == Some(g as int),
                rowsv == self.rows_of(path@),
                forall|k2: int|
                    0 <= k2 < k ==> row_get(#[trigger] rowsv[k2], d.name@) != Some(
                        api_value@,
                    ),
            decreases m - k,
        {
            proof {
                assert(rowsv[k as int] == self.model@[g as int].rows@[k as int]@);
            }
            let hit = match row_get_exec(&self.model[g].rows[k], d.name) {
                Some(v) => str_eq(v.as_str(), api_value.as_str()),
                None => false,
            };
            if hit {
                proof {
                    lemma_find_row_props(rowsv, d.name@, api_value@);
                    match spec_find_row(rowsv, d.name@, api_value@) {
                        Some(kk) => {
                            assert(kk == k);
                        },
                        None => {
                            assert(row_get(rowsv[k as int], d.name@) != Some(api_value@));
                        },
                    }
                }
                let ghost pre_groups = self.groups();
                proof {
                    lemma_find_group_props(pre_groups, path@);
                    assert(pre_groups[g as int].0 == path@);
                    assert(self.model@[g as int].path@ == path@);
                }
                let grp = vec_entry_mut(&mut self.model, g);
                let row = vec_entry_mut(&mut grp.rows, k);
                Self::write_resource_into(resource, row);
                proof {
                    let newrows = rowsv.update(k as int, written_row(*resource, rowsv[k as int]));
                    assert(self.groups()[g as int].1 =~= newrows);
                    assert(self.groups()[g as int] == (path@, newrows));
                    assert(self.groups() =~= pre_groups.update(g as int, (path@, newrows)));
                    lemma_group_rows_update(pre_groups, path@, g as int, newrows);
                    let pre = *old(self);
                    let paths = R::resource_path_spec();
                    assert(id_field_spec(*resource) is Some && is_modified_spec(*resource));
                    assert(id_key_of(*resource) == d.name@);
                    assert(id_val_of(*resource) == api_value@);
                    assert(self.current_context@ == paths);
                    assert(pre.rows_of(paths) == rowsv);
                    assert(spec_find_row(rowsv, d.name@, api_value@) == Some(k as int));
                    assert(self.rows_of(paths) == rowsv.update(
                        k as int,
                        written_row(*resource, rowsv[k as int]),
                    ));
                    assert(self.output@ == pre.output_spec() + context_prefix(
                        pre.context_spec(),
                        paths,
                    ) + "set [ find where "@ + d.name@ + seq!['='] + spec_quote(api_value@)
                        + " ]"@ + modified_fields_text(*resource) + seq!['\n']);
                    assert(forall|p: Seq<char>|
                        p != paths ==> #[trigger] self.rows_of(p) == pre.rows_of(p));
                    assert(Self::update_post(*old(self), *self, *resource));
                }
                return Ok(());
            }
            k = k + 1;
        }
        proof {
            lemma_find_row_props(rowsv, d.name@, api_value@);
            if spec_find_row(rowsv, d.name@, api_value@) is Some {
                let kk = spec_find_row(rowsv, d.name@, api_value@).unwrap();
                assert(row_get(rowsv[kk], d.name@) != Some(api_value@));
            }
        }
        Ok(())
    }

    fn set(&mut self, resource: &R) -> (r: Result<(), RosError>)
        ensures
            r is Ok,
    {
        let path = R::resource_path();
        self.ensure_context(path);
        let ghost base = self.output@;
        self.output.append("set");
        self.append_modified_fields(resource);
        push_char(&mut self.output, '\n');
        proof {
            assert(self.output@ =~= base + "set"@ + modified_fields_text(*resource)
                + seq!['\n']);
        }
        let ghost rowsv = self.rows_of(path@);
        let ghost before_create = *self;
        let g = self.group_index_or_create(path);
        let ghost after_create = *self;
        let ghost pre_groups = self.groups();
        proof {
            lemma_find_group_props(pre_groups, path@);
            assert(pre_groups[g as int].0 == path@);
            assert(self.model@[g as int].path@ == path@);
            assert(pre_groups[g as int].1 == rowsv);
            assert(self.model@[g as int].rows@.map_values(|r2: Row| r2@) == rowsv);
            assert(self.model@[g as int].rows@.len() == rowsv.len());
        }
        if self.model[g].rows.len() == 0 {
            let mut row = Row { entries: Vec::new() };
            proof {
                assert(row@ =~= Seq::<(Seq<char>, Seq<char>)>::empty());
            }
            Self::write_resource_into(resource, &mut row);
            let grp = vec_entry_mut(&mut self.model, g);
            grp.rows.push(row);
            proof {
                let newrows = seq![
                    written_row(*resource, Seq::<(Seq<char>, Seq<char>)>::empty()),
                ];
                assert(self.groups()[g as int].1 =~= newrows);
                assert(self.groups()[g as int] == (path@, newrows));
                assert(self.groups() =~= pre_groups.update(g as int, (path@, newrows)));
                lemma_group_rows_update(pre_groups, path@, g as int, newrows);
                assert forall|p: Seq<char>| p != path@ implies spec_group_rows(
                    self.groups(),
                    p,
                ) == spec_group_rows(pre_groups, p) by {
                    assert(spec_group_rows(pre_groups.update(g as int, (path@, newrows)), p)
                        == spec_group_rows(pre_groups, p));
                }
            }
        } else {
            let grp = vec_entry_mut(&mut self.model, g);
            let row = vec_entry_mut(&mut grp.rows, 0);
            Self::write_resource_into(resource, row);
            proof {
                let newrows = rowsv.update(0, written_row(*resource, rowsv[0]));
                assert(self.groups()[g as int].1 =~= newrows);
                assert(self.groups()[g as int] == (path@, newrows));
                assert(self.groups() =~= pre_groups.update(g as int, (path@, newrows)));
                lemma_group_rows_update(pre_groups, path@, g as int, newrows);
                assert forall|p: Seq<char>| p != path@ implies spec_group_rows(
                    self.groups(),
                    p,
                ) == spec_group_rows(pre_groups, p) by {
                    assert(spec_group_rows(pre_groups.update(g as int, (path@, newrows)), p)
                        == spec_group_rows(pre_groups, p));
                }
            }
        }
        proof {
            let pre = *old(self);
            let paths = R::resource_path_spec();
            assert(self.current_context@ == paths);
            assert(self.output@ == pre.output_spec() + context_prefix(
                pre.context_spec(),
                paths,
            ) + "set"@ + modified_fields_text(*resource) + seq!['\n']);
            assert(pre.rows_of(paths) == rowsv);
            assert(if rowsv.len() == 0 {
                self.rows_of(paths) == seq![
                    written_row(*resource, Seq::<(Seq<char>, Seq<char>)>::empty()),
                ]
            } else {
                self.rows_of(paths) == rowsv.update(0, written_row(*resource, rowsv[0]))
            });
            assert forall|p: Seq<char>| p != paths implies #[trigger] self.rows_of(p)
                == pre.rows_of(p) by {
                assert(spec_group_rows(self.groups(), p) == spec_group_rows(pre_groups, p));
                assert(after_create.rows_of(p) == before_create.rows_of(p));
                assert(before_create.rows_of(p) == pre.rows_of(p));
                assert(spec_group_rows(pre_groups, p) == after_create.rows_of(p));
                assert(spec_group_rows(pre_groups, p) == pre.rows_of(p));
            }
        }
        Ok(())
    }

    fn add(&mut self, resource: &R) -> (r: Result<(), RosError>)
        ensures
            r is Ok,
    {
        if !is_modified(resource) {
            return Ok(());
        }
        let path = R::resource_path();
        self.ensure_context(path);
        let ghost base = self.output@;
        self.output.append("add");
        self.append_modified_fields(resource);
        push_char(&mut self.output, '\n');
        proof {
            assert(self.output@ =~= base + "add"@ + modified_fields_text(*resource)
                + seq!['\n']);
        }
        let ghost rowsv = self.rows_of(path@);
        let ghost before_create = *self;
        let g = self.group_index_or_create(path);
        let ghost after_create = *self;
        let ghost pre_groups = self.groups();
        proof {
            lemma_find_group_props(pre_groups, path@);
            assert(pre_groups[g as int].0 == path@);
            assert(self.model@[g as int].path@ == path@);
            assert(pre_groups[g as int].1 == rowsv);
            assert(self.model@[g as int].rows@.map_values(|r2: Row| r2@) == rowsv);
        }
        let mut row = Row { entries: Vec::new() };
        proof {
            assert(row@ =~= Seq::<(Seq<char>, Seq<char>)>::empty());
        }
        Self::write_resource_into(resource, &mut row);
        let grp = vec_entry_mut(&mut self.model, g);
        grp.rows.push(row);
        proof {
            let newrows = rowsv.push(
                written_row(*resource, Seq::<(Seq<char>, Seq<char>)>::empty()),
            );
            assert(self.groups()[g as int].1 =~= newrows);
            assert(self.groups()[g as int] == (path@, newrows));
            assert(self.groups() =~= pre_groups.update(g as int, (path@, newrows)));
            lemma_group_rows_update(pre_groups, path@, g as int, newrows);
            let pre = *old(self);
            assert forall|p: Seq<char>| p != path@ implies #[trigger] self.rows_of(p)
                == pre.rows_of(p) by {
                assert(spec_group_rows(pre_groups.update(g as int, (path@, newrows)), p)
                    == spec_group_rows(pre_groups, p));
                assert(spec_group_rows(self.groups(), p) == spec_group_rows(pre_groups, p));
                assert(after_create.rows_of(p) == before_create.rows_of(p));
                assert(before_create.rows_of(p) == pre.rows_of(p));
                assert(spec_group_rows(pre_groups, p) == after_create.rows_of(p));
            }
            assert(pre.rows_of(R::resource_path_spec()) == rowsv);
        }
        Ok(())
    }

    #[verifier::loop_isolation(false)]
    fn delete(&mut self, resource: &R) -> (r: Result<(), RosError>)
        ensures
            r is Ok,
    {
        let idx = match crate::resource::id_field(resource) {
            Some(i) => i,
            None => {
                return Ok(());
            },
        };
        proof {
            R::field_layout_wf();
            let c = id_field_spec(*resource).unwrap();
            if c != idx as int {
                assert(R::field_is_id_spec(c) && R::field_is_id_spec(idx as int));
                assert(false);
            }
            assert(id_field_spec(*resource) == Some(idx as int));
        }
        let path = R::resource_path();
        let d = R::field_description(idx);
        let api_value = resource.field_api_value(idx, &ValueFormat::Cli);
        let quoted = quote_routeros(api_value.as_str());
        self.ensure_context(path);
        let ghost base = self.output@;
        self.output.append("remove [find where ");
        self.output.append(d.name);
        push_char(&mut self.output, '=');
        self.output.append(quoted.as_str());
        self.output.append("]");
        push_char(&mut self.output, '\n');
        proof {
            assert(self.output@ =~= base + "remove [find where "@ + R::field_name_spec(
                idx as int,
            ) + seq!['='] + spec_quote(api_value@) + "]"@ + seq!['\n']);
        }
        let ghost rowsv = self.rows_of(path@);
        let g = match self.find_group_ro(path) {
            Some(g) => g,
            None => {
                proof {
                    assert(rows_without(rowsv, d.name@, api_value@) =~= rowsv);
                }
                return Ok(());
            },
        };
        let ghost pre_groups = self.groups();
        proof {
            lemma_find_group_props(pre_groups, path@);
            assert(pre_groups[g as int].0 == path@);
            assert(self.model@[g as int].path@ == path@);
            assert(self.model@[g as int].rows@.map_values(|r2: Row| r2@) == rowsv);
        }
        let grp = vec_entry_mut(&mut self.model, g);
        let mut working: Vec<Row> = Vec::new();
        core::mem::swap(&mut working, &mut grp.rows);
        let mut kept: Vec<Row> = Vec::new();
        let ghost mut kc: int = 0;
        proof {
            assert(working@.map_values(|r2: Row| r2@) =~= rowsv.skip(0));
            assert(kept@.map_values(|r2: Row| r2@) =~= rows_without(
                rowsv.take(0),
                d.name@,
                api_value@,
            )) by {
                reveal_with_fuel(Seq::filter, 2);
                assert(rowsv.take(0) =~= Seq::<RowV>::empty());
            }
        }
        while working.len() > 0
            invariant
                0 <= kc <= rowsv.len(),
                working@.map_values(|r2: Row| r2@) == rowsv.skip(kc),
                kept@.map_values(|r2: Row| r2@) == rows_without(
                    rowsv.take(kc),
                    d.name@,
                    api_value@,
                ),
            decreases working@.len(),
        {
            proof {
                assert(rowsv.skip(kc).len() == working@.len());
                assert(kc < rowsv.len());
            }
            let x = working.remove(0);
            proof {
                reveal_with_fuel(Seq::filter, 2);
                assert(rowsv.skip(kc)[0] == rowsv[kc]);
                assert(x@ == rowsv[kc]);
                assert(rowsv.take(kc + 1).drop_last() =~= rowsv.take(kc));
                assert(rowsv.take(kc + 1).last() == rowsv[kc]);
                assert(rowsv.skip(kc).skip(1) =~= rowsv.skip(kc + 1));
                assert(working@.map_values(|r2: Row| r2@) =~= rowsv.skip(kc + 1));
            }
            let hit = match row_get_exec(&x, d.name) {
                Some(v) => str_eq(v.as_str(), api_value.as_str()),
                None => false,
            };
            if !hit {
                kept.push(x);
            }
            proof {
                kc = kc + 1;
                assert(kept@.map_values(|r2: Row| r2@) =~= rows_without(
                    rowsv.take(kc),
                    d.name@,
                    api_value@,
                ));
            }
        }
        let grp2 = vec_entry_mut(&mut self.model, g);
        grp2.rows = kept;
        proof {
            assert(rowsv.take(kc) =~= rowsv);
            let newrows = rows_without(rowsv, d.name@, api_value@);
            assert(self.groups()[g as int].1 =~= newrows);
            assert(self.groups()[g as int] == (path@, newrows));
            assert(self.groups() =~= pre_groups.update(g as int, (path@, newrows)));
            lemma_group_rows_update(pre_groups, path@, g as int, newrows);
        }
        Ok(())
    }
}

impl ConfigClient {
    /// The index of the group for this path, if one exists (read-only).
    fn find_group_ro(&self, path: &str) -> (r: Option<usize>)
        ensures
            match r {
                Some(g) => g < self.model@.len() && spec_find_group(self.groups(), path@)
                    == Some(g as int) && self.rows_of(path@) == self.model@[
                    g as int].rows@.map_values(|r2: Row| r2@),
                None => self.rows_of(path@).len() == 0,
            },
    {
        let n = self.model.len();
        let mut i: usize = 0;
        while i < n
            invariant
                n == self.model@.len(),
                self.groups().len() == n,
                0 <= i <= n,
                forall|j: int| 0 <= j < i ==> (#[trigger] self.groups()[j]).0 != path@,
            decreases n - i,
        {
            proof {
                assert(self.groups()[i as int] == (self.model@[i as int].path@, self.model@[
                    i as int].rows@.map_values(|r2: Row| r2@)));
            }
            if str_eq(self.model[i].path.as_str(), path) {
                proof {
                    lemma_find_group_props(self.groups(), path@);
                    lemma_group_rows_from_find(self.groups(), path@);
                    match spec_find_group(self.groups(), path@) {
                        Some(k) => {
                            assert(k == i);
                        },
                        None => {
                            assert(self.groups()[i as int].0 != path@);
                        },
                    }
                }
                return Some(i);
            }
            i = i + 1;
        }
        proof {
            lemma_find_group_props(self.groups(), path@);
            if spec_find_group(self.groups(), path@) is Some {
                let k = spec_find_group(self.groups(), path@).unwrap();
                assert(self.groups()[k].0 != path@);
            }
            lemma_group_rows_from_find(self.groups(), path@);
        }
        None
    }
}

} // verus!
