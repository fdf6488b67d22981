//! The file-listing panel: entries, their display formatting, and ordering.

use vstd::prelude::*;

use vstd::multiset::Multiset;

use crate::text::{fold_eq, lex_fold_le, str_fold_eq, str_fold_le};

verus! {

/// One listed file or directory, described by plain values.
///
/// The path and the timestamp are carried as plain data: the path as text,
/// the modification time as seconds since the Unix epoch, absent when the
/// file system did not provide one.
#[derive(Debug, Clone)]
pub struct FileEntry {
    /// The entry's full path.
    pub path: String,
    /// The entry's file name.
    pub name: String,
    /// Whether the entry is a directory.
    pub is_dir: bool,
    /// The size in bytes; zero for directories.
    pub size: u64,
    /// Seconds since the Unix epoch at last modification, if known.
    pub modified: Option<i64>,
    /// The icon shown beside the name.
    pub icon: String,
}

/// The decimal digit `d` as a character.
pub open spec fn digit_char(d: int) -> char {
    if d == 0 {
        '0'
    } else if d == 1 {
        '1'
    } else if d == 2 {
        '2'
    } else if d == 3 {
        '3'
    } else if d == 4 {
        '4'
    } else if d == 5 {
        '5'
    } else if d == 6 {
        '6'
    } else if d == 7 {
        '7'
    } else if d == 8 {
        '8'
    } else {
        '9'
    }
}

/// The decimal digits of `n`, most significant first.
pub open spec fn dec_str(n: nat) -> Seq<char>
    decreases n,
{
    if n < 10 {
        seq![digit_char(n as int)]
    } else {
        dec_str(n / 10).push(digit_char((n % 10) as int))
    }
}

/// The scale divisor of each size unit, in steps of 1024.
pub open spec fn unit_divisor(idx: int) -> int {
    if idx == 0 {
        1
    } else if idx == 1 {
        1024
    } else if idx == 2 {
        1048576
    } else if idx == 3 {
        1073741824
    } else {
        1099511627776
    }
}

/// The label of each size unit.
pub open spec fn unit_label(idx: int) -> Seq<char> {
    if idx == 0 {
        "B"@
    } else if idx == 1 {
        "KB"@
    } else if idx == 2 {
        "MB"@
    } else if idx == 3 {
        "GB"@
    } else {
        "TB"@
    }
}

/// Which unit a byte count is shown in: the largest whose divisor it
/// reaches, capped at terabytes.
pub open spec fn unit_index(size: int) -> int {
    if size < 1024 {
        0
    } else if size < 1048576 {
        1
    } else if size < 1073741824 {
        2
    } else if size < 1099511627776 {
        3
    } else {
        4
    }
}

/// A byte count rendered for display: the whole part in its unit, one
/// truncated decimal place, a space, and the unit label.
pub open spec fn format_size_spec(size: int) -> Seq<char> {
    let idx = unit_index(size);
    let p = unit_divisor(idx);
    let whole = size / p;
    let tenth = (size % p) * 10 / p;
    dec_str(whole as nat) + seq!['.'] + seq![digit_char(tenth)] + seq![' '] + unit_label(idx)
}

fn digit_of(d: u64) -> (c: char)
    requires
        d < 10,
    ensures
        c == digit_char(d as int),
{
    match d {
        0 => '0',
        1 => '1',
        2 => '2',
        3 => '3',
        4 => '4',
        5 => '5',
        6 => '6',
        7 => '7',
        8 => '8',
        _ => '9',
    }
}

fn push_decimal(out: &mut String, n: u64)
    ensures
        final(out)@ == old(out)@ + dec_str(n as nat),
    decreases n,
{
    if n < 10 {
        out.push(digit_of(n));
        proof {
            assert(final(out)@ =~= old(out)@ + dec_str(n as nat));
        }
    } else {
        assert(n / 10 < n) by (nonlinear_arith)
            requires
                n >= 10,
        ;
        push_decimal(out, n / 10);
        out.push(digit_of(n % 10));
        proof {
            assert(final(out)@ =~= old(out)@ + dec_str(n as nat));
        }
    }
}

/// Renders a byte count with its unit, e.g. `1536` as `1.5 KB`.
pub fn format_size(size: u64) -> (r: String)
    ensures
        r@ == format_size_spec(size as int),
{
    let mut idx: u64 = 0;
    let mut div: u64 = 1;
    while idx < 4 && size >= div * 1024
        invariant
            idx <= 4,
            div == unit_divisor(idx as int),
            idx > 0 ==> size >= div,
        decreases 4 - idx,
    {
        div = div * 1024;
        idx = idx + 1;
    }
    proof {
        assert(idx as int == unit_index(size as int));
    }
    let whole = size / div;
    let rem = size % div;
    let tenth = rem * 10 / div;
    proof {
        assert(rem < div);
        assert(tenth < 10) by (nonlinear_arith)
            requires
                rem < div,
                div >= 1,
                tenth == rem as int * 10 / div as int,
        ;
        assert(whole as int == size as int / div as int);
        assert(tenth as int == (size as int % div as int) * 10 / div as int);
    }
    let mut out = String::new();
    push_decimal(&mut out, whole);
    out.push('.');
    out.push(digit_of(tenth));
    out.push(' ');
    let label = match idx {
        0 => "B",
        1 => "KB",
        2 => "MB",
        3 => "GB",
        _ => "TB",
    };
    out.append(label);
    proof {
        assert(out@ =~= format_size_spec(size as int));
    }
    out
}

/// What comes after the last dot of a file name; the whole name when it has
/// no dot.
pub open spec fn ext_of(s: Seq<char>) -> Seq<char>
    decreases s.len(),
{
    if s.len() == 0 {
        s
    } else if !s.contains('.') {
        s
    } else if s.last() == '.' {
        Seq::empty()
    } else {
        ext_of(s.drop_last()).push(s.last())
    }
}

proof fn lemma_ext_of_no_dot(s: Seq<char>)
    requires
        forall|j: int| 0 <= j < s.len() ==> s[j] != '.',
    ensures
        ext_of(s) == s,
{
    if s.len() > 0 {
        assert(!s.contains('.'));
    }
}

proof fn lemma_ext_of_last_dot(s: Seq<char>, p: int)
    requires
        0 <= p < s.len(),
        s[p] == '.',
        forall|j: int| p < j < s.len() ==> s[j] != '.',
    ensures
        ext_of(s) == s.skip(p + 1),
    decreases s.len(),
{
    assert(s.contains('.'));
    if p == s.len() - 1 {
        assert(s.last() == '.');
        assert(s.skip(p + 1) =~= Seq::<char>::empty());
    } else {
        assert(s.last() != '.');
        let t = s.drop_last();
        assert(t[p] == '.');
        assert(forall|j: int| p < j < t.len() ==> t[j] != '.');
        lemma_ext_of_last_dot(t, p);
        assert(t.skip(p + 1).push(s.last()) =~= s.skip(p + 1));
    }
}

/// The icon shown for a file name, chosen by its extension, compared
/// without regard to ASCII case.
pub open spec fn icon_of(name: Seq<char>) -> Seq<char> {
    let e = ext_of(name);
    if fold_eq(e, "rs"@) {
        "🦀"@
    } else if fold_eq(e, "py"@) {
        "🐍"@
    } else if fold_eq(e, "js"@) || fold_eq(e, "ts"@) || fold_eq(e, "jsx"@) || fold_eq(e, "tsx"@) {
        "📜"@
    } else if fold_eq(e, "html"@) || fold_eq(e, "htm"@) {
        "🌐"@
    } else if fold_eq(e, "css"@) {
        "🎨"@
    } else if fold_eq(e, "json"@) || fold_eq(e, "xml"@) || fold_eq(e, "yaml"@) || fold_eq(e, "yml"@)
        || fold_eq(e, "toml"@) {
        "⚙️"@
    } else if fold_eq(e, "md"@) || fold_eq(e, "txt"@) || fold_eq(e, "doc"@) || fold_eq(e, "docx"@) {
        "📝"@
    } else if fold_eq(e, "pdf"@) {
        "📄"@
    } else if fold_eq(e, "jpg"@) || fold_eq(e, "jpeg"@) || fold_eq(e, "png"@) || fold_eq(e, "gif"@)
        || fold_eq(e, "bmp"@) || fold_eq(e, "svg"@) || fold_eq(e, "webp"@) {
        "🖼️"@
    } else if fold_eq(e, "mp3"@) || fold_eq(e, "wav"@) || fold_eq(e, "flac"@) || fold_eq(e, "aac"@)
        || fold_eq(e, "ogg"@) {
        "🎵"@
    } else if fold_eq(e, "mp4"@) || fold_eq(e, "avi"@) || fold_eq(e, "mkv"@) || fold_eq(e, "mov"@)
        || fold_eq(e, "wmv"@) {
        "🎬"@
    } else if fold_eq(e, "zip"@) || fold_eq(e, "tar"@) || fold_eq(e, "gz"@) || fold_eq(e, "bz2"@)
        || fold_eq(e, "7z"@) || fold_eq(e, "rar"@) {
        "🗜️"@
    } else if fold_eq(e, "exe"@) || fold_eq(e, "bin"@) || fold_eq(e, "app"@) {
        "⚙️"@
    } else if fold_eq(e, "sh"@) || fold_eq(e, "bash"@) || fold_eq(e, "zsh"@) || fold_eq(e, "fish"@) {
        "🐚"@
    } else {
        "📄"@
    }
}

/// The icon shown beside a file name, chosen by its extension.
pub fn get_file_icon(name: &str) -> (r: String)
    ensures
        r@ == icon_of(name@),
{
    let len = name.unicode_len();
    let mut i: usize = 0;
    let mut dot_pos: usize = 0;
    let mut found = false;
    while i < len
        invariant
            i <= len,
            len == name@.len(),
            found ==> dot_pos < i && name@[dot_pos as int] == '.' && (forall|j: int|
                dot_pos < j < i ==> name@[j] != '.'),
            !found ==> forall|j: int| 0 <= j < i ==> name@[j] != '.',
        decreases len - i,
    {
        if name.get_char(i) == '.' {
            dot_pos = i;
            found = true;
        }
        i = i + 1;
    }
    let e: &str = if found {
        proof {
            lemma_ext_of_last_dot(name@, dot_pos as int);
        }
        let sub = name.substring_char(dot_pos + 1, len);
        proof {
            assert(sub@ =~= name@.skip(dot_pos + 1));
        }
        sub
    } else {
        proof {
            lemma_ext_of_no_dot(name@);
        }
        name
    };
    let icon = if str_fold_eq(e, "rs") {
        "🦀"
    } else if str_fold_eq(e, "py") {
        "🐍"
    } else if str_fold_eq(e, "js") || str_fold_eq(e, "ts") || str_fold_eq(e, "jsx") || str_fold_eq(
        e,
        "tsx",
    ) {
        "📜"
    } else if str_fold_eq(e, "html") || str_fold_eq(e, "htm") {
        "🌐"
    } else if str_fold_eq(e, "css") {
        "🎨"
    } else if str_fold_eq(e, "json") || str_fold_eq(e, "xml") || str_fold_eq(e, "yaml")
        || str_fold_eq(e, "yml") || str_fold_eq(e, "toml") {
        "⚙️"
    } else if str_fold_eq(e, "md") || str_fold_eq(e, "txt") || str_fold_eq(e, "doc") || str_fold_eq(
        e,
        "docx",
    ) {
        "📝"
    } else if str_fold_eq(e, "pdf") {
        "📄"
    } else if str_fold_eq(e, "jpg") || str_fold_eq(e, "jpeg") || str_fold_eq(e, "png")
        || str_fold_eq(e, "gif") || str_fold_eq(e, "bmp") || str_fold_eq(e, "svg") || str_fold_eq(
        e,
        "webp",
    ) {
        "🖼️"
    } else if str_fold_eq(e, "mp3") || str_fold_eq(e, "wav") || str_fold_eq(e, "flac")
        || str_fold_eq(e, "aac") || str_fold_eq(e, "ogg") {
        "🎵"
    } else if str_fold_eq(e, "mp4") || str_fold_eq(e, "avi") || str_fold_eq(e, "mkv")
        || str_fold_eq(e, "mov") || str_fold_eq(e, "wmv") {
        "🎬"
    } else if str_fold_eq(e, "zip") || str_fold_eq(e, "tar") || str_fold_eq(e, "gz") || str_fold_eq(
        e,
        "bz2",
    ) || str_fold_eq(e, "7z") || str_fold_eq(e, "rar") {
        "🗜️"
    } else if str_fold_eq(e, "exe") || str_fold_eq(e, "bin") || str_fold_eq(e, "app") {
        "⚙️"
    } else if str_fold_eq(e, "sh") || str_fold_eq(e, "bash") || str_fold_eq(e, "zsh")
        || str_fold_eq(e, "fish") {
        "🐚"
    } else {
        "📄"
    };
    icon.to_owned()
}

/// A file name shortened for the icon grid: names longer than fifteen
/// characters keep their first twelve and gain an ellipsis.
pub open spec fn truncated_name(name: Seq<char>) -> Seq<char> {
    if name.len() > 15 {
        name.take(12) + "..."@
    } else {
        name
    }
}

/// Shortens a file name for the icon grid.
pub fn truncate_name(name: &str) -> (r: String)
    ensures
        r@ == truncated_name(name@),
{
    let len = name.unicode_len();
    if len > 15 {
        let mut t = name.substring_char(0, 12).to_owned();
        t.append("...");
        proof {
            assert(name@.subrange(0, 12) =~= name@.take(12));
        }
        t
    } else {
        name.to_owned()
    }
}

/// Relies on chrono's `DateTime::from_timestamp`, its conversion to the
/// machine's local zone, and `format` with `%Y-%m-%d %H:%M`: renders the
/// moment `secs` seconds after the Unix epoch as local wall-clock text. The
/// text depends on the machine's time zone, so nothing more is promised;
/// chrono reports seconds out of its representable range as `None`.
#[verifier::external_body]
fn format_local_timestamp(secs: i64) -> (r: Option<String>) {
    match chrono::DateTime::from_timestamp(secs, 0) {
        Some(utc) => Some(
            utc.with_timezone(&chrono::Local).format("%Y-%m-%d %H:%M").to_string(),
        ),
        None => None,
    }
}

impl FileEntry {
    /// The entry's size for display: `--` for directories, the formatted
    /// byte count otherwise.
    pub fn format_size(&self) -> (r: String)
        ensures
            self.is_dir ==> r@ == "--"@,
            !self.is_dir ==> r@ == format_size_spec(self.size as int),
    {
        if self.is_dir {
            "--".to_owned()
        } else {
            format_size(self.size)
        }
    }

    /// The entry's modification time for display, in the machine's local
    /// time zone; `--` when no timestamp is known or it cannot be rendered.
    pub fn format_modified(&self) -> (r: String)
        ensures
            self.modified is None ==> r@ == "--"@,
    {
        match self.modified {
            None => "--".to_owned(),
            Some(secs) => match format_local_timestamp(secs) {
                Some(text) => text,
                None => "--".to_owned(),
            },
        }
    }
}

/// How the listing is laid out.
#[derive(Clone, Copy, PartialEq, Eq, Structural, Debug)]
pub enum ViewMode {
    /// A grid of large icons.
    Icons,
    /// A table with name, size, time and kind columns.
    List,
}

/// Which key the listing is ordered by.
#[derive(Clone, Copy, PartialEq, Eq, Structural, Debug)]
pub enum SortBy {
    /// Directories first, then names compared without regard to ASCII case.
    Name,
    /// Byte size.
    Size,
    /// Modification time, entries without one first.
    Modified,
}

/// The listing order for a sort key: whether `a` may stand before `b`.
pub open spec fn entry_le(sb: SortBy, a: FileEntry, b: FileEntry) -> bool {
    match sb {
        SortBy::Name => {
            if a.is_dir != b.is_dir {
                a.is_dir
            } else {
                lex_fold_le(a.name@, b.name@)
            }
        },
        SortBy::Size => a.size <= b.size,
        SortBy::Modified => match (a.modified, b.modified) {
            (Option::None, _) => true,
            (Option::Some(_), Option::None) => false,
            (Option::Some(x), Option::Some(y)) => x <= y,
        },
    }
}

/// The listing order as a relation, for stating sortedness.
pub open spec fn entry_order(sb: SortBy) -> spec_fn(FileEntry, FileEntry) -> bool {
    |a: FileEntry, b: FileEntry| entry_le(sb, a, b)
}

/// The reversed listing order, for descending listings.
pub open spec fn entry_order_desc(sb: SortBy) -> spec_fn(FileEntry, FileEntry) -> bool {
    |a: FileEntry, b: FileEntry| entry_le(sb, b, a)
}

/// Every pair of entries is related one way or the other.
pub proof fn lemma_entry_le_total(sb: SortBy, a: FileEntry, b: FileEntry)
    ensures
        entry_le(sb, a, b) || entry_le(sb, b, a),
{
    match sb {
        SortBy::Name => {
            if a.is_dir == b.is_dir {
                crate::text::lemma_lex_fold_total(a.name@, b.name@);
            }
        },
        SortBy::Size => {},
        SortBy::Modified => {},
    }
}

/// The listing order is transitive.
pub proof fn lemma_entry_le_trans(sb: SortBy, a: FileEntry, b: FileEntry, c: FileEntry)
    requires
        entry_le(sb, a, b),
        entry_le(sb, b, c),
    ensures
        entry_le(sb, a, c),
{
    match sb {
        SortBy::Name => {
            if a.is_dir == b.is_dir && b.is_dir == c.is_dir {
                crate::text::lemma_lex_fold_trans(a.name@, b.name@, c.name@);
            }
        },
        SortBy::Size => {},
        SortBy::Modified => {},
    }
}

/// Whether `a` may stand before `b` under the sort key `sb`.
pub fn entry_le_exec(sb: SortBy, a: &FileEntry, b: &FileEntry) -> (r: bool)
    ensures
        r == entry_le(sb, *a, *b),
{
    match sb {
        SortBy::Name => {
            if a.is_dir != b.is_dir {
                a.is_dir
            } else {
                str_fold_le(a.name.as_str(), b.name.as_str())
            }
        },
        SortBy::Size => a.size <= b.size,
        SortBy::Modified => match (a.modified, b.modified) {
            (Option::None, _) => true,
            (Option::Some(_), Option::None) => false,
            (Option::Some(x), Option::Some(y)) => x <= y,
        },
    }
}

/// Sorts entries by the given key, keeping exactly the same entries.
fn sort_entries_by(input: Vec<FileEntry>, sb: SortBy) -> (r: Vec<FileEntry>)
    ensures
        vstd::relations::sorted_by(r@, entry_order(sb)),
        r@.to_multiset() == input@.to_multiset(),
{
    broadcast use vstd::seq_lib::group_to_multiset_ensures;

    let ghost orig = input@;
    let mut rest = input;
    let mut out: Vec<FileEntry> = Vec::new();
    proof {
        assert(out@.to_multiset().add(rest@.to_multiset()) =~= orig.to_multiset());
    }
    while rest.len() > 0
        invariant
            vstd::relations::sorted_by(out@, entry_order(sb)),
            out@.to_multiset().add(rest@.to_multiset()) == orig.to_multiset(),
        decreases rest.len(),
    {
        let ghost rest0 = rest@;
        let x = rest.remove(0);
        proof {
            assert(rest@ == rest0.remove(0));
            vstd::seq_lib::to_multiset_remove(rest0, 0);
            assert(rest@.to_multiset() =~= rest0.to_multiset().remove(x));
        }
        let mut j: usize = 0;
        while j < out.len() && entry_le_exec(sb, &out[j], &x)
            invariant
                j <= out@.len(),
                forall|k: int| 0 <= k < j ==> entry_le(sb, out@[k], x),
            decreases out@.len() - j,
        {
            j = j + 1;
        }
        proof {
            if (j as int) < out@.len() {
                lemma_entry_le_total(sb, out@[j as int], x);
            }
            let newv = out@.insert(j as int, x);
            assert forall|p: int, q: int| 0 <= p < q < newv.len() implies entry_order(sb)(
                newv[p],
                newv[q],
            ) by {
                if q < j {
                    assert(entry_order(sb)(out@[p], out@[q]));
                } else if p < j && q == j {
                    assert(entry_le(sb, out@[p], x));
                } else if p < j && q > j {
                    assert(entry_order(sb)(out@[p], out@[q - 1]));
                } else if p == j {
                    assert(entry_le(sb, x, out@[j as int]));
                    if q - 1 > j {
                        assert(entry_order(sb)(out@[j as int], out@[q - 1]));
                        lemma_entry_le_trans(sb, x, out@[j as int], out@[q - 1]);
                    }
                } else {
                    assert(entry_order(sb)(out@[p - 1], out@[q - 1]));
                }
            }
            assert(vstd::relations::sorted_by(newv, entry_order(sb)));
            vstd::seq_lib::to_multiset_insert(out@, j as int, x);
            assert(newv.to_multiset() =~= out@.to_multiset().insert(x));
        }
        let ghost out0 = out@;
        out.insert(j, x);
        proof {
            broadcast use vstd::multiset::group_multiset_axioms;

            assert(out@ == out0.insert(j as int, x));
            assert(out@.to_multiset() =~= out0.to_multiset().insert(x));
            assert(rest0[0] == x);
            assert(rest0.contains(x));
            vstd::seq_lib::to_multiset_contains(rest0, x);
            assert(rest0.to_multiset().count(x) > 0);
            assert(out@.to_multiset().add(rest@.to_multiset()) =~= orig.to_multiset());
        }
    }
    proof {
        assert(rest@.to_multiset() =~= Multiset::<FileEntry>::empty());
        assert(out@.to_multiset() =~= orig.to_multiset());
    }
    out
}

/// Reverses the order of the entries.
fn reverse_entries(input: Vec<FileEntry>) -> (r: Vec<FileEntry>)
    ensures
        r@ == input@.reverse(),
{
    let ghost orig = input@;
    let mut rest = input;
    let mut out: Vec<FileEntry> = Vec::new();
    while rest.len() > 0
        invariant
            rest@ == orig.subrange(0, rest@.len() as int),
            out@.len() + rest@.len() == orig.len(),
            forall|k: int| 0 <= k < out@.len() ==> out@[k] == orig[orig.len() - 1 - k],
        decreases rest.len(),
    {
        let x = rest.pop().unwrap();
        out.push(x);
        proof {
            assert(rest@ =~= orig.subrange(0, rest@.len() as int));
        }
    }
    proof {
        assert(out@ =~= orig.reverse());
    }
    out
}

/// The file-listing panel: the path shown, its entries, the selection, and
/// the view and ordering settings.
pub struct ExplorerPanel {
    current_path: String,
    entries: Vec<FileEntry>,
    selected: Option<String>,
    view_mode: ViewMode,
    pending_navigation: Option<String>,
    sort_by: SortBy,
    sort_descending: bool,
}

impl ExplorerPanel {
    /// The path whose entries are listed.
    pub closed spec fn path(&self) -> Seq<char> {
        self.current_path@
    }

    /// The listed entries, in display order.
    pub closed spec fn entries_view(&self) -> Seq<FileEntry> {
        self.entries@
    }

    /// The selected entry's path, if any.
    pub closed spec fn selected_view(&self) -> Option<Seq<char>> {
        match self.selected {
            Option::Some(ref p) => Option::Some(p@),
            Option::None => Option::None,
        }
    }

    /// A navigation target not yet collected by the host, if any.
    pub closed spec fn pending_view(&self) -> Option<Seq<char>> {
        match self.pending_navigation {
            Option::Some(ref p) => Option::Some(p@),
            Option::None => Option::None,
        }
    }

    /// The current layout.
    pub closed spec fn mode(&self) -> ViewMode {
        self.view_mode
    }

    /// The current sort key.
    pub closed spec fn sort_key(&self) -> SortBy {
        self.sort_by
    }

    /// Whether the listing is shown in reverse order.
    pub closed spec fn descending(&self) -> bool {
        self.sort_descending
    }

    /// The entries stand in the order the settings ask for.
    pub open spec fn entries_ordered(&self) -> bool {
        if self.descending() {
            vstd::relations::sorted_by(self.entries_view(), entry_order_desc(self.sort_key()))
        } else {
            vstd::relations::sorted_by(self.entries_view(), entry_order(self.sort_key()))
        }
    }

    /// A fresh panel on `initial_path` with no entries yet: icon view,
    /// ascending by name. The host fills the entries in.
    pub fn new(initial_path: String) -> (r: ExplorerPanel)
        ensures
            r.path() == initial_path@,
            r.entries_view() == Seq::<FileEntry>::empty(),
            r.selected_view() is None,
            r.pending_view() is None,
            r.mode() == ViewMode::Icons,
            r.sort_key() == SortBy::Name,
            !r.descending(),
            r.entries_ordered(),
    {
        ExplorerPanel {
            current_path: initial_path,
            entries: Vec::new(),
            selected: None,
            view_mode: ViewMode::Icons,
            pending_navigation: None,
            sort_by: SortBy::Name,
            sort_descending: false,
        }
    }

    /// Moves the listing to `path`. The stale entries are dropped; the host
    /// reads the directory and hands the new ones to [`Self::set_entries`].
    pub fn navigate_to(&mut self, path: String)
        ensures
            final(self).path() == path@,
            final(self).entries_view() == Seq::<FileEntry>::empty(),
            final(self).selected_view() == old(self).selected_view(),
            final(self).pending_view() == old(self).pending_view(),
            final(self).mode() == old(self).mode(),
            final(self).sort_key() == old(self).sort_key(),
            final(self).descending() == old(self).descending(),
            final(self).entries_ordered(),
    {
        self.current_path = path;
        self.entries = Vec::new();
    }

    /// Hands over a navigation target the user picked, clearing it.
    pub fn check_navigation(&mut self) -> (r: Option<String>)
        ensures
            final(self).pending_view() is None,
            match r {
                Option::Some(p) => old(self).pending_view() == Option::Some(p@),
                Option::None => old(self).pending_view() is None,
            },
            final(self).path() == old(self).path(),
            final(self).entries_view() == old(self).entries_view(),
            final(self).selected_view() == old(self).selected_view(),
            final(self).mode() == old(self).mode(),
            final(self).sort_key() == old(self).sort_key(),
            final(self).descending() == old(self).descending(),
    {
        let r = self.pending_navigation.take();
        r
    }

    /// How many entries are listed.
    pub fn item_count(&self) -> (n: usize)
        ensures
            n == self.entries_view().len(),
    {
        self.entries.len()
    }

    /// Stores the entries read from the current path, in display order.
    pub fn set_entries(&mut self, entries: Vec<FileEntry>)
        ensures
            final(self).entries_view().to_multiset() == entries@.to_multiset(),
            final(self).entries_ordered(),
            final(self).path() == old(self).path(),
            final(self).selected_view() == old(self).selected_view(),
            final(self).pending_view() == old(self).pending_view(),
            final(self).mode() == old(self).mode(),
            final(self).sort_key() == old(self).sort_key(),
            final(self).descending() == old(self).descending(),
    {
        self.entries = entries;
        self.sort_entries();
    }

    /// Re-orders the listed entries by the current settings.
    fn sort_entries(&mut self)
        ensures
            final(self).entries_view().to_multiset() == old(self).entries_view().to_multiset(),
            final(self).entries_ordered(),
            final(self).path() == old(self).path(),
            final(self).selected_view() == old(self).selected_view(),
            final(self).pending_view() == old(self).pending_view(),
            final(self).mode() == old(self).mode(),
            final(self).sort_key() == old(self).sort_key(),
            final(self).descending() == old(self).descending(),
    {
        let taken = self.entries.split_off(0);
        proof {
            assert(taken@ =~= old(self).entries@);
        }
        let sorted = sort_entries_by(taken, self.sort_by);
        if self.sort_descending {
            let ghost sorted_view = sorted@;
            let rev = reverse_entries(sorted);
            proof {
                sorted_view.lemma_reverse_to_multiset();
                assert(rev@.to_multiset() == old(self).entries@.to_multiset());
                assert forall|p: int, q: int| 0 <= p < q < rev@.len() implies entry_order_desc(
                    self.sort_by,
                )(rev@[p], rev@[q]) by {
                    let n = sorted_view.len();
                    assert(rev@[p] == sorted_view[n - 1 - p]);
                    assert(rev@[q] == sorted_view[n - 1 - q]);
                    assert(entry_order(self.sort_by)(sorted_view[n - 1 - q], sorted_view[n - 1 - p]));
                }
            }
            self.entries = rev;
        } else {
            self.entries = sorted;
        }
    }

    /// Sets the sort key and re-orders the listing.
    pub fn set_sort_key(&mut self, sb: SortBy)
        ensures
            final(self).sort_key() == sb,
            final(self).entries_view().to_multiset() == old(self).entries_view().to_multiset(),
            final(self).entries_ordered(),
            final(self).path() == old(self).path(),
            final(self).selected_view() == old(self).selected_view(),
            final(self).pending_view() == old(self).pending_view(),
            final(self).mode() == old(self).mode(),
            final(self).descending() == old(self).descending(),
    {
        self.sort_by = sb;
        self.sort_entries();
    }

    /// Flips between ascending and descending and re-orders the listing.
    pub fn toggle_sort_direction(&mut self)
        ensures
            final(self).descending() == !old(self).descending(),
            final(self).entries_view().to_multiset() == old(self).entries_view().to_multiset(),
            final(self).entries_ordered(),
            final(self).path() == old(self).path(),
            final(self).selected_view() == old(self).selected_view(),
            final(self).pending_view() == old(self).pending_view(),
            final(self).mode() == old(self).mode(),
            final(self).sort_key() == old(self).sort_key(),
    {
        self.sort_descending = !self.sort_descending;
        self.sort_entries();
    }

    /// Switches the layout.
    pub fn set_view_mode(&mut self, mode: ViewMode)
        ensures
            final(self).mode() == mode,
            final(self).path() == old(self).path(),
            final(self).entries_view() == old(self).entries_view(),
            final(self).selected_view() == old(self).selected_view(),
            final(self).pending_view() == old(self).pending_view(),
            final(self).sort_key() == old(self).sort_key(),
            final(self).descending() == old(self).descending(),
    {
        self.view_mode = mode;
    }

    /// Records a click on the entry at `index`: it becomes the selection,
    /// and a directory becomes the pending navigation target as well.
    pub fn click_entry(&mut self, index: usize)
        requires
            index < old(self).entries_view().len(),
        ensures
            final(self).selected_view() == Option::Some(
                old(self).entries_view()[index as int].path@,
            ),
            old(self).entries_view()[index as int].is_dir ==> final(self).pending_view()
                == Option::Some(old(self).entries_view()[index as int].path@),
            !old(self).entries_view()[index as int].is_dir ==> final(self).pending_view() == old(
                self,
            ).pending_view(),
            final(self).path() == old(self).path(),
            final(self).entries_view() == old(self).entries_view(),
            final(self).mode() == old(self).mode(),
            final(self).sort_key() == old(self).sort_key(),
            final(self).descending() == old(self).descending(),
    {
        let path = self.entries[index].path.clone();
        let is_dir = self.entries[index].is_dir;
        if is_dir {
            self.pending_navigation = Some(path.clone());
        }
        self.selected = Some(path);
    }

    /// The listed entries in display order, for rendering.
    pub fn entries(&self) -> (r: &Vec<FileEntry>)
        ensures
            r@ == self.entries_view(),
    {
        &self.entries
    }

    /// The listed path, for the header.
    pub fn current_path(&self) -> (r: &String)
        ensures
            r@ == self.path(),
    {
        &self.current_path
    }

    /// The selection, for rendering.
    pub fn selected_path(&self) -> (r: &Option<String>)
        ensures
            match r {
                Option::Some(p) => self.selected_view() == Option::Some(p@),
                Option::None => self.selected_view() is None,
            },
    {
        &self.selected
    }

    /// The current layout.
    pub fn view_mode(&self) -> (r: ViewMode)
        ensures
            r == self.mode(),
    {
        self.view_mode
    }

    /// The current sort key.
    pub fn sort_by(&self) -> (r: SortBy)
        ensures
            r == self.sort_key(),
    {
        self.sort_by
    }

    /// Whether the listing is reversed.
    pub fn sort_descending(&self) -> (r: bool)
        ensures
            r == self.descending(),
    {
        self.sort_descending
    }
}

} // verus!
