//! Text search: line matching, result collection, and the panel's state.
//!
//! Walking directories and reading files is the host's work; the logic that
//! decides what matches, numbers the hits and splits a line around its first
//! match lives here.

use vstd::prelude::*;

use crate::text::{chars_to_string, fold_code};

verus! {

/// One hit: a line of a file that holds the query.
#[derive(Debug, Clone)]
pub struct SearchResult {
    /// The file the line was found in.
    pub path: String,
    /// The line's position in the file, starting at 1.
    pub line_number: usize,
    /// The line's text.
    pub line_content: String,
    /// The query that matched.
    pub matched_text: String,
}

/// Character equality under the chosen case rule.
pub open spec fn char_matches(case_sensitive: bool, a: char, b: char) -> bool {
    if case_sensitive {
        a == b
    } else {
        fold_code(a) == fold_code(b)
    }
}

/// Whether the query occurs in `hay` starting at position `i`.
pub open spec fn matches_at(hay: Seq<char>, needle: Seq<char>, case_sensitive: bool, i: int) -> bool {
    &&& 0 <= i
    &&& i + needle.len() <= hay.len()
    &&& forall|k: int| 0 <= k < needle.len() ==> char_matches(case_sensitive, hay[i + k], needle[k])
}

/// Whether the query occurs anywhere in the line.
pub open spec fn line_matches(line: Seq<char>, needle: Seq<char>, case_sensitive: bool) -> bool {
    exists|i: int| matches_at(line, needle, case_sensitive, i)
}

fn match_at(hay: &str, needle: &str, case_sensitive: bool, i: usize) -> (r: bool)
    requires
        i + needle@.len() <= hay@.len(),
    ensures
        r == matches_at(hay@, needle@, case_sensitive, i as int),
{
    let hlen = hay.unicode_len();
    let nlen = needle.unicode_len();
    let mut k: usize = 0;
    while k < nlen
        invariant
            k <= nlen,
            nlen == needle@.len(),
            hlen == hay@.len(),
            i + nlen <= hlen,
            forall|m: int|
                0 <= m < k ==> char_matches(case_sensitive, hay@[i + m], needle@[m]),
        decreases nlen - k,
    {
        let hc = hay.get_char(i + k);
        let nc = needle.get_char(k);
        let same = if case_sensitive {
            hc == nc
        } else {
            crate::text::fold_code_of(hc) == crate::text::fold_code_of(nc)
        };
        if !same {
            proof {
                assert(!char_matches(case_sensitive, hay@[i + k], needle@[k as int]));
            }
            return false;
        }
        k = k + 1;
    }
    true
}

/// The position of the query's first occurrence in the line, if any.
pub fn find_match(line: &str, needle: &str, case_sensitive: bool) -> (r: Option<usize>)
    ensures
        match r {
            Option::Some(i) => matches_at(line@, needle@, case_sensitive, i as int) && (forall|
                j: int,
            |
                0 <= j < i ==> !matches_at(line@, needle@, case_sensitive, j)),
            Option::None => !line_matches(line@, needle@, case_sensitive),
        },
{
    let llen = line.unicode_len();
    let nlen = needle.unicode_len();
    if nlen > llen {
        return None;
    }
    let mut i: usize = 0;
    while i <= llen - nlen
        invariant
            nlen <= llen,
            llen == line@.len(),
            nlen == needle@.len(),
            i <= llen - nlen + 1,
            forall|j: int| 0 <= j < i ==> !matches_at(line@, needle@, case_sensitive, j),
        decreases llen - nlen + 1 - i,
    {
        if match_at(line, needle, case_sensitive, i) {
            return Some(i);
        }
        i = i + 1;
    }
    proof {
        assert forall|j: int| !matches_at(line@, needle@, case_sensitive, j) by {
            if 0 <= j && j + nlen <= llen {
                assert(j < i);
            }
        }
    }
    None
}

/// Whether the line holds the query under the chosen case rule.
pub fn line_matches_exec(line: &str, needle: &str, case_sensitive: bool) -> (r: bool)
    ensures
        r == line_matches(line@, needle@, case_sensitive),
{
    match find_match(line, needle, case_sensitive) {
        Option::Some(_) => true,
        Option::None => false,
    }
}

/// A line with a single carriage return before its line feed loses it.
pub open spec fn trim_cr(l: Seq<char>) -> Seq<char> {
    if l.len() > 0 && l.last() == '\r' {
        l.drop_last()
    } else {
        l
    }
}

/// Splitting text into lines at line feeds, as files are read: each line
/// feed ends a line, a carriage return directly before it is dropped, and a
/// final line ending is optional.
pub open spec fn lines_feed(done: Seq<Seq<char>>, cur: Seq<char>, s: Seq<char>) -> Seq<Seq<char>>
    decreases s.len(),
{
    if s.len() == 0 {
        if cur.len() == 0 {
            done
        } else {
            done.push(cur)
        }
    } else if s[0] == '\n' {
        lines_feed(done.push(trim_cr(cur)), Seq::empty(), s.drop_first())
    } else {
        lines_feed(done, cur.push(s[0]), s.drop_first())
    }
}

/// The lines of a text.
pub open spec fn split_lines(s: Seq<char>) -> Seq<Seq<char>> {
    lines_feed(Seq::empty(), Seq::empty(), s)
}

/// Splits a file's text into its lines.
pub fn split_content(content: &str) -> (r: Vec<String>)
    ensures
        crate::scrollback::views(r@) == split_lines(content@),
{
    let len = content.unicode_len();
    let mut done: Vec<String> = Vec::new();
    let mut cur: Vec<char> = Vec::new();
    let mut i: usize = 0;
    proof {
        assert(content@.skip(0) =~= content@);
        assert(crate::scrollback::views(done@) =~= Seq::<Seq<char>>::empty());
        assert(cur@ =~= Seq::<char>::empty());
    }
    while i < len
        invariant
            i <= len,
            len == content@.len(),
            lines_feed(crate::scrollback::views(done@), cur@, content@.skip(i as int))
                == split_lines(content@),
        decreases len - i,
    {
        let c = content.get_char(i);
        proof {
            assert(content@.skip(i as int)[0] == c);
            assert(content@.skip(i as int).drop_first() =~= content@.skip(i + 1));
        }
        if c == '\n' {
            let ghost pre_done = crate::scrollback::views(done@);
            let ghost pre_cur = cur@;
            if cur.len() > 0 && cur[cur.len() - 1] == '\r' {
                cur.pop();
                proof {
                    assert(cur@ =~= trim_cr(pre_cur));
                }
            }
            proof {
                assert(cur@ =~= trim_cr(pre_cur));
            }
            let line = chars_to_string(&cur);
            done.push(line);
            cur = Vec::new();
            proof {
                assert(crate::scrollback::views(done@) =~= pre_done.push(trim_cr(pre_cur)));
                assert(cur@ =~= Seq::<char>::empty());
            }
        } else {
            cur.push(c);
        }
        i = i + 1;
    }
    proof {
        assert(content@.skip(len as int) =~= Seq::<char>::empty());
    }
    if cur.len() > 0 {
        let ghost pre_done = crate::scrollback::views(done@);
        let line = chars_to_string(&cur);
        done.push(line);
        proof {
            assert(crate::scrollback::views(done@) =~= pre_done.push(cur@));
        }
    }
    done
}

/// The hits in a file's lines, in order: each matching line with its
/// position.
pub open spec fn match_list(
    lines: Seq<Seq<char>>,
    needle: Seq<char>,
    case_sensitive: bool,
) -> Seq<(int, Seq<char>)>
    decreases lines.len(),
{
    if lines.len() == 0 {
        Seq::empty()
    } else {
        let init = match_list(lines.drop_last(), needle, case_sensitive);
        if line_matches(lines.last(), needle, case_sensitive) {
            init.push(((lines.len() - 1) as int, lines.last()))
        } else {
            init
        }
    }
}

/// How many hits a capped collection returns.
pub open spec fn capped_len(full: int, limit: int) -> int {
    if full <= limit {
        full
    } else {
        limit
    }
}

proof fn lemma_match_list_step(lines: Seq<Seq<char>>, needle: Seq<char>, cs: bool, i: int)
    requires
        0 <= i < lines.len(),
    ensures
        match_list(lines.take(i + 1), needle, cs) == if line_matches(lines[i], needle, cs) {
            match_list(lines.take(i), needle, cs).push((i, lines[i]))
        } else {
            match_list(lines.take(i), needle, cs)
        },
{
    let t = lines.take(i + 1);
    assert(t.drop_last() =~= lines.take(i));
    assert(t.last() == lines[i]);
}

proof fn lemma_match_list_prefix(lines: Seq<Seq<char>>, needle: Seq<char>, cs: bool, i: int)
    requires
        0 <= i <= lines.len(),
    ensures
        match_list(lines.take(i), needle, cs).len() <= match_list(lines, needle, cs).len(),
        forall|k: int|
            0 <= k < match_list(lines.take(i), needle, cs).len() ==> match_list(
                lines.take(i),
                needle,
                cs,
            )[k] == match_list(lines, needle, cs)[k],
    decreases lines.len() - i,
{
    if i == lines.len() {
        assert(lines.take(i) =~= lines);
    } else {
        lemma_match_list_step(lines, needle, cs, i);
        lemma_match_list_prefix(lines, needle, cs, i + 1);
    }
}

/// Collects the file's hits, at most `limit` of them, in line order.
pub fn search_file(
    path: &str,
    content: &str,
    query: &str,
    case_sensitive: bool,
    limit: usize,
) -> (r: Vec<SearchResult>)
    ensures
        r@.len() == capped_len(
            match_list(split_lines(content@), query@, case_sensitive).len() as int,
            limit as int,
        ),
        forall|k: int|
            0 <= k < r@.len() ==> {
                &&& r@[k].path@ == path@
                &&& r@[k].matched_text@ == query@
                &&& r@[k].line_number as int == match_list(
                    split_lines(content@),
                    query@,
                    case_sensitive,
                )[k].0 + 1
                &&& r@[k].line_content@ == match_list(
                    split_lines(content@),
                    query@,
                    case_sensitive,
                )[k].1
            },
{
    let ghost all_lines = split_lines(content@);
    let ghost full = match_list(all_lines, query@, case_sensitive);
    let lines = split_content(content);
    let mut out: Vec<SearchResult> = Vec::new();
    let mut i: usize = 0;
    proof {
        assert(all_lines.take(0) =~= Seq::<Seq<char>>::empty());
    }
    while i < lines.len() && out.len() < limit
        invariant
            i <= lines@.len(),
            crate::scrollback::views(lines@) == all_lines,
            out@.len() <= limit,
            out@.len() == capped_len(
                match_list(all_lines.take(i as int), query@, case_sensitive).len() as int,
                limit as int,
            ),
            out@.len() < limit ==> out@.len() == match_list(
                all_lines.take(i as int),
                query@,
                case_sensitive,
            ).len(),
            forall|k: int|
                0 <= k < out@.len() ==> {
                    &&& out@[k].path@ == path@
                    &&& out@[k].matched_text@ == query@
                    &&& out@[k].line_number as int == match_list(
                        all_lines.take(i as int),
                        query@,
                        case_sensitive,
                    )[k].0 + 1
                    &&& out@[k].line_content@ == match_list(
                        all_lines.take(i as int),
                        query@,
                        case_sensitive,
                    )[k].1
                },
        decreases lines@.len() - i,
    {
        proof {
            lemma_match_list_step(all_lines, query@, case_sensitive, i as int);
            assert(all_lines[i as int] == lines@[i as int]@);
        }
        if line_matches_exec(lines[i].as_str(), query, case_sensitive) {
            let hit = SearchResult {
                path: path.to_owned(),
                line_number: i + 1,
                line_content: lines[i].clone(),
                matched_text: query.to_owned(),
            };
            out.push(hit);
        }
        i = i + 1;
    }
    proof {
        if i == lines@.len() {
            assert(all_lines.take(i as int) =~= all_lines);
        } else {
            assert(out@.len() == limit);
            lemma_match_list_prefix(all_lines, query@, case_sensitive, i as int);
        }
    }
    out
}

/// Splits a line around the first occurrence of the query: the text before
/// the match, the matched text itself, and the text after it. Nothing comes
/// back when the line does not match.
pub fn highlight_split(line: &str, query: &str, case_sensitive: bool) -> (r: Option<
    (String, String, String),
>)
    ensures
        !line_matches(line@, query@, case_sensitive) ==> r is None,
        line_matches(line@, query@, case_sensitive) ==> (r matches Some(parts) && (exists|i: int|
            {
                &&& matches_at(line@, query@, case_sensitive, i)
                &&& (forall|j: int| 0 <= j < i ==> !matches_at(line@, query@, case_sensitive, j))
                &&& parts.0@ == line@.take(i)
                &&& parts.1@ == line@.subrange(i, i + query@.len())
                &&& parts.2@ == line@.skip(i + query@.len())
            })),
{
    match find_match(line, query, case_sensitive) {
        Option::Some(i) => {
            let llen = line.unicode_len();
            let qlen = query.unicode_len();
            let before = line.substring_char(0, i);
            let matched = line.substring_char(i, i + qlen);
            let after = line.substring_char(i + qlen, llen);
            proof {
                assert(before@ =~= line@.take(i as int));
                assert(after@ =~= line@.skip(i + qlen));
            }
            Some((before.to_owned(), matched.to_owned(), after.to_owned()))
        },
        Option::None => None,
    }
}

/// The search window's state: visibility, the query, its options, and the
/// directory the search starts from.
pub struct SearchPanel {
    visible: bool,
    query: String,
    pending_search: Option<String>,
    search_path: Option<String>,
    include_pattern: String,
    exclude_pattern: String,
    case_sensitive: bool,
    search_in_progress: bool,
}

impl SearchPanel {
    /// Whether the window is shown.
    pub closed spec fn visible(&self) -> bool {
        self.visible
    }

    /// The query text.
    pub closed spec fn query_view(&self) -> Seq<char> {
        self.query@
    }

    /// A requested search not yet collected by the host, if any.
    pub closed spec fn pending_view(&self) -> Option<Seq<char>> {
        match self.pending_search {
            Option::Some(ref p) => Option::Some(p@),
            Option::None => Option::None,
        }
    }

    /// The directory searches start from, if set.
    pub closed spec fn search_path_view(&self) -> Option<Seq<char>> {
        match self.search_path {
            Option::Some(ref p) => Option::Some(p@),
            Option::None => Option::None,
        }
    }

    /// The include pattern text.
    pub closed spec fn include_view(&self) -> Seq<char> {
        self.include_pattern@
    }

    /// The exclude pattern text.
    pub closed spec fn exclude_view(&self) -> Seq<char> {
        self.exclude_pattern@
    }

    /// Whether matching honors case.
    pub closed spec fn case_sensitive_flag(&self) -> bool {
        self.case_sensitive
    }

    /// Whether a search has been started and not yet observed finished.
    pub closed spec fn in_progress(&self) -> bool {
        self.search_in_progress
    }

    /// A hidden panel with an empty query, matching case-insensitively,
    /// including everything and excluding the usual build and VCS
    /// directories.
    pub fn new() -> (r: SearchPanel)
        ensures
            !r.visible(),
            r.query_view() == Seq::<char>::empty(),
            r.pending_view() is None,
            r.search_path_view() is None,
            r.include_view() == "*"@,
            r.exclude_view() == ".git,node_modules,target"@,
            !r.case_sensitive_flag(),
            !r.in_progress(),
    {
        SearchPanel {
            visible: false,
            query: String::new(),
            pending_search: None,
            search_path: None,
            include_pattern: "*".to_owned(),
            exclude_pattern: ".git,node_modules,target".to_owned(),
            case_sensitive: false,
            search_in_progress: false,
        }
    }

    /// Shows the window if hidden, hides it if shown.
    pub fn toggle(&mut self)
        ensures
            final(self).visible() == !old(self).visible(),
            final(self).query_view() == old(self).query_view(),
            final(self).pending_view() == old(self).pending_view(),
            final(self).search_path_view() == old(self).search_path_view(),
            final(self).include_view() == old(self).include_view(),
            final(self).exclude_view() == old(self).exclude_view(),
            final(self).case_sensitive_flag() == old(self).case_sensitive_flag(),
            final(self).in_progress() == old(self).in_progress(),
    {
        self.visible = !self.visible;
    }

    /// Whether the window is shown.
    pub fn is_visible(&self) -> (r: bool)
        ensures
            r == self.visible(),
    {
        self.visible
    }

    /// Sets the directory searches start from.
    pub fn set_search_path(&mut self, path: String)
        ensures
            final(self).search_path_view() == Option::Some(path@),
            final(self).visible() == old(self).visible(),
            final(self).query_view() == old(self).query_view(),
            final(self).pending_view() == old(self).pending_view(),
            final(self).include_view() == old(self).include_view(),
            final(self).exclude_view() == old(self).exclude_view(),
            final(self).case_sensitive_flag() == old(self).case_sensitive_flag(),
            final(self).in_progress() == old(self).in_progress(),
    {
        self.search_path = Some(path);
    }

    /// Hands over the search request, if one is waiting: the search path
    /// comes back when a request was pending and a path is set. The request
    /// is cleared either way.
    pub fn check_search(&mut self) -> (r: Option<String>)
        ensures
            final(self).pending_view() is None,
            old(self).pending_view() is Some ==> (match old(self).search_path_view() {
                Option::Some(p) => r matches Some(q) && q@ == p,
                Option::None => r is None,
            }),
            old(self).pending_view() is None ==> r is None,
            final(self).visible() == old(self).visible(),
            final(self).query_view() == old(self).query_view(),
            final(self).search_path_view() == old(self).search_path_view(),
            final(self).include_view() == old(self).include_view(),
            final(self).exclude_view() == old(self).exclude_view(),
            final(self).case_sensitive_flag() == old(self).case_sensitive_flag(),
            final(self).in_progress() == old(self).in_progress(),
    {
        let pending = self.pending_search.take();
        match pending {
            Option::Some(_) => match &self.search_path {
                Option::Some(p) => Some(p.clone()),
                Option::None => None,
            },
            Option::None => None,
        }
    }

    /// Starts a search if the query is not empty: marks one in progress and
    /// says whether the host should begin searching.
    pub fn begin_search(&mut self) -> (r: bool)
        ensures
            r == (old(self).query_view().len() != 0),
            r ==> final(self).in_progress(),
            !r ==> final(self).in_progress() == old(self).in_progress(),
            final(self).visible() == old(self).visible(),
            final(self).query_view() == old(self).query_view(),
            final(self).pending_view() == old(self).pending_view(),
            final(self).search_path_view() == old(self).search_path_view(),
            final(self).include_view() == old(self).include_view(),
            final(self).exclude_view() == old(self).exclude_view(),
            final(self).case_sensitive_flag() == old(self).case_sensitive_flag(),
    {
        if self.query.as_str().unicode_len() == 0 {
            return false;
        }
        self.search_in_progress = true;
        true
    }

    /// Marks the running search finished.
    pub fn finish_search(&mut self)
        ensures
            !final(self).in_progress(),
            final(self).visible() == old(self).visible(),
            final(self).query_view() == old(self).query_view(),
            final(self).pending_view() == old(self).pending_view(),
            final(self).search_path_view() == old(self).search_path_view(),
            final(self).include_view() == old(self).include_view(),
            final(self).exclude_view() == old(self).exclude_view(),
            final(self).case_sensitive_flag() == old(self).case_sensitive_flag(),
    {
        self.search_in_progress = false;
    }

    /// The query text, for the input field.
    pub fn query_text(&self) -> (r: &String)
        ensures
            r@ == self.query_view(),
    {
        &self.query
    }

    /// Replaces the query text, as the host does while the user edits it.
    pub fn set_query(&mut self, text: String)
        ensures
            final(self).query_view() == text@,
            final(self).visible() == old(self).visible(),
            final(self).pending_view() == old(self).pending_view(),
            final(self).search_path_view() == old(self).search_path_view(),
            final(self).include_view() == old(self).include_view(),
            final(self).exclude_view() == old(self).exclude_view(),
            final(self).case_sensitive_flag() == old(self).case_sensitive_flag(),
            final(self).in_progress() == old(self).in_progress(),
    {
        self.query = text;
    }

    /// Whether matching honors case.
    pub fn case_sensitive(&self) -> (r: bool)
        ensures
            r == self.case_sensitive_flag(),
    {
        self.case_sensitive
    }

    /// Sets whether matching honors case.
    pub fn set_case_sensitive(&mut self, on: bool)
        ensures
            final(self).case_sensitive_flag() == on,
            final(self).visible() == old(self).visible(),
            final(self).query_view() == old(self).query_view(),
            final(self).pending_view() == old(self).pending_view(),
            final(self).search_path_view() == old(self).search_path_view(),
            final(self).include_view() == old(self).include_view(),
            final(self).exclude_view() == old(self).exclude_view(),
            final(self).in_progress() == old(self).in_progress(),
    {
        self.case_sensitive = on;
    }

    /// The include pattern, for its input field.
    pub fn include_pattern(&self) -> (r: &String)
        ensures
            r@ == self.include_view(),
    {
        &self.include_pattern
    }

    /// Replaces the include pattern.
    pub fn set_include_pattern(&mut self, text: String)
        ensures
            final(self).include_view() == text@,
            final(self).visible() == old(self).visible(),
            final(self).query_view() == old(self).query_view(),
            final(self).pending_view() == old(self).pending_view(),
            final(self).search_path_view() == old(self).search_path_view(),
            final(self).exclude_view() == old(self).exclude_view(),
            final(self).case_sensitive_flag() == old(self).case_sensitive_flag(),
            final(self).in_progress() == old(self).in_progress(),
    {
        self.include_pattern = text;
    }

    /// The exclude pattern, for its input field.
    pub fn exclude_pattern(&self) -> (r: &String)
        ensures
            r@ == self.exclude_view(),
    {
        &self.exclude_pattern
    }

    /// Replaces the exclude pattern.
    pub fn set_exclude_pattern(&mut self, text: String)
        ensures
            final(self).exclude_view() == text@,
            final(self).visible() == old(self).visible(),
            final(self).query_view() == old(self).query_view(),
            final(self).pending_view() == old(self).pending_view(),
            final(self).search_path_view() == old(self).search_path_view(),
            final(self).include_view() == old(self).include_view(),
            final(self).case_sensitive_flag() == old(self).case_sensitive_flag(),
            final(self).in_progress() == old(self).in_progress(),
    {
        self.exclude_pattern = text;
    }

    /// The directory searches start from, if set.
    pub fn search_path(&self) -> (r: &Option<String>)
        ensures
            match r {
                Option::Some(p) => self.search_path_view() == Option::Some(p@),
                Option::None => self.search_path_view() is None,
            },
    {
        &self.search_path
    }

    /// Whether a search is marked in progress.
    pub fn search_in_progress(&self) -> (r: bool)
        ensures
            r == self.in_progress(),
    {
        self.search_in_progress
    }
}

} // verus!
