//! The Licenses and Credits pages: bundled documents, search through them,
//! and the crate list read from the third-party license bundle.
use vstd::prelude::*;

use crate::text::{
    chars_equal, chars_of, contains, contains_chars, decimal, ends_with, find, find_from, has_prefix, has_suffix,
    join, join_strings, lines, lowercase, pad_left, push_decimal, push_padded, replace_all, replace_chars, rfind,
    rfind_char, slice_chars, split_lines, starts_with, str_equal, string_of, to_lowercase, trim, trim_chars,
    digit_char, no_newline, lemma_join_line_count, lemma_lines_no_newline,
};

verus! {

/// A page of the window.
#[derive(Clone, Copy, Debug, PartialEq, Eq, Structural)]
pub enum Page {
    Dashboard,
    Settings,
    About,
    Licenses,
    Credits,
}

impl Page {
    /// The page belongs to the About group of the sidebar.
    pub fn about_group(self) -> (r: bool)
        ensures
            r == (self == Page::About || self == Page::Licenses || self == Page::Credits),
    {
        match self {
            Page::About | Page::Licenses | Page::Credits => true,
            _ => false,
        }
    }
}

/// A document of the Licenses page.
#[derive(Clone, Copy, Debug, PartialEq, Eq, Structural)]
pub enum LicenseDocument {
    App,
    ThirdParty,
    Credits,
    Runtime,
}

impl LicenseDocument {
    /// Every document, in tab order.
    pub const ALL: [LicenseDocument; 4] = [
        LicenseDocument::App,
        LicenseDocument::ThirdParty,
        LicenseDocument::Credits,
        LicenseDocument::Runtime,
    ];

    pub open spec fn label_text(self) -> Seq<char> {
        match self {
            LicenseDocument::App => "RMJ License"@,
            LicenseDocument::ThirdParty => "Third-party"@,
            LicenseDocument::Credits => "Acknowledgments"@,
            LicenseDocument::Runtime => "Runtime components"@,
        }
    }

    /// The tab label.
    pub fn label(self) -> (r: &'static str)
        ensures
            r@ == self.label_text(),
    {
        match self {
            LicenseDocument::App => "RMJ License",
            LicenseDocument::ThirdParty => "Third-party",
            LicenseDocument::Credits => "Acknowledgments",
            LicenseDocument::Runtime => "Runtime components",
        }
    }

    pub open spec fn subtitle_text(self) -> Seq<char> {
        match self {
            LicenseDocument::App => "The complete MIT license text bundled into the application."@,
            LicenseDocument::ThirdParty => "The cargo-about-generated bundle with every direct and transitive Rust crate, grouped by license text."@,
            LicenseDocument::Credits => "Narrative attribution for Realistic Mouse Jiggler and its integrations."@,
            LicenseDocument::Runtime => "System services and optional tools Realistic Mouse Jiggler integrates with."@,
        }
    }

    /// The line under the document title.
    pub fn subtitle(self) -> (r: &'static str)
        ensures
            r@ == self.subtitle_text(),
    {
        match self {
            LicenseDocument::App => "The complete MIT license text bundled into the application.",
            LicenseDocument::ThirdParty => "The cargo-about-generated bundle with every direct and transitive Rust crate, grouped by license text.",
            LicenseDocument::Credits => "Narrative attribution for Realistic Mouse Jiggler and its integrations.",
            LicenseDocument::Runtime => "System services and optional tools Realistic Mouse Jiggler integrates with.",
        }
    }
}

/// The search term a query stands for: trimmed and in ASCII lower case.
pub open spec fn needle_of(query: Seq<char>) -> Seq<char> {
    lowercase(trim(query))
}

/// A line as the search shows it: its 1-based number right-aligned in five
/// columns, two spaces, the line.
pub open spec fn numbered(n: nat, line: Seq<char>) -> Seq<char> {
    pad_left(decimal(n), 5) + "  "@ + line
}

/// The lines containing `needle` (ignoring ASCII case), numbered by position.
pub open spec fn numbered_matches(ls: Seq<Seq<char>>, needle: Seq<char>) -> Seq<Seq<char>>
    decreases ls.len(),
{
    if ls.len() == 0 {
        Seq::empty()
    } else {
        let rest = numbered_matches(ls.drop_last(), needle);
        if contains(lowercase(ls.last()), needle) {
            rest.push(numbered(ls.len(), ls.last()))
        } else {
            rest
        }
    }
}

/// The number of lines of a document.
pub fn line_count(text: &str) -> (r: usize)
    ensures
        r == lines(text@).len(),
{
    let chars = chars_of(text);
    if chars.len() == 0 {
        proof {
            assert(text@.len() == 0);
            assert(lines(text@).len() == 0);
        }
        return 0;
    }
    split_lines(chars.as_slice()).len()
}

fn needle_chars(query: &str) -> (r: Vec<char>)
    ensures
        r@ == needle_of(query@),
{
    let q = chars_of(query);
    let t = trim_chars(q.as_slice());
    to_lowercase(t.as_slice())
}

fn line_matches(line: &Vec<char>, needle: &Vec<char>) -> (r: bool)
    ensures
        r == contains(lowercase(line@), needle@),
{
    let lower = to_lowercase(line.as_slice());
    contains_chars(lower.as_slice(), needle.as_slice())
}

/// The number of lines of `text` matching `query`, or 0 for an empty query.
pub open spec fn spec_count_matching_lines(text: Seq<char>, query: Seq<char>) -> nat {
    if needle_of(query).len() == 0 { 0 } else { numbered_matches(lines(text), needle_of(query)).len() }
}

/// The number of lines matching a search query, or 0 for an empty query.
pub fn count_matching_lines(text: &str, query: &str) -> (r: usize)
    ensures
        r == spec_count_matching_lines(text@, query@),
{
    let needle = needle_chars(query);
    if needle.len() == 0 {
        return 0;
    }
    let chars = chars_of(text);
    let ls = split_lines(chars.as_slice());
    let ghost all = ls.deep_view();
    let mut count: usize = 0;
    let mut i: usize = 0;
    while i < ls.len()
        invariant
            i <= ls@.len(),
            all == ls.deep_view(),
            all.len() == ls@.len(),
            count == numbered_matches(all.take(i as int), needle@).len(),
            count <= i,
        decreases ls@.len() - i,
    {
        proof {
            assert(all.take(i + 1).drop_last() =~= all.take(i as int));
            assert(all.take(i + 1).last() == ls@[i as int]@);
        }
        if line_matches(&ls[i], &needle) {
            count = count + 1;
        }
        i = i + 1;
    }
    proof {
        assert(all.take(ls@.len() as int) =~= all);
    }
    count
}

/// What the Licenses page shows for a query: the whole document for an
/// empty query; otherwise the matching lines, numbered and joined by newlines,
/// or a note that nothing matched.
pub open spec fn spec_filtered_body(text: Seq<char>, query: Seq<char>) -> Seq<char> {
    let needle = needle_of(query);
    if needle.len() == 0 {
        text
    } else {
        let m = numbered_matches(lines(text), needle);
        if m.len() == 0 {
            "No matches for '"@ + query + "'."@
        } else {
            join(m, "\n"@)
        }
    }
}

/// The document text filtered by a search query.
pub fn filtered_body(text: &str, query: &str) -> (r: String)
    ensures
        r@ == spec_filtered_body(text@, query@),
{
    let needle = needle_chars(query);
    if needle.len() == 0 {
        return String::from_str(text);
    }
    let chars = chars_of(text);
    let ls = split_lines(chars.as_slice());
    let ghost all = ls.deep_view();
    let mut matches: Vec<String> = Vec::new();
    let mut i: usize = 0;
    while i < ls.len()
        invariant
            i <= ls@.len(),
            all == ls.deep_view(),
            all.len() == ls@.len(),
            matches.deep_view() == numbered_matches(all.take(i as int), needle@),
        decreases ls@.len() - i,
    {
        proof {
            assert(all.take(i + 1).drop_last() =~= all.take(i as int));
            assert(all.take(i + 1).last() == ls@[i as int]@);
            assert(all.take(i + 1).len() == i + 1);
        }
        if line_matches(&ls[i], &needle) {
            let mut number = String::new();
            push_decimal(&mut number, (i + 1) as u64);
            let mut entry = String::new();
            push_padded(&mut entry, number.as_str(), 5);
            entry.append("  ");
            let line = string_of(ls[i].as_slice());
            entry.append(line.as_str());
            let ghost before = matches.deep_view();
            matches.push(entry);
            proof {
                assert(matches.deep_view() =~= before.push(numbered((i + 1) as nat, all[i as int])));
            }
        }
        i = i + 1;
    }
    proof {
        assert(all.take(ls@.len() as int) =~= all);
    }
    if matches.len() == 0 {
        let mut note = String::from_str("No matches for '");
        note.append(query);
        note.append("'.");
        note
    } else {
        join_strings(&matches, "\n")
    }
}

/// The line count shown beside a document: every line for an empty query,
/// otherwise the matching lines.
pub open spec fn spec_shown_line_count(text: Seq<char>, query: Seq<char>) -> nat {
    if needle_of(query).len() == 0 { lines(text).len() } else { spec_count_matching_lines(text, query) }
}

/// The line count shown beside a document for a search query.
pub fn shown_line_count(text: &str, query: &str) -> (r: usize)
    ensures
        r == spec_shown_line_count(text@, query@),
{
    let needle = needle_chars(query);
    if needle.len() == 0 {
        line_count(text)
    } else {
        count_matching_lines(text, query)
    }
}

/// A search count is the number of lines the filtered body shows. It never
/// exceeds the document's line count; when lines match, the filtered body has
/// exactly that many lines; when none match, the body is the "No matches"
/// note; for an empty query nothing is counted as a match and the body is the
/// whole document.
pub proof fn lemma_count_is_lines_shown(text: Seq<char>, query: Seq<char>)
    ensures
        spec_count_matching_lines(text, query) <= lines(text).len(),
        spec_count_matching_lines(text, query) > 0
            ==> lines(spec_filtered_body(text, query)).len() == spec_count_matching_lines(text, query),
        needle_of(query).len() > 0 && spec_count_matching_lines(text, query) == 0
            ==> spec_filtered_body(text, query) == "No matches for '"@ + query + "'."@,
        needle_of(query).len() == 0 ==> spec_filtered_body(text, query) == text
            && spec_shown_line_count(text, query) == lines(text).len(),
{
    let ls = lines(text);
    let needle = needle_of(query);
    lemma_matches_within_lines(ls, needle);
    if needle.len() > 0 {
        lemma_lines_no_newline(text);
        lemma_matches_printable(ls, needle);
        lemma_join_line_count(numbered_matches(ls, needle));
    }
}

proof fn lemma_matches_within_lines(ls: Seq<Seq<char>>, needle: Seq<char>)
    ensures
        numbered_matches(ls, needle).len() <= ls.len(),
    decreases ls.len(),
{
    if ls.len() > 0 {
        lemma_matches_within_lines(ls.drop_last(), needle);
    }
}

proof fn lemma_decimal_no_newline(n: nat)
    ensures
        no_newline(decimal(n)),
    decreases n,
{
    if n < 10 {
        assert(digit_char(n) != '\n');
    } else {
        lemma_decimal_no_newline(n / 10);
        assert(digit_char(n % 10) != '\n');
        let d = decimal(n / 10);
        assert forall|j: int| 0 <= j < decimal(n).len() implies decimal(n)[j] != '\n' by {
            if j < d.len() {
                assert(decimal(n)[j] == d[j]);
            }
        }
    }
}

/// Every numbered match is a non-empty line without a newline.
proof fn lemma_matches_printable(ls: Seq<Seq<char>>, needle: Seq<char>)
    requires
        forall|k: int| 0 <= k < ls.len() ==> no_newline(#[trigger] ls[k]),
    ensures
        forall|i: int| 0 <= i < numbered_matches(ls, needle).len()
            ==> (#[trigger] numbered_matches(ls, needle)[i]).len() > 0 && no_newline(numbered_matches(ls, needle)[i]),
    decreases ls.len(),
{
    reveal_strlit("  ");
    if ls.len() > 0 {
        let rest = ls.drop_last();
        assert forall|k: int| 0 <= k < rest.len() implies no_newline(#[trigger] rest[k]) by {
            assert(rest[k] == ls[k]);
        }
        lemma_matches_printable(rest, needle);
        let line = ls.last();
        assert(no_newline(ls[ls.len() - 1]));
        let n = numbered(ls.len(), line);
        lemma_decimal_no_newline(ls.len());
        let pad = pad_left(decimal(ls.len()), 5);
        assert(no_newline(pad)) by {
            assert forall|j: int| 0 <= j < pad.len() implies pad[j] != '\n' by {
                let d = decimal(ls.len());
                if d.len() < 5 {
                    let w = (5 - d.len()) as nat;
                    if j >= w {
                        assert(pad[j] == d[j - w]);
                    }
                }
            }
        }
        assert(no_newline(n)) by {
            assert forall|j: int| 0 <= j < n.len() implies n[j] != '\n' by {
                if j < pad.len() {
                    assert(n[j] == pad[j]);
                } else if j < pad.len() + 2 {
                    assert(n[j] == "  "@[j - pad.len()]);
                } else {
                    assert(n[j] == line[j - pad.len() - 2]);
                }
            }
        }
        assert(n.len() > 0);
        let m = numbered_matches(ls, needle);
        let mr = numbered_matches(rest, needle);
        assert forall|i: int| 0 <= i < m.len() implies (#[trigger] m[i]).len() > 0 && no_newline(m[i]) by {
            if i < mr.len() {
                assert(m[i] == mr[i]);
            } else {
                assert(m[i] == n);
            }
        }
    }
}

/// One crate of the third-party license bundle.
#[derive(Clone, Debug, PartialEq, Eq)]
pub struct ThirdPartyCredit {
    pub name: String,
    pub version: String,
    pub license: String,
    pub url: String,
}

/// The mathematical value of a [`ThirdPartyCredit`].
pub struct CreditView {
    pub name: Seq<char>,
    pub version: Seq<char>,
    pub license: Seq<char>,
    pub url: Seq<char>,
}

impl View for ThirdPartyCredit {
    type V = CreditView;

    open spec fn view(&self) -> CreditView {
        CreditView { name: self.name@, version: self.version@, license: self.license@, url: self.url@ }
    }
}

pub open spec fn credits_view(v: Seq<ThirdPartyCredit>) -> Seq<CreditView> {
    v.map_values(|c: ThirdPartyCredit| c@)
}

/// A `Used by:` line of the bundle, `` - [`name version`](url) ``, as a
/// credit under `license`; `None` when the line has another shape.
pub open spec fn spec_parse_used_by_line(line: Seq<char>, license: Seq<char>) -> Option<CreditView> {
    if !starts_with(line, "- [`"@) {
        None
    } else {
        let body = line.skip(4);
        match find_from(body, "`]("@, 0) {
            None => None,
            Some(i) => {
                let label = body.take(i);
                let rest = body.skip(i + 3);
                if !ends_with(rest, ")"@) {
                    None
                } else {
                    match rfind_char(label, ' ') {
                        None => None,
                        Some(j) => Some(CreditView {
                            name: label.take(j),
                            version: label.skip(j + 1),
                            license,
                            url: rest.drop_last(),
                        }),
                    }
                }
            },
        }
    }
}

fn parse_used_by_chars(line: &[char], license: &[char]) -> (r: Option<ThirdPartyCredit>)
    ensures
        match r {
            Some(c) => spec_parse_used_by_line(line@, license@) == Some(c@),
            None => spec_parse_used_by_line(line@, license@) is None,
        },
{
    let prefix = chars_of("- [`");
    proof {
        reveal_strlit("- [`");
    }
    if !has_prefix(line, prefix.as_slice()) {
        return None;
    }
    let body = slice_chars(line, 4, line.len());
    proof {
        assert(body@ =~= line@.skip(4));
    }
    let sep = chars_of("`](");
    proof {
        reveal_strlit("`](");
    }
    let i = match find(body.as_slice(), sep.as_slice(), 0) {
        None => return None,
        Some(i) => i,
    };
    proof {
        assert(i + 3 <= body@.len()) by {
            reveal_with_fuel(find_from, 1);
            lemma_find_in_range(body@, sep@, 0);
        }
    }
    let label = slice_chars(body.as_slice(), 0, i);
    let rest = slice_chars(body.as_slice(), i + 3, body.len());
    let close = chars_of(")");
    proof {
        reveal_strlit(")");
    }
    if !has_suffix(rest.as_slice(), close.as_slice()) {
        return None;
    }
    let url = slice_chars(rest.as_slice(), 0, rest.len() - 1);
    let j = match rfind(label.as_slice(), ' ') {
        None => return None,
        Some(j) => j,
    };
    proof {
        lemma_rfind_in_range(label@, ' ');
    }
    let name = slice_chars(label.as_slice(), 0, j);
    let version = slice_chars(label.as_slice(), j + 1, label.len());
    proof {
        assert(label@ =~= body@.take(i as int));
        assert(rest@ =~= body@.skip(i + 3));
        assert(url@ =~= rest@.drop_last());
        assert(name@ =~= label@.take(j as int));
        assert(version@ =~= label@.skip(j + 1));
    }
    Some(ThirdPartyCredit {
        name: string_of(name.as_slice()),
        version: string_of(version.as_slice()),
        license: string_of(license),
        url: string_of(url.as_slice()),
    })
}

proof fn lemma_find_in_range(hay: Seq<char>, needle: Seq<char>, from: int)
    requires
        from >= 0,
        find_from(hay, needle, from) is Some,
    ensures
        find_from(hay, needle, from)->0 + needle.len() <= hay.len(),
        find_from(hay, needle, from)->0 >= from,
    decreases hay.len() + 1 - from,
{
    if !crate::text::occurs_at(hay, needle, from) {
        lemma_find_in_range(hay, needle, from + 1);
    }
}

proof fn lemma_rfind_in_range(s: Seq<char>, c: char)
    requires
        rfind_char(s, c) is Some,
    ensures
        0 <= rfind_char(s, c)->0 < s.len(),
    decreases s.len(),
{
    if s.last() != c {
        lemma_rfind_in_range(s.drop_last(), c);
    }
}

/// Parse a `Used by:` line, `` - [`name version`](url) ``, into a credit under `license`.
pub fn parse_used_by_line(line: &str, license: &str) -> (r: Option<ThirdPartyCredit>)
    ensures
        match r {
            Some(c) => spec_parse_used_by_line(line@, license@) == Some(c@),
            None => spec_parse_used_by_line(line@, license@) is None,
        },
{
    let l = chars_of(line);
    let lic = chars_of(license);
    parse_used_by_chars(l.as_slice(), lic.as_slice())
}

/// The SPDX identifier for a license section title of the bundle; other
/// titles are kept with their HTML entities decoded.
pub open spec fn spec_license_section_to_spdx(title: Seq<char>) -> Seq<char> {
    if title == "Apache License 2.0"@ {
        "Apache-2.0"@
    } else if title == "BSD 2-Clause &quot;Simplified&quot; License"@ {
        "BSD-2-Clause"@
    } else if title == "BSD 3-Clause &quot;New&quot; or &quot;Revised&quot; License"@ {
        "BSD-3-Clause"@
    } else if title == "BSD Zero Clause License"@ {
        "0BSD"@
    } else if title == "Boost Software License 1.0"@ {
        "BSL-1.0"@
    } else if title == "Creative Commons Zero v1.0 Universal"@ {
        "CC0-1.0"@
    } else if title == "ISC License"@ {
        "ISC"@
    } else if title == "MIT License"@ {
        "MIT"@
    } else if title == "Mozilla Public License 2.0"@ {
        "MPL-2.0"@
    } else if title == "SIL Open Font License 1.1"@ {
        "OFL-1.1"@
    } else if title == "The Unlicense"@ {
        "Unlicense"@
    } else if title == "Ubuntu Font Licence v1.0"@ {
        "Ubuntu-font-1.0"@
    } else if title == "Unicode License v3"@ {
        "Unicode-3.0"@
    } else if title == "zlib License"@ {
        "Zlib"@
    } else {
        replace_all(
            replace_all(replace_all(replace_all(title, "&quot;"@, "\""@), "&amp;"@, "&"@), "&lt;"@, "<"@),
            "&gt;"@,
            ">"@,
        )
    }
}

fn replace_literal(s: Vec<char>, p: &str, r: &str) -> (out: Vec<char>)
    requires
        p@.len() > 0,
    ensures
        out@ == replace_all(s@, p@, r@),
{
    let pc = chars_of(p);
    let rc = chars_of(r);
    replace_chars(s.as_slice(), pc.as_slice(), rc.as_slice())
}

/// The SPDX identifier for a license section title of the bundle.
pub fn license_section_to_spdx(title: &str) -> (r: String)
    ensures
        r@ == spec_license_section_to_spdx(title@),
{
    let id: &str = if str_equal(title, "Apache License 2.0") {
        "Apache-2.0"
    } else if str_equal(title, "BSD 2-Clause &quot;Simplified&quot; License") {
        "BSD-2-Clause"
    } else if str_equal(title, "BSD 3-Clause &quot;New&quot; or &quot;Revised&quot; License") {
        "BSD-3-Clause"
    } else if str_equal(title, "BSD Zero Clause License") {
        "0BSD"
    } else if str_equal(title, "Boost Software License 1.0") {
        "BSL-1.0"
    } else if str_equal(title, "Creative Commons Zero v1.0 Universal") {
        "CC0-1.0"
    } else if str_equal(title, "ISC License") {
        "ISC"
    } else if str_equal(title, "MIT License") {
        "MIT"
    } else if str_equal(title, "Mozilla Public License 2.0") {
        "MPL-2.0"
    } else if str_equal(title, "SIL Open Font License 1.1") {
        "OFL-1.1"
    } else if str_equal(title, "The Unlicense") {
        "Unlicense"
    } else if str_equal(title, "Ubuntu Font Licence v1.0") {
        "Ubuntu-font-1.0"
    } else if str_equal(title, "Unicode License v3") {
        "Unicode-3.0"
    } else if str_equal(title, "zlib License") {
        "Zlib"
    } else {
        proof {
            reveal_strlit("&quot;");
            reveal_strlit("&amp;");
            reveal_strlit("&lt;");
            reveal_strlit("&gt;");
        }
        let t = chars_of(title);
        let t = replace_literal(t, "&quot;", "\"");
        let t = replace_literal(t, "&amp;", "&");
        let t = replace_literal(t, "&lt;", "<");
        let t = replace_literal(t, "&gt;", ">");
        return string_of(t.as_slice());
    };
    String::from_str(id)
}

/// `a` comes strictly before `b` in code-point lexicographic order (the
/// order of `String`'s `Ord`, since UTF-8 preserves code-point order).
pub open spec fn text_less(a: Seq<char>, b: Seq<char>) -> bool
    decreases a.len(),
{
    if b.len() == 0 {
        false
    } else if a.len() == 0 {
        true
    } else if a[0] < b[0] {
        true
    } else if a[0] > b[0] {
        false
    } else {
        text_less(a.drop_first(), b.drop_first())
    }
}

/// Whether `a` comes strictly before `b`.
pub fn chars_less(a: &[char], b: &[char]) -> (r: bool)
    ensures
        r == text_less(a@, b@),
{
    let mut i: usize = 0;
    proof {
        assert(a@.skip(0) =~= a@);
        assert(b@.skip(0) =~= b@);
    }
    while i < a.len() && i < b.len() && a[i] == b[i]
        invariant
            i <= a@.len(),
            i <= b@.len(),
            text_less(a@, b@) == text_less(a@.skip(i as int), b@.skip(i as int)),
        decreases a@.len() - i,
    {
        proof {
            assert(a@.skip(i as int).drop_first() =~= a@.skip(i + 1));
            assert(b@.skip(i as int).drop_first() =~= b@.skip(i + 1));
        }
        i = i + 1;
    }
    proof {
        if i < a@.len() {
            assert(a@.skip(i as int)[0] == a@[i as int]);
        }
        if i < b@.len() {
            assert(b@.skip(i as int)[0] == b@[i as int]);
        }
    }
    if i == b.len() {
        proof {
            assert(b@.skip(i as int).len() == 0);
        }
        false
    } else if i == a.len() {
        proof {
            assert(a@.skip(i as int).len() == 0);
            assert(b@.skip(i as int).len() > 0);
        }
        true
    } else {
        proof {
            assert(a@.skip(i as int).len() > 0);
            assert(b@.skip(i as int).len() > 0);
        }
        a[i] < b[i]
    }
}

proof fn lemma_text_less_irreflexive(a: Seq<char>)
    ensures
        !text_less(a, a),
    decreases a.len(),
{
    if a.len() > 0 {
        lemma_text_less_irreflexive(a.drop_first());
    }
}

proof fn lemma_text_less_trichotomy(a: Seq<char>, b: Seq<char>)
    ensures
        text_less(a, b) || text_less(b, a) || a == b,
        !(text_less(a, b) && text_less(b, a)),
    decreases a.len(),
{
    if a.len() > 0 && b.len() > 0 {
        lemma_text_less_trichotomy(a.drop_first(), b.drop_first());
        if a[0] == b[0] && a.drop_first() == b.drop_first() {
            assert forall|i: int| 0 <= i < a.len() implies a[i] == b[i] by {
                if i > 0 {
                    assert(a[i] == a.drop_first()[i - 1]);
                    assert(b[i] == b.drop_first()[i - 1]);
                }
            }
            assert(a =~= b);
        }
    } else if a.len() == 0 && b.len() == 0 {
        assert(a =~= b);
    }
}

proof fn lemma_text_less_transitive(a: Seq<char>, b: Seq<char>, c: Seq<char>)
    requires
        text_less(a, b),
        text_less(b, c),
    ensures
        text_less(a, c),
    decreases a.len(),
{
    if a.len() > 0 && b.len() > 0 && c.len() > 0 && a[0] == b[0] && b[0] == c[0] {
        lemma_text_less_transitive(a.drop_first(), b.drop_first(), c.drop_first());
    }
}

/// `x` sorts after `y`: by name, then version, then license.
pub open spec fn credit_after(x: CreditView, y: CreditView) -> bool {
    ||| text_less(y.name, x.name)
    ||| (x.name == y.name && text_less(y.version, x.version))
    ||| (x.name == y.name && x.version == y.version && text_less(y.license, x.license))
}

fn credit_after_exec(x: &ThirdPartyCredit, y: &ThirdPartyCredit) -> (r: bool)
    ensures
        r == credit_after(x@, y@),
{
    let xn = chars_of(x.name.as_str());
    let yn = chars_of(y.name.as_str());
    if chars_less(yn.as_slice(), xn.as_slice()) {
        return true;
    }
    if !chars_equal(xn.as_slice(), yn.as_slice()) {
        return false;
    }
    let xv = chars_of(x.version.as_str());
    let yv = chars_of(y.version.as_str());
    if chars_less(yv.as_slice(), xv.as_slice()) {
        return true;
    }
    if !chars_equal(xv.as_slice(), yv.as_slice()) {
        return false;
    }
    let xl = chars_of(x.license.as_str());
    let yl = chars_of(y.license.as_str());
    chars_less(yl.as_slice(), xl.as_slice())
}

/// `x` inserted into `s` after every element it does not sort before.
pub open spec fn insert_sorted(s: Seq<CreditView>, x: CreditView) -> Seq<CreditView>
    decreases s.len(),
{
    if s.len() == 0 {
        seq![x]
    } else if credit_after(s.last(), x) {
        insert_sorted(s.drop_last(), x).push(s.last())
    } else {
        s.push(x)
    }
}

/// `s` in order of name, version and license; credits that compare equal
/// keep the order they had (a stable sort).
pub open spec fn sort_credits(s: Seq<CreditView>) -> Seq<CreditView>
    decreases s.len(),
{
    if s.len() == 0 {
        s
    } else {
        insert_sorted(sort_credits(s.drop_last()), s.last())
    }
}

proof fn lemma_insert_at(s: Seq<CreditView>, x: CreditView, j: int)
    requires
        0 <= j <= s.len(),
        forall|k: int| j <= k < s.len() ==> credit_after(#[trigger] s[k], x),
        j > 0 ==> !credit_after(s[j - 1], x),
    ensures
        insert_sorted(s, x) == s.take(j).push(x) + s.skip(j),
    decreases s.len() - j,
{
    if j == s.len() {
        assert(s.take(j) =~= s);
        assert(s.skip(j) =~= Seq::<CreditView>::empty());
        if s.len() > 0 {
            assert(s.last() == s[j - 1]);
        }
        assert(s.push(x) + Seq::<CreditView>::empty() =~= s.push(x));
    } else {
        assert(credit_after(s[s.len() - 1], x));
        let d = s.drop_last();
        assert forall|k: int| j <= k < d.len() implies credit_after(#[trigger] d[k], x) by {
            assert(d[k] == s[k]);
        }
        if j > 0 {
            assert(d[j - 1] == s[j - 1]);
        }
        lemma_insert_at(d, x, j);
        assert(d.take(j) =~= s.take(j));
        assert(d.skip(j).push(s.last()) =~= s.skip(j));
        assert(insert_sorted(s, x) == insert_sorted(d, x).push(s.last()));
        assert((d.take(j).push(x) + d.skip(j)).push(s.last()) =~= s.take(j).push(x) + s.skip(j));
    }
}

fn insert_credit(sorted: &mut Vec<ThirdPartyCredit>, x: ThirdPartyCredit)
    ensures
        credits_view(final(sorted)@) == insert_sorted(credits_view(old(sorted)@), x@),
{
    let ghost s = credits_view(sorted@);
    let mut j = sorted.len();
    while j > 0 && credit_after_exec(&sorted[j - 1], &x)
        invariant
            j <= sorted@.len(),
            s == credits_view(sorted@),
            forall|k: int| j <= k < s.len() ==> credit_after(#[trigger] s[k], x@),
        decreases j,
    {
        j = j - 1;
    }
    proof {
        lemma_insert_at(s, x@, j as int);
    }
    let ghost xv = x@;
    sorted.insert(j, x);
    proof {
        assert(credits_view(sorted@) =~= s.take(j as int).push(xv) + s.skip(j as int));
    }
}

/// No two positions of `s` are out of order.
pub open spec fn credits_sorted(s: Seq<CreditView>) -> bool {
    forall|i: int, j: int| 0 <= i < j < s.len() ==> !credit_after(#[trigger] s[i], #[trigger] s[j])
}

proof fn lemma_after_asymmetric(x: CreditView, y: CreditView)
    requires
        credit_after(x, y),
    ensures
        !credit_after(y, x),
{
    lemma_text_less_trichotomy(x.name, y.name);
    lemma_text_less_trichotomy(x.version, y.version);
    lemma_text_less_trichotomy(x.license, y.license);
}

/// `a` is before or equal to `b`.
pub open spec fn text_le(a: Seq<char>, b: Seq<char>) -> bool {
    text_less(a, b) || a == b
}

proof fn lemma_le_of_not_less(a: Seq<char>, b: Seq<char>)
    requires
        !text_less(b, a),
    ensures
        text_le(a, b),
{
    lemma_text_less_trichotomy(a, b);
}

proof fn lemma_le_trans(a: Seq<char>, b: Seq<char>, c: Seq<char>)
    requires
        text_le(a, b),
        text_le(b, c),
    ensures
        text_le(a, c),
        text_less(a, b) || text_less(b, c) ==> text_less(a, c),
{
    if text_less(a, b) && text_less(b, c) {
        lemma_text_less_transitive(a, b, c);
    }
}

proof fn lemma_not_after_transitive(x: CreditView, y: CreditView, z: CreditView)
    requires
        !credit_after(x, y),
        !credit_after(y, z),
    ensures
        !credit_after(x, z),
{
    lemma_le_of_not_less(x.name, y.name);
    lemma_le_of_not_less(y.name, z.name);
    lemma_le_trans(x.name, y.name, z.name);
    lemma_text_less_trichotomy(x.name, z.name);
    lemma_text_less_irreflexive(x.name);
    if text_less(x.name, z.name) {
        return;
    }
    assert(x.name == y.name && y.name == z.name);
    lemma_le_of_not_less(x.version, y.version);
    lemma_le_of_not_less(y.version, z.version);
    lemma_le_trans(x.version, y.version, z.version);
    lemma_text_less_trichotomy(x.version, z.version);
    lemma_text_less_irreflexive(x.version);
    if text_less(x.version, z.version) {
        return;
    }
    assert(x.version == y.version && y.version == z.version);
    lemma_le_of_not_less(x.license, y.license);
    lemma_le_of_not_less(y.license, z.license);
    lemma_le_trans(x.license, y.license, z.license);
    lemma_text_less_trichotomy(x.license, z.license);
}

proof fn lemma_insert_sorted_keeps_order(s: Seq<CreditView>, x: CreditView)
    requires
        credits_sorted(s),
    ensures
        credits_sorted(insert_sorted(s, x)),
        insert_sorted(s, x).len() == s.len() + 1,
        forall|k: int| 0 <= k < insert_sorted(s, x).len() ==> (insert_sorted(s, x)[k] == x || s.contains(insert_sorted(s, x)[k])),
    decreases s.len(),
{
    if s.len() == 0 {
    } else if credit_after(s.last(), x) {
        let d = s.drop_last();
        assert forall|i: int, j: int| 0 <= i < j < d.len() implies !credit_after(#[trigger] d[i], #[trigger] d[j]) by {
            assert(d[i] == s[i] && d[j] == s[j]);
        }
        lemma_insert_sorted_keeps_order(d, x);
        let t = insert_sorted(d, x);
        let r = t.push(s.last());
        assert forall|k: int| 0 <= k < t.len() implies !credit_after(#[trigger] t[k], s.last()) by {
            if t[k] == x {
                lemma_after_asymmetric(s.last(), x);
            } else {
                assert(d.contains(t[k]));
                let m = choose|m: int| 0 <= m < d.len() && d[m] == t[k];
                assert(s[m] == d[m]);
                assert(!credit_after(s[m], s[s.len() - 1]));
            }
        }
        assert forall|i: int, j: int| 0 <= i < j < r.len() implies !credit_after(#[trigger] r[i], #[trigger] r[j]) by {
            if j == r.len() - 1 {
                assert(r[i] == t[i]);
                assert(r[j] == s.last());
            } else {
                assert(r[i] == t[i] && r[j] == t[j]);
            }
        }
        assert forall|k: int| 0 <= k < r.len() implies (r[k] == x || s.contains(r[k])) by {
            if k == r.len() - 1 {
                assert(s[s.len() - 1] == r[k]);
            } else {
                assert(r[k] == t[k]);
                if t[k] != x {
                    let m = choose|m: int| 0 <= m < d.len() && d[m] == t[k];
                    assert(s[m] == d[m]);
                }
            }
        }
    } else {
        let r = s.push(x);
        assert forall|i: int, j: int| 0 <= i < j < r.len() implies !credit_after(#[trigger] r[i], #[trigger] r[j]) by {
            if j == r.len() - 1 {
                assert(r[j] == x);
                if i < s.len() - 1 {
                    lemma_not_after_transitive(s[i], s[s.len() - 1], x);
                }
            } else {
                assert(r[i] == s[i] && r[j] == s[j]);
            }
        }
        assert forall|k: int| 0 <= k < r.len() implies (r[k] == x || s.contains(r[k])) by {
            if k < s.len() {
                assert(s[k] == r[k]);
            }
        }
    }
}

proof fn lemma_insert_sorted_multiset(s: Seq<CreditView>, x: CreditView)
    ensures
        insert_sorted(s, x).to_multiset() =~= s.to_multiset().insert(x),
    decreases s.len(),
{
    broadcast use vstd::seq_lib::to_multiset_build, vstd::multiset::group_multiset_axioms;

    if s.len() == 0 {
        assert(seq![x] =~= Seq::<CreditView>::empty().push(x));
        assert(s =~= Seq::<CreditView>::empty());
    } else if credit_after(s.last(), x) {
        let d = s.drop_last();
        lemma_insert_sorted_multiset(d, x);
        assert(s =~= d.push(s.last()));
    }
}

/// The credit list comes out in order, by name, then version, then license,
/// and holds exactly the credits found, each as often as it was found.
pub proof fn lemma_credits_sorted(s: Seq<CreditView>)
    ensures
        credits_sorted(sort_credits(s)),
        sort_credits(s).len() == s.len(),
        sort_credits(s).to_multiset() =~= s.to_multiset(),
    decreases s.len(),
{
    broadcast use vstd::seq_lib::to_multiset_build;

    if s.len() > 0 {
        lemma_credits_sorted(s.drop_last());
        lemma_insert_sorted_keeps_order(sort_credits(s.drop_last()), s.last());
        lemma_insert_sorted_multiset(sort_credits(s.drop_last()), s.last());
        assert(s =~= s.drop_last().push(s.last()));
    }
}

/// Where the scan of the bundle is.
pub struct ScanState {
    /// SPDX identifier of the current license section.
    pub license: Seq<char>,
    /// The `## License Texts` part has begun.
    pub in_texts: bool,
    /// Inside the `Used by:` list of a section.
    pub in_used_by: bool,
    /// Credits found so far, in order of appearance.
    pub entries: Seq<CreditView>,
}

/// How one line of the bundle changes the scan.
pub open spec fn scan_line(st: ScanState, line: Seq<char>) -> ScanState {
    let t = trim(line);
    if t == "## License Texts"@ {
        ScanState { in_texts: true, ..st }
    } else if !st.in_texts {
        st
    } else if starts_with(t, "### "@) {
        ScanState { license: spec_license_section_to_spdx(t.skip(4)), in_used_by: false, ..st }
    } else if t == "Used by:"@ {
        ScanState { in_used_by: st.license.len() != 0, ..st }
    } else if !st.in_used_by {
        st
    } else if starts_with(t, "```"@) || t == "---"@ {
        ScanState { in_used_by: false, ..st }
    } else {
        match spec_parse_used_by_line(t, st.license) {
            Some(e) => ScanState { entries: st.entries.push(e), ..st },
            None => st,
        }
    }
}

/// The scan after the given lines.
pub open spec fn scan_lines(ls: Seq<Seq<char>>) -> ScanState
    decreases ls.len(),
{
    if ls.len() == 0 {
        ScanState { license: Seq::empty(), in_texts: false, in_used_by: false, entries: Seq::empty() }
    } else {
        scan_line(scan_lines(ls.drop_last()), ls.last())
    }
}

/// The crates listed under `Used by:` in the license texts of the bundle,
/// each with its section's license, sorted by name, version and license.
pub open spec fn spec_credit_entries(text: Seq<char>) -> Seq<CreditView> {
    sort_credits(scan_lines(lines(text)).entries)
}

/// The crate list of the third-party license bundle.
pub fn third_party_credit_entries(text: &str) -> (r: Vec<ThirdPartyCredit>)
    ensures
        credits_view(r@) == spec_credit_entries(text@),
{
    let chars = chars_of(text);
    let ls = split_lines(chars.as_slice());
    let ghost all = ls.deep_view();
    let header = chars_of("## License Texts");
    let used_by = chars_of("Used by:");
    let section = chars_of("### ");
    let fence = chars_of("```");
    let rule = chars_of("---");
    proof {
        reveal_strlit("### ");
    }
    let mut license: Vec<char> = Vec::new();
    let mut in_texts = false;
    let mut in_used_by = false;
    let mut sorted: Vec<ThirdPartyCredit> = Vec::new();
    let ghost mut entries: Seq<CreditView> = Seq::empty();
    let mut i: usize = 0;
    while i < ls.len()
        invariant
            i <= ls@.len(),
            all == ls.deep_view(),
            all.len() == ls@.len(),
            header@ == "## License Texts"@,
            used_by@ == "Used by:"@,
            section@ == "### "@,
            section@.len() == 4,
            fence@ == "```"@,
            rule@ == "---"@,
            scan_lines(all.take(i as int)) == (ScanState { license: license@, in_texts, in_used_by, entries }),
            credits_view(sorted@) == sort_credits(entries),
        decreases ls@.len() - i,
    {
        proof {
            assert(all.take(i + 1).drop_last() =~= all.take(i as int));
            assert(all.take(i + 1).last() == ls@[i as int]@);
        }
        let t = trim_chars(ls[i].as_slice());
        if chars_equal(t.as_slice(), header.as_slice()) {
            in_texts = true;
        } else if !in_texts {
        } else if has_prefix(t.as_slice(), section.as_slice()) {
            let title = slice_chars(t.as_slice(), 4, t.len());
            proof {
                assert(title@ =~= t@.skip(4));
            }
            let title_string = string_of(title.as_slice());
            let id = license_section_to_spdx(title_string.as_str());
            license = chars_of(id.as_str());
            in_used_by = false;
        } else if chars_equal(t.as_slice(), used_by.as_slice()) {
            in_used_by = license.len() != 0;
        } else if !in_used_by {
        } else if has_prefix(t.as_slice(), fence.as_slice()) || chars_equal(t.as_slice(), rule.as_slice()) {
            in_used_by = false;
        } else {
            match parse_used_by_chars(t.as_slice(), license.as_slice()) {
                Some(e) => {
                    let ghost old_entries = entries;
                    proof {
                        entries = entries.push(e@);
                        assert(entries.drop_last() =~= old_entries);
                    }
                    insert_credit(&mut sorted, e);
                },
                None => {},
            }
        }
        i = i + 1;
    }
    proof {
        assert(all.take(ls@.len() as int) =~= all);
    }
    sorted
}

/// A credit matches a filter when the filter is empty or it occurs (ignoring
/// ASCII case) in the crate's name, version or license.
pub open spec fn credit_matches(c: CreditView, needle: Seq<char>) -> bool {
    ||| needle.len() == 0
    ||| contains(lowercase(c.name), needle)
    ||| contains(lowercase(c.version), needle)
    ||| contains(lowercase(c.license), needle)
}

/// The number of credits matching the filter.
pub open spec fn count_credit_matches(cs: Seq<CreditView>, needle: Seq<char>) -> nat
    decreases cs.len(),
{
    if cs.len() == 0 {
        0
    } else {
        count_credit_matches(cs.drop_last(), needle) + if credit_matches(cs.last(), needle) { 1nat } else { 0nat }
    }
}

fn field_matches(field: &String, needle: &Vec<char>) -> (r: bool)
    ensures
        r == contains(lowercase(field@), needle@),
{
    let f = chars_of(field.as_str());
    let l = to_lowercase(f.as_slice());
    contains_chars(l.as_slice(), needle.as_slice())
}

/// Whether the Credits page shows `credit` for a filter.
pub fn credit_shown(query: &str, credit: &ThirdPartyCredit) -> (r: bool)
    ensures
        r == credit_matches(credit@, needle_of(query@)),
{
    let needle = needle_chars(query);
    needle.len() == 0 || field_matches(&credit.name, &needle) || field_matches(&credit.version, &needle)
        || field_matches(&credit.license, &needle)
}

/// How many of `credits` the Credits page shows for a filter.
pub fn filtered_credits_count(query: &str, credits: &[ThirdPartyCredit]) -> (r: usize)
    ensures
        r == count_credit_matches(credits_view(credits@), needle_of(query@)),
{
    let needle = needle_chars(query);
    let ghost cs = credits_view(credits@);
    let mut count: usize = 0;
    let mut i: usize = 0;
    while i < credits.len()
        invariant
            i <= credits@.len(),
            cs == credits_view(credits@),
            needle@ == needle_of(query@),
            count == count_credit_matches(cs.take(i as int), needle@),
            count <= i,
        decreases credits@.len() - i,
    {
        proof {
            assert(cs.take(i + 1).drop_last() =~= cs.take(i as int));
            assert(cs.take(i + 1).last() == credits@[i as int]@);
        }
        let c = &credits[i];
        if needle.len() == 0 || field_matches(&c.name, &needle) || field_matches(&c.version, &needle)
            || field_matches(&c.license, &needle) {
            count = count + 1;
        }
        i = i + 1;
    }
    proof {
        assert(cs.take(credits@.len() as int) =~= cs);
    }
    count
}

} // verus!
