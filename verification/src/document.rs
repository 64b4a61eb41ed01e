//! The on-disk form of a pattern: a header between two lines of three
//! dashes, then the body. This module takes such a text apart and writes one
//! from the fields of a new pattern. How the header reads as keys and values
//! is not decided here.

use vstd::prelude::*;
use vstd::string::StrSliceExecFns;
use vstd::string::StringExecFns;

use crate::request::CreatePatternRequest;
use crate::request::NewPattern;
use crate::text::chars_of;
use crate::text::find_first;
use crate::text::first_occurrence;
use crate::text::is_whitespace;
use crate::text::join;
use crate::text::joined;
use crate::text::matches_at;
use crate::text::occurs;
use crate::text::occurs_at;
use crate::text::trim;
use crate::text::trimmed;
use crate::text::views;

verus! {

/// The line that a document begins with.
pub open spec fn opening() -> Seq<char> {
    seq!['-', '-', '-', '\n']
}

/// What parts the header from the body: a line of three dashes, with the
/// newline before it and the one after.
pub open spec fn separator() -> Seq<char> {
    seq!['\n', '-', '-', '-', '\n']
}

/// What a written document holds between header and content: the line of
/// three dashes and an empty line.
pub open spec fn closing() -> Seq<char> {
    seq!['-', '-', '-', '\n', '\n']
}

/// The ending of the file names that count as pattern documents.
pub open spec fn extension() -> Seq<char> {
    seq!['.', 'm', 'd']
}

/// A document taken apart.
pub struct Parts {
    /// The text between the opening line and the separator.
    pub header: Seq<char>,
    /// The text after the separator, trimmed.
    pub body: Seq<char>,
}

/// The index of the first occurrence of `needle` in `hay`, where there is
/// one.
pub open spec fn first_index(hay: Seq<char>, needle: Seq<char>) -> int {
    choose|i: int| first_occurrence(hay, needle, i)
}

/// A text taken apart as a document. There are no parts where the text does
/// not begin with the opening line, or where no separator follows it.
pub open spec fn split_spec(text: Seq<char>) -> Option<Parts> {
    let rest = text.skip(opening().len() as int);
    if opening().is_prefix_of(text) && occurs(rest, separator()) {
        let i = first_index(rest, separator());
        Some(Parts { header: rest.take(i), body: trimmed(rest.skip(i + separator().len())) })
    } else {
        None
    }
}

/// Whether a file of that name counts as a pattern document: the name ends
/// in `.md`, and something stands before the dot.
pub open spec fn is_pattern_file_spec(file_name: Seq<char>) -> bool {
    &&& file_name.len() > extension().len()
    &&& file_name.skip(file_name.len() - extension().len()) == extension()
}

/// The name of the file that a pattern of that name is written to.
pub open spec fn file_name_of(name: Seq<char>) -> Seq<char> {
    name + extension()
}

/// A header line that lists `items` under `key`; nothing at all where
/// there are none.
pub open spec fn list_line(key: Seq<char>, items: Seq<Seq<char>>) -> Seq<char> {
    if items.len() == 0 {
        Seq::empty()
    } else {
        key + "["@ + joined(items, ", "@) + "]\n"@
    }
}

/// The header of the document written for `p`: name, category and
/// framework always, projects and tags where there are any.
pub open spec fn header_text(p: NewPattern) -> Seq<char> {
    "pattern: "@ + p.name + "\ncategory: "@ + p.category + "\nframework: "@ + p.framework + "\n"@
        + list_line("projects: "@, p.projects) + list_line("tags: "@, p.tags)
}

/// The document written for `p`.
pub open spec fn document_text(p: NewPattern) -> Seq<char> {
    opening() + header_text(p) + closing() + p.content + seq!['\n']
}

/// A document taken apart.
#[derive(Debug)]
pub struct RawDocument {
    pub header: String,
    pub body: String,
}

impl View for RawDocument {
    type V = Parts;

    open spec fn view(&self) -> Parts {
        Parts { header: self.header@, body: self.body@ }
    }
}

/// A document that is to be written.
#[derive(Debug)]
pub struct PatternFile {
    /// The name of the file, to be joined to the patterns directory.
    pub file_name: String,
    /// What the file is to hold.
    pub text: String,
}

/// The view of an optional document.
pub open spec fn parts_of(d: Option<RawDocument>) -> Option<Parts> {
    match d {
        Some(d) => Some(d@),
        None => None,
    }
}

/// There is one first occurrence at most.
pub proof fn lemma_first_occurrence_unique(hay: Seq<char>, needle: Seq<char>, i: int)
    requires
        first_occurrence(hay, needle, i),
    ensures
        occurs(hay, needle),
        first_index(hay, needle) == i,
{
    let j = first_index(hay, needle);
    assert(first_occurrence(hay, needle, j));
}

/// Takes a text apart as a document: the header, as it stands between the
/// opening line and the first separator, and the body after that
/// separator, trimmed. A text without the opening line or without a
/// separator is no document.
pub fn split_document(text: &str) -> (r: Option<RawDocument>)
    ensures
        parts_of(r) == split_spec(text@),
{
    let chars = chars_of(text);
    let n = chars.len();
    let open = chars_of("---\n");
    let sep = chars_of("\n---\n");
    proof {
        reveal_strlit("---\n");
        reveal_strlit("\n---\n");
        assert(open@ =~= opening());
        assert(sep@ =~= separator());
    }
    if n < 4 {
        return None;
    }
    if !matches_at(&chars, &open, 0) {
        return None;
    }
    let rest = text.substring_char(4, n);
    let rest_chars = chars_of(rest);
    match find_first(&rest_chars, &sep) {
        None => None,
        Some(i) => {
            proof {
                lemma_first_occurrence_unique(rest@, separator(), i as int);
            }
            let header = String::from_str(rest.substring_char(0, i));
            let body = trim(rest.substring_char(i + 5, rest_chars.len()));
            Some(RawDocument { header, body })
        },
    }
}

/// Whether a file of that name counts as a pattern document.
pub fn is_pattern_file(file_name: &str) -> (r: bool)
    ensures
        r == is_pattern_file_spec(file_name@),
{
    let chars = chars_of(file_name);
    let n = chars.len();
    if n <= 3 {
        return false;
    }
    let r = chars[n - 3] == '.' && chars[n - 2] == 'm' && chars[n - 1] == 'd';
    proof {
        let tail = file_name@.skip(n - 3);
        assert(r <==> tail =~= extension());
    }
    r
}

/// The name of the file that a pattern of that name is written to.
pub fn file_name(name: &str) -> (r: String)
    ensures
        r@ == file_name_of(name@),
{
    let mut out = String::from_str(name);
    proof {
        reveal_strlit(".md");
    }
    out.append(".md");
    out
}

/// Appends to `out` the header line that lists `items` under `key`.
fn append_list_line(out: &mut String, key: &str, items: &Vec<String>)
    ensures
        final(out)@ == old(out)@ + list_line(key@, views(items@)),
{
    if items.len() > 0 {
        let list = join(items, ", ");
        out.append(key);
        out.append("[");
        out.append(list.as_str());
        out.append("]\n");
    }
}

/// The document written for a new pattern: the opening line, the header,
/// the line that closes it, an empty line, the content as it was given,
/// and a newline.
pub fn render_document(req: &CreatePatternRequest) -> (r: String)
    ensures
        r@ == document_text(req@),
{
    let mut out = String::from_str("---\n");
    proof {
        reveal_strlit("---\n");
    }
    out.append("pattern: ");
    out.append(req.pattern_name.as_str());
    out.append("\ncategory: ");
    out.append(req.category.as_str());
    out.append("\nframework: ");
    out.append(req.framework.as_str());
    out.append("\n");
    match &req.projects {
        Some(projects) => {
            append_list_line(&mut out, "projects: ", projects);
        },
        None => {},
    }
    append_list_line(&mut out, "tags: ", &req.tag);
    proof {
        reveal_strlit("---\n\n");
        reveal_strlit("\n");
    }
    out.append("---\n\n");
    out.append(req.content.as_str());
    out.append("\n");
    out
}

/// A text that does not begin with the opening line, or that holds no
/// separator after it, is no document.
pub proof fn lemma_malformed_is_no_document(text: Seq<char>)
    ensures
        !opening().is_prefix_of(text) ==> split_spec(text) is None,
        !occurs(text.skip(opening().len() as int), separator()) ==> split_spec(text) is None,
        split_spec(text) is Some <==> opening().is_prefix_of(text) && occurs(
            text.skip(opening().len() as int),
            separator(),
        ),
{
}

/// A whitespace character before a text does not show once it is trimmed.
pub proof fn lemma_trim_ignores_leading(c: char, s: Seq<char>)
    requires
        is_whitespace(c),
    ensures
        trimmed(seq![c] + s) == trimmed(s),
{
    assert((seq![c] + s).drop_first() =~= s);
}

/// A whitespace character after a text does not show once it is trimmed.
pub proof fn lemma_trim_ignores_trailing(s: Seq<char>, c: char)
    requires
        is_whitespace(c),
    ensures
        trimmed(s.push(c)) == trimmed(s),
    decreases s.len(),
{
    if s.len() == 0 {
        assert(s.push(c).drop_first() =~= s);
    } else if is_whitespace(s.first()) {
        lemma_trim_ignores_trailing(s.drop_first(), c);
        assert(s.push(c).drop_first() =~= s.drop_first().push(c));
    } else {
        assert(s.push(c).drop_last() =~= s);
    }
}

/// The header that is written ends with a newline.
pub proof fn lemma_header_ends_line(p: NewPattern)
    ensures
        header_text(p).len() > 0,
        header_text(p).last() == '\n',
{
    reveal_strlit("\n");
    reveal_strlit("]\n");
}

/// No character of `s` is a newline.
pub open spec fn one_line(s: Seq<char>) -> bool {
    forall|i: int| 0 <= i < s.len() ==> s[i] != '\n'
}

/// No line of `s` after the first begins with a dash.
pub open spec fn no_dash_line(s: Seq<char>) -> bool {
    forall|i: int| 0 <= i && i + 1 < s.len() ==> !(#[trigger] s[i] == '\n' && s[i + 1] == '-')
}

/// The fields that go into the header are of one line each.
pub open spec fn plain_fields(p: NewPattern) -> bool {
    &&& one_line(p.name)
    &&& one_line(p.category)
    &&& one_line(p.framework)
    &&& forall|k: int| 0 <= k < p.projects.len() ==> one_line(#[trigger] p.projects[k])
    &&& forall|k: int| 0 <= k < p.tags.len() ==> one_line(#[trigger] p.tags[k])
}

/// Two texts without a line that begins with a dash make one, unless the
/// second begins with a dash right after a newline that ends the first.
proof fn lemma_append_keeps_lines(a: Seq<char>, b: Seq<char>)
    requires
        no_dash_line(a),
        no_dash_line(b),
        a.len() > 0 && b.len() > 0 ==> a.last() != '\n' || b.first() != '-',
    ensures
        no_dash_line(a + b),
{
    let s = a + b;
    assert forall|i: int| 0 <= i && i + 1 < s.len() implies !(#[trigger] s[i] == '\n' && s[i + 1]
        == '-') by {
        if i + 1 < a.len() {
            assert(s[i] == a[i] && s[i + 1] == a[i + 1]);
        } else if i >= a.len() {
            assert(s[i] == b[i - a.len()] && s[i + 1] == b[i - a.len() + 1]);
        } else {
            assert(s[i] == a.last() && s[i + 1] == b.first());
        }
    }
}

/// Items of one line each, joined by a separator of one line, are of one
/// line.
proof fn lemma_joined_one_line(items: Seq<Seq<char>>, sep: Seq<char>)
    requires
        forall|k: int| 0 <= k < items.len() ==> one_line(#[trigger] items[k]),
        one_line(sep),
    ensures
        one_line(joined(items, sep)),
    decreases items.len(),
{
    if items.len() > 1 {
        lemma_joined_one_line(items.drop_last(), sep);
    }
}

/// A list line of one-line items has no line that begins with a dash, does
/// not begin with one itself where its key does not, and ends its line.
proof fn lemma_list_line_keeps_lines(key: Seq<char>, items: Seq<Seq<char>>)
    requires
        key.len() > 0,
        key.first() != '-',
        one_line(key),
        forall|k: int| 0 <= k < items.len() ==> one_line(#[trigger] items[k]),
    ensures
        no_dash_line(list_line(key, items)),
        list_line(key, items).len() > 0 ==> list_line(key, items).first() != '-' && list_line(
            key,
            items,
        ).last() == '\n',
{
    if items.len() > 0 {
        reveal_strlit("[");
        reveal_strlit(", ");
        reveal_strlit("]\n");
        lemma_joined_one_line(items, ", "@);
        lemma_append_keeps_lines(key + "["@ + joined(items, ", "@), "]\n"@);
    }
}

/// A header written from fields of one line each holds no separator.
pub proof fn lemma_plain_header_has_no_separator(p: NewPattern)
    requires
        plain_fields(p),
    ensures
        !occurs(header_text(p), separator()),
{
    reveal_strlit("pattern: ");
    reveal_strlit("\ncategory: ");
    reveal_strlit("\nframework: ");
    reveal_strlit("\n");
    reveal_strlit("projects: ");
    reveal_strlit("tags: ");
    let s1 = "pattern: "@ + p.name;
    let s2 = s1 + "\ncategory: "@;
    lemma_append_keeps_lines(s1, "\ncategory: "@);
    let s3 = s2 + p.category;
    lemma_append_keeps_lines(s2, p.category);
    let s4 = s3 + "\nframework: "@;
    lemma_append_keeps_lines(s3, "\nframework: "@);
    let s5 = s4 + p.framework;
    lemma_append_keeps_lines(s4, p.framework);
    let s6 = s5 + "\n"@;
    lemma_append_keeps_lines(s5, "\n"@);
    let projects = list_line("projects: "@, p.projects);
    lemma_list_line_keeps_lines("projects: "@, p.projects);
    let s7 = s6 + projects;
    lemma_append_keeps_lines(s6, projects);
    let tags = list_line("tags: "@, p.tags);
    lemma_list_line_keeps_lines("tags: "@, p.tags);
    let head = s7 + tags;
    lemma_append_keeps_lines(s7, tags);
    assert forall|j: int| !occurs_at(head, separator(), j) by {
        if occurs_at(head, separator(), j) {
            let found = head.subrange(j, j + separator().len());
            assert(found[0] == head[j] && found[1] == head[j + 1]);
        }
    }
}

/// What is written can be taken apart again. Where the header that is
/// written for `p` holds no separator of its own, the document written for
/// `p` splits into that header, without the newline that ends it, and the
/// content of `p`, trimmed.
pub proof fn lemma_written_document_splits(p: NewPattern)
    requires
        !occurs(header_text(p), separator()),
    ensures
        split_spec(document_text(p)) == Some(
            Parts { header: header_text(p).drop_last(), body: trimmed(p.content) },
        ),
{
    let head = header_text(p);
    let h = head.len() as int;
    let text = document_text(p);
    let rest = text.skip(opening().len() as int);
    let sep = separator();
    lemma_header_ends_line(p);
    assert(rest.subrange(h - 1, h - 1 + sep.len()) =~= sep);
    assert forall|j: int| 0 <= j < h - 1 implies !occurs_at(rest, sep, j) by {
        if occurs_at(rest, sep, j) {
            let found = rest.subrange(j, j + sep.len());
            if j + sep.len() <= h {
                assert(head.subrange(j, j + sep.len()) =~= found);
                assert(occurs_at(head, sep, j));
            } else {
                // the last character found is a newline, but stands among the
                // dashes of the closing line
                assert(found[4] == rest[j + 4]);
            }
        }
    }
    lemma_first_occurrence_unique(rest, sep, h - 1);
    assert(rest.take(h - 1) =~= head.drop_last());
    assert(rest.skip(h - 1 + sep.len()) =~= (seq!['\n'] + p.content).push('\n'));
    lemma_trim_ignores_trailing(seq!['\n'] + p.content, '\n');
    lemma_trim_ignores_leading('\n', p.content);
}

/// A pattern whose name, category, framework, projects and tags are of one
/// line each is written so that it can be taken apart again: the document
/// splits into the header that was written, without the newline that ends
/// it, and the content, trimmed.
pub proof fn lemma_plain_document_splits(p: NewPattern)
    requires
        plain_fields(p),
    ensures
        split_spec(document_text(p)) == Some(
            Parts { header: header_text(p).drop_last(), body: trimmed(p.content) },
        ),
{
    lemma_plain_header_has_no_separator(p);
    lemma_written_document_splits(p);
}

} // verus!
