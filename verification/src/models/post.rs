//! Documents: their metadata, the framing of their source text, and their
//! normalization.

use crate::models::author::{Author, AuthorModel};
use crate::models::config::has_prefix_slash;
use crate::models::datetime::{parse_time, time_of, DateTime, TimeFormatError};
use crate::utils::order::{
    arrange, arranged, descending_order, is_descending_order, key_values,
    lemma_descending_order_is_unique, lemma_order_is_injective, positions,
};
use crate::utils::text::{
    chars_of, find, find_in, lemma_find_from, lemma_trim_is_no_longer, occurs_at, replace,
    replace_all,
    signed_decimal, signed_decimal_string, string_of_range, trim, trimmed, two_digit_string,
    two_digits,
};
use vstd::prelude::*;

verus! {

/// The metadata that a document's source states.
#[derive(Debug)]
pub struct PostMetadata {
    pub title: String,
    pub slug: String,
    pub date: String,
    pub updated: Option<String>,
    pub tags: Option<Vec<String>>,
    pub template: Option<String>,
    pub language: Option<String>,
    pub comments: Option<bool>,
    pub author: Option<String>,
}

/// The mathematical content of a `PostMetadata`.
pub struct PostMetaModel {
    pub title: Seq<char>,
    pub slug: Seq<char>,
    pub date: Seq<char>,
    pub updated: Option<Seq<char>>,
    pub tags: Option<Seq<Seq<char>>>,
    pub template: Option<Seq<char>>,
    pub language: Option<Seq<char>>,
    pub comments: Option<bool>,
    pub author: Option<Seq<char>>,
}

impl DeepView for PostMetadata {
    type V = PostMetaModel;

    open spec fn deep_view(&self) -> PostMetaModel {
        PostMetaModel {
            title: self.title@,
            slug: self.slug@,
            date: self.date@,
            updated: self.updated.deep_view(),
            tags: self.tags.deep_view(),
            template: self.template.deep_view(),
            language: self.language.deep_view(),
            comments: self.comments,
            author: self.author.deep_view(),
        }
    }
}

impl View for PostMetadata {
    type V = PostMetaModel;

    open spec fn view(&self) -> PostMetaModel {
        self.deep_view()
    }
}

/// Metadata that states nothing.
pub open spec fn empty_meta() -> PostMetaModel {
    PostMetaModel {
        title: Seq::empty(),
        slug: Seq::empty(),
        date: Seq::empty(),
        updated: None,
        tags: None,
        template: None,
        language: None,
        comments: None,
        author: None,
    }
}

impl Default for PostMetadata {
    fn default() -> (m: Self)
        ensures
            m@ == empty_meta(),
    {
        PostMetadata {
            title: String::new(),
            slug: String::new(),
            date: String::new(),
            updated: None,
            tags: None,
            template: None,
            language: None,
            comments: None,
            author: None,
        }
    }
}

/// A document: a post or a page.
#[derive(Debug)]
pub struct Post {
    pub meta: PostMetadata,
    pub brief_markdown: String,
    pub content_markdown: String,
    pub brief_html: String,
    pub content_html: String,
    pub datetime: Option<DateTime>,
    pub updated_datetime: Option<DateTime>,
    pub author: Option<Author>,
    pub local_file: String,
    pub slug_url: String,
}

/// The mathematical content of a `Post`.
pub struct PostModel {
    pub meta: PostMetaModel,
    pub brief_markdown: Seq<char>,
    pub content_markdown: Seq<char>,
    pub brief_html: Seq<char>,
    pub content_html: Seq<char>,
    pub datetime: Option<DateTime>,
    pub updated_datetime: Option<DateTime>,
    pub author: Option<AuthorModel>,
    pub local_file: Seq<char>,
    pub slug_url: Seq<char>,
}

impl DeepView for Post {
    type V = PostModel;

    open spec fn deep_view(&self) -> PostModel {
        PostModel {
            meta: self.meta@,
            brief_markdown: self.brief_markdown@,
            content_markdown: self.content_markdown@,
            brief_html: self.brief_html@,
            content_html: self.content_html@,
            datetime: self.datetime,
            updated_datetime: self.updated_datetime,
            author: self.author.deep_view(),
            local_file: self.local_file@,
            slug_url: self.slug_url@,
        }
    }
}

impl View for Post {
    type V = PostModel;

    open spec fn view(&self) -> PostModel {
        self.deep_view()
    }
}

/// The document with the given metadata and nothing else.
pub open spec fn empty_post(meta: PostMetaModel) -> PostModel {
    PostModel {
        meta,
        brief_markdown: Seq::empty(),
        content_markdown: Seq::empty(),
        brief_html: Seq::empty(),
        content_html: Seq::empty(),
        datetime: None,
        updated_datetime: None,
        author: None,
        local_file: Seq::empty(),
        slug_url: Seq::empty(),
    }
}

impl Default for Post {
    fn default() -> (p: Self)
        ensures
            p@ == empty_post(empty_meta()),
    {
        Post {
            meta: PostMetadata::default(),
            brief_markdown: String::new(),
            content_markdown: String::new(),
            brief_html: String::new(),
            content_html: String::new(),
            datetime: None,
            updated_datetime: None,
            author: None,
            local_file: String::new(),
            slug_url: String::new(),
        }
    }
}

/// The two forms in which a source may write its metadata.
#[derive(Clone, Copy, Debug, PartialEq, Eq, Structural)]
pub enum MetaFormat {
    Yaml,
    Toml,
}

/// Where in a source a line stands: before the metadata block, inside it,
/// or after it.
pub enum Section {
    Before,
    Inside,
    After,
}

/// What has been read of a source.
pub struct Scan {
    pub section: Section,
    pub format: MetaFormat,
    pub metadata: Seq<char>,
    pub body: Seq<char>,
}

/// The position of the first line feed of `s` at or after `from`, or the
/// length of `s` where there is none.
pub open spec fn line_end(s: Seq<char>, from: int) -> int
    decreases s.len() - from,
{
    if from < 0 || from >= s.len() {
        s.len() as int
    } else if s[from] == '\n' {
        from
    } else {
        line_end(s, from + 1)
    }
}

/// `line` without a carriage return at its end.
pub open spec fn without_return(line: Seq<char>) -> Seq<char> {
    if line.len() > 0 && line.last() == '\r' {
        line.drop_last()
    } else {
        line
    }
}

/// The lines of `s` from position `from` on. A line ends with a line feed,
/// or a carriage return and a line feed, which are not part of it; the last
/// line may end with the text.
pub open spec fn lines_from(s: Seq<char>, from: int) -> Seq<Seq<char>>
    decreases s.len() - from,
{
    if from < 0 || from >= s.len() {
        Seq::empty()
    } else {
        let end = line_end(s, from);
        if end >= s.len() {
            seq![s.subrange(from, s.len() as int)]
        } else if end < from {
            Seq::empty()
        } else {
            seq![without_return(s.subrange(from, end))] + lines_from(s, end + 1)
        }
    }
}

/// The lines of `s`.
pub open spec fn lines(s: Seq<char>) -> Seq<Seq<char>> {
    lines_from(s, 0)
}

/// The line that opens a metadata block in YAML, and closes it.
pub open spec fn yaml_fence() -> Seq<char> {
    "---"@
}

/// The line that opens a metadata block in TOML.
pub open spec fn toml_fence() -> Seq<char> {
    "```toml"@
}

/// The line that closes a metadata block in TOML.
pub open spec fn toml_end() -> Seq<char> {
    "```"@
}

/// What has been read after one more line. The first fence line opens the
/// metadata block and the matching fence line closes it; the lines between
/// them are metadata, every other line is body.
pub open spec fn scan_line(st: Scan, line: Seq<char>) -> Scan {
    match st.section {
        Section::Before => if line == yaml_fence() {
            Scan { section: Section::Inside, format: MetaFormat::Yaml, ..st }
        } else if line == toml_fence() {
            Scan { section: Section::Inside, format: MetaFormat::Toml, ..st }
        } else {
            Scan { body: st.body + line + seq!['\n'], ..st }
        },
        Section::Inside => if (st.format == MetaFormat::Yaml && line == yaml_fence()) || (st.format
            == MetaFormat::Toml && line == toml_end()) {
            Scan { section: Section::After, metadata: st.metadata + seq!['\n'], ..st }
        } else {
            Scan { metadata: st.metadata + line + seq!['\n'], ..st }
        },
        Section::After => Scan { body: st.body + line + seq!['\n'], ..st },
    }
}

/// What has been read after the given lines.
pub open spec fn scan_lines(lines: Seq<Seq<char>>) -> Scan
    decreases lines.len(),
{
    if lines.len() == 0 {
        Scan {
            section: Section::Before,
            format: MetaFormat::Yaml,
            metadata: Seq::empty(),
            body: Seq::empty(),
        }
    } else {
        scan_line(scan_lines(lines.drop_last()), lines.last())
    }
}

/// A source taken apart: its metadata, as text in the given form, and its body.
#[derive(Debug)]
pub struct FrontMatter {
    pub format: MetaFormat,
    pub metadata: String,
    pub body: String,
}

/// The mathematical content of a `FrontMatter`.
pub struct FrontMatterModel {
    pub format: MetaFormat,
    pub metadata: Seq<char>,
    pub body: Seq<char>,
}

impl View for FrontMatter {
    type V = FrontMatterModel;

    open spec fn view(&self) -> FrontMatterModel {
        FrontMatterModel { format: self.format, metadata: self.metadata@, body: self.body@ }
    }
}

/// The parts of the source `content`.
pub open spec fn front_matter(content: Seq<char>) -> FrontMatterModel {
    let st = scan_lines(lines(trim(content)));
    FrontMatterModel { format: st.format, metadata: st.metadata, body: trim(st.body) }
}

/// `line_end` lies between `from` and the end of the text.
pub proof fn lemma_line_end(s: Seq<char>, from: int)
    requires
        0 <= from <= s.len(),
    ensures
        from <= line_end(s, from) <= s.len(),
        line_end(s, from) < s.len() ==> s[line_end(s, from)] == '\n',
        forall|k: int| from <= k < line_end(s, from) ==> s[k] != '\n',
    decreases s.len() - from,
{
    if from < s.len() && s[from] != '\n' {
        lemma_line_end(s, from + 1);
    }
}

/// The lines as one text, each ended by a line feed.
pub open spec fn text_of(lines: Seq<Seq<char>>) -> Seq<char>
    decreases lines.len(),
{
    if lines.len() == 0 {
        Seq::empty()
    } else {
        text_of(lines.drop_last()) + lines.last() + seq!['\n']
    }
}

/// The line opens a metadata block.
pub open spec fn opens_block(line: Seq<char>) -> bool {
    line == yaml_fence() || line == toml_fence()
}

/// The line closes a metadata block of the given form.
pub open spec fn closes_block(format: MetaFormat, line: Seq<char>) -> bool {
    (format == MetaFormat::Yaml && line == yaml_fence()) || (format == MetaFormat::Toml && line
        == toml_end())
}

/// The form of the metadata block that the line opens.
pub open spec fn opened_format(line: Seq<char>) -> MetaFormat {
    if line == yaml_fence() {
        MetaFormat::Yaml
    } else {
        MetaFormat::Toml
    }
}

proof fn lemma_scan_body(read: Seq<Seq<char>>, more: Seq<Seq<char>>)
    requires
        scan_lines(read).section is After || (scan_lines(read).section is Before && forall|i: int|
            0 <= i < more.len() ==> !opens_block(#[trigger] more[i])),
    ensures
        scan_lines(read + more) == (Scan {
            body: scan_lines(read).body + text_of(more),
            ..scan_lines(read)
        }),
    decreases more.len(),
{
    if more.len() == 0 {
        assert(read + more =~= read);
        assert(scan_lines(read).body + text_of(more) =~= scan_lines(read).body);
    } else {
        lemma_scan_body(read, more.drop_last());
        assert((read + more).drop_last() =~= read + more.drop_last());
        assert((read + more).last() == more.last());
        assert(!(scan_lines(read).section is Before) || !opens_block(more[more.len() - 1]));
        let st = scan_lines(read);
        assert(st.body + text_of(more.drop_last()) + more.last() + seq!['\n'] =~= st.body
            + text_of(more));
    }
}

proof fn lemma_scan_metadata(read: Seq<Seq<char>>, more: Seq<Seq<char>>)
    requires
        scan_lines(read).section is Inside,
        forall|i: int|
            0 <= i < more.len() ==> !closes_block(scan_lines(read).format, #[trigger] more[i]),
    ensures
        scan_lines(read + more) == (Scan {
            metadata: scan_lines(read).metadata + text_of(more),
            ..scan_lines(read)
        }),
    decreases more.len(),
{
    if more.len() == 0 {
        assert(read + more =~= read);
        assert(scan_lines(read).metadata + text_of(more) =~= scan_lines(read).metadata);
    } else {
        lemma_scan_metadata(read, more.drop_last());
        assert((read + more).drop_last() =~= read + more.drop_last());
        assert((read + more).last() == more.last());
        assert(!closes_block(scan_lines(read).format, more[more.len() - 1]));
        let st = scan_lines(read);
        assert(st.metadata + text_of(more.drop_last()) + more.last() + seq!['\n'] =~= st.metadata
            + text_of(more));
    }
}

/// Of a source whose lines are some lines that open no block, a line that
/// opens one, lines that do not close it, the line that closes it, and
/// more lines of any kind: the metadata is the lines inside the block and
/// an empty line, in the form that the opening line names, and the body is
/// the lines before the block and the lines after it.
pub proof fn lemma_scan_block(
    before: Seq<Seq<char>>,
    open: Seq<char>,
    inside: Seq<Seq<char>>,
    close: Seq<char>,
    after: Seq<Seq<char>>,
)
    requires
        forall|i: int| 0 <= i < before.len() ==> !opens_block(#[trigger] before[i]),
        opens_block(open),
        forall|i: int|
            0 <= i < inside.len() ==> !closes_block(opened_format(open), #[trigger] inside[i]),
        closes_block(opened_format(open), close),
    ensures
        scan_lines(before + seq![open] + inside + seq![close] + after) == (Scan {
            section: Section::After,
            format: opened_format(open),
            metadata: text_of(inside) + seq!['\n'],
            body: text_of(before) + text_of(after),
        }),
{
    let none: Seq<Seq<char>> = Seq::empty();
    lemma_scan_body(none, before);
    assert(none + before =~= before);
    let opened = before + seq![open];
    assert(opened.drop_last() =~= before);
    assert(scan_lines(opened).section is Inside);
    lemma_scan_metadata(opened, inside);
    let closed = opened + inside + seq![close];
    assert(closed.drop_last() =~= opened + inside);
    lemma_scan_body(closed, after);
    assert(Seq::<char>::empty() + text_of(before) =~= text_of(before));
    assert(Seq::<char>::empty() + text_of(inside) =~= text_of(inside));
}

/// The text holds no line feed.
pub open spec fn has_no_line_feed(line: Seq<char>) -> bool {
    forall|k: int| 0 <= k < line.len() ==> line[k] != '\n'
}

/// No line holds a line feed.
pub proof fn lemma_lines_hold_no_line_feed(s: Seq<char>, from: int)
    requires
        0 <= from,
    ensures
        forall|i: int|
            0 <= i < lines_from(s, from).len() ==> has_no_line_feed(
                #[trigger] lines_from(s, from)[i],
            ),
    decreases s.len() - from,
{
    if from < s.len() {
        let end = line_end(s, from);
        lemma_line_end(s, from);
        if end < s.len() {
            lemma_lines_hold_no_line_feed(s, end + 1);
            let first = without_return(s.subrange(from, end));
            let rest = lines_from(s, end + 1);
            assert(has_no_line_feed(first));
            assert forall|i: int| 0 <= i < lines_from(s, from).len() implies has_no_line_feed(
                #[trigger] lines_from(s, from)[i],
            ) by {
                if i > 0 {
                    assert(lines_from(s, from)[i] == rest[i - 1]);
                }
            }
        } else {
            assert(has_no_line_feed(s.subrange(from, s.len() as int)));
        }
    }
}

fn range_is(v: &Vec<char>, from: usize, to: usize, pat: &str) -> (r: bool)
    requires
        from <= to <= v.len(),
    ensures
        r == (v@.subrange(from as int, to as int) == pat@),
{
    let p = chars_of(pat);
    if p.len() != to - from {
        return false;
    }
    let mut k: usize = 0;
    while k < p.len()
        invariant
            k <= p.len(),
            p.len() == to - from,
            from <= to <= v.len(),
            p@ == pat@,
            forall|j: int| 0 <= j < k ==> v@[from + j] == p@[j],
        decreases p.len() - k,
    {
        if v[from + k] != p[k] {
            assert(v@.subrange(from as int, to as int)[k as int] != pat@[k as int]);
            return false;
        }
        k += 1;
    }
    assert(v@.subrange(from as int, to as int) =~= pat@);
    true
}

fn push_range(out: &mut String, v: &Vec<char>, from: usize, to: usize)
    requires
        from <= to <= v.len(),
    ensures
        final(out)@ == old(out)@ + v@.subrange(from as int, to as int),
{
    let mut i: usize = from;
    assert(out@ =~= old(out)@ + v@.subrange(from as int, from as int));
    while i < to
        invariant
            from <= i <= to <= v.len(),
            out@ == old(out)@ + v@.subrange(from as int, i as int),
        decreases to - i,
    {
        out.push(v[i]);
        i += 1;
        assert(out@ =~= old(out)@ + v@.subrange(from as int, i as int));
    }
}

/// Takes a source apart into its metadata and its body.
pub fn split_front_matter(content: &str) -> (parts: FrontMatter)
    ensures
        parts@ == front_matter(content@),
{
    let text = trimmed(content);
    let t = chars_of(text.as_str());
    let mut section = Section::Before;
    let mut format = MetaFormat::Yaml;
    let mut metadata = String::new();
    let mut body = String::new();
    let mut pos: usize = 0;
    let ghost mut done: Seq<Seq<char>> = Seq::empty();
    assert(done + lines_from(t@, 0) =~= lines(t@));
    while pos < t.len()
        invariant
            pos <= t.len(),
            done + lines_from(t@, pos as int) == lines(t@),
            scan_lines(done) == (Scan { section, format, metadata: metadata@, body: body@ }),
        decreases t.len() - pos,
    {
        let mut end: usize = pos;
        while end < t.len() && t[end] != '\n'
            invariant
                pos <= end <= t.len(),
                line_end(t@, pos as int) == line_end(t@, end as int),
            decreases t.len() - end,
        {
            end += 1;
        }
        let terminated = end < t.len();
        let stop: usize = if terminated && end > pos && t[end - 1] == '\r' {
            (end - 1) as usize
        } else {
            end
        };
        let ghost line = t@.subrange(pos as int, stop as int);
        proof {
            let raw = t@.subrange(pos as int, end as int);
            if terminated {
                assert(line_end(t@, pos as int) == end);
                if end > pos && t@[end - 1] == '\r' {
                    assert(raw.drop_last() =~= line);
                }
                assert(without_return(raw) == line);
                assert(lines_from(t@, pos as int) =~= seq![line] + lines_from(t@, end + 1));
            } else {
                assert(line_end(t@, pos as int) == t@.len());
                assert(lines_from(t@, pos as int) =~= seq![line]);
                assert(lines_from(t@, t@.len() as int) =~= Seq::<Seq<char>>::empty());
            }
        }
        let ghost before = Scan { section, format, metadata: metadata@, body: body@ };
        match section {
            Section::Before => {
                if range_is(&t, pos, stop, "---") {
                    section = Section::Inside;
                    format = MetaFormat::Yaml;
                } else if range_is(&t, pos, stop, "```toml") {
                    section = Section::Inside;
                    format = MetaFormat::Toml;
                } else {
                    push_range(&mut body, &t, pos, stop);
                    body.push('\n');
                    assert(body@ =~= before.body + line + seq!['\n']);
                }
            },
            Section::Inside => {
                let closes = match format {
                    MetaFormat::Yaml => range_is(&t, pos, stop, "---"),
                    MetaFormat::Toml => range_is(&t, pos, stop, "```"),
                };
                if closes {
                    section = Section::After;
                    metadata.push('\n');
                    assert(metadata@ =~= before.metadata + seq!['\n']);
                } else {
                    push_range(&mut metadata, &t, pos, stop);
                    metadata.push('\n');
                    assert(metadata@ =~= before.metadata + line + seq!['\n']);
                }
            },
            Section::After => {
                push_range(&mut body, &t, pos, stop);
                body.push('\n');
                assert(body@ =~= before.body + line + seq!['\n']);
            },
        }
        proof {
            let next = done.push(line);
            assert(next.drop_last() =~= done);
            assert(scan_lines(next) == scan_line(before, line));
            if terminated {
                assert(next + lines_from(t@, end + 1) =~= done + (seq![line] + lines_from(
                    t@,
                    end + 1,
                )));
            } else {
                assert(next + lines_from(t@, t@.len() as int) =~= done + seq![line]);
            }
            done = next;
        }
        pos = if terminated {
            end + 1
        } else {
            end
        };
    }
    assert(done =~= lines(t@));
    FrontMatter { format, metadata, body: trimmed(body.as_str()) }
}

/// The metadata with what it leaves open filled in: a leading slash taken
/// from the slug, the template of posts, comments allowed, the date as the
/// day of the last change, and no tags.
pub open spec fn with_defaults(m: PostMetaModel) -> PostMetaModel {
    PostMetaModel {
        slug: if has_prefix_slash(m.slug) {
            m.slug.drop_first()
        } else {
            m.slug
        },
        template: match m.template {
            Some(t) => Some(t),
            None => Some("post.hbs"@),
        },
        comments: match m.comments {
            Some(c) => Some(c),
            None => Some(true),
        },
        updated: match m.updated {
            Some(u) => Some(u),
            None => Some(m.date),
        },
        tags: match m.tags {
            Some(t) => Some(t),
            None => Some(Seq::empty()),
        },
        ..m
    }
}

/// The position of the first separator of a body: the least position at
/// which `<!-- more -->` or `<!--more-->` stands.
pub open spec fn separator_position(body: Seq<char>) -> Option<int> {
    match (find(body, "<!-- more -->"@), find(body, "<!--more-->"@)) {
        (Some(a), Some(b)) => if a <= b {
            Some(a)
        } else {
            Some(b)
        },
        (Some(a), None) => Some(a),
        (None, Some(b)) => Some(b),
        (None, None) => None,
    }
}

/// The excerpt of a body: the text before its first separator, without the
/// white space around it; the whole body where it has no separator.
pub open spec fn excerpt(body: Seq<char>) -> Seq<char> {
    match separator_position(body) {
        Some(i) => trim(body.take(i)),
        None => body,
    }
}

/// The document has been normalized: its metadata is filled in and its
/// dates are read.
pub open spec fn is_normalized(p: PostModel) -> bool {
    &&& p.meta.updated is Some
    &&& p.meta.tags is Some
    &&& p.meta.template is Some
    &&& p.meta.comments is Some
    &&& p.datetime is Some
    &&& p.updated_datetime is Some
}

/// Every document has been normalized.
pub open spec fn all_normalized(posts: Seq<PostModel>) -> bool {
    forall|i: int| 0 <= i < posts.len() ==> is_normalized(#[trigger] posts[i])
}

/// The document after normalization, given the dates that its metadata names.
pub open spec fn normalized(p: PostModel, date: DateTime, updated: DateTime) -> PostModel {
    PostModel {
        meta: with_defaults(p.meta),
        datetime: Some(date),
        updated_datetime: Some(updated),
        brief_markdown: excerpt(p.content_markdown),
        ..p
    }
}

/// The address of a document: the layout with `:year`, `:month`, `:day`
/// and `:slug` replaced, in that order.
pub open spec fn slug_address(layout: Seq<char>, date: DateTime, slug: Seq<char>) -> Seq<char> {
    replace_all(
        replace_all(
            replace_all(
                replace_all(layout, ":year"@, signed_decimal(date.year as int)),
                ":month"@,
                two_digits(date.month as nat),
            ),
            ":day"@,
            two_digits(date.day as nat),
        ),
        ":slug"@,
        slug,
    )
}

/// The text of a document's source file: the metadata, a fence, an empty
/// line, the body and a line feed.
pub open spec fn source_text(metadata: Seq<char>, body: Seq<char>) -> Seq<char> {
    metadata + "---\n\n"@ + body + seq!['\n']
}

/// The numbers that order the documents by date.
pub open spec fn date_keys(posts: Seq<PostModel>) -> Seq<int> {
    Seq::new(posts.len(), |i: int| posts[i].datetime->0.instant())
}

/// Every document has a valid date.
pub open spec fn all_dated(posts: Seq<PostModel>) -> bool {
    forall|i: int|
        0 <= i < posts.len() ==> (#[trigger] posts[i]).datetime is Some
            && posts[i].datetime->0.wf()
}

/// `sorted` holds the documents of `posts`, the newest first; documents of
/// one date keep their order.
pub open spec fn newest_first_of(posts: Seq<PostModel>, sorted: Seq<PostModel>) -> bool {
    exists|order: Seq<int>| #[trigger]
        is_descending_order(date_keys(posts), order) && sorted == arranged(posts, order)
}

/// The documents have one arrangement with the newest first.
pub proof fn lemma_newest_first_is_unique(
    posts: Seq<PostModel>,
    first: Seq<PostModel>,
    second: Seq<PostModel>,
)
    requires
        newest_first_of(posts, first),
        newest_first_of(posts, second),
    ensures
        first == second,
{
    let a = choose|order: Seq<int>| #[trigger]
        is_descending_order(date_keys(posts), order) && first == arranged(posts, order);
    let b = choose|order: Seq<int>| #[trigger]
        is_descending_order(date_keys(posts), order) && second == arranged(posts, order);
    lemma_descending_order_is_unique(date_keys(posts), a, b);
}

/// The metadata as a source states it: every field may be missing.
#[derive(Debug)]
pub struct RawMetadata {
    pub title: Option<String>,
    pub slug: Option<String>,
    pub date: Option<String>,
    pub updated: Option<String>,
    pub tags: Option<Vec<String>>,
    pub template: Option<String>,
    pub language: Option<String>,
    pub comments: Option<bool>,
    pub author: Option<String>,
}

/// The mathematical content of a `RawMetadata`.
pub struct RawMetaModel {
    pub title: Option<Seq<char>>,
    pub slug: Option<Seq<char>>,
    pub date: Option<Seq<char>>,
    pub updated: Option<Seq<char>>,
    pub tags: Option<Seq<Seq<char>>>,
    pub template: Option<Seq<char>>,
    pub language: Option<Seq<char>>,
    pub comments: Option<bool>,
    pub author: Option<Seq<char>>,
}

impl View for RawMetadata {
    type V = RawMetaModel;

    open spec fn view(&self) -> RawMetaModel {
        RawMetaModel {
            title: self.title.deep_view(),
            slug: self.slug.deep_view(),
            date: self.date.deep_view(),
            updated: self.updated.deep_view(),
            tags: self.tags.deep_view(),
            template: self.template.deep_view(),
            language: self.language.deep_view(),
            comments: self.comments,
            author: self.author.deep_view(),
        }
    }
}

/// The field that metadata must state and does not: the title, the slug
/// or the date, the first of them that is missing.
#[derive(Debug, Clone, Copy, PartialEq, Eq, Structural)]
pub enum MissingField {
    Title,
    Slug,
    Date,
}

/// The metadata of a document, where title, slug and date are stated.
pub open spec fn checked_meta(raw: RawMetaModel) -> Result<PostMetaModel, MissingField> {
    if raw.title is None {
        Err(MissingField::Title)
    } else if raw.slug is None {
        Err(MissingField::Slug)
    } else if raw.date is None {
        Err(MissingField::Date)
    } else {
        Ok(
            PostMetaModel {
                title: raw.title->0,
                slug: raw.slug->0,
                date: raw.date->0,
                updated: raw.updated,
                tags: raw.tags,
                template: raw.template,
                language: raw.language,
                comments: raw.comments,
                author: raw.author,
            },
        )
    }
}

impl MissingField {
    /// The name of the field.
    pub fn name(&self) -> (n: &'static str)
        ensures
            n@ == match self {
                MissingField::Title => "title"@,
                MissingField::Slug => "slug"@,
                MissingField::Date => "date"@,
            },
    {
        match self {
            MissingField::Title => "title",
            MissingField::Slug => "slug",
            MissingField::Date => "date",
        }
    }
}

impl PostMetadata {
    /// The metadata of a document from what its source states: title,
    /// slug and date must be there.
    pub fn from_raw(raw: RawMetadata) -> (r: Result<PostMetadata, MissingField>)
        ensures
            match r {
                Ok(meta) => checked_meta(raw@) == Ok::<PostMetaModel, MissingField>(meta@),
                Err(field) => checked_meta(raw@) == Err::<PostMetaModel, MissingField>(field),
            },
    {
        let title = match raw.title {
            Some(t) => t,
            None => {
                return Err(MissingField::Title);
            },
        };
        let slug = match raw.slug {
            Some(s) => s,
            None => {
                return Err(MissingField::Slug);
            },
        };
        let date = match raw.date {
            Some(d) => d,
            None => {
                return Err(MissingField::Date);
            },
        };
        Ok(
            PostMetadata {
                title,
                slug,
                date,
                updated: raw.updated,
                tags: raw.tags,
                template: raw.template,
                language: raw.language,
                comments: raw.comments,
                author: raw.author,
            },
        )
    }
}

/// The first separator stands where one of the two markers stands and
/// none of them stands before; a body has none where neither marker stands
/// in it.
pub proof fn lemma_separator_position(body: Seq<char>)
    ensures
        match separator_position(body) {
            Some(i) => (occurs_at(body, "<!-- more -->"@, i) || occurs_at(body, "<!--more-->"@, i))
                && forall|j: int|
                0 <= j < i ==> !occurs_at(body, "<!-- more -->"@, j) && !occurs_at(
                    body,
                    "<!--more-->"@,
                    j,
                ),
            None => forall|j: int|
                0 <= j ==> !occurs_at(body, "<!-- more -->"@, j) && !occurs_at(
                    body,
                    "<!--more-->"@,
                    j,
                ),
        },
{
    lemma_find_from(body, "<!-- more -->"@, 0);
    lemma_find_from(body, "<!--more-->"@, 0);
}

/// A body with a separator has an excerpt shorter than itself; a body
/// without one is its own excerpt.
pub proof fn lemma_excerpt(body: Seq<char>)
    ensures
        find(body, "<!-- more -->"@) is Some || find(body, "<!--more-->"@) is Some ==> excerpt(
            body,
        ).len() < body.len(),
        find(body, "<!-- more -->"@) is None && find(body, "<!--more-->"@) is None ==> excerpt(
            body,
        ) == body,
{
    reveal_strlit("<!-- more -->");
    reveal_strlit("<!--more-->");
    lemma_find_from(body, "<!-- more -->"@, 0);
    lemma_find_from(body, "<!--more-->"@, 0);
    match separator_position(body) {
        Some(i) => {
            lemma_trim_is_no_longer(body.take(i));
        },
        None => {},
    }
}

fn excerpt_of(content: &str) -> (r: String)
    ensures
        r@ == excerpt(content@),
{
    let v = chars_of(content);
    let spaced = chars_of("<!-- more -->");
    let tight = chars_of("<!--more-->");
    let at = match (find_in(&v, &spaced), find_in(&v, &tight)) {
        (Some(a), Some(b)) => if a <= b {
            Some(a)
        } else {
            Some(b)
        },
        (Some(a), None) => Some(a),
        (None, Some(b)) => Some(b),
        (None, None) => None,
    };
    proof {
        lemma_find_from(v@, spaced@, 0);
        lemma_find_from(v@, tight@, 0);
    }
    match at {
        Some(i) => {
            let head = string_of_range(&v, 0, i);
            trimmed(head.as_str())
        },
        None => String::from_str(content),
    }
}

impl Post {
    /// An empty document that allows comments.
    pub fn default() -> (p: Post)
        ensures
            p@ == empty_post(PostMetaModel { comments: Some(true), ..empty_meta() }),
    {
        let mut p: Post = Default::default();
        p.meta.comments = Some(true);
        p
    }

    /// Fills in what the metadata leaves open.
    pub fn fill_defaults(&mut self)
        ensures
            final(self)@ == (PostModel { meta: with_defaults(old(self)@.meta), ..old(self)@ }),
    {
        let slug = chars_of(self.meta.slug.as_str());
        if slug.len() > 0 && slug[0] == '/' {
            self.meta.slug = string_of_range(&slug, 1, slug.len());
        }
        if self.meta.template.is_none() {
            self.meta.template = Some(String::from_str("post.hbs"));
        }
        if self.meta.comments.is_none() {
            self.meta.comments = Some(true);
        }
        if self.meta.updated.is_none() {
            self.meta.updated = Some(self.meta.date.clone());
        }
        if self.meta.tags.is_none() {
            let none: Vec<String> = Vec::new();
            assert(none.deep_view() =~= Seq::<Seq<char>>::empty());
            self.meta.tags = Some(none);
        }
    }

    /// Normalizes the document with the dates that its metadata names.
    pub fn normalize_with(&mut self, date: DateTime, updated: DateTime)
        ensures
            final(self)@ == normalized(old(self)@, date, updated),
    {
        self.fill_defaults();
        self.datetime = Some(date);
        self.updated_datetime = Some(updated);
        self.brief_markdown = excerpt_of(self.content_markdown.as_str());
    }

    /// Normalizes the document: fills in what the metadata leaves open,
    /// reads its dates and takes its excerpt. Where a date cannot be read,
    /// the document keeps what was done before that date was tried.
    pub fn parse_meta(&mut self) -> (r: Result<(), TimeFormatError>)
        ensures
            ({
                let meta = with_defaults(old(self)@.meta);
                let date = time_of(meta.date);
                let updated = time_of(meta.updated->0);
                match r {
                    Ok(_) => date is Some && updated is Some && date->0.wf() && updated->0.wf()
                        && final(self)@ == normalized(old(self)@, date->0, updated->0),
                    Err(e) => if date is None {
                        e.text() == meta.date && final(self)@ == (PostModel {
                            meta,
                            ..old(self)@
                        })
                    } else {
                        updated is None && e.text() == meta.updated->0 && final(self)@
                            == (PostModel { meta, datetime: date, ..old(self)@ })
                    },
                }
            }),
    {
        self.fill_defaults();
        match parse_time(self.meta.date.as_str()) {
            Ok(d) => {
                self.datetime = Some(d);
            },
            Err(e) => {
                return Err(e);
            },
        }
        let updated = match &self.meta.updated {
            Some(u) => parse_time(u.as_str()),
            None => parse_time(self.meta.date.as_str()),
        };
        match updated {
            Ok(u) => {
                self.updated_datetime = Some(u);
            },
            Err(e) => {
                return Err(e);
            },
        }
        self.brief_markdown = excerpt_of(self.content_markdown.as_str());
        Ok(())
    }

    /// The normalized document with the given metadata and body.
    pub fn from_parts(meta: PostMetadata, body: String) -> (r: Result<Post, TimeFormatError>)
        ensures
            ({
                let start = PostModel {
                    content_markdown: body@,
                    ..empty_post(meta@)
                };
                let filled = with_defaults(meta@);
                match r {
                    Ok(p) => time_of(filled.date) is Some && time_of(filled.updated->0) is Some
                        && time_of(filled.date)->0.wf() && time_of(filled.updated->0)->0.wf()
                        && p@ == normalized(
                        start,
                        time_of(filled.date)->0,
                        time_of(filled.updated->0)->0,
                    ),
                    Err(e) => if time_of(filled.date) is None {
                        e.text() == filled.date
                    } else {
                        time_of(filled.updated->0) is None && e.text() == filled.updated->0
                    },
                }
            }),
    {
        let mut post: Post = Default::default();
        post.meta = meta;
        post.content_markdown = body;
        match post.parse_meta() {
            Ok(_) => Ok(post),
            Err(e) => Err(e),
        }
    }

    /// The text of the document's source file, given its metadata as text.
    pub fn file_text(&self, metadata: &str) -> (text: String)
        ensures
            text@ == source_text(metadata@, self@.content_markdown),
    {
        let mut text = String::from_str(metadata);
        text.append("---\n\n");
        text.append(self.content_markdown.as_str());
        text.push('\n');
        text
    }

    /// Sets the document's address from the layout `permalink`.
    pub fn set_slug_url(&mut self, permalink: &str)
        requires
            old(self).datetime is Some,
        ensures
            final(self)@ == (PostModel {
                slug_url: slug_address(permalink@, old(self).datetime->0, old(self)@.meta.slug),
                ..old(self)@
            }),
    {
        let date = self.datetime.unwrap();
        let year = signed_decimal_string(date.year as i64);
        let month = two_digit_string(date.month as u64);
        let day = two_digit_string(date.day as u64);
        let with_year = replace(permalink, ":year", year.as_str());
        let with_month = replace(with_year.as_str(), ":month", month.as_str());
        let with_day = replace(with_month.as_str(), ":day", day.as_str());
        self.slug_url = replace(with_day.as_str(), ":slug", self.meta.slug.as_str());
    }

    /// Whether the document has been normalized.
    pub fn is_normalized(&self) -> (b: bool)
        ensures
            b == is_normalized(self@),
    {
        self.meta.updated.is_some() && self.meta.tags.is_some() && self.meta.template.is_some()
            && self.meta.comments.is_some() && self.datetime.is_some()
            && self.updated_datetime.is_some()
    }

    /// Whether every document has been normalized.
    pub fn are_normalized(posts: &Vec<Post>) -> (b: bool)
        ensures
            b == all_normalized(posts.deep_view()),
    {
        let mut i: usize = 0;
        while i < posts.len()
            invariant
                i <= posts@.len(),
                forall|j: int| 0 <= j < i ==> is_normalized((#[trigger] posts@[j])@),
            decreases posts@.len() - i,
        {
            if !posts[i].is_normalized() {
                assert(posts.deep_view()[i as int] == posts@[i as int]@);
                return false;
            }
            i += 1;
        }
        assert forall|j: int| 0 <= j < posts.deep_view().len() implies is_normalized(
            #[trigger] posts.deep_view()[j],
        ) by {
            assert(is_normalized(posts@[j]@));
        }
        true
    }

    /// Whether every document has a valid date.
    pub fn are_dated(posts: &Vec<Post>) -> (b: bool)
        ensures
            b == all_dated(posts.deep_view()),
    {
        let mut i: usize = 0;
        while i < posts.len()
            invariant
                i <= posts@.len(),
                forall|j: int|
                    0 <= j < i ==> (#[trigger] posts@[j]).datetime is Some
                        && posts@[j].datetime->0.wf(),
            decreases posts@.len() - i,
        {
            let dated = match posts[i].datetime {
                Some(date) => date.is_valid(),
                None => false,
            };
            if !dated {
                assert(posts.deep_view()[i as int].datetime == posts@[i as int].datetime);
                return false;
            }
            i += 1;
        }
        assert forall|j: int| 0 <= j < posts.deep_view().len() implies (#[trigger] posts.deep_view()[j]).datetime
            is Some && posts.deep_view()[j].datetime->0.wf() by {
            assert(posts@[j].datetime is Some);
        }
        true
    }

    /// The documents with the newest first; documents of one date keep
    /// their order.
    pub fn newest_first(posts: Vec<Post>) -> (sorted: Vec<Post>)
        requires
            all_dated(posts.deep_view()),
        ensures
            newest_first_of(posts.deep_view(), sorted.deep_view()),
            sorted@.len() == posts@.len(),
            forall|i: int, j: int|
                0 <= i < j < sorted@.len() ==> !(#[trigger] sorted@[i]).datetime->0.before(
                    &(#[trigger] sorted@[j]).datetime->0,
                ),
            forall|i: int|
                0 <= i < sorted@.len() ==> posts.deep_view().contains(
                    #[trigger] sorted.deep_view()[i],
                ),
    {
        let mut keys: Vec<u128> = Vec::new();
        let mut i: usize = 0;
        while i < posts.len()
            invariant
                i <= posts@.len(),
                keys@.len() == i,
                all_dated(posts.deep_view()),
                forall|k: int|
                    0 <= k < i ==> #[trigger] keys@[k] == posts@[k].datetime->0.instant(),
            decreases posts@.len() - i,
        {
            assert(posts.deep_view()[i as int].datetime == posts@[i as int].datetime);
            let date = posts[i].datetime.unwrap();
            keys.push(date.sort_key());
            i += 1;
        }
        let order = descending_order(&keys);
        let ghost model = posts.deep_view();
        let ghost given = posts@;
        let ghost places = positions(order@);
        proof {
            assert(key_values(keys@) =~= date_keys(model));
            lemma_order_is_injective(date_keys(model), places);
            assert forall|a: int| 0 <= a < order@.len() implies 0 <= #[trigger] order@[a]
                < posts@.len() by {
                assert(places[a] == order@[a]);
            }
            assert forall|a: int, b: int|
                0 <= a < order@.len() && 0 <= b < order@.len() && a != b implies #[trigger] order@[a]
                != #[trigger] order@[b] by {
                assert(places[a] == order@[a] && places[b] == order@[b]);
            }
        }
        let sorted = arrange(posts, &order);
        proof {
            assert(sorted.deep_view() =~= arranged(model, places));
            assert forall|a: int, b: int| 0 <= a < b < sorted@.len() implies !(#[trigger] sorted@[a]).datetime->0.before(
                &(#[trigger] sorted@[b]).datetime->0,
            ) by {
                let x = given[places[a]];
                let y = given[places[b]];
                assert(date_keys(model)[places[a]] >= date_keys(model)[places[b]]);
                assert(model[places[a]].datetime == x.datetime);
                assert(model[places[b]].datetime == y.datetime);
                DateTime::lemma_instant_orders(x.datetime->0, y.datetime->0);
            }
            assert forall|a: int| 0 <= a < sorted@.len() implies model.contains(
                #[trigger] sorted.deep_view()[a],
            ) by {
                assert(0 <= places[a] < model.len());
                assert(sorted.deep_view()[a] == model[places[a]]);
            }
        }
        sorted
    }
}

} // verus!
