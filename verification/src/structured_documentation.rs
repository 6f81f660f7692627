//! Structured documentation: doc comments aggregated over several lines and
//! parsed into a summary and the tags `@param`, `@return`, `@example`,
//! `@throws` and custom tags, with plain-text and markdown renderings.
use vstd::prelude::*;
use crate::text::{
    chars_eq_str, chars_of, is_ws, join, push_chars, push_str, split_once_whitespace, split_once_ws,
    string_from_chars, sub_chars, trim, trim_chars, trim_end, trim_end_chars,
};

verus! {

/// Documentation of one parameter.
#[derive(Debug, Clone)]
pub struct ParamDoc {
    /// Parameter name.
    pub name: String,
    /// Parameter description.
    pub description: String,
}

/// Documentation of a symbol, with its parsed tags.
#[derive(Debug, Clone)]
pub struct StructuredDocumentation {
    /// Summary: the lines before the first tag.
    pub summary: String,
    /// `@param name description` entries, in order.
    pub params: Vec<ParamDoc>,
    /// The last `@return`/`@returns` description.
    pub returns: Option<String>,
    /// `@example` entries, in order.
    pub examples: Vec<String>,
    /// `@throws`/`@throw` entries, in order.
    pub throws: Vec<String>,
    /// Other tags: each tag name with its contents, tags in order of first use.
    pub custom_tags: Vec<(String, Vec<String>)>,
}

/// The documentation as character sequences.
pub struct DocModel {
    pub summary: Seq<char>,
    pub params: Seq<(Seq<char>, Seq<char>)>,
    pub returns: Option<Seq<char>>,
    pub examples: Seq<Seq<char>>,
    pub throws: Seq<Seq<char>>,
    pub custom_tags: Seq<(Seq<char>, Seq<Seq<char>>)>,
}

pub open spec fn strings_view(v: Seq<String>) -> Seq<Seq<char>> {
    v.map_values(|s: String| s@)
}

pub open spec fn param_view(p: ParamDoc) -> (Seq<char>, Seq<char>) {
    (p.name@, p.description@)
}

pub open spec fn custom_view(c: (String, Vec<String>)) -> (Seq<char>, Seq<Seq<char>>) {
    (c.0@, strings_view(c.1@))
}

impl View for StructuredDocumentation {
    type V = DocModel;

    open spec fn view(&self) -> DocModel {
        DocModel {
            summary: self.summary@,
            params: self.params@.map_values(|p: ParamDoc| param_view(p)),
            returns: match self.returns {
                Some(r) => Some(r@),
                None => None,
            },
            examples: strings_view(self.examples@),
            throws: strings_view(self.throws@),
            custom_tags: self.custom_tags@.map_values(|c: (String, Vec<String>)| custom_view(c)),
        }
    }
}

/// Documentation with nothing in it.
pub open spec fn empty_doc() -> DocModel {
    DocModel {
        summary: Seq::empty(),
        params: Seq::empty(),
        returns: None,
        examples: Seq::empty(),
        throws: Seq::empty(),
        custom_tags: Seq::empty(),
    }
}

/// Index of the first custom tag named `tag`.
pub open spec fn custom_index(c: Seq<(Seq<char>, Seq<Seq<char>>)>, tag: Seq<char>) -> Option<int> {
    if exists|i: int| 0 <= i < c.len() && (#[trigger] c[i]).0 == tag {
        Some(choose|i: int| 0 <= i < c.len() && (#[trigger] c[i]).0 == tag && forall|j: int| 0 <= j < i ==> (#[trigger] c[j]).0 != tag)
    } else {
        None
    }
}

/// The first custom tag index is well defined when the tag occurs.
pub proof fn lemma_custom_index(c: Seq<(Seq<char>, Seq<Seq<char>>)>, tag: Seq<char>)
    ensures
        match custom_index(c, tag) {
            Some(i) => 0 <= i < c.len() && c[i].0 == tag && forall|j: int| 0 <= j < i ==> (#[trigger] c[j]).0 != tag,
            None => forall|j: int| 0 <= j < c.len() ==> (#[trigger] c[j]).0 != tag,
        },
{
    if exists|i: int| 0 <= i < c.len() && (#[trigger] c[i]).0 == tag {
        let k = choose|i: int| 0 <= i < c.len() && (#[trigger] c[i]).0 == tag;
        lemma_least_custom(c, tag, k);
    }
}

proof fn lemma_least_custom(c: Seq<(Seq<char>, Seq<Seq<char>>)>, tag: Seq<char>, k: int)
    requires
        0 <= k < c.len(),
        c[k].0 == tag,
    ensures
        exists|i: int| 0 <= i < c.len() && (#[trigger] c[i]).0 == tag && forall|j: int| 0 <= j < i ==> (#[trigger] c[j]).0 != tag,
    decreases k,
{
    if exists|j: int| 0 <= j < k && (#[trigger] c[j]).0 == tag {
        let j = choose|j: int| 0 <= j < k && (#[trigger] c[j]).0 == tag;
        lemma_least_custom(c, tag, j);
    } else {
        assert(c[k].0 == tag && forall|j: int| 0 <= j < k ==> (#[trigger] c[j]).0 != tag);
    }
}

/// Custom tags after one more entry `value` for `tag`.
pub open spec fn custom_add(
    c: Seq<(Seq<char>, Seq<Seq<char>>)>,
    tag: Seq<char>,
    value: Seq<char>,
) -> Seq<(Seq<char>, Seq<Seq<char>>)> {
    match custom_index(c, tag) {
        Some(i) => c.update(i, (tag, c[i].1.push(value))),
        None => c.push((tag, seq![value])),
    }
}

/// Documentation after one tag `tag` with content `content`.
pub open spec fn add_tag_spec(d: DocModel, tag: Seq<char>, content: Seq<char>) -> DocModel {
    if tag == "param"@ {
        let p = match split_once_ws(content) {
            Some((n, desc)) => (trim(n), trim(desc)),
            None => (trim(content), Seq::<char>::empty()),
        };
        DocModel { params: d.params.push(p), ..d }
    } else if tag == "return"@ || tag == "returns"@ {
        DocModel { returns: Some(trim(content)), ..d }
    } else if tag == "example"@ {
        DocModel { examples: d.examples.push(trim(content)), ..d }
    } else if tag == "throws"@ || tag == "throw"@ {
        DocModel { throws: d.throws.push(trim(content)), ..d }
    } else {
        DocModel { custom_tags: custom_add(d.custom_tags, tag, trim(content)), ..d }
    }
}

/// State of the line-by-line parser.
pub struct ParseState {
    /// Summary lines seen so far.
    pub lines: Seq<Seq<char>>,
    /// The tag being read, if any.
    pub tag: Option<Seq<char>>,
    /// Content of the tag being read.
    pub content: Seq<char>,
    /// Documentation with the finished tags.
    pub doc: DocModel,
}

pub open spec fn initial_state() -> ParseState {
    ParseState { lines: Seq::empty(), tag: None, content: Seq::empty(), doc: empty_doc() }
}

/// The documentation with the tag being read, if any, added.
pub open spec fn flushed(st: ParseState) -> DocModel {
    match st.tag {
        Some(name) => add_tag_spec(st.doc, name, st.content),
        None => st.doc,
    }
}

/// The parser's state after one more line.  A trimmed line that starts with
/// `@` begins a tag (name up to the first whitespace, then content); other
/// lines continue the current tag, or add to the summary before any tag.
pub open spec fn parse_step(st: ParseState, line: Seq<char>) -> ParseState {
    let t = trim(line);
    if t.len() > 0 && t[0] == '@' {
        let tag_line = t.drop_first();
        let doc = flushed(st);
        match split_once_ws(tag_line) {
            Some((name, rest)) => ParseState { tag: Some(name), content: trim(rest), doc, ..st },
            None => ParseState {
                tag: Some(tag_line),
                content: if st.tag is Some { Seq::empty() } else { st.content },
                doc,
                ..st
            },
        }
    } else if st.tag is Some {
        ParseState {
            content: if st.content.len() == 0 { t } else { st.content + seq![' '] + t },
            ..st
        }
    } else {
        ParseState { lines: st.lines.push(t), ..st }
    }
}

pub open spec fn parse_lines(lines: Seq<Seq<char>>) -> ParseState
    decreases lines.len(),
{
    if lines.len() == 0 {
        initial_state()
    } else {
        parse_step(parse_lines(lines.drop_last()), lines.last())
    }
}

/// The documentation that `lines` describe.
pub open spec fn parse_spec(lines: Seq<Seq<char>>) -> DocModel {
    let st = parse_lines(lines);
    DocModel { summary: trim(join(st.lines, "\n"@)), ..flushed(st) }
}

pub open spec fn lines_view(lines: Seq<&str>) -> Seq<Seq<char>> {
    lines.map_values(|s: &str| s@)
}

/// A continuation line of a tag adds to the tag's content: once a tag is
/// being read, a following line whose trimmed text is not empty and does
/// not start a new tag keeps the tag, the summary and the finished tags as
/// they were, and extends the tag's content, which afterwards begins with the
/// content before and ends with the trimmed text of the line (separated by
/// a space when there was content before).
pub proof fn law_continuation_extends_tag(lines: Seq<Seq<char>>, line: Seq<char>)
    requires
        parse_lines(lines).tag is Some,
        trim(line).len() > 0,
        trim(line)[0] != '@',
    ensures
        ({
            let before = parse_lines(lines);
            let after = parse_lines(lines.push(line));
            let t = trim(line);
            &&& after.tag == before.tag
            &&& after.lines == before.lines
            &&& after.doc == before.doc
            &&& after.content.len() >= before.content.len() + t.len()
            &&& after.content.subrange(0, before.content.len() as int) == before.content
            &&& after.content.subrange(after.content.len() - t.len(), after.content.len() as int) == t
            &&& before.content.len() > 0 ==> after.content[before.content.len() as int] == ' '
        }),
{
    let before = parse_lines(lines);
    assert(lines.push(line).drop_last() =~= lines);
    let after = parse_lines(lines.push(line));
    let t = trim(line);
    if before.content.len() == 0 {
        assert(after.content == t);
        assert(after.content.subrange(0, 0) =~= before.content);
        assert(after.content.subrange(0, t.len() as int) =~= t);
    } else {
        assert(after.content == before.content + seq![' '] + t);
        assert(after.content.subrange(0, before.content.len() as int) =~= before.content);
        assert(after.content.subrange(after.content.len() - t.len(), after.content.len() as int) =~= t);
    }
}

/// Exec-side state of the parser.
struct ParserState {
    lines: Vec<Vec<char>>,
    tag: Option<Vec<char>>,
    content: Vec<char>,
    doc: StructuredDocumentation,
}

spec fn chars_view(v: Seq<Vec<char>>) -> Seq<Seq<char>> {
    v.map_values(|c: Vec<char>| c@)
}

impl ParserState {
    spec fn model(&self) -> ParseState {
        ParseState {
            lines: chars_view(self.lines@),
            tag: match self.tag {
                Some(t) => Some(t@),
                None => None,
            },
            content: self.content@,
            doc: self.doc@,
        }
    }
}

/// Copies of character vectors as strings.
fn strings_of(v: &Vec<Vec<char>>) -> (r: Vec<String>)
    ensures
        strings_view(r@) == chars_view(v@),
{
    let mut r: Vec<String> = Vec::new();
    let mut i: usize = 0;
    while i < v.len()
        invariant
            i <= v@.len(),
            r@.len() == i,
            forall|k: int| 0 <= k < i ==> (#[trigger] r@[k])@ == v@[k]@,
        decreases v@.len() - i,
    {
        r.push(string_from_chars(&v[i]));
        i += 1;
    }
    assert(strings_view(r@) =~= chars_view(v@));
    r
}

/// `parts` joined with a newline between neighbours.
fn join_newline(parts: &Vec<Vec<char>>) -> (r: Vec<char>)
    ensures
        r@ == join(chars_view(parts@), "\n"@),
{
    let mut r: Vec<char> = Vec::new();
    let mut i: usize = 0;
    while i < parts.len()
        invariant
            i <= parts@.len(),
            r@ == join(chars_view(parts@.take(i as int)), "\n"@),
        decreases parts@.len() - i,
    {
        let ghost prev = chars_view(parts@.take(i as int));
        let ghost next = chars_view(parts@.take(i as int + 1));
        assert(next.drop_last() =~= prev);
        assert(next.last() == parts@[i as int]@);
        if i > 0 {
            push_str(&mut r, "\n");
        }
        push_chars(&mut r, &parts[i]);
        i += 1;
    }
    assert(parts@.take(parts@.len() as int) =~= parts@);
    r
}

impl ParserState {
    /// Starts reading tag `tag_line` (name, then optional content).
    fn begin_tag(&mut self, tag_line: Vec<char>)
        ensures
            ({
                let pre = old(self).model();
                let doc = flushed(pre);
                &&& final(self).model().lines == pre.lines
                &&& final(self).model().doc == doc
                &&& match split_once_ws(tag_line@) {
                    Some((name, rest)) => final(self).model().tag == Some(name)
                        && final(self).model().content == trim(rest),
                    None => final(self).model().tag == Some(tag_line@)
                        && final(self).model().content == (if pre.tag is Some { Seq::empty() } else { pre.content }),
                }
            }),
    {
        let had_tag = self.tag.is_some();
        let tag = self.tag.take();
        match tag {
            Some(name) => {
                self.doc.add_tag(&name, &self.content);
                self.content = Vec::new();
            },
            None => {},
        }
        match split_once_whitespace(&tag_line) {
            Some((name, rest)) => {
                self.tag = Some(name);
                self.content = trim_chars(&rest);
            },
            None => {
                self.tag = Some(tag_line);
            },
        }
    }

    /// Reads one more line.
    fn step(&mut self, line: &str)
        ensures
            final(self).model() == parse_step(old(self).model(), line@),
    {
        let ghost pre = self.model();
        let chars = chars_of(line);
        let t = trim_chars(&chars);
        if t.len() > 0 && t[0] == '@' {
            let tag_line = sub_chars(&t, 1, t.len());
            assert(tag_line@ =~= t@.drop_first());
            self.begin_tag(tag_line);
        } else if self.tag.is_some() {
            if self.content.len() > 0 {
                self.content.push(' ');
            }
            push_chars(&mut self.content, &t);
            assert(self.content@ =~= (if pre.content.len() == 0 { t@ } else { pre.content + seq![' '] + t@ }));
        } else {
            self.lines.push(t);
            assert(chars_view(self.lines@) =~= pre.lines.push(trim(line@)));
        }
    }
}

impl Default for StructuredDocumentation {
    /// Empty documentation.
    fn default() -> (d: Self)
        ensures
            d@ == empty_doc(),
    {
        StructuredDocumentation::new()
    }
}

impl StructuredDocumentation {
    /// Creates empty documentation.
    pub fn new() -> (d: Self)
        ensures
            d@ == empty_doc(),
    {
        let d = StructuredDocumentation {
            summary: String::new(),
            params: Vec::new(),
            returns: None,
            examples: Vec::new(),
            throws: Vec::new(),
            custom_tags: Vec::new(),
        };
        assert(d@.params =~= Seq::<(Seq<char>, Seq<char>)>::empty());
        assert(d@.examples =~= Seq::<Seq<char>>::empty());
        assert(d@.throws =~= Seq::<Seq<char>>::empty());
        assert(d@.custom_tags =~= Seq::<(Seq<char>, Seq<Seq<char>>)>::empty());
        d
    }

    /// Index of the first custom tag named `tag`.
    fn find_custom(&self, tag: &Vec<char>) -> (r: Option<usize>)
        ensures
            match r {
                Some(i) => custom_index(self@.custom_tags, tag@) == Some(i as int),
                None => custom_index(self@.custom_tags, tag@) is None,
            },
    {
        let ghost c = self@.custom_tags;
        let mut i: usize = 0;
        while i < self.custom_tags.len()
            invariant
                c == self@.custom_tags,
                c.len() == self.custom_tags@.len(),
                i <= self.custom_tags@.len(),
                forall|j: int| 0 <= j < i ==> (#[trigger] c[j]).0 != tag@,
            decreases self.custom_tags@.len() - i,
        {
            assert(c[i as int] == custom_view(self.custom_tags@[i as int]));
            if chars_eq_str(tag, self.custom_tags[i].0.as_str()) {
                proof {
                    lemma_custom_index(c, tag@);
                    let k = custom_index(c, tag@)->0;
                    if k < i {
                        assert(c[k].0 != tag@);
                    } else if k > i {
                        assert(c[i as int].0 != tag@);
                    }
                }
                return Some(i);
            }
            i += 1;
        }
        proof { lemma_custom_index(c, tag@); }
        None
    }

    /// Adds one more custom tag entry.
    fn add_custom(&mut self, tag: &Vec<char>, value: String)
        ensures
            final(self)@ == (DocModel {
                custom_tags: custom_add(old(self)@.custom_tags, tag@, value@),
                ..old(self)@
            }),
    {
        let ghost c = old(self)@.custom_tags;
        match self.find_custom(tag) {
            Some(i) => {
                proof {
                    lemma_custom_index(c, tag@);
                    assert(c[i as int] == custom_view(self.custom_tags@[i as int]));
                    assert(c[i as int].0 == tag@);
                }
                let ghost before = self.custom_tags@;
                let mut entry = self.custom_tags.remove(i);
                let ghost old_vals = entry.1@;
                entry.1.push(value);
                assert(strings_view(entry.1@) =~= strings_view(old_vals).push(value@));
                self.custom_tags.insert(i, entry);
                assert(self.custom_tags@ =~= before.update(i as int, entry));
                assert(self@.custom_tags =~= custom_add(c, tag@, value@));
            },
            None => {
                let mut vals: Vec<String> = Vec::new();
                vals.push(value);
                self.custom_tags.push((string_from_chars(tag), vals));
                assert(strings_view(vals@) =~= seq![value@]);
                assert(self@.custom_tags =~= custom_add(c, tag@, value@));
            },
        }
    }

    /// Adds a parsed tag to the documentation.
    fn add_tag(&mut self, tag: &Vec<char>, content: &Vec<char>)
        ensures
            final(self)@ == add_tag_spec(old(self)@, tag@, content@),
    {
        if chars_eq_str(tag, "param") {
            let ghost before = self.params@;
            let p = match split_once_whitespace(content) {
                Some((name, description)) => ParamDoc {
                    name: string_from_chars(&trim_chars(&name)),
                    description: string_from_chars(&trim_chars(&description)),
                },
                None => ParamDoc {
                    name: string_from_chars(&trim_chars(content)),
                    description: String::new(),
                },
            };
            self.params.push(p);
            assert(self@.params =~= old(self)@.params.push(param_view(p)));
        } else if chars_eq_str(tag, "return") || chars_eq_str(tag, "returns") {
            self.returns = Some(string_from_chars(&trim_chars(content)));
        } else if chars_eq_str(tag, "example") {
            let e = string_from_chars(&trim_chars(content));
            self.examples.push(e);
            assert(self@.examples =~= old(self)@.examples.push(e@));
        } else if chars_eq_str(tag, "throws") || chars_eq_str(tag, "throw") {
            let e = string_from_chars(&trim_chars(content));
            self.throws.push(e);
            assert(self@.throws =~= old(self)@.throws.push(e@));
        } else {
            let v = string_from_chars(&trim_chars(content));
            self.add_custom(tag, v);
        }
    }

    /// Parses documentation from the cleaned lines of consecutive doc comments.
    pub fn parse(doc_texts: &[&str]) -> (d: Self)
        ensures
            d@ == parse_spec(lines_view(doc_texts@)),
    {
        let ghost lines = lines_view(doc_texts@);
        let mut st = ParserState {
            lines: Vec::new(),
            tag: None,
            content: Vec::new(),
            doc: Self::new(),
        };
        assert(chars_view(st.lines@) =~= Seq::<Seq<char>>::empty());
        let mut i: usize = 0;
        while i < doc_texts.len()
            invariant
                i <= doc_texts@.len(),
                lines == lines_view(doc_texts@),
                st.model() == parse_lines(lines.take(i as int)),
            decreases doc_texts@.len() - i,
        {
            assert(lines.take(i as int + 1).drop_last() =~= lines.take(i as int));
            assert(lines.take(i as int + 1).last() == doc_texts@[i as int]@);
            st.step(doc_texts[i]);
            i += 1;
        }
        assert(lines.take(doc_texts@.len() as int) =~= lines);
        match st.tag {
            Some(name) => {
                st.doc.add_tag(&name, &st.content);
            },
            None => {},
        }
        let joined = join_newline(&st.lines);
        st.doc.summary = string_from_chars(&trim_chars(&joined));
        st.doc
    }
}

/// The pieces `f(x)` for the items `x`, concatenated in order.
pub open spec fn concat_map<A>(items: Seq<A>, f: spec_fn(A) -> Seq<char>) -> Seq<char>
    decreases items.len(),
{
    if items.len() == 0 {
        Seq::empty()
    } else {
        concat_map(items.drop_last(), f) + f(items.last())
    }
}

/// `acc` followed by `section`, with `sep` between them when `acc` is not empty.
pub open spec fn with_sep(acc: Seq<char>, sep: Seq<char>, section: Seq<char>) -> Seq<char> {
    if acc.len() > 0 {
        acc + sep + section
    } else {
        section
    }
}

/// One parameter line of the plain-text rendering.
pub open spec fn plain_param(p: (Seq<char>, Seq<char>)) -> Seq<char> {
    "\n  @"@ + p.0 + (if p.1.len() > 0 { " - "@ + p.1 } else { Seq::empty() })
}

/// An indented line of the plain-text rendering.
pub open spec fn plain_item(x: Seq<char>) -> Seq<char> {
    "\n  "@ + x
}

/// Plain-text rendering: the summary, then the parameters, the return value,
/// the examples and the errors, each section present only when there is
/// something to show and separated from earlier text by a blank line.
pub open spec fn plain_text_spec(d: DocModel) -> Seq<char> {
    let a0 = d.summary;
    let a1 = if d.params.len() > 0 {
        with_sep(a0, "\n\n"@, "Parameters:"@ + concat_map(d.params, |p: (Seq<char>, Seq<char>)| plain_param(p)))
    } else {
        a0
    };
    let a2 = match d.returns {
        Some(r) => with_sep(a1, "\n\n"@, "Returns: "@ + r),
        None => a1,
    };
    let a3 = if d.examples.len() > 0 {
        with_sep(a2, "\n\n"@, "Examples:"@ + concat_map(d.examples, |x: Seq<char>| plain_item(x)))
    } else {
        a2
    };
    if d.throws.len() > 0 {
        with_sep(a3, "\n\n"@, "Throws:"@ + concat_map(d.throws, |x: Seq<char>| plain_item(x)))
    } else {
        a3
    }
}

/// One parameter entry of the markdown rendering.
pub open spec fn md_param(p: (Seq<char>, Seq<char>)) -> Seq<char> {
    "- **"@ + p.0 + "**"@ + (if p.1.len() > 0 { ": "@ + p.1 } else { Seq::empty() }) + "\n"@
}

/// One example of the markdown rendering, as a fenced code block.
pub open spec fn md_example(x: Seq<char>) -> Seq<char> {
    "```rholang\n"@ + x + "\n```\n\n"@
}

/// One error entry of the markdown rendering.
pub open spec fn md_throw(x: Seq<char>) -> Seq<char> {
    "- "@ + x + "\n"@
}

/// Markdown rendering before trailing whitespace is removed: the summary,
/// then headed sections for parameters, return value, examples and errors.
pub open spec fn markdown_raw(d: DocModel) -> Seq<char> {
    let a0 = d.summary;
    let a1 = if d.params.len() > 0 {
        with_sep(a0, "\n\n"@, "## Parameters\n\n"@ + concat_map(d.params, |p: (Seq<char>, Seq<char>)| md_param(p)))
    } else {
        a0
    };
    let a2 = match d.returns {
        Some(r) => with_sep(a1, "\n"@, "## Returns\n\n"@ + r + "\n"@),
        None => a1,
    };
    let a3 = if d.examples.len() > 0 {
        with_sep(a2, "\n"@, "## Examples\n\n"@ + concat_map(d.examples, |x: Seq<char>| md_example(x)))
    } else {
        a2
    };
    if d.throws.len() > 0 {
        with_sep(a3, "\n"@, "## Throws\n\n"@ + concat_map(d.throws, |x: Seq<char>| md_throw(x)))
    } else {
        a3
    }
}

/// Appends `section` to `out`, after `sep` when `out` is not empty.
fn append_section(out: &mut Vec<char>, sep: &str, section: &Vec<char>)
    ensures
        final(out)@ == with_sep(old(out)@, sep@, section@),
{
    if out.len() > 0 {
        push_str(out, sep);
    }
    push_chars(out, section);
}

/// `head` followed by `f(x)` for each of `items`, where `render` computes `f`.
fn render_list(head: &str, items: &Vec<String>, kind: u8) -> (r: Vec<char>)
    requires
        kind < 3,
    ensures
        r@ == head@ + concat_map(strings_view(items@), list_item_fn(kind)),
{
    let ghost f = list_item_fn(kind);
    let ghost xs = strings_view(items@);
    let mut r = chars_of(head);
    let mut i: usize = 0;
    assert(xs.take(0) =~= Seq::<Seq<char>>::empty());
    while i < items.len()
        invariant
            kind < 3,
            f == list_item_fn(kind),
            xs == strings_view(items@),
            i <= items@.len(),
            r@ == head@ + concat_map(xs.take(i as int), f),
        decreases items@.len() - i,
    {
        assert(xs.take(i as int + 1).drop_last() =~= xs.take(i as int));
        assert(xs.take(i as int + 1).last() == items@[i as int]@);
        let x = items[i].as_str();
        if kind == 0 {
            push_str(&mut r, "\n  ");
            push_str(&mut r, x);
        } else if kind == 1 {
            push_str(&mut r, "```rholang\n");
            push_str(&mut r, x);
            push_str(&mut r, "\n```\n\n");
        } else {
            push_str(&mut r, "- ");
            push_str(&mut r, x);
            push_str(&mut r, "\n");
        }
        assert(r@ =~= head@ + concat_map(xs.take(i as int + 1), f));
        i += 1;
    }
    assert(xs.take(items@.len() as int) =~= xs);
    r
}

/// The per-item rendering selected by `kind`: indented plain line, markdown
/// example block, or markdown list entry.
pub open spec fn list_item_fn(kind: u8) -> spec_fn(Seq<char>) -> Seq<char> {
    if kind == 0 {
        |x: Seq<char>| plain_item(x)
    } else if kind == 1 {
        |x: Seq<char>| md_example(x)
    } else {
        |x: Seq<char>| md_throw(x)
    }
}

/// `head` followed by each parameter, rendered in plain text or markdown.
fn render_params(head: &str, params: &Vec<ParamDoc>, markdown: bool) -> (r: Vec<char>)
    ensures
        r@ == head@ + concat_map(
            params@.map_values(|p: ParamDoc| param_view(p)),
            if markdown {
                |p: (Seq<char>, Seq<char>)| md_param(p)
            } else {
                |p: (Seq<char>, Seq<char>)| plain_param(p)
            },
        ),
{
    let ghost f = if markdown {
        |p: (Seq<char>, Seq<char>)| md_param(p)
    } else {
        |p: (Seq<char>, Seq<char>)| plain_param(p)
    };
    let ghost ps = params@.map_values(|p: ParamDoc| param_view(p));
    let mut r = chars_of(head);
    let mut i: usize = 0;
    assert(ps.take(0) =~= Seq::<(Seq<char>, Seq<char>)>::empty());
    while i < params.len()
        invariant
            ps == params@.map_values(|p: ParamDoc| param_view(p)),
            f == (if markdown {
                |p: (Seq<char>, Seq<char>)| md_param(p)
            } else {
                |p: (Seq<char>, Seq<char>)| plain_param(p)
            }),
            i <= params@.len(),
            r@ == head@ + concat_map(ps.take(i as int), f),
        decreases params@.len() - i,
    {
        assert(ps.take(i as int + 1).drop_last() =~= ps.take(i as int));
        assert(ps.take(i as int + 1).last() == param_view(params@[i as int]));
        let p = &params[i];
        let has_desc = p.description.as_str().unicode_len() > 0;
        if markdown {
            push_str(&mut r, "- **");
            push_str(&mut r, p.name.as_str());
            push_str(&mut r, "**");
            if has_desc {
                push_str(&mut r, ": ");
                push_str(&mut r, p.description.as_str());
            }
            push_str(&mut r, "\n");
        } else {
            push_str(&mut r, "\n  @");
            push_str(&mut r, p.name.as_str());
            if has_desc {
                push_str(&mut r, " - ");
                push_str(&mut r, p.description.as_str());
            }
        }
        assert(r@ =~= head@ + concat_map(ps.take(i as int + 1), f));
        i += 1;
    }
    assert(ps.take(params@.len() as int) =~= ps);
    r
}

impl StructuredDocumentation {
    /// Plain-text rendering, as shown in hover tooltips and completion items.
    pub fn to_plain_text(&self) -> (s: String)
        ensures
            s@ == plain_text_spec(self@),
    {
        let mut out = chars_of(self.summary.as_str());
        if self.params.len() > 0 {
            let sec = render_params("Parameters:", &self.params, false);
            append_section(&mut out, "\n\n", &sec);
        }
        match &self.returns {
            Some(r) => {
                let mut sec = chars_of("Returns: ");
                push_str(&mut sec, r.as_str());
                append_section(&mut out, "\n\n", &sec);
            },
            None => {},
        }
        if self.examples.len() > 0 {
            let sec = render_list("Examples:", &self.examples, 0);
            append_section(&mut out, "\n\n", &sec);
        }
        if self.throws.len() > 0 {
            let sec = render_list("Throws:", &self.throws, 0);
            append_section(&mut out, "\n\n", &sec);
        }
        string_from_chars(&out)
    }

    /// Markdown rendering, as used in hover responses.
    pub fn to_markdown(&self) -> (s: String)
        ensures
            s@ == trim_end(markdown_raw(self@)),
    {
        let mut out = chars_of(self.summary.as_str());
        if self.params.len() > 0 {
            let sec = render_params("## Parameters\n\n", &self.params, true);
            append_section(&mut out, "\n\n", &sec);
        }
        match &self.returns {
            Some(r) => {
                let mut sec = chars_of("## Returns\n\n");
                push_str(&mut sec, r.as_str());
                push_str(&mut sec, "\n");
                append_section(&mut out, "\n", &sec);
            },
            None => {},
        }
        if self.examples.len() > 0 {
            let sec = render_list("## Examples\n\n", &self.examples, 1);
            append_section(&mut out, "\n", &sec);
        }
        if self.throws.len() > 0 {
            let sec = render_list("## Throws\n\n", &self.throws, 2);
            append_section(&mut out, "\n", &sec);
        }
        string_from_chars(&trim_end_chars(&out))
    }
}

} // verus!
