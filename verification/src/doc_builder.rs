//! The document builder: an arena-backed factory for document nodes.
//!
//! Every operation appends nodes to the arena and returns the handle of the
//! node it built; existing nodes are never mutated (`extends` in every
//! contract). Each combinator's contract pins down the structure of what it
//! built, through `has_shape` or through the node value itself.
use crate::doc::{
    extends, has_shape, is_text, lemma_has_shape_extends, pretty_print, render_doc, single_line,
    wf_arena, wf_doc, Doc, DocRef, PrettyConfig, Shape,
};
use vstd::prelude::*;

verus! {

broadcast use vstd::seq_lib::group_seq_properties;

/// A body member paired with whether the source had a blank line after it.
pub struct BodyMember<M> {
    pub member: M,
    pub has_trailing_newline: bool,
}

/// A separator or bracket: an optional leading document, an optional literal,
/// and an optional trailing document.
pub struct Insertable {
    pub pre: Option<DocRef>,
    pub text: Option<String>,
    pub suf: Option<DocRef>,
}

impl Insertable {
    pub fn new(pre: Option<DocRef>, s: Option<&str>, suf: Option<DocRef>) -> (r: Insertable)
        ensures
            r.pre == pre,
            r.suf == suf,
            match s {
                Some(t) => r.text matches Some(u) && u@ == t@,
                None => r.text is None,
            },
    {
        let text = match s {
            Some(t) => Some(t.to_owned()),
            None => None,
        };
        Insertable { pre, text, suf }
    }
}

/// Every child index of the node `d` lies below `n`, so `d` may be appended
/// to an arena of length `n` without breaking the arena invariant.
pub open spec fn doc_in_bounds(d: Doc, n: int) -> bool {
    match d {
        Doc::Flat(x) => (x as int) < n,
        Doc::Indent(_, x) => (x as int) < n,
        Doc::Dedent(_, x) => (x as int) < n,
        Doc::Align(_, x) => (x as int) < n,
        Doc::Choice(x, y) => (x as int) < n && (y as int) < n,
        Doc::Concat(cs) => forall|k: int| 0 <= k < cs@.len() ==> (cs@[k] as int) < n,
        _ => true,
    }
}

/// All the listed handles lie below `n`.
pub open spec fn refs_in_bounds(rs: Seq<DocRef>, n: int) -> bool {
    forall|k: int| 0 <= k < rs.len() ==> (#[trigger] rs[k] as int) < n
}

/// The handle in `o`, if any, lies below `n`.
pub open spec fn opt_in_bounds(o: Option<DocRef>, n: int) -> bool {
    match o {
        Some(x) => (x as int) < n,
        None => true,
    }
}

/// What every builder operation guarantees: the arena stays well-formed, the
/// configuration is untouched, no existing node changes, and the returned
/// handle is valid.
pub open spec fn builds(old_b: DocBuilder, new_b: DocBuilder, r: DocRef) -> bool {
    &&& new_b.wf()
    &&& new_b.config == old_b.config
    &&& extends(old_b@, new_b@)
    &&& (r as int) < new_b@.len()
}

pub open spec fn sh_flat(s: Shape) -> Shape {
    Shape::Flat(Box::new(s))
}

pub open spec fn sh_indent(n: u32, s: Shape) -> Shape {
    Shape::Indent(n, Box::new(s))
}

pub open spec fn sh_dedent(n: u32, s: Shape) -> Shape {
    Shape::Dedent(n, Box::new(s))
}

pub open spec fn sh_align(n: u32, s: Shape) -> Shape {
    Shape::Align(n, Box::new(s))
}

pub open spec fn sh_choice(a: Shape, b: Shape) -> Shape {
    Shape::Choice(Box::new(a), Box::new(b))
}

/// The grouping shape: try the flattened rendering, else fall back.
pub open spec fn sh_group(s: Shape) -> Shape {
    sh_choice(sh_flat(s), s)
}

/// The listed handles, as shapes.
pub open spec fn ref_shapes(rs: Seq<DocRef>) -> Seq<Shape> {
    Seq::new(rs.len(), |k: int| Shape::Ref(rs[k]))
}

pub open spec fn opt_ref_shape(o: Option<DocRef>) -> Seq<Shape> {
    match o {
        Some(x) => seq![Shape::Ref(x)],
        None => Seq::empty(),
    }
}

pub open spec fn opt_text_shape(o: Option<String>) -> Seq<Shape> {
    match o {
        Some(s) => seq![Shape::Text(s@)],
        None => Seq::empty(),
    }
}

pub open spec fn opt_indent_shape(o: Option<DocRef>, n: u32) -> Seq<Shape> {
    match o {
        Some(x) => seq![sh_indent(n, Shape::Ref(x))],
        None => Seq::empty(),
    }
}

pub open spec fn opt_dedent_shape(o: Option<DocRef>, n: u32) -> Seq<Shape> {
    match o {
        Some(x) => seq![sh_dedent(n, Shape::Ref(x))],
        None => Seq::empty(),
    }
}

/// The separator's or bracket's literal, if any, holds no line break.
pub open spec fn ins_text_single_line(i: Insertable) -> bool {
    match i.text {
        Some(s) => single_line(s@),
        None => true,
    }
}

/// The three shapes a separator contributes between two consecutive items.
pub open spec fn sep_shapes(sep: Insertable) -> Seq<Shape> {
    opt_ref_shape(sep.pre) + opt_text_shape(sep.text) + opt_ref_shape(sep.suf)
}

/// The items of `elems` with `parts` inserted between each consecutive pair.
pub open spec fn interleaved(elems: Seq<DocRef>, parts: Seq<Shape>) -> Seq<Shape>
    decreases elems.len(),
{
    if elems.len() == 0 {
        Seq::empty()
    } else if elems.len() == 1 {
        seq![Shape::Ref(elems[0])]
    } else {
        interleaved(elems.drop_last(), parts) + parts + seq![Shape::Ref(elems.last())]
    }
}

/// The children of the document `surround` builds for a non-empty item list:
/// the opening bracket's parts (its pre/post fragments wrapped in one level of
/// indent), the interspersed items under one level of indent, then the closing
/// bracket's parts (its leading fragment wrapped in one level of dedent).
pub open spec fn surround_shapes(
    elems: Seq<DocRef>,
    sep: Insertable,
    opening: Insertable,
    closing: Insertable,
    is: u32,
) -> Seq<Shape> {
    opt_indent_shape(opening.pre, is) + opt_text_shape(opening.text) + opt_indent_shape(
        opening.suf,
        is,
    ) + seq![sh_indent(is, Shape::Concat(interleaved(elems, sep_shapes(sep))))] + opt_dedent_shape(
        closing.pre,
        is,
    ) + opt_text_shape(closing.text) + opt_ref_shape(closing.suf)
}

/// The children of the document `surround_align` builds for a non-empty item
/// list: the opening bracket's leading fragment and literal as they are, then
/// the opening bracket's trailing fragment and the interspersed items under
/// one alignment unit, then the closing bracket's parts as they are.
pub open spec fn surround_align_shapes(
    elems: Seq<DocRef>,
    sep: Insertable,
    opening: Insertable,
    closing: Insertable,
    is: u32,
) -> Seq<Shape> {
    opt_ref_shape(opening.pre) + opt_text_shape(opening.text) + seq![
        sh_align(
            is,
            Shape::Concat(
                opt_ref_shape(opening.suf) + seq![
                    Shape::Concat(interleaved(elems, sep_shapes(sep))),
                ],
            ),
        ),
    ] + opt_ref_shape(closing.pre) + opt_text_shape(closing.text) + opt_ref_shape(closing.suf)
}

/// The children of the document `intersperse_body_members` builds, up to the
/// first `i` members: each member in order; after every member but the last
/// a mandatory line break, preceded by a column-resetting break when that
/// member had a trailing blank line in the source.
pub open spec fn body_member_shapes(ms: Seq<BodyMember<DocRef>>, i: int) -> Seq<Shape>
    decreases i,
{
    if i <= 0 {
        Seq::empty()
    } else {
        body_member_shapes(ms, i - 1) + seq![Shape::Ref(ms[i - 1].member)] + (if i < ms.len() {
            (if ms[i - 1].has_trailing_newline {
                seq![Shape::NewlineWithNoIndent]
            } else {
                Seq::empty()
            }) + seq![Shape::Newline]
        } else {
            Seq::empty()
        })
    }
}

/// All the member handles lie below `n`.
pub open spec fn members_in_bounds(ms: Seq<BodyMember<DocRef>>, n: int) -> bool {
    forall|k: int| 0 <= k < ms.len() ==> ((#[trigger] ms[k]).member as int) < n
}

/// The arena-backed factory for document nodes, carrying the configured
/// indentation unit.
pub struct DocBuilder {
    pub arena: Vec<Doc>,
    pub config: PrettyConfig,
}

impl View for DocBuilder {
    type V = Seq<Doc>;

    open spec fn view(&self) -> Seq<Doc> {
        self.arena@
    }
}

impl DocBuilder {
    /// The builder's invariant: the arena is well-formed and the indentation
    /// unit is at least one column (enforced by `PrettyConfig::new`).
    pub open spec fn wf(self) -> bool {
        wf_arena(self@) && self.config.indent_size >= 1
    }

    pub fn new(config: PrettyConfig) -> (r: Self)
        requires
            config.indent_size >= 1,
        ensures
            r.wf(),
            r.config == config,
            r@ == Seq::<Doc>::empty(),
    {
        Self { arena: Vec::new(), config }
    }

    /// The arena, for handing to the renderer.
    pub fn arena(&self) -> (r: &Vec<Doc>)
        ensures
            r@ == self@,
    {
        &self.arena
    }

    /// Renders the document at `doc_ref` within `max_width` columns.
    pub fn pretty(&self, doc_ref: DocRef, max_width: u32) -> (r: String)
        requires
            self.wf(),
            (doc_ref as int) < self@.len(),
        ensures
            r@ == render_doc(self@, doc_ref, max_width),
    {
        pretty_print(&self.arena, doc_ref, max_width)
    }

    /// Appends one node to the arena and returns its handle.
    fn push_node(&mut self, d: Doc) -> (r: DocRef)
        requires
            old(self).wf(),
            doc_in_bounds(d, old(self)@.len() as int),
        ensures
            builds(*old(self), *final(self), r),
            final(self)@.len() == old(self)@.len() + 1,
            r == old(self)@.len(),
            final(self)@[r as int] == d,
    {
        let r = self.arena.len();
        self.arena.push(d);
        proof {
            assert forall|j: int| 0 <= j < self@.len() implies #[trigger] wf_doc(self@, j) by {
                if j < old(self)@.len() {
                    assert(wf_doc(old(self)@, j));
                    assert(self@[j] == old(self)@[j]);
                } else {
                    assert(self@[j] == d);
                }
            }
        }
        r
    }

    /// A text leaf holding `text`, with its display width precomputed as its
    /// length in characters (saturating at the column limit). The content
    /// must be a single line; a break in running text is expressed with an
    /// explicit break node instead.
    pub fn txt(&mut self, text: &str) -> (r: DocRef)
        requires
            old(self).wf(),
            single_line(text@),
        ensures
            builds(*old(self), *final(self), r),
            final(self)@.len() == old(self)@.len() + 1,
            r == old(self)@.len(),
            is_text(final(self)@[r as int], text@),
            has_shape(final(self)@, r as int, Shape::Text(text@)),
    {
        let width_chars = text.unicode_len();
        let width: u32 = if width_chars <= u32::MAX as usize {
            width_chars as u32
        } else {
            u32::MAX
        };
        self.push_node(Doc::Text(text.to_owned(), width))
    }

    /// The empty document: a text leaf with no content.
    pub fn nil(&mut self) -> (r: DocRef)
        requires
            old(self).wf(),
        ensures
            builds(*old(self), *final(self), r),
            final(self)@.len() == old(self)@.len() + 1,
            r == old(self)@.len(),
            has_shape(final(self)@, r as int, Shape::Text(Seq::<char>::empty())),
    {
        proof {
            reveal_strlit("");
            assert(single_line(""@));
        }
        let r = self.txt("");
        proof {
            assert(""@ =~= Seq::<char>::empty());
        }
        r
    }

    /// A text leaf holding `text` with one space before it.
    #[allow(non_snake_case)]
    pub fn _txt(&mut self, text: &str) -> (r: DocRef)
        requires
            old(self).wf(),
            single_line(text@),
        ensures
            builds(*old(self), *final(self), r),
            r == old(self)@.len(),
            has_shape(final(self)@, r as int, Shape::Text(seq![' '] + text@)),
    {
        let mut s = String::new();
        s.append(" ");
        s.append(text);
        proof {
            reveal_strlit(" ");
            assert(s@ =~= seq![' '] + text@);
            assert forall|k: int| 0 <= k < s@.len() implies s@[k] != '\n' by {
                if k >= 1 {
                    assert(s@[k] == text@[k - 1]);
                }
            }
        }
        let r = self.txt(s.as_str());
        r
    }

    /// A text leaf holding `text` with one space after it.
    #[allow(non_snake_case)]
    pub fn txt_(&mut self, text: &str) -> (r: DocRef)
        requires
            old(self).wf(),
            single_line(text@),
        ensures
            builds(*old(self), *final(self), r),
            r == old(self)@.len(),
            has_shape(final(self)@, r as int, Shape::Text(text@ + seq![' '])),
    {
        let mut s = String::new();
        s.append(text);
        s.append(" ");
        proof {
            reveal_strlit(" ");
            assert(s@ =~= text@ + seq![' ']);
            assert forall|k: int| 0 <= k < s@.len() implies s@[k] != '\n' by {
                if k < text@.len() {
                    assert(s@[k] == text@[k]);
                }
            }
        }
        let r = self.txt(s.as_str());
        r
    }

    /// A text leaf holding `text` with one space on each side.
    #[allow(non_snake_case)]
    pub fn _txt_(&mut self, text: &str) -> (r: DocRef)
        requires
            old(self).wf(),
            single_line(text@),
        ensures
            builds(*old(self), *final(self), r),
            r == old(self)@.len(),
            has_shape(final(self)@, r as int, Shape::Text(seq![' '] + text@ + seq![' '])),
    {
        let mut s = String::new();
        s.append(" ");
        s.append(text);
        s.append(" ");
        proof {
            reveal_strlit(" ");
            assert(s@ =~= seq![' '] + text@ + seq![' ']);
            assert forall|k: int| 0 <= k < s@.len() implies s@[k] != '\n' by {
                if 1 <= k < 1 + text@.len() {
                    assert(s@[k] == text@[k - 1]);
                }
            }
        }
        let r = self.txt(s.as_str());
        r
    }

    /// A mandatory line break.
    pub fn nl(&mut self) -> (r: DocRef)
        requires
            old(self).wf(),
        ensures
            builds(*old(self), *final(self), r),
            final(self)@.len() == old(self)@.len() + 1,
            r == old(self)@.len(),
            final(self)@[r as int] == Doc::Newline,
    {
        self.push_node(Doc::Newline)
    }

    /// A mandatory line break that resets the column to zero.
    pub fn nl_with_no_indent(&mut self) -> (r: DocRef)
        requires
            old(self).wf(),
        ensures
            builds(*old(self), *final(self), r),
            final(self)@.len() == old(self)@.len() + 1,
            r == old(self)@.len(),
            final(self)@[r as int] == Doc::NewlineWithNoIndent,
    {
        self.push_node(Doc::NewlineWithNoIndent)
    }

    /// A space when flattened, otherwise a line break.
    pub fn softline(&mut self) -> (r: DocRef)
        requires
            old(self).wf(),
        ensures
            builds(*old(self), *final(self), r),
            final(self)@.len() == old(self)@.len() + 1,
            r == old(self)@.len(),
            final(self)@[r as int] == Doc::Softline,
    {
        self.push_node(Doc::Softline)
    }

    /// Empty when flattened, otherwise a line break.
    pub fn maybeline(&mut self) -> (r: DocRef)
        requires
            old(self).wf(),
        ensures
            builds(*old(self), *final(self), r),
            final(self)@.len() == old(self)@.len() + 1,
            r == old(self)@.len(),
            final(self)@[r as int] == Doc::Maybeline,
    {
        self.push_node(Doc::Maybeline)
    }

    /// Forces `doc_ref` to render in flattened mode.
    pub fn flat(&mut self, doc_ref: DocRef) -> (r: DocRef)
        requires
            old(self).wf(),
            (doc_ref as int) < old(self)@.len(),
        ensures
            builds(*old(self), *final(self), r),
            final(self)@.len() == old(self)@.len() + 1,
            r == old(self)@.len(),
            final(self)@[r as int] == Doc::Flat(doc_ref),
    {
        self.push_node(Doc::Flat(doc_ref))
    }

    /// Adds one configured indentation unit to breaks inside `doc_ref`.
    pub fn indent(&mut self, doc_ref: DocRef) -> (r: DocRef)
        requires
            old(self).wf(),
            (doc_ref as int) < old(self)@.len(),
        ensures
            builds(*old(self), *final(self), r),
            final(self)@.len() == old(self)@.len() + 1,
            r == old(self)@.len(),
            final(self)@[r as int] == Doc::Indent(old(self).config.indent_size, doc_ref),
    {
        let relative_indent = self.config.indent_size;
        self.push_node(Doc::Indent(relative_indent, doc_ref))
    }

    /// Removes one configured indentation unit from breaks inside `doc_ref`
    /// (the block indent floors at zero when rendered).
    pub fn dedent(&mut self, doc_ref: DocRef) -> (r: DocRef)
        requires
            old(self).wf(),
            (doc_ref as int) < old(self)@.len(),
        ensures
            builds(*old(self), *final(self), r),
            final(self)@.len() == old(self)@.len() + 1,
            r == old(self)@.len(),
            final(self)@[r as int] == Doc::Dedent(old(self).config.indent_size, doc_ref),
    {
        let relative_indent = self.config.indent_size;
        self.push_node(Doc::Dedent(relative_indent, doc_ref))
    }

    /// Adds one configured indentation unit to the alignment offset of breaks
    /// inside `doc_ref`.
    pub fn align(&mut self, doc_ref: DocRef) -> (r: DocRef)
        requires
            old(self).wf(),
            (doc_ref as int) < old(self)@.len(),
        ensures
            builds(*old(self), *final(self), r),
            final(self)@.len() == old(self)@.len() + 1,
            r == old(self)@.len(),
            final(self)@[r as int] == Doc::Align(old(self).config.indent_size, doc_ref),
    {
        let relative_indent = self.config.indent_size;
        self.push_node(Doc::Align(relative_indent, doc_ref))
    }

    /// An ordered sequence of already-built documents.
    pub fn concat(&mut self, doc_refs: Vec<DocRef>) -> (r: DocRef)
        requires
            old(self).wf(),
            refs_in_bounds(doc_refs@, old(self)@.len() as int),
        ensures
            builds(*old(self), *final(self), r),
            final(self)@.len() == old(self)@.len() + 1,
            r == old(self)@.len(),
            final(self)@[r as int] matches Doc::Concat(cs) && cs@ == doc_refs@,
            has_shape(final(self)@, r as int, Shape::Concat(ref_shapes(doc_refs@))),
    {
        let ghost rs = doc_refs@;
        let r = self.push_node(Doc::Concat(doc_refs));
        proof {
            assert forall|k: int| 0 <= k < rs.len() implies has_shape(
                self@,
                rs[k] as int,
                #[trigger] ref_shapes(rs)[k],
            ) by {
                assert(ref_shapes(rs)[k] == Shape::Ref(rs[k]));
                assert(has_shape(self@, rs[k] as int, Shape::Ref(rs[k])));
            }
            assert(has_shape(self@, r as int, Shape::Concat(ref_shapes(rs))));
        }
        r
    }

    /// The fundamental decision point: render `first` if it fits, else
    /// `second`.
    pub fn choice(&mut self, first: DocRef, second: DocRef) -> (r: DocRef)
        requires
            old(self).wf(),
            (first as int) < old(self)@.len(),
            (second as int) < old(self)@.len(),
        ensures
            builds(*old(self), *final(self), r),
            final(self)@.len() == old(self)@.len() + 1,
            r == old(self)@.len(),
            final(self)@[r as int] == Doc::Choice(first, second),
    {
        self.push_node(Doc::Choice(first, second))
    }

    /// The core grouping primitive: try the fully flattened rendering of
    /// `doc_ref`, otherwise fall back to its own (possibly broken) layout.
    pub fn group(&mut self, doc_ref: DocRef) -> (r: DocRef)
        requires
            old(self).wf(),
            (doc_ref as int) < old(self)@.len(),
        ensures
            builds(*old(self), *final(self), r),
            final(self)@.len() == old(self)@.len() + 2,
            r == old(self)@.len() + 1,
            final(self)@[r - 1] == Doc::Flat(doc_ref),
            final(self)@[r as int] == Doc::Choice((r - 1) as usize, doc_ref),
            has_shape(final(self)@, r as int, sh_group(Shape::Ref(doc_ref))),
    {
        let f = self.flat(doc_ref);
        let r = self.choice(f, doc_ref);
        proof {
            assert(has_shape(self@, doc_ref as int, Shape::Ref(doc_ref)));
            assert(has_shape(self@, f as int, sh_flat(Shape::Ref(doc_ref))));
            assert(has_shape(self@, r as int, sh_group(Shape::Ref(doc_ref))));
        }
        r
    }

    /// Places the separator between consecutive items: `e1 sep e2 sep ... en`.
    /// The empty input yields the empty document. The separator's literal, if
    /// any, is allocated once and shared by every gap.
    pub fn intersperse(&mut self, elems: &Vec<DocRef>, sep: Insertable) -> (r: DocRef)
        requires
            ins_text_single_line(sep),
            old(self).wf(),
            refs_in_bounds(elems@, old(self)@.len() as int),
            opt_in_bounds(sep.pre, old(self)@.len() as int),
            opt_in_bounds(sep.suf, old(self)@.len() as int),
        ensures
            builds(*old(self), *final(self), r),
            elems@.len() == 0 ==> has_shape(
                final(self)@,
                r as int,
                Shape::Text(Seq::<char>::empty()),
            ),
            elems@.len() > 0 ==> has_shape(
                final(self)@,
                r as int,
                Shape::Concat(interleaved(elems@, sep_shapes(sep))),
            ),
    {
        if elems.len() == 0 {
            return self.nil();
        }
        let sep_txt: Option<DocRef> = match &sep.text {
            Some(s) => Some(self.txt(s.as_str())),
            None => None,
        };
        let ghost a0 = self@;
        let ghost shapes = sep_shapes(sep);
        let ghost seg = opt_seq(sep.pre) + opt_seq(sep_txt) + opt_seq(sep.suf);
        proof {
            if let Some(p) = sep.pre {
                assert(has_shape(a0, p as int, Shape::Ref(p)));
            }
            if let Some(q) = sep.suf {
                assert(has_shape(a0, q as int, Shape::Ref(q)));
            }
            assert(seg.len() == shapes.len());
            assert forall|m: int| 0 <= m < shapes.len() implies has_shape(
                a0,
                seg[m] as int,
                #[trigger] shapes[m],
            ) by {
            }
        }
        let mut parts: Vec<DocRef> = Vec::new();
        let n = elems.len();
        let mut i: usize = 0;
        while i < n
            invariant
                self.wf(),
                self@ == a0,
                n == elems@.len(),
                0 < n,
                i <= n,
                refs_in_bounds(elems@, a0.len() as int),
                seg == opt_seq(sep.pre) + opt_seq(sep_txt) + opt_seq(sep.suf),
                shapes == sep_shapes(sep),
                seg.len() == shapes.len(),
                forall|m: int|
                    0 <= m < shapes.len() ==> has_shape(a0, seg[m] as int, #[trigger] shapes[m]),
                refs_in_bounds(seg, a0.len() as int),
                parts@.len() == interleaved(elems@.take(i as int), shapes).len(),
                forall|k: int|
                    0 <= k < parts@.len() ==> has_shape(
                        a0,
                        parts@[k] as int,
                        #[trigger] interleaved(elems@.take(i as int), shapes)[k],
                    ),
                refs_in_bounds(parts@, a0.len() as int),
            decreases n - i,
        {
            let ghost parts_before = parts@;
            let ghost pre_s = interleaved(elems@.take(i as int), shapes);
            if i > 0 {
                if let Some(p) = sep.pre {
                    parts.push(p);
                }
                if let Some(t) = sep_txt {
                    parts.push(t);
                }
                if let Some(q) = sep.suf {
                    parts.push(q);
                }
                proof {
                    assert(parts@ =~= parts_before + seg);
                }
            }
            parts.push(elems[i]);
            proof {
                let j = i as int;
                let cur_s = interleaved(elems@.take(j + 1), shapes);
                assert(has_shape(a0, elems@[j] as int, Shape::Ref(elems@[j])));
                if i == 0 {
                    assert(elems@.take(1).len() == 1);
                    assert(cur_s == seq![Shape::Ref(elems@.take(1)[0])]);
                    assert(parts@ =~= seq![elems@[0]]);
                } else {
                    assert(elems@.take(j + 1).drop_last() =~= elems@.take(j));
                    assert(elems@.take(j + 1).last() == elems@[j]);
                    assert(cur_s == interleaved(elems@.take(j), shapes) + shapes + seq![
                        Shape::Ref(elems@[j]),
                    ]);
                    assert(parts@ =~= parts_before + seg + seq![elems@[j]]);
                }
                assert forall|k: int| 0 <= k < parts@.len() implies has_shape(
                    a0,
                    parts@[k] as int,
                    #[trigger] cur_s[k],
                ) by {
                    if i > 0 {
                        if k < parts_before.len() {
                            assert(parts@[k] == parts_before[k]);
                            assert(cur_s[k] == pre_s[k]);
                        } else if k < parts_before.len() + seg.len() {
                            assert(parts@[k] == seg[k - parts_before.len()]);
                            assert(cur_s[k] == shapes[k - parts_before.len()]);
                        } else {
                            assert(parts@[k] == elems@[j]);
                            assert(cur_s[k] == Shape::Ref(elems@[j]));
                        }
                    }
                }
            }
            i = i + 1;
        }
        proof {
            assert(elems@.take(n as int) =~= elems@);
        }
        let ghost parts_final = parts@;
        let r = self.concat(parts);
        proof {
            let target = interleaved(elems@, shapes);
            assert forall|k: int| 0 <= k < target.len() implies has_shape(
                self@,
                parts_final[k] as int,
                #[trigger] target[k],
            ) by {
                lemma_has_shape_extends(a0, self@, parts_final[k] as int, target[k]);
            }
            assert(has_shape(self@, r as int, Shape::Concat(target)));
        }
        r
    }

    /// Wraps the interspersed items in bracket tokens: the items are indented
    /// by one unit, the closing bracket's leading fragment is dedented back,
    /// and an empty item list collapses to the two bracket literals alone.
    #[verifier::rlimit(100)]
    #[verifier::spinoff_prover]
    pub fn surround(
        &mut self,
        elems: &Vec<DocRef>,
        sep: Insertable,
        opening: Insertable,
        closing: Insertable,
    ) -> (r: DocRef)
        requires
            ins_text_single_line(sep),
            ins_text_single_line(opening),
            ins_text_single_line(closing),
            old(self).wf(),
            refs_in_bounds(elems@, old(self)@.len() as int),
            opt_in_bounds(sep.pre, old(self)@.len() as int),
            opt_in_bounds(sep.suf, old(self)@.len() as int),
            opt_in_bounds(opening.pre, old(self)@.len() as int),
            opt_in_bounds(opening.suf, old(self)@.len() as int),
            opt_in_bounds(closing.pre, old(self)@.len() as int),
            opt_in_bounds(closing.suf, old(self)@.len() as int),
            elems@.len() == 0 ==> opening.text is Some && closing.text is Some,
        ensures
            builds(*old(self), *final(self), r),
            elems@.len() == 0 ==> (opening.text matches Some(ot) && closing.text matches Some(ct)
                && has_shape(
                final(self)@,
                r as int,
                Shape::Concat(seq![Shape::Text(ot@), Shape::Text(ct@)]),
            )),
            elems@.len() > 0 ==> has_shape(
                final(self)@,
                r as int,
                Shape::Concat(
                    surround_shapes(elems@, sep, opening, closing, old(self).config.indent_size),
                ),
            ),
    {
        if elems.len() == 0 {
            let ghost ot = opening.text->Some_0@;
            let ghost ct = closing.text->Some_0@;
            let t1 = if let Some(s) = &opening.text {
                self.txt(s.as_str())
            } else {
                proof {
                    assert(false);
                }
                self.txt("")
            };
            let ghost a1 = self@;
            let t2 = if let Some(s) = &closing.text {
                self.txt(s.as_str())
            } else {
                proof {
                    assert(false);
                }
                self.txt("")
            };
            let ghost a2 = self@;
            let r = self.concat(vec![t1, t2]);
            proof {
                lemma_has_shape_extends(a1, a2, t1 as int, Shape::Text(ot));
                lemma_has_shape_extends(a2, self@, t1 as int, Shape::Text(ot));
                lemma_has_shape_extends(a2, self@, t2 as int, Shape::Text(ct));
                assert(has_shape(
                    self@,
                    r as int,
                    Shape::Concat(seq![Shape::Text(ot), Shape::Text(ct)]),
                ));
            }
            return r;
        }
        self.surround_nonempty(elems, sep, opening, closing)
    }

    /// The non-empty case of `surround`.
    #[verifier::rlimit(100)]
    #[verifier::spinoff_prover]
    fn surround_nonempty(
        &mut self,
        elems: &Vec<DocRef>,
        sep: Insertable,
        opening: Insertable,
        closing: Insertable,
    ) -> (r: DocRef)
        requires
            ins_text_single_line(sep),
            ins_text_single_line(opening),
            ins_text_single_line(closing),
            old(self).wf(),
            elems@.len() > 0,
            refs_in_bounds(elems@, old(self)@.len() as int),
            opt_in_bounds(sep.pre, old(self)@.len() as int),
            opt_in_bounds(sep.suf, old(self)@.len() as int),
            opt_in_bounds(opening.pre, old(self)@.len() as int),
            opt_in_bounds(opening.suf, old(self)@.len() as int),
            opt_in_bounds(closing.pre, old(self)@.len() as int),
            opt_in_bounds(closing.suf, old(self)@.len() as int),
        ensures
            builds(*old(self), *final(self), r),
            has_shape(
                final(self)@,
                r as int,
                Shape::Concat(
                    surround_shapes(elems@, sep, opening, closing, old(self).config.indent_size),
                ),
            ),
    {
        let ghost is0 = self.config.indent_size;
        let mut docs: Vec<DocRef> = Vec::new();
        let ghost mut shapes: Seq<Shape> = Seq::empty();
        let ghost a_prev = self@;
        if let Some(p) = opening.pre {
            let w = self.indent(p);
            docs.push(w);
        }
        proof {
            shapes = shapes + opt_indent_shape(opening.pre, is0);
            assert(docs@.len() == shapes.len());
            assert forall|k: int| 0 <= k < docs@.len() implies has_shape(
                self@,
                docs@[k] as int,
                #[trigger] shapes[k],
            ) by {
                if let Some(p) = opening.pre {
                    assert(has_shape(self@, p as int, Shape::Ref(p)));
                }
            }
            assert(refs_in_bounds(docs@, self@.len() as int));
        }
        let ghost a1 = self@;
        if let Some(s) = &opening.text {
            let t = self.txt(s.as_str());
            proof {
                lemma_all_shapes_extends(a1, self@, docs@, shapes);
            }
            docs.push(t);
        }
        proof {
            shapes = shapes + opt_text_shape(opening.text);
            assert(docs@.len() == shapes.len());
            assert(refs_in_bounds(docs@, self@.len() as int));
        }
        let ghost a2 = self@;
        if let Some(q) = opening.suf {
            let w = self.indent(q);
            proof {
                lemma_all_shapes_extends(a2, self@, docs@, shapes);
                assert(has_shape(self@, q as int, Shape::Ref(q)));
            }
            docs.push(w);
        }
        proof {
            shapes = shapes + opt_indent_shape(opening.suf, is0);
            assert(docs@.len() == shapes.len());
            assert(refs_in_bounds(docs@, self@.len() as int));
        }
        let ghost a3 = self@;
        let ghost inter_shape = Shape::Concat(interleaved(elems@, sep_shapes(sep)));
        let inter = self.intersperse(elems, sep);
        proof {
            lemma_all_shapes_extends(a3, self@, docs@, shapes);
        }
        let ghost a4 = self@;
        let ind = self.indent(inter);
        proof {
            lemma_all_shapes_extends(a4, self@, docs@, shapes);
            lemma_has_shape_extends(a4, self@, inter as int, inter_shape);
            assert(has_shape(self@, ind as int, sh_indent(is0, inter_shape)));
        }
        docs.push(ind);
        proof {
            shapes = shapes + seq![sh_indent(is0, inter_shape)];
            assert(docs@.len() == shapes.len());
            assert(refs_in_bounds(docs@, self@.len() as int));
        }
        let ghost a5 = self@;
        if let Some(p) = closing.pre {
            let w = self.dedent(p);
            proof {
                lemma_all_shapes_extends(a5, self@, docs@, shapes);
                assert(has_shape(self@, p as int, Shape::Ref(p)));
            }
            docs.push(w);
        }
        proof {
            shapes = shapes + opt_dedent_shape(closing.pre, is0);
            assert(docs@.len() == shapes.len());
            assert(refs_in_bounds(docs@, self@.len() as int));
        }
        let ghost a6 = self@;
        if let Some(s) = &closing.text {
            let t = self.txt(s.as_str());
            proof {
                lemma_all_shapes_extends(a6, self@, docs@, shapes);
            }
            docs.push(t);
        }
        proof {
            shapes = shapes + opt_text_shape(closing.text);
            assert(docs@.len() == shapes.len());
            assert(refs_in_bounds(docs@, self@.len() as int));
        }
        if let Some(q) = closing.suf {
            docs.push(q);
            proof {
                assert(has_shape(self@, q as int, Shape::Ref(q)));
            }
        }
        proof {
            shapes = shapes + opt_ref_shape(closing.suf);
            assert(docs@.len() == shapes.len());
            assert(refs_in_bounds(docs@, self@.len() as int));
        }
        let ghost a7 = self@;
        let ghost docs_final = docs@;
        let r = self.concat(docs);
        proof {
            lemma_all_shapes_extends(a7, self@, docs_final, shapes);
            assert(has_shape(self@, r as int, Shape::Concat(shapes)));
            assert(shapes =~= surround_shapes(elems@, sep, opening, closing, is0));
        }
        r
    }

    /// `group(surround(elems, sep, opening, closing))`.
    pub fn group_surround(
        &mut self,
        elems: &Vec<DocRef>,
        sep: Insertable,
        opening: Insertable,
        closing: Insertable,
    ) -> (r: DocRef)
        requires
            ins_text_single_line(sep),
            ins_text_single_line(opening),
            ins_text_single_line(closing),
            old(self).wf(),
            refs_in_bounds(elems@, old(self)@.len() as int),
            opt_in_bounds(sep.pre, old(self)@.len() as int),
            opt_in_bounds(sep.suf, old(self)@.len() as int),
            opt_in_bounds(opening.pre, old(self)@.len() as int),
            opt_in_bounds(opening.suf, old(self)@.len() as int),
            opt_in_bounds(closing.pre, old(self)@.len() as int),
            opt_in_bounds(closing.suf, old(self)@.len() as int),
            elems@.len() == 0 ==> opening.text is Some && closing.text is Some,
        ensures
            builds(*old(self), *final(self), r),
            elems@.len() == 0 ==> (opening.text matches Some(ot) && closing.text matches Some(ct)
                && has_shape(
                final(self)@,
                r as int,
                sh_group(Shape::Concat(seq![Shape::Text(ot@), Shape::Text(ct@)])),
            )),
            elems@.len() > 0 ==> has_shape(
                final(self)@,
                r as int,
                sh_group(
                    Shape::Concat(
                        surround_shapes(
                            elems@,
                            sep,
                            opening,
                            closing,
                            old(self).config.indent_size,
                        ),
                    ),
                ),
            ),
    {
        let ghost is0 = self.config.indent_size;
        let ghost empty_in = elems@.len() == 0;
        let s = self.surround(elems, sep, opening, closing);
        let ghost a1 = self@;
        let ghost s_shape = if empty_in {
            Shape::Concat(
                seq![
                    Shape::Text(opening.text->Some_0@),
                    Shape::Text(closing.text->Some_0@),
                ],
            )
        } else {
            Shape::Concat(surround_shapes(elems@, sep, opening, closing, is0))
        };
        let r = self.group(s);
        proof {
            lemma_has_shape_extends(a1, self@, s as int, s_shape);
            assert(has_shape(self@, (r - 1) as int, sh_flat(s_shape)));
            assert(has_shape(self@, r as int, sh_group(s_shape)));
        }
        r
    }

    /// Like `surround`, but aligns the items (and the opening bracket's
    /// trailing fragment) to an alignment offset instead of indenting them,
    /// and leaves the bracket fragments themselves untouched.
    pub fn surround_align(
        &mut self,
        elems: &Vec<DocRef>,
        sep: Insertable,
        opening: Insertable,
        closing: Insertable,
    ) -> (r: DocRef)
        requires
            ins_text_single_line(sep),
            ins_text_single_line(opening),
            ins_text_single_line(closing),
            old(self).wf(),
            refs_in_bounds(elems@, old(self)@.len() as int),
            opt_in_bounds(sep.pre, old(self)@.len() as int),
            opt_in_bounds(sep.suf, old(self)@.len() as int),
            opt_in_bounds(opening.pre, old(self)@.len() as int),
            opt_in_bounds(opening.suf, old(self)@.len() as int),
            opt_in_bounds(closing.pre, old(self)@.len() as int),
            opt_in_bounds(closing.suf, old(self)@.len() as int),
            elems@.len() == 0 ==> opening.text is Some && closing.text is Some,
        ensures
            builds(*old(self), *final(self), r),
            elems@.len() == 0 ==> (opening.text matches Some(ot) && closing.text matches Some(ct)
                && has_shape(
                final(self)@,
                r as int,
                Shape::Concat(seq![Shape::Text(ot@), Shape::Text(ct@)]),
            )),
            elems@.len() > 0 ==> has_shape(
                final(self)@,
                r as int,
                Shape::Concat(
                    surround_align_shapes(
                        elems@,
                        sep,
                        opening,
                        closing,
                        old(self).config.indent_size,
                    ),
                ),
            ),
    {
        if elems.len() == 0 {
            let ghost ot = opening.text->Some_0@;
            let ghost ct = closing.text->Some_0@;
            let t1 = if let Some(s) = &opening.text {
                self.txt(s.as_str())
            } else {
                proof {
                    assert(false);
                }
                self.txt("")
            };
            let ghost a1 = self@;
            let t2 = if let Some(s) = &closing.text {
                self.txt(s.as_str())
            } else {
                proof {
                    assert(false);
                }
                self.txt("")
            };
            let ghost a2 = self@;
            let r = self.concat(vec![t1, t2]);
            proof {
                lemma_has_shape_extends(a1, a2, t1 as int, Shape::Text(ot));
                lemma_has_shape_extends(a2, self@, t1 as int, Shape::Text(ot));
                lemma_has_shape_extends(a2, self@, t2 as int, Shape::Text(ct));
                assert(has_shape(
                    self@,
                    r as int,
                    Shape::Concat(seq![Shape::Text(ot), Shape::Text(ct)]),
                ));
            }
            return r;
        }
        self.surround_align_nonempty(elems, sep, opening, closing)
    }

    /// The non-empty case of `surround_align`.
    #[verifier::rlimit(100)]
    #[verifier::spinoff_prover]
    fn surround_align_nonempty(
        &mut self,
        elems: &Vec<DocRef>,
        sep: Insertable,
        opening: Insertable,
        closing: Insertable,
    ) -> (r: DocRef)
        requires
            ins_text_single_line(sep),
            ins_text_single_line(opening),
            ins_text_single_line(closing),
            old(self).wf(),
            elems@.len() > 0,
            refs_in_bounds(elems@, old(self)@.len() as int),
            opt_in_bounds(sep.pre, old(self)@.len() as int),
            opt_in_bounds(sep.suf, old(self)@.len() as int),
            opt_in_bounds(opening.pre, old(self)@.len() as int),
            opt_in_bounds(opening.suf, old(self)@.len() as int),
            opt_in_bounds(closing.pre, old(self)@.len() as int),
            opt_in_bounds(closing.suf, old(self)@.len() as int),
        ensures
            builds(*old(self), *final(self), r),
            has_shape(
                final(self)@,
                r as int,
                Shape::Concat(
                    surround_align_shapes(
                        elems@,
                        sep,
                        opening,
                        closing,
                        old(self).config.indent_size,
                    ),
                ),
            ),
    {
        let ghost is0 = self.config.indent_size;
        let mut docs: Vec<DocRef> = Vec::new();
        let ghost mut shapes: Seq<Shape> = Seq::empty();
        if let Some(p) = opening.pre {
            docs.push(p);
        }
        proof {
            shapes = shapes + opt_ref_shape(opening.pre);
            assert(docs@.len() == shapes.len());
            assert forall|k: int| 0 <= k < docs@.len() implies has_shape(
                self@,
                docs@[k] as int,
                #[trigger] shapes[k],
            ) by {
                if let Some(p) = opening.pre {
                    assert(has_shape(self@, p as int, Shape::Ref(p)));
                }
            }
            assert(refs_in_bounds(docs@, self@.len() as int));
        }
        let ghost a1 = self@;
        if let Some(s) = &opening.text {
            let t = self.txt(s.as_str());
            proof {
                lemma_all_shapes_extends(a1, self@, docs@, shapes);
            }
            docs.push(t);
        }
        proof {
            shapes = shapes + opt_text_shape(opening.text);
            assert(docs@.len() == shapes.len());
            assert(refs_in_bounds(docs@, self@.len() as int));
        }
        let mut to_align: Vec<DocRef> = Vec::new();
        if let Some(q) = opening.suf {
            to_align.push(q);
        }
        let ghost a2 = self@;
        let ghost inter_shape = Shape::Concat(interleaved(elems@, sep_shapes(sep)));
        let inter = self.intersperse(elems, sep);
        proof {
            lemma_all_shapes_extends(a2, self@, docs@, shapes);
        }
        to_align.push(inter);
        let ghost a3 = self@;
        let ghost to_align_snap = to_align@;
        let inner = self.concat(to_align);
        proof {
            lemma_all_shapes_extends(a3, self@, docs@, shapes);
            lemma_has_shape_extends(a3, self@, inter as int, inter_shape);
        }
        let ghost a4 = self@;
        let al = self.align(inner);
        proof {
            lemma_all_shapes_extends(a4, self@, docs@, shapes);
            lemma_has_shape_extends(a4, self@, inter as int, inter_shape);
            let inner_shapes = opt_ref_shape(opening.suf) + seq![inter_shape];
            assert(to_align_snap =~= opt_seq(opening.suf) + seq![inter]);
            assert forall|k: int| 0 <= k < inner_shapes.len() implies has_shape(
                self@,
                to_align_snap[k] as int,
                #[trigger] inner_shapes[k],
            ) by {
                if let Some(q) = opening.suf {
                    assert(has_shape(self@, q as int, Shape::Ref(q)));
                }
            }
            assert(has_shape(self@, inner as int, Shape::Concat(inner_shapes)));
            assert(has_shape(self@, al as int, sh_align(is0, Shape::Concat(inner_shapes))));
        }
        docs.push(al);
        proof {
            shapes = shapes + seq![
                sh_align(is0, Shape::Concat(opt_ref_shape(opening.suf) + seq![inter_shape])),
            ];
            assert(docs@.len() == shapes.len());
            assert(refs_in_bounds(docs@, self@.len() as int));
        }
        if let Some(p) = closing.pre {
            docs.push(p);
            proof {
                assert(has_shape(self@, p as int, Shape::Ref(p)));
            }
        }
        proof {
            shapes = shapes + opt_ref_shape(closing.pre);
            assert(docs@.len() == shapes.len());
            assert(refs_in_bounds(docs@, self@.len() as int));
        }
        let ghost a5 = self@;
        if let Some(s) = &closing.text {
            let t = self.txt(s.as_str());
            proof {
                lemma_all_shapes_extends(a5, self@, docs@, shapes);
            }
            docs.push(t);
        }
        proof {
            shapes = shapes + opt_text_shape(closing.text);
            assert(docs@.len() == shapes.len());
            assert(refs_in_bounds(docs@, self@.len() as int));
        }
        if let Some(q) = closing.suf {
            docs.push(q);
            proof {
                assert(has_shape(self@, q as int, Shape::Ref(q)));
            }
        }
        proof {
            shapes = shapes + opt_ref_shape(closing.suf);
            assert(docs@.len() == shapes.len());
            assert(refs_in_bounds(docs@, self@.len() as int));
        }
        let ghost a6 = self@;
        let ghost docs_final = docs@;
        let r = self.concat(docs);
        proof {
            lemma_all_shapes_extends(a6, self@, docs_final, shapes);
            assert(has_shape(self@, r as int, Shape::Concat(shapes)));
            assert(shapes =~= surround_align_shapes(elems@, sep, opening, closing, is0));
        }
        r
    }

    /// `group(surround_align(elems, sep, opening, closing))`.
    pub fn group_surround_align(
        &mut self,
        elems: &Vec<DocRef>,
        sep: Insertable,
        opening: Insertable,
        closing: Insertable,
    ) -> (r: DocRef)
        requires
            ins_text_single_line(sep),
            ins_text_single_line(opening),
            ins_text_single_line(closing),
            old(self).wf(),
            refs_in_bounds(elems@, old(self)@.len() as int),
            opt_in_bounds(sep.pre, old(self)@.len() as int),
            opt_in_bounds(sep.suf, old(self)@.len() as int),
            opt_in_bounds(opening.pre, old(self)@.len() as int),
            opt_in_bounds(opening.suf, old(self)@.len() as int),
            opt_in_bounds(closing.pre, old(self)@.len() as int),
            opt_in_bounds(closing.suf, old(self)@.len() as int),
            elems@.len() == 0 ==> opening.text is Some && closing.text is Some,
        ensures
            builds(*old(self), *final(self), r),
            elems@.len() == 0 ==> (opening.text matches Some(ot) && closing.text matches Some(ct)
                && has_shape(
                final(self)@,
                r as int,
                sh_group(Shape::Concat(seq![Shape::Text(ot@), Shape::Text(ct@)])),
            )),
            elems@.len() > 0 ==> has_shape(
                final(self)@,
                r as int,
                sh_group(
                    Shape::Concat(
                        surround_align_shapes(
                            elems@,
                            sep,
                            opening,
                            closing,
                            old(self).config.indent_size,
                        ),
                    ),
                ),
            ),
    {
        let ghost is0 = self.config.indent_size;
        let ghost empty_in = elems@.len() == 0;
        let s = self.surround_align(elems, sep, opening, closing);
        let ghost a1 = self@;
        let ghost s_shape = if empty_in {
            Shape::Concat(
                seq![
                    Shape::Text(opening.text->Some_0@),
                    Shape::Text(closing.text->Some_0@),
                ],
            )
        } else {
            Shape::Concat(surround_align_shapes(elems@, sep, opening, closing, is0))
        };
        let r = self.group(s);
        proof {
            lemma_has_shape_extends(a1, self@, s as int, s_shape);
            assert(has_shape(self@, (r - 1) as int, sh_flat(s_shape)));
            assert(has_shape(self@, r as int, sh_group(s_shape)));
        }
        r
    }

    /// `group(indent(doc_ref))`: try the flattened rendering, else indent the
    /// broken one.
    pub fn group_then_indent(&mut self, doc_ref: DocRef) -> (r: DocRef)
        requires
            old(self).wf(),
            (doc_ref as int) < old(self)@.len(),
        ensures
            builds(*old(self), *final(self), r),
            has_shape(
                final(self)@,
                r as int,
                sh_group(sh_indent(old(self).config.indent_size, Shape::Ref(doc_ref))),
            ),
    {
        let ghost is0 = self.config.indent_size;
        let i = self.indent(doc_ref);
        let r = self.group(i);
        proof {
            assert(has_shape(self@, doc_ref as int, Shape::Ref(doc_ref)));
            assert(has_shape(self@, i as int, sh_indent(is0, Shape::Ref(doc_ref))));
            assert(has_shape(self@, (r - 1) as int, sh_flat(sh_indent(is0, Shape::Ref(doc_ref)))));
            assert(has_shape(self@, r as int, sh_group(sh_indent(is0, Shape::Ref(doc_ref)))));
        }
        r
    }

    /// Places a plain text separator between consecutive items, with no
    /// optional breaks anywhere.
    pub fn intersperse_single_line(&mut self, elems: &Vec<DocRef>, sep_text: &str) -> (r: DocRef)
        requires
            single_line(sep_text@),
            old(self).wf(),
            refs_in_bounds(elems@, old(self)@.len() as int),
        ensures
            builds(*old(self), *final(self), r),
            elems@.len() == 0 ==> has_shape(
                final(self)@,
                r as int,
                Shape::Text(Seq::<char>::empty()),
            ),
            elems@.len() > 0 ==> has_shape(
                final(self)@,
                r as int,
                Shape::Concat(interleaved(elems@, seq![Shape::Text(sep_text@)])),
            ),
    {
        let sep = Insertable::new(None, Some(sep_text), None);
        let ghost sh = sep_shapes(sep);
        let r = self.intersperse(elems, sep);
        proof {
            assert(sh =~= seq![Shape::Text(sep_text@)]);
        }
        r
    }

    /// Joins body members with mandatory line breaks, keeping one blank
    /// separator line after every member that had one in the source; the
    /// empty member list yields the empty document.
    pub fn intersperse_body_members(&mut self, members: &Vec<BodyMember<DocRef>>) -> (r: DocRef)
        requires
            old(self).wf(),
            members_in_bounds(members@, old(self)@.len() as int),
        ensures
            builds(*old(self), *final(self), r),
            members@.len() == 0 ==> has_shape(
                final(self)@,
                r as int,
                Shape::Text(Seq::<char>::empty()),
            ),
            members@.len() > 0 ==> has_shape(
                final(self)@,
                r as int,
                Shape::Concat(body_member_shapes(members@, members@.len() as int)),
            ),
    {
        if members.len() == 0 {
            return self.nil();
        }
        let ghost b0 = *self;
        let mut docs: Vec<DocRef> = Vec::new();
        let n = members.len();
        let mut i: usize = 0;
        while i < n
            invariant
                self.wf(),
                n == members@.len(),
                0 < n,
                i <= n,
                members_in_bounds(members@, b0@.len() as int),
                self.config == b0.config,
                extends(b0@, self@),
                docs@.len() == body_member_shapes(members@, i as int).len(),
                forall|k: int|
                    0 <= k < docs@.len() ==> has_shape(
                        self@,
                        docs@[k] as int,
                        #[trigger] body_member_shapes(members@, i as int)[k],
                    ),
                refs_in_bounds(docs@, self@.len() as int),
            decreases n - i,
        {
            let ghost docs_before = docs@;
            let ghost pre_s = body_member_shapes(members@, i as int);
            let ghost a_before = self@;
            let ghost j = i as int;
            docs.push(members[i].member);
            if i + 1 < n {
                if members[i].has_trailing_newline {
                    let nn = self.nl_with_no_indent();
                    docs.push(nn);
                }
                let nl = self.nl();
                docs.push(nl);
            }
            proof {
                lemma_all_shapes_extends(a_before, self@, docs_before, pre_s);
                let cur_s = body_member_shapes(members@, j + 1);
                assert(has_shape(self@, members@[j].member as int, Shape::Ref(members@[j].member)));
                assert forall|k: int| 0 <= k < docs@.len() implies has_shape(
                    self@,
                    docs@[k] as int,
                    #[trigger] cur_s[k],
                ) by {
                    if k < docs_before.len() {
                        assert(docs@[k] == docs_before[k]);
                        assert(cur_s[k] == pre_s[k]);
                    }
                }
            }
            i = i + 1;
        }
        let ghost docs_final = docs@;
        let ghost a_last = self@;
        let ghost final_s = body_member_shapes(members@, n as int);
        let r = self.concat(docs);
        proof {
            lemma_all_shapes_extends(a_last, self@, docs_final, final_s);
            assert(has_shape(self@, r as int, Shape::Concat(final_s)));
        }
        r
    }

    /// A block-like body: the members between the given brackets, indented by
    /// one unit, with a mandatory break after the opening bracket and before
    /// the closing one. An empty member list collapses to the two bracket
    /// tokens around one mandatory break.
    pub fn surround_body(
        &mut self,
        members: &Vec<BodyMember<DocRef>>,
        open_str: &str,
        close_str: &str,
    ) -> (r: DocRef)
        requires
            single_line(open_str@),
            single_line(close_str@),
            old(self).wf(),
            members_in_bounds(members@, old(self)@.len() as int),
        ensures
            builds(*old(self), *final(self), r),
            members@.len() == 0 ==> has_shape(
                final(self)@,
                r as int,
                Shape::Concat(
                    seq![Shape::Text(open_str@), Shape::Newline, Shape::Text(close_str@)],
                ),
            ),
            members@.len() > 0 ==> has_shape(
                final(self)@,
                r as int,
                Shape::Concat(
                    seq![
                        Shape::Text(open_str@),
                        sh_indent(old(self).config.indent_size, Shape::Newline),
                        sh_indent(
                            old(self).config.indent_size,
                            Shape::Concat(body_member_shapes(members@, members@.len() as int)),
                        ),
                        Shape::Newline,
                        Shape::Text(close_str@),
                    ],
                ),
            ),
    {
        if members.len() == 0 {
            let t1 = self.txt(open_str);
            let ghost a1 = self@;
            let nl = self.nl();
            let ghost a2 = self@;
            let t2 = self.txt(close_str);
            let ghost a3 = self@;
            let r = self.concat(vec![t1, nl, t2]);
            proof {
                let s3 = seq![Shape::Text(open_str@), Shape::Newline, Shape::Text(close_str@)];
                lemma_has_shape_extends(a1, self@, t1 as int, Shape::Text(open_str@));
                lemma_has_shape_extends(a3, self@, t2 as int, Shape::Text(close_str@));
                assert(self@[nl as int] == Doc::Newline);
                assert(has_shape(self@, nl as int, Shape::Newline));
                assert(s3[0] == Shape::Text(open_str@) && s3[1] == Shape::Newline && s3[2]
                    == Shape::Text(close_str@));
                assert(has_shape(self@, r as int, Shape::Concat(s3)));
            }
            return r;
        }
        let ghost is0 = self.config.indent_size;
        let ghost final_s = body_member_shapes(members@, members@.len() as int);
        let t1 = self.txt(open_str);
        let nl1 = self.nl();
        let ghost a1 = self@;
        let ind1 = self.indent(nl1);
        let ghost a2 = self@;
        let inter = self.intersperse_body_members(members);
        let ghost a3 = self@;
        let ind2 = self.indent(inter);
        let nl2 = self.nl();
        let ghost a4 = self@;
        let t2 = self.txt(close_str);
        let ghost a5 = self@;
        let r = self.concat(vec![t1, ind1, ind2, nl2, t2]);
        proof {
            let s5 = seq![
                Shape::Text(open_str@),
                sh_indent(is0, Shape::Newline),
                sh_indent(is0, Shape::Concat(final_s)),
                Shape::Newline,
                Shape::Text(close_str@),
            ];
            lemma_has_shape_extends(a1, self@, t1 as int, Shape::Text(open_str@));
            assert(a2[nl1 as int] == Doc::Newline);
            assert(has_shape(a2, nl1 as int, Shape::Newline));
            assert(has_shape(a2, ind1 as int, sh_indent(is0, Shape::Newline)));
            lemma_has_shape_extends(a2, self@, ind1 as int, sh_indent(is0, Shape::Newline));
            lemma_has_shape_extends(a3, a4, inter as int, Shape::Concat(final_s));
            assert(has_shape(a4, ind2 as int, sh_indent(is0, Shape::Concat(final_s))));
            lemma_has_shape_extends(a4, self@, ind2 as int, sh_indent(is0, Shape::Concat(final_s)));
            lemma_has_shape_extends(a5, self@, t2 as int, Shape::Text(close_str@));
            assert(self@[nl2 as int] == Doc::Newline);
            assert(has_shape(self@, nl2 as int, Shape::Newline));
            assert(s5[0] == Shape::Text(open_str@) && s5[1] == sh_indent(is0, Shape::Newline)
                && s5[2] == sh_indent(is0, Shape::Concat(final_s)) && s5[3] == Shape::Newline && s5[4]
                == Shape::Text(close_str@));
            assert(has_shape(self@, r as int, Shape::Concat(s5)));
        }
        r
    }

    /// `group(concat(doc_refs))`.
    pub fn group_concat(&mut self, doc_refs: Vec<DocRef>) -> (r: DocRef)
        requires
            old(self).wf(),
            refs_in_bounds(doc_refs@, old(self)@.len() as int),
        ensures
            builds(*old(self), *final(self), r),
            has_shape(final(self)@, r as int, sh_group(Shape::Concat(ref_shapes(doc_refs@)))),
    {
        let ghost rs = doc_refs@;
        let c = self.concat(doc_refs);
        let ghost a1 = self@;
        let r = self.group(c);
        proof {
            lemma_has_shape_extends(a1, self@, c as int, Shape::Concat(ref_shapes(rs)));
            assert(has_shape(self@, (r - 1) as int, sh_flat(Shape::Concat(ref_shapes(rs)))));
            assert(has_shape(self@, r as int, sh_group(Shape::Concat(ref_shapes(rs)))));
        }
        r
    }

    /// `group(indent(concat(doc_refs)))`.
    pub fn group_indent_concat(&mut self, doc_refs: Vec<DocRef>) -> (r: DocRef)
        requires
            old(self).wf(),
            refs_in_bounds(doc_refs@, old(self)@.len() as int),
        ensures
            builds(*old(self), *final(self), r),
            has_shape(
                final(self)@,
                r as int,
                sh_group(
                    sh_indent(old(self).config.indent_size, Shape::Concat(ref_shapes(doc_refs@))),
                ),
            ),
    {
        let ghost rs = doc_refs@;
        let ghost is0 = self.config.indent_size;
        let c = self.concat(doc_refs);
        let ghost a1 = self@;
        let i = self.indent(c);
        let ghost a2 = self@;
        let r = self.group(i);
        proof {
            lemma_has_shape_extends(a1, self@, c as int, Shape::Concat(ref_shapes(rs)));
            assert(has_shape(self@, i as int, sh_indent(is0, Shape::Concat(ref_shapes(rs)))));
            assert(has_shape(
                self@,
                (r - 1) as int,
                sh_flat(sh_indent(is0, Shape::Concat(ref_shapes(rs)))),
            ));
            assert(has_shape(self@, r as int, sh_group(sh_indent(is0, Shape::Concat(ref_shapes(rs))))));
        }
        r
    }

    /// `align(concat(doc_refs))`.
    pub fn align_concat(&mut self, doc_refs: Vec<DocRef>) -> (r: DocRef)
        requires
            old(self).wf(),
            refs_in_bounds(doc_refs@, old(self)@.len() as int),
        ensures
            builds(*old(self), *final(self), r),
            has_shape(
                final(self)@,
                r as int,
                sh_align(old(self).config.indent_size, Shape::Concat(ref_shapes(doc_refs@))),
            ),
    {
        let ghost rs = doc_refs@;
        let ghost is0 = self.config.indent_size;
        let c = self.concat(doc_refs);
        let ghost a1 = self@;
        let r = self.align(c);
        proof {
            lemma_has_shape_extends(a1, self@, c as int, Shape::Concat(ref_shapes(rs)));
            assert(has_shape(self@, r as int, sh_align(is0, Shape::Concat(ref_shapes(rs)))));
        }
        r
    }
}

/// The handle in `o`, if any, as a one-element sequence.
pub open spec fn opt_seq(o: Option<DocRef>) -> Seq<DocRef> {
    match o {
        Some(x) => seq![x],
        None => Seq::empty(),
    }
}

/// Shape facts about many handles at once survive an arena extension.
proof fn lemma_all_shapes_extends(old_a: Seq<Doc>, new_a: Seq<Doc>, rs: Seq<DocRef>, ss: Seq<Shape>)
    requires
        extends(old_a, new_a),
        rs.len() == ss.len(),
        forall|k: int| 0 <= k < rs.len() ==> has_shape(old_a, rs[k] as int, #[trigger] ss[k]),
    ensures
        forall|k: int| 0 <= k < rs.len() ==> has_shape(new_a, rs[k] as int, #[trigger] ss[k]),
{
    assert forall|k: int| 0 <= k < rs.len() implies has_shape(
        new_a,
        rs[k] as int,
        #[trigger] ss[k],
    ) by {
        lemma_has_shape_extends(old_a, new_a, rs[k] as int, ss[k]);
    }
}

} // verus!
