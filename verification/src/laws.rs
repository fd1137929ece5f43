//! Rendering laws: properties of the renderer, proved once and for all
//! against the `render_from` machine. Each law takes an arbitrary well-formed
//! arena and speaks about the documents in it through their structure
//! (`has_shape`), so it applies to anything the builder produced.
use crate::doc::{
    chunk_aligned, chunk_flat, chunk_indented, chunk_with, concat_chunks, has_shape, init_chunk,
    is_text, lemma_machine_step_decreases, render_doc, render_from, sat_add32, sat_sub32, spaces,
    stack_size, wf_arena, wf_doc, Chunk, Doc, DocRef, Shape,
};
use vstd::prelude::*;

verus! {

/// Indent additivity: nesting two indentations adds their amounts. A document
/// `Indent(n1, Indent(n2, Concat[Newline, Text(s)]))` renders, at any width,
/// as a line break followed by exactly `n1 + n2` spaces and then `s`.
pub proof fn law_indent_additivity(
    arena: Seq<Doc>,
    d: DocRef,
    n1: u32,
    n2: u32,
    s: Seq<char>,
    w: u32,
)
    requires
        wf_arena(arena),
        has_shape(
            arena,
            d as int,
            Shape::Indent(
                n1,
                Box::new(
                    Shape::Indent(
                        n2,
                        Box::new(Shape::Concat(seq![Shape::Newline, Shape::Text(s)])),
                    ),
                ),
            ),
        ),
        n1 + n2 <= u32::MAX,
    ensures
        render_doc(arena, d, w) == seq!['\n'] + spaces((n1 + n2) as nat) + s,
{
    let c0 = init_chunk(d);
    let inner2 = Shape::Concat(seq![Shape::Newline, Shape::Text(s)]);
    let inner1 = Shape::Indent(n2, Box::new(inner2));
    let x1 = arena[d as int]->Indent_1;
    assert(has_shape(arena, x1 as int, inner1));
    let c1 = chunk_indented(c0, n1, x1);
    let x0 = arena[x1 as int]->Indent_1;
    assert(has_shape(arena, x0 as int, inner2));
    let c2 = chunk_indented(c1, n2, x0);
    let cs = arena[x0 as int]->Concat_0;
    let inl = cs@[0];
    let itx = cs@[1];
    assert(seq![Shape::Newline, Shape::Text(s)][0] == Shape::Newline);
    assert(seq![Shape::Newline, Shape::Text(s)][1] == Shape::Text(s));
    assert(has_shape(arena, inl as int, Shape::Newline));
    assert(has_shape(arena, itx as int, Shape::Text(s)));
    assert(render_from(arena, w, 0, seq![c0]) == render_from(
        arena,
        w,
        0,
        seq![c0].drop_last().push(c1),
    ));
    assert(seq![c0].drop_last().push(c1) =~= seq![c1]);
    assert(render_from(arena, w, 0, seq![c1]) == render_from(
        arena,
        w,
        0,
        seq![c1].drop_last().push(c2),
    ));
    assert(seq![c1].drop_last().push(c2) =~= seq![c2]);
    let pushed = seq![c2].drop_last() + concat_chunks(c2, cs@);
    assert(render_from(arena, w, 0, seq![c2]) == render_from(arena, w, 0, pushed));
    assert(pushed =~= seq![chunk_with(c2, itx), chunk_with(c2, inl)]);
    let ti = sat_add32(c2.indent, c2.align);
    assert(c2.indent == n1 + n2 && c2.align == 0);
    assert(ti == n1 + n2);
    let stack2 = seq![chunk_with(c2, itx), chunk_with(c2, inl)];
    assert(stack2.last() == chunk_with(c2, inl));
    assert(arena[inl as int] == Doc::Newline);
    assert(render_from(arena, w, 0, stack2) == seq!['\n'] + spaces(ti as nat) + render_from(
        arena,
        w,
        ti,
        stack2.drop_last(),
    ));
    assert(stack2.drop_last() =~= seq![chunk_with(c2, itx)]);
    assert(is_text(arena[itx as int], s));
    let t = arena[itx as int]->Text_0;
    let tw = arena[itx as int]->Text_1;
    assert(render_from(arena, w, ti, seq![chunk_with(c2, itx)]) == t@ + render_from(
        arena,
        w,
        sat_add32(ti, tw),
        seq![chunk_with(c2, itx)].drop_last(),
    ));
    assert(seq![chunk_with(c2, itx)].drop_last() =~= Seq::<Chunk>::empty());
    assert(render_from(arena, w, sat_add32(ti, tw), Seq::<Chunk>::empty()) == Seq::<
        char,
    >::empty());
    assert(render_doc(arena, d, w) =~= seq!['\n'] + spaces((n1 + n2) as nat) + s);
}

/// Dedent saturation: removing more indentation than is present floors at
/// zero, never producing negative spacing. A document
/// `Indent(m, Dedent(n, Newline))` renders, at any width, as a line break
/// followed by `m - n` spaces when `m >= n`, and by none at all otherwise.
pub proof fn law_dedent_saturation(arena: Seq<Doc>, d: DocRef, m: u32, n: u32, w: u32)
    requires
        wf_arena(arena),
        has_shape(
            arena,
            d as int,
            Shape::Indent(m, Box::new(Shape::Dedent(n, Box::new(Shape::Newline)))),
        ),
    ensures
        render_doc(arena, d, w) == seq!['\n'] + spaces(sat_sub32(m, n) as nat),
        m < n ==> render_doc(arena, d, w) == seq!['\n'],
{
    let c0 = init_chunk(d);
    let inner1 = Shape::Dedent(n, Box::new(Shape::Newline));
    let x1 = arena[d as int]->Indent_1;
    assert(has_shape(arena, x1 as int, inner1));
    let c1 = chunk_indented(c0, m, x1);
    let x0 = arena[x1 as int]->Dedent_1;
    assert(has_shape(arena, x0 as int, Shape::Newline));
    let c2 = crate::doc::chunk_dedented(c1, n, x0);
    assert(render_from(arena, w, 0, seq![c0]) == render_from(
        arena,
        w,
        0,
        seq![c0].drop_last().push(c1),
    ));
    assert(seq![c0].drop_last().push(c1) =~= seq![c1]);
    assert(render_from(arena, w, 0, seq![c1]) == render_from(
        arena,
        w,
        0,
        seq![c1].drop_last().push(c2),
    ));
    assert(seq![c1].drop_last().push(c2) =~= seq![c2]);
    let ti = sat_add32(c2.indent, c2.align);
    assert(c2.indent == sat_sub32(m, n) && c2.align == 0);
    assert(arena[x0 as int] == Doc::Newline);
    assert(render_from(arena, w, 0, seq![c2]) == seq!['\n'] + spaces(ti as nat) + render_from(
        arena,
        w,
        ti,
        seq![c2].drop_last(),
    ));
    assert(seq![c2].drop_last() =~= Seq::<Chunk>::empty());
    assert(render_doc(arena, d, w) =~= seq!['\n'] + spaces(sat_sub32(m, n) as nat));
    if m < n {
        assert(spaces(0) == Seq::<char>::empty());
        assert(render_doc(arena, d, w) =~= seq!['\n']);
    }
}

/// Alignment adds to indentation: under `Indent(m, Align(n, _))` a
/// continuation line is offset by exactly `m + n` columns, at any width.
/// Changing `m` alone therefore shifts such lines uniformly.
pub proof fn law_align_offset(arena: Seq<Doc>, d: DocRef, m: u32, n: u32, s: Seq<char>, w: u32)
    requires
        wf_arena(arena),
        has_shape(
            arena,
            d as int,
            Shape::Indent(
                m,
                Box::new(
                    Shape::Align(
                        n,
                        Box::new(Shape::Concat(seq![Shape::Newline, Shape::Text(s)])),
                    ),
                ),
            ),
        ),
        m + n <= u32::MAX,
    ensures
        render_doc(arena, d, w) == seq!['\n'] + spaces((m + n) as nat) + s,
{
    let c0 = init_chunk(d);
    let inner2 = Shape::Concat(seq![Shape::Newline, Shape::Text(s)]);
    let inner1 = Shape::Align(n, Box::new(inner2));
    let x1 = arena[d as int]->Indent_1;
    assert(has_shape(arena, x1 as int, inner1));
    let c1 = chunk_indented(c0, m, x1);
    let x0 = arena[x1 as int]->Align_1;
    assert(has_shape(arena, x0 as int, inner2));
    let c2 = chunk_aligned(c1, n, x0);
    let cs = arena[x0 as int]->Concat_0;
    let inl = cs@[0];
    let itx = cs@[1];
    assert(seq![Shape::Newline, Shape::Text(s)][0] == Shape::Newline);
    assert(seq![Shape::Newline, Shape::Text(s)][1] == Shape::Text(s));
    assert(has_shape(arena, inl as int, Shape::Newline));
    assert(has_shape(arena, itx as int, Shape::Text(s)));
    assert(render_from(arena, w, 0, seq![c0]) == render_from(
        arena,
        w,
        0,
        seq![c0].drop_last().push(c1),
    ));
    assert(seq![c0].drop_last().push(c1) =~= seq![c1]);
    assert(render_from(arena, w, 0, seq![c1]) == render_from(
        arena,
        w,
        0,
        seq![c1].drop_last().push(c2),
    ));
    assert(seq![c1].drop_last().push(c2) =~= seq![c2]);
    let pushed = seq![c2].drop_last() + concat_chunks(c2, cs@);
    assert(render_from(arena, w, 0, seq![c2]) == render_from(arena, w, 0, pushed));
    assert(pushed =~= seq![chunk_with(c2, itx), chunk_with(c2, inl)]);
    let ti = sat_add32(c2.indent, c2.align);
    assert(c2.indent == m && c2.align == n);
    assert(ti == m + n);
    let stack2 = seq![chunk_with(c2, itx), chunk_with(c2, inl)];
    assert(arena[inl as int] == Doc::Newline);
    assert(render_from(arena, w, 0, stack2) == seq!['\n'] + spaces(ti as nat) + render_from(
        arena,
        w,
        ti,
        stack2.drop_last(),
    ));
    assert(stack2.drop_last() =~= seq![chunk_with(c2, itx)]);
    assert(is_text(arena[itx as int], s));
    let t = arena[itx as int]->Text_0;
    let tw = arena[itx as int]->Text_1;
    assert(render_from(arena, w, ti, seq![chunk_with(c2, itx)]) == t@ + render_from(
        arena,
        w,
        sat_add32(ti, tw),
        seq![chunk_with(c2, itx)].drop_last(),
    ));
    assert(seq![chunk_with(c2, itx)].drop_last() =~= Seq::<Chunk>::empty());
    assert(render_doc(arena, d, w) =~= seq!['\n'] + spaces((m + n) as nat) + s);
}

/// Empty surround: a document of two adjacent text leaves (what `surround`
/// builds for an empty item list) renders as the two literals and nothing
/// else, regardless of the width.
pub proof fn law_empty_surround(arena: Seq<Doc>, d: DocRef, ot: Seq<char>, ct: Seq<char>, w: u32)
    requires
        wf_arena(arena),
        has_shape(arena, d as int, Shape::Concat(seq![Shape::Text(ot), Shape::Text(ct)])),
    ensures
        render_doc(arena, d, w) == ot + ct,
{
    let c0 = init_chunk(d);
    let cs = arena[d as int]->Concat_0;
    let t1 = cs@[0];
    let t2 = cs@[1];
    assert(seq![Shape::Text(ot), Shape::Text(ct)][0] == Shape::Text(ot));
    assert(seq![Shape::Text(ot), Shape::Text(ct)][1] == Shape::Text(ct));
    assert(has_shape(arena, t1 as int, Shape::Text(ot)));
    assert(has_shape(arena, t2 as int, Shape::Text(ct)));
    let pushed = seq![c0].drop_last() + concat_chunks(c0, cs@);
    assert(render_from(arena, w, 0, seq![c0]) == render_from(arena, w, 0, pushed));
    assert(pushed =~= seq![chunk_with(c0, t2), chunk_with(c0, t1)]);
    let stack1 = seq![chunk_with(c0, t2), chunk_with(c0, t1)];
    assert(is_text(arena[t1 as int], ot));
    let s1 = arena[t1 as int]->Text_0;
    let w1 = arena[t1 as int]->Text_1;
    let col1 = sat_add32(0, w1);
    assert(render_from(arena, w, 0, stack1) == s1@ + render_from(
        arena,
        w,
        col1,
        stack1.drop_last(),
    ));
    assert(stack1.drop_last() =~= seq![chunk_with(c0, t2)]);
    assert(is_text(arena[t2 as int], ct));
    let s2 = arena[t2 as int]->Text_0;
    let w2 = arena[t2 as int]->Text_1;
    assert(render_from(arena, w, col1, seq![chunk_with(c0, t2)]) == s2@ + render_from(
        arena,
        w,
        sat_add32(col1, w2),
        seq![chunk_with(c0, t2)].drop_last(),
    ));
    assert(seq![chunk_with(c0, t2)].drop_last() =~= Seq::<Chunk>::empty());
    assert(render_doc(arena, d, w) =~= ot + ct);
}

/// The document at `i` is built purely from `Text` and `Concat`: no breaks,
/// no choices, no indentation.
pub open spec fn texty(arena: Seq<Doc>, i: int) -> bool
    decreases i, 1int, 0int,
{
    0 <= i < arena.len() && match arena[i] {
        Doc::Text(_, _) => true,
        Doc::Concat(cs) => texty_seq(arena, cs@, i),
        _ => false,
    }
}

pub open spec fn texty_seq(arena: Seq<Doc>, cs: Seq<usize>, bound: int) -> bool
    decreases bound, 0int, cs.len() as int,
{
    cs.len() == 0 || ((cs[0] as int) < bound && texty(arena, cs[0] as int) && texty_seq(
        arena,
        cs.drop_first(),
        bound,
    ))
}

/// The concatenation, in order, of every text fragment in the document at `i`.
pub open spec fn texts_of(arena: Seq<Doc>, i: int) -> Seq<char>
    decreases i, 1int, 0int,
{
    if 0 <= i < arena.len() {
        match arena[i] {
            Doc::Text(s, _) => s@,
            Doc::Concat(cs) => texts_of_seq(arena, cs@, i),
            _ => Seq::empty(),
        }
    } else {
        Seq::empty()
    }
}

pub open spec fn texts_of_seq(arena: Seq<Doc>, cs: Seq<usize>, bound: int) -> Seq<char>
    decreases bound, 0int, cs.len() as int,
{
    if cs.len() == 0 {
        Seq::empty()
    } else {
        (if (cs[0] as int) < bound {
            texts_of(arena, cs[0] as int)
        } else {
            Seq::empty()
        }) + texts_of_seq(arena, cs.drop_first(), bound)
    }
}

/// Every chunk on the stack refers to a text-only document.
pub open spec fn texty_stack(arena: Seq<Doc>, stack: Seq<Chunk>) -> bool {
    forall|k: int| 0 <= k < stack.len() ==> texty(arena, (#[trigger] stack[k]).doc_ref as int)
}

/// The texts of a whole stack, top chunk first.
pub open spec fn stack_texts(arena: Seq<Doc>, stack: Seq<Chunk>) -> Seq<char>
    decreases stack.len(),
{
    if stack.len() == 0 {
        Seq::empty()
    } else {
        texts_of(arena, stack.last().doc_ref as int) + stack_texts(arena, stack.drop_last())
    }
}

proof fn lemma_texty_seq_each(arena: Seq<Doc>, cs: Seq<usize>, bound: int)
    requires
        texty_seq(arena, cs, bound),
    ensures
        forall|k: int|
            0 <= k < cs.len() ==> (#[trigger] cs[k] as int) < bound && texty(arena, cs[k] as int),
    decreases cs.len(),
{
    if cs.len() > 0 {
        lemma_texty_seq_each(arena, cs.drop_first(), bound);
        assert forall|k: int| 0 <= k < cs.len() implies (#[trigger] cs[k] as int) < bound && texty(
            arena,
            cs[k] as int,
        ) by {
            if k > 0 {
                assert(cs.drop_first()[k - 1] == cs[k]);
            }
        }
    }
}

proof fn lemma_stack_texts_concat_chunks(arena: Seq<Doc>, rest: Seq<Chunk>, c: Chunk, cs: Seq<usize>, bound: int)
    requires
        forall|k: int| 0 <= k < cs.len() ==> (#[trigger] cs[k] as int) < bound,
    ensures
        stack_texts(arena, rest + concat_chunks(c, cs)) == texts_of_seq(arena, cs, bound)
            + stack_texts(arena, rest),
    decreases cs.len(),
{
    if cs.len() == 0 {
        assert(rest + concat_chunks(c, cs) =~= rest);
        assert(texts_of_seq(arena, cs, bound) + stack_texts(arena, rest) =~= stack_texts(
            arena,
            rest,
        ));
    } else {
        assert(concat_chunks(c, cs).drop_last() =~= concat_chunks(c, cs.drop_first()));
        assert((rest + concat_chunks(c, cs)).drop_last() =~= rest + concat_chunks(
            c,
            cs.drop_first(),
        ));
        assert((rest + concat_chunks(c, cs)).last() == chunk_with(c, cs[0]));
        lemma_stack_texts_concat_chunks(arena, rest, c, cs.drop_first(), bound);
        assert(stack_texts(arena, rest + concat_chunks(c, cs)) == texts_of(arena, cs[0] as int) + (
        texts_of_seq(arena, cs.drop_first(), bound) + stack_texts(arena, rest)));
        assert(texts_of(arena, cs[0] as int) + (texts_of_seq(arena, cs.drop_first(), bound)
            + stack_texts(arena, rest)) =~= (texts_of(arena, cs[0] as int) + texts_of_seq(
            arena,
            cs.drop_first(),
            bound,
        )) + stack_texts(arena, rest));
    }
}

/// Rendering a stack of text-only documents yields exactly their concatenated
/// texts, whatever the width budget and the current column.
proof fn lemma_render_texty(arena: Seq<Doc>, mw: u32, col: u32, stack: Seq<Chunk>)
    requires
        wf_arena(arena),
        texty_stack(arena, stack),
    ensures
        render_from(arena, mw, col, stack) == stack_texts(arena, stack),
    decreases stack_size(arena, stack),
{
    if stack.len() == 0 {
    } else {
        let c = stack.last();
        let rest = stack.drop_last();
        let j = c.doc_ref as int;
        assert(texty(arena, j));
        assert(texty_stack(arena, rest)) by {
            assert forall|k: int| 0 <= k < rest.len() implies texty(
                arena,
                (#[trigger] rest[k]).doc_ref as int,
            ) by {
                assert(rest[k] == stack[k]);
            }
        }
        lemma_machine_step_decreases(arena, stack);
        match arena[j] {
            Doc::Text(s, wd) => {
                lemma_render_texty(arena, mw, sat_add32(col, wd), rest);
                assert(texts_of(arena, j) == s@);
            },
            Doc::Concat(cs) => {
                let stack2 = rest + concat_chunks(c, cs@);
                lemma_texty_seq_each(arena, cs@, j);
                assert(texty_stack(arena, stack2)) by {
                    assert forall|k: int| 0 <= k < stack2.len() implies texty(
                        arena,
                        (#[trigger] stack2[k]).doc_ref as int,
                    ) by {
                        if k < rest.len() {
                            assert(stack2[k] == rest[k]);
                        } else {
                            assert(stack2[k] == concat_chunks(c, cs@)[k - rest.len()]);
                            let m = k - rest.len();
                            assert(concat_chunks(c, cs@)[m] == chunk_with(
                                c,
                                cs@[cs@.len() - 1 - m],
                            ));
                        }
                    }
                }
                lemma_render_texty(arena, mw, col, stack2);
                lemma_stack_texts_concat_chunks(arena, rest, c, cs@, j);
                assert(texts_of(arena, j) == texts_of_seq(arena, cs@, j));
                assert(texts_of_seq(arena, cs@, j) + stack_texts(arena, rest) == stack_texts(
                    arena,
                    stack,
                ));
            },
            _ => {
                assert(false);
            },
        }
    }
}

/// Text preservation: a document built purely from `Text` and `Concat`
/// renders as the concatenation of its text fragments in order, and the
/// result does not depend on the width budget at all.
pub proof fn law_text_preservation(arena: Seq<Doc>, d: DocRef, w1: u32, w2: u32)
    requires
        wf_arena(arena),
        texty(arena, d as int),
    ensures
        render_doc(arena, d, w1) == texts_of(arena, d as int),
        render_doc(arena, d, w1) == render_doc(arena, d, w2),
{
    let stack = seq![init_chunk(d)];
    assert(texty_stack(arena, stack));
    lemma_render_texty(arena, w1, 0, stack);
    lemma_render_texty(arena, w2, 0, stack);
    assert(stack.drop_last() =~= Seq::<Chunk>::empty());
    assert(stack_texts(arena, Seq::<Chunk>::empty()) == Seq::<char>::empty());
    assert(stack_texts(arena, stack) =~= texts_of(arena, d as int));
}

/// The flattened rendering of the document at `i`: every `Softline` is a
/// space, every `Maybeline` is empty, every `Choice` takes its first
/// alternative, and a line break appears only at `Newline` (followed by
/// `ind + al` spaces) and at `NewlineWithNoIndent`. No width budget is
/// consulted anywhere.
pub open spec fn flat_render(arena: Seq<Doc>, i: int, ind: u32, al: u32) -> Seq<char>
    decreases i, 1int, 0int,
{
    if 0 <= i < arena.len() {
        match arena[i] {
            Doc::Newline => seq!['\n'] + spaces(sat_add32(ind, al) as nat),
            Doc::NewlineWithNoIndent => seq!['\n'],
            Doc::Softline => seq![' '],
            Doc::Maybeline => Seq::empty(),
            Doc::Text(s, _) => s@,
            Doc::Flat(x) => if (x as int) < i {
                flat_render(arena, x as int, ind, al)
            } else {
                Seq::empty()
            },
            Doc::Indent(n, x) => if (x as int) < i {
                flat_render(arena, x as int, sat_add32(ind, n), al)
            } else {
                Seq::empty()
            },
            Doc::Dedent(n, x) => if (x as int) < i {
                flat_render(arena, x as int, sat_sub32(ind, n), al)
            } else {
                Seq::empty()
            },
            Doc::Align(n, x) => if (x as int) < i {
                flat_render(arena, x as int, ind, sat_add32(al, n))
            } else {
                Seq::empty()
            },
            Doc::Concat(cs) => flat_render_seq(arena, cs@, i, ind, al),
            Doc::Choice(x, _) => if (x as int) < i {
                flat_render(arena, x as int, ind, al)
            } else {
                Seq::empty()
            },
        }
    } else {
        Seq::empty()
    }
}

pub open spec fn flat_render_seq(
    arena: Seq<Doc>,
    cs: Seq<usize>,
    bound: int,
    ind: u32,
    al: u32,
) -> Seq<char>
    decreases bound, 0int, cs.len() as int,
{
    if cs.len() == 0 {
        Seq::empty()
    } else {
        (if (cs[0] as int) < bound {
            flat_render(arena, cs[0] as int, ind, al)
        } else {
            Seq::empty()
        }) + flat_render_seq(arena, cs.drop_first(), bound, ind, al)
    }
}

/// Every chunk on the stack is in flattened mode.
pub open spec fn flat_stack(stack: Seq<Chunk>) -> bool {
    forall|k: int| 0 <= k < stack.len() ==> (#[trigger] stack[k]).flat
}

/// The flattened rendering of a whole stack, top chunk first.
pub open spec fn flat_out(arena: Seq<Doc>, stack: Seq<Chunk>) -> Seq<char>
    decreases stack.len(),
{
    if stack.len() == 0 {
        Seq::empty()
    } else {
        flat_render(arena, stack.last().doc_ref as int, stack.last().indent, stack.last().align)
            + flat_out(arena, stack.drop_last())
    }
}

proof fn lemma_flat_out_concat_chunks(
    arena: Seq<Doc>,
    rest: Seq<Chunk>,
    c: Chunk,
    cs: Seq<usize>,
    bound: int,
)
    requires
        forall|k: int| 0 <= k < cs.len() ==> (#[trigger] cs[k] as int) < bound,
    ensures
        flat_out(arena, rest + concat_chunks(c, cs)) == flat_render_seq(
            arena,
            cs,
            bound,
            c.indent,
            c.align,
        ) + flat_out(arena, rest),
    decreases cs.len(),
{
    if cs.len() == 0 {
        assert(rest + concat_chunks(c, cs) =~= rest);
        assert(flat_render_seq(arena, cs, bound, c.indent, c.align) + flat_out(arena, rest)
            =~= flat_out(arena, rest));
    } else {
        assert(concat_chunks(c, cs).drop_last() =~= concat_chunks(c, cs.drop_first()));
        assert((rest + concat_chunks(c, cs)).drop_last() =~= rest + concat_chunks(
            c,
            cs.drop_first(),
        ));
        assert((rest + concat_chunks(c, cs)).last() == chunk_with(c, cs[0]));
        lemma_flat_out_concat_chunks(arena, rest, c, cs.drop_first(), bound);
        assert(flat_out(arena, rest + concat_chunks(c, cs)) == flat_render(
            arena,
            cs[0] as int,
            c.indent,
            c.align,
        ) + (flat_render_seq(arena, cs.drop_first(), bound, c.indent, c.align) + flat_out(
            arena,
            rest,
        )));
        assert(flat_render(arena, cs[0] as int, c.indent, c.align) + (flat_render_seq(
            arena,
            cs.drop_first(),
            bound,
            c.indent,
            c.align,
        ) + flat_out(arena, rest)) =~= (flat_render(arena, cs[0] as int, c.indent, c.align)
            + flat_render_seq(arena, cs.drop_first(), bound, c.indent, c.align)) + flat_out(
            arena,
            rest,
        ));
    }
}

/// Rendering a stack whose chunks are all in flattened mode consults neither
/// the width budget nor the column: it equals the structural flattened
/// rendering, in which only `Newline` and `NewlineWithNoIndent` emit a line
/// break.
proof fn lemma_render_flat(arena: Seq<Doc>, mw: u32, col: u32, stack: Seq<Chunk>)
    requires
        wf_arena(arena),
        crate::doc::chunks_in_range(arena, stack),
        flat_stack(stack),
    ensures
        render_from(arena, mw, col, stack) == flat_out(arena, stack),
    decreases stack_size(arena, stack),
{
    if stack.len() == 0 {
    } else {
        let c = stack.last();
        let rest = stack.drop_last();
        let j = c.doc_ref as int;
        assert(c == stack[stack.len() - 1]);
        assert(c.flat);
        assert((c.doc_ref as int) < arena.len());
        assert(wf_doc(arena, j));
        assert(crate::doc::chunks_in_range(arena, rest) && flat_stack(rest)) by {
            assert forall|k: int| 0 <= k < rest.len() implies ((#[trigger] rest[k]).flat && (
            rest[k].doc_ref as int) < arena.len()) by {
                assert(rest[k] == stack[k]);
            }
        }
        lemma_machine_step_decreases(arena, stack);
        match arena[j] {
            Doc::Newline => {
                lemma_render_flat(arena, mw, sat_add32(c.indent, c.align), rest);
                assert(seq!['\n'] + spaces(sat_add32(c.indent, c.align) as nat) + flat_out(
                    arena,
                    rest,
                ) =~= (seq!['\n'] + spaces(sat_add32(c.indent, c.align) as nat)) + flat_out(
                    arena,
                    rest,
                ));
            },
            Doc::NewlineWithNoIndent => {
                lemma_render_flat(arena, mw, 0, rest);
            },
            Doc::Softline => {
                lemma_render_flat(arena, mw, sat_add32(col, 1), rest);
            },
            Doc::Maybeline => {
                lemma_render_flat(arena, mw, col, rest);
                assert(Seq::<char>::empty() + flat_out(arena, rest) =~= flat_out(arena, rest));
            },
            Doc::Text(s, wd) => {
                lemma_render_flat(arena, mw, sat_add32(col, wd), rest);
            },
            Doc::Flat(x) => {
                let c2 = chunk_flat(c, x);
                assert(flat_stack(rest.push(c2)) && crate::doc::chunks_in_range(
                    arena,
                    rest.push(c2),
                )) by {
                    assert forall|k: int| 0 <= k < rest.push(c2).len() implies ((#[trigger] rest.push(
                        c2,
                    )[k]).flat && (rest.push(c2)[k].doc_ref as int) < arena.len()) by {
                        if k < rest.len() {
                            assert(rest.push(c2)[k] == rest[k]);
                        }
                    }
                }
                lemma_render_flat(arena, mw, col, rest.push(c2));
                assert(rest.push(c2).drop_last() =~= rest);
            },
            Doc::Indent(n, x) => {
                let c2 = chunk_indented(c, n, x);
                assert(flat_stack(rest.push(c2)) && crate::doc::chunks_in_range(
                    arena,
                    rest.push(c2),
                )) by {
                    assert forall|k: int| 0 <= k < rest.push(c2).len() implies ((#[trigger] rest.push(
                        c2,
                    )[k]).flat && (rest.push(c2)[k].doc_ref as int) < arena.len()) by {
                        if k < rest.len() {
                            assert(rest.push(c2)[k] == rest[k]);
                        }
                    }
                }
                lemma_render_flat(arena, mw, col, rest.push(c2));
                assert(rest.push(c2).drop_last() =~= rest);
            },
            Doc::Dedent(n, x) => {
                let c2 = crate::doc::chunk_dedented(c, n, x);
                assert(flat_stack(rest.push(c2)) && crate::doc::chunks_in_range(
                    arena,
                    rest.push(c2),
                )) by {
                    assert forall|k: int| 0 <= k < rest.push(c2).len() implies ((#[trigger] rest.push(
                        c2,
                    )[k]).flat && (rest.push(c2)[k].doc_ref as int) < arena.len()) by {
                        if k < rest.len() {
                            assert(rest.push(c2)[k] == rest[k]);
                        }
                    }
                }
                lemma_render_flat(arena, mw, col, rest.push(c2));
                assert(rest.push(c2).drop_last() =~= rest);
            },
            Doc::Align(n, x) => {
                let c2 = chunk_aligned(c, n, x);
                assert(flat_stack(rest.push(c2)) && crate::doc::chunks_in_range(
                    arena,
                    rest.push(c2),
                )) by {
                    assert forall|k: int| 0 <= k < rest.push(c2).len() implies ((#[trigger] rest.push(
                        c2,
                    )[k]).flat && (rest.push(c2)[k].doc_ref as int) < arena.len()) by {
                        if k < rest.len() {
                            assert(rest.push(c2)[k] == rest[k]);
                        }
                    }
                }
                lemma_render_flat(arena, mw, col, rest.push(c2));
                assert(rest.push(c2).drop_last() =~= rest);
            },
            Doc::Concat(cs) => {
                let stack2 = rest + concat_chunks(c, cs@);
                assert(flat_stack(stack2) && crate::doc::chunks_in_range(arena, stack2)) by {
                    assert forall|k: int| 0 <= k < stack2.len() implies ((#[trigger] stack2[k]).flat
                        && (stack2[k].doc_ref as int) < arena.len()) by {
                        if k < rest.len() {
                            assert(stack2[k] == rest[k]);
                        } else {
                            let m = k - rest.len();
                            assert(stack2[k] == concat_chunks(c, cs@)[m]);
                            assert(concat_chunks(c, cs@)[m] == chunk_with(
                                c,
                                cs@[cs@.len() - 1 - m],
                            ));
                        }
                    }
                }
                lemma_render_flat(arena, mw, col, stack2);
                lemma_flat_out_concat_chunks(arena, rest, c, cs@, j);
            },
            Doc::Choice(x, y) => {
                let c2 = chunk_with(c, x);
                assert(flat_stack(rest.push(c2)) && crate::doc::chunks_in_range(
                    arena,
                    rest.push(c2),
                )) by {
                    assert forall|k: int| 0 <= k < rest.push(c2).len() implies ((#[trigger] rest.push(
                        c2,
                    )[k]).flat && (rest.push(c2)[k].doc_ref as int) < arena.len()) by {
                        if k < rest.len() {
                            assert(rest.push(c2)[k] == rest[k]);
                        }
                    }
                }
                lemma_render_flat(arena, mw, col, rest.push(c2));
                assert(rest.push(c2).drop_last() =~= rest);
            },
        }
    }
}

/// Flat correctness: rendering `Flat(d)` ignores the width budget entirely
/// and equals the structural flattened rendering of `d`, in which a line
/// break comes only from `Newline` or `NewlineWithNoIndent` — never from a
/// `Softline` (a space), a `Maybeline` (empty), or a `Choice` (its flat
/// alternative).
pub proof fn law_flat_rendering(arena: Seq<Doc>, f: DocRef, w1: u32, w2: u32)
    requires
        wf_arena(arena),
        (f as int) < arena.len(),
        arena[f as int] matches Doc::Flat(_),
    ensures
        render_doc(arena, f, w1) == flat_render(arena, arena[f as int]->Flat_0 as int, 0, 0),
        render_doc(arena, f, w1) == render_doc(arena, f, w2),
{
    let x = arena[f as int]->Flat_0;
    let c0 = init_chunk(f);
    let c1 = chunk_flat(c0, x);
    assert(wf_doc(arena, f as int));
    law_flat_rendering_at(arena, f, w1);
    law_flat_rendering_at(arena, f, w2);
}

proof fn law_flat_rendering_at(arena: Seq<Doc>, f: DocRef, w: u32)
    requires
        wf_arena(arena),
        (f as int) < arena.len(),
        arena[f as int] matches Doc::Flat(_),
    ensures
        render_doc(arena, f, w) == flat_render(arena, arena[f as int]->Flat_0 as int, 0, 0),
{
    let x = arena[f as int]->Flat_0;
    let c0 = init_chunk(f);
    let c1 = chunk_flat(c0, x);
    assert(wf_doc(arena, f as int));
    let stack0 = seq![c0];
    let stack1 = stack0.drop_last().push(c1);
    assert(render_from(arena, w, 0, stack0) == render_from(arena, w, 0, stack1));
    assert(stack1 =~= seq![c1]);
    assert(flat_stack(seq![c1]) && crate::doc::chunks_in_range(arena, seq![c1]));
    lemma_render_flat(arena, w, 0, seq![c1]);
    assert(seq![c1].drop_last() =~= Seq::<Chunk>::empty());
    assert(flat_out(arena, Seq::<Chunk>::empty()) == Seq::<char>::empty());
    assert(flat_out(arena, seq![c1]) =~= flat_render(arena, x as int, 0, 0));
}

/// The document at `i` contains no `Choice` anywhere (and so no decision the
/// width budget could influence).
pub open spec fn choice_free(arena: Seq<Doc>, i: int) -> bool
    decreases i, 1int, 0int,
{
    0 <= i < arena.len() && match arena[i] {
        Doc::Newline => true,
        Doc::NewlineWithNoIndent => true,
        Doc::Softline => true,
        Doc::Maybeline => true,
        Doc::Text(_, _) => true,
        Doc::Flat(x) => (x as int) < i && choice_free(arena, x as int),
        Doc::Indent(_, x) => (x as int) < i && choice_free(arena, x as int),
        Doc::Dedent(_, x) => (x as int) < i && choice_free(arena, x as int),
        Doc::Align(_, x) => (x as int) < i && choice_free(arena, x as int),
        Doc::Concat(cs) => choice_free_seq(arena, cs@, i),
        Doc::Choice(_, _) => false,
    }
}

pub open spec fn choice_free_seq(arena: Seq<Doc>, cs: Seq<usize>, bound: int) -> bool
    decreases bound, 0int, cs.len() as int,
{
    cs.len() == 0 || ((cs[0] as int) < bound && choice_free(arena, cs[0] as int)
        && choice_free_seq(arena, cs.drop_first(), bound))
}

pub open spec fn choice_free_stack(arena: Seq<Doc>, stack: Seq<Chunk>) -> bool {
    forall|k: int| 0 <= k < stack.len() ==> choice_free(arena, (#[trigger] stack[k]).doc_ref as int)
}

proof fn lemma_choice_free_seq_each(arena: Seq<Doc>, cs: Seq<usize>, bound: int)
    requires
        choice_free_seq(arena, cs, bound),
    ensures
        forall|k: int|
            0 <= k < cs.len() ==> (#[trigger] cs[k] as int) < bound && choice_free(
                arena,
                cs[k] as int,
            ),
    decreases cs.len(),
{
    if cs.len() > 0 {
        lemma_choice_free_seq_each(arena, cs.drop_first(), bound);
        assert forall|k: int| 0 <= k < cs.len() implies (#[trigger] cs[k] as int) < bound
            && choice_free(arena, cs[k] as int) by {
            if k > 0 {
                assert(cs.drop_first()[k - 1] == cs[k]);
            }
        }
    }
}

/// Rendering a stack of choice-free documents depends on neither the width
/// budget nor the current column: two runs from the same stack agree exactly.
proof fn lemma_render_choice_free(
    arena: Seq<Doc>,
    mw1: u32,
    col1: u32,
    mw2: u32,
    col2: u32,
    stack: Seq<Chunk>,
)
    requires
        wf_arena(arena),
        choice_free_stack(arena, stack),
    ensures
        render_from(arena, mw1, col1, stack) == render_from(arena, mw2, col2, stack),
    decreases stack_size(arena, stack),
{
    if stack.len() == 0 {
    } else {
        let c = stack.last();
        let rest = stack.drop_last();
        let j = c.doc_ref as int;
        assert(c == stack[stack.len() - 1]);
        assert(choice_free(arena, j));
        assert(choice_free_stack(arena, rest)) by {
            assert forall|k: int| 0 <= k < rest.len() implies choice_free(
                arena,
                (#[trigger] rest[k]).doc_ref as int,
            ) by {
                assert(rest[k] == stack[k]);
            }
        }
        lemma_machine_step_decreases(arena, stack);
        match arena[j] {
            Doc::Newline => {
                let ti = sat_add32(c.indent, c.align);
                lemma_render_choice_free(arena, mw1, ti, mw2, ti, rest);
            },
            Doc::NewlineWithNoIndent => {
                lemma_render_choice_free(arena, mw1, 0, mw2, 0, rest);
            },
            Doc::Softline => {
                if c.flat {
                    lemma_render_choice_free(
                        arena,
                        mw1,
                        sat_add32(col1, 1),
                        mw2,
                        sat_add32(col2, 1),
                        rest,
                    );
                } else {
                    let ti = sat_add32(c.indent, c.align);
                    lemma_render_choice_free(arena, mw1, ti, mw2, ti, rest);
                }
            },
            Doc::Maybeline => {
                if c.flat {
                    lemma_render_choice_free(arena, mw1, col1, mw2, col2, rest);
                } else {
                    let ti = sat_add32(c.indent, c.align);
                    lemma_render_choice_free(arena, mw1, ti, mw2, ti, rest);
                }
            },
            Doc::Text(s, wd) => {
                lemma_render_choice_free(
                    arena,
                    mw1,
                    sat_add32(col1, wd),
                    mw2,
                    sat_add32(col2, wd),
                    rest,
                );
            },
            Doc::Flat(x) => {
                let c2 = chunk_flat(c, x);
                assert(choice_free_stack(arena, rest.push(c2))) by {
                    assert forall|k: int| 0 <= k < rest.push(c2).len() implies choice_free(
                        arena,
                        (#[trigger] rest.push(c2)[k]).doc_ref as int,
                    ) by {
                        if k < rest.len() {
                            assert(rest.push(c2)[k] == rest[k]);
                        }
                    }
                }
                lemma_render_choice_free(arena, mw1, col1, mw2, col2, rest.push(c2));
            },
            Doc::Indent(n, x) => {
                let c2 = chunk_indented(c, n, x);
                assert(choice_free_stack(arena, rest.push(c2))) by {
                    assert forall|k: int| 0 <= k < rest.push(c2).len() implies choice_free(
                        arena,
                        (#[trigger] rest.push(c2)[k]).doc_ref as int,
                    ) by {
                        if k < rest.len() {
                            assert(rest.push(c2)[k] == rest[k]);
                        }
                    }
                }
                lemma_render_choice_free(arena, mw1, col1, mw2, col2, rest.push(c2));
            },
            Doc::Dedent(n, x) => {
                let c2 = crate::doc::chunk_dedented(c, n, x);
                assert(choice_free_stack(arena, rest.push(c2))) by {
                    assert forall|k: int| 0 <= k < rest.push(c2).len() implies choice_free(
                        arena,
                        (#[trigger] rest.push(c2)[k]).doc_ref as int,
                    ) by {
                        if k < rest.len() {
                            assert(rest.push(c2)[k] == rest[k]);
                        }
                    }
                }
                lemma_render_choice_free(arena, mw1, col1, mw2, col2, rest.push(c2));
            },
            Doc::Align(n, x) => {
                let c2 = chunk_aligned(c, n, x);
                assert(choice_free_stack(arena, rest.push(c2))) by {
                    assert forall|k: int| 0 <= k < rest.push(c2).len() implies choice_free(
                        arena,
                        (#[trigger] rest.push(c2)[k]).doc_ref as int,
                    ) by {
                        if k < rest.len() {
                            assert(rest.push(c2)[k] == rest[k]);
                        }
                    }
                }
                lemma_render_choice_free(arena, mw1, col1, mw2, col2, rest.push(c2));
            },
            Doc::Concat(cs) => {
                let stack2 = rest + concat_chunks(c, cs@);
                lemma_choice_free_seq_each(arena, cs@, j);
                assert(choice_free_stack(arena, stack2)) by {
                    assert forall|k: int| 0 <= k < stack2.len() implies choice_free(
                        arena,
                        (#[trigger] stack2[k]).doc_ref as int,
                    ) by {
                        if k < rest.len() {
                            assert(stack2[k] == rest[k]);
                        } else {
                            let m = k - rest.len();
                            assert(stack2[k] == concat_chunks(c, cs@)[m]);
                            assert(concat_chunks(c, cs@)[m] == chunk_with(
                                c,
                                cs@[cs@.len() - 1 - m],
                            ));
                        }
                    }
                }
                lemma_render_choice_free(arena, mw1, col1, mw2, col2, stack2);
            },
            Doc::Choice(_, _) => {
                assert(false);
            },
        }
    }
}

/// Width independence for choice-free documents: without a `Choice` the
/// renderer never consults the width budget, so the output — and with it the
/// number of lines — is the same at every width. (With choices, a wider
/// budget can change how a `Choice` resolves, and a flat alternative may even
/// hold more mandatory breaks than the broken one, so the general claim that
/// more width never means more lines does not hold of this algorithm.)
pub proof fn law_width_independence(arena: Seq<Doc>, d: DocRef, w1: u32, w2: u32)
    requires
        wf_arena(arena),
        choice_free(arena, d as int),
    ensures
        render_doc(arena, d, w1) == render_doc(arena, d, w2),
{
    let stack = seq![init_chunk(d)];
    assert(choice_free_stack(arena, stack));
    lemma_render_choice_free(arena, w1, 0, w2, 0, stack);
}

/// The document at `i` holds no mandatory break — neither `Newline` nor
/// `NewlineWithNoIndent` occurs anywhere in it — and its text leaves keep
/// the single-line invariant (no embedded line break).
pub open spec fn hard_break_free(arena: Seq<Doc>, i: int) -> bool
    decreases i, 1int, 0int,
{
    0 <= i < arena.len() && match arena[i] {
        Doc::Newline => false,
        Doc::NewlineWithNoIndent => false,
        Doc::Softline => true,
        Doc::Maybeline => true,
        Doc::Text(s, _) => crate::doc::single_line(s@),
        Doc::Flat(x) => (x as int) < i && hard_break_free(arena, x as int),
        Doc::Indent(_, x) => (x as int) < i && hard_break_free(arena, x as int),
        Doc::Dedent(_, x) => (x as int) < i && hard_break_free(arena, x as int),
        Doc::Align(_, x) => (x as int) < i && hard_break_free(arena, x as int),
        Doc::Concat(cs) => hard_break_free_seq(arena, cs@, i),
        Doc::Choice(x, y) => (x as int) < i && (y as int) < i && hard_break_free(arena, x as int)
            && hard_break_free(arena, y as int),
    }
}

pub open spec fn hard_break_free_seq(arena: Seq<Doc>, cs: Seq<usize>, bound: int) -> bool
    decreases bound, 0int, cs.len() as int,
{
    cs.len() == 0 || ((cs[0] as int) < bound && hard_break_free(arena, cs[0] as int)
        && hard_break_free_seq(arena, cs.drop_first(), bound))
}

proof fn lemma_flat_render_no_newline(arena: Seq<Doc>, i: int, ind: u32, al: u32)
    requires
        hard_break_free(arena, i),
    ensures
        forall|k: int|
            0 <= k < flat_render(arena, i, ind, al).len() ==> flat_render(arena, i, ind, al)[k]
                != '\n',
    decreases i, 1int, 0int,
{
    match arena[i] {
        Doc::Flat(x) => {
            lemma_flat_render_no_newline(arena, x as int, ind, al);
        },
        Doc::Indent(n, x) => {
            lemma_flat_render_no_newline(arena, x as int, sat_add32(ind, n), al);
        },
        Doc::Dedent(n, x) => {
            lemma_flat_render_no_newline(arena, x as int, sat_sub32(ind, n), al);
        },
        Doc::Align(n, x) => {
            lemma_flat_render_no_newline(arena, x as int, ind, sat_add32(al, n));
        },
        Doc::Choice(x, _) => {
            lemma_flat_render_no_newline(arena, x as int, ind, al);
        },
        Doc::Concat(cs) => {
            lemma_flat_render_seq_no_newline(arena, cs@, i, ind, al);
        },
        _ => {},
    }
    let res = flat_render(arena, i, ind, al);
    assert forall|k: int| 0 <= k < res.len() implies res[k] != '\n' by {
        match arena[i] {
            Doc::Flat(x) => {
                assert(res == flat_render(arena, x as int, ind, al));
            },
            Doc::Indent(n, x) => {
                assert(res == flat_render(arena, x as int, sat_add32(ind, n), al));
            },
            Doc::Dedent(n, x) => {
                assert(res == flat_render(arena, x as int, sat_sub32(ind, n), al));
            },
            Doc::Align(n, x) => {
                assert(res == flat_render(arena, x as int, ind, sat_add32(al, n)));
            },
            Doc::Choice(x, _) => {
                assert(res == flat_render(arena, x as int, ind, al));
            },
            Doc::Concat(cs) => {
                assert(res == flat_render_seq(arena, cs@, i, ind, al));
            },
            Doc::Text(s, _) => {
                assert(res == s@);
            },
            Doc::Softline => {
                assert(res == seq![' ']);
                assert(res[k] == ' ');
            },
            Doc::Maybeline => {
                assert(res.len() == 0);
            },
            _ => {
                assert(false);
            },
        }
    }
}

proof fn lemma_flat_render_seq_no_newline(
    arena: Seq<Doc>,
    cs: Seq<usize>,
    bound: int,
    ind: u32,
    al: u32,
)
    requires
        hard_break_free_seq(arena, cs, bound),
    ensures
        forall|k: int|
            0 <= k < flat_render_seq(arena, cs, bound, ind, al).len() ==> flat_render_seq(
                arena,
                cs,
                bound,
                ind,
                al,
            )[k] != '\n',
    decreases bound, 0int, cs.len() as int,
{
    if cs.len() > 0 {
        lemma_flat_render_no_newline(arena, cs[0] as int, ind, al);
        lemma_flat_render_seq_no_newline(arena, cs.drop_first(), bound, ind, al);
        let head = flat_render(arena, cs[0] as int, ind, al);
        let tail = flat_render_seq(arena, cs.drop_first(), bound, ind, al);
        assert(flat_render_seq(arena, cs, bound, ind, al) == head + tail);
        assert forall|k: int| 0 <= k < (head + tail).len() implies (head + tail)[k] != '\n' by {
            if k < head.len() {
                assert((head + tail)[k] == head[k]);
            } else {
                assert((head + tail)[k] == tail[k - head.len()]);
            }
        }
    }
}

/// The sharper reading of flat correctness: under `Flat`, a document without
/// mandatory breaks renders without a single line break, at every width —
/// no `Softline`, `Maybeline` or `Choice` inside it can produce one.
pub proof fn law_flat_no_optional_breaks(arena: Seq<Doc>, f: DocRef, w: u32)
    requires
        wf_arena(arena),
        (f as int) < arena.len(),
        arena[f as int] matches Doc::Flat(x) && hard_break_free(arena, x as int),
    ensures
        forall|k: int|
            0 <= k < render_doc(arena, f, w).len() ==> render_doc(arena, f, w)[k] != '\n',
{
    let x = arena[f as int]->Flat_0;
    law_flat_rendering(arena, f, w, w);
    lemma_flat_render_no_newline(arena, x as int, 0, 0);
}

/// A single text leaf renders as exactly its content, at any width and
/// whatever else the arena holds.
pub proof fn law_text_leaf(arena: Seq<Doc>, d: DocRef, s: Seq<char>, w: u32)
    requires
        wf_arena(arena),
        has_shape(arena, d as int, Shape::Text(s)),
    ensures
        render_doc(arena, d, w) == s,
{
    let c0 = init_chunk(d);
    assert(is_text(arena[d as int], s));
    let t = arena[d as int]->Text_0;
    let tw = arena[d as int]->Text_1;
    assert(render_from(arena, w, 0, seq![c0]) == t@ + render_from(
        arena,
        w,
        sat_add32(0, tw),
        seq![c0].drop_last(),
    ));
    assert(seq![c0].drop_last() =~= Seq::<Chunk>::empty());
    assert(render_doc(arena, d, w) =~= s);
}

/// Dedent saturation in an arbitrary reached context: wherever a
/// `Dedent(n, Newline)` is encountered — whatever block indent and alignment
/// have accumulated on the chunk by then, and whatever work remains on the
/// stack — the break renders with `max(indent - n, 0) + align` leading
/// spaces. The count saturates at zero twice over: the subtraction floors at
/// zero and the space count is a `nat`.
pub proof fn law_dedent_saturation_in_context(
    arena: Seq<Doc>,
    c: Chunk,
    n: u32,
    x: DocRef,
    stack: Seq<Chunk>,
    w: u32,
    col: u32,
)
    requires
        wf_arena(arena),
        (c.doc_ref as int) < arena.len(),
        arena[c.doc_ref as int] == Doc::Dedent(n, x),
        arena[x as int] == Doc::Newline,
    ensures
        ({
            let pad = sat_add32(sat_sub32(c.indent, n), c.align);
            render_from(arena, w, col, stack.push(c)) == seq!['\n'] + spaces(pad as nat)
                + render_from(arena, w, pad, stack)
        }),
        c.indent < n ==> sat_sub32(c.indent, n) == 0,
{
    let c2 = crate::doc::chunk_dedented(c, n, x);
    let s0 = stack.push(c);
    assert(s0.drop_last() =~= stack);
    assert(render_from(arena, w, col, s0) == render_from(arena, w, col, stack.push(c2)));
    let s1 = stack.push(c2);
    assert(s1.drop_last() =~= stack);
    assert(wf_doc(arena, c.doc_ref as int));
    let pad = sat_add32(c2.indent, c2.align);
    assert(render_from(arena, w, col, s1) == seq!['\n'] + spaces(pad as nat) + render_from(
        arena,
        w,
        pad,
        stack,
    ));
}

/// Alignment in an arbitrary reached context: wherever an
/// `Align(n, Newline)` is encountered under block indent `c.indent` and
/// alignment `c.align`, the break renders with `indent + align + n` leading
/// spaces — block indent and alignment offset are independent and add, so
/// changing the surrounding indent alone shifts such lines uniformly.
pub proof fn law_align_offset_in_context(
    arena: Seq<Doc>,
    c: Chunk,
    n: u32,
    x: DocRef,
    stack: Seq<Chunk>,
    w: u32,
    col: u32,
)
    requires
        wf_arena(arena),
        (c.doc_ref as int) < arena.len(),
        arena[c.doc_ref as int] == Doc::Align(n, x),
        arena[x as int] == Doc::Newline,
    ensures
        ({
            let pad = sat_add32(c.indent, sat_add32(c.align, n));
            render_from(arena, w, col, stack.push(c)) == seq!['\n'] + spaces(pad as nat)
                + render_from(arena, w, pad, stack)
        }),
        c.indent + c.align + n <= u32::MAX ==> sat_add32(c.indent, sat_add32(c.align, n)) as int
            == c.indent + c.align + n,
{
    let c2 = chunk_aligned(c, n, x);
    let s0 = stack.push(c);
    assert(s0.drop_last() =~= stack);
    assert(render_from(arena, w, col, s0) == render_from(arena, w, col, stack.push(c2)));
    let s1 = stack.push(c2);
    assert(s1.drop_last() =~= stack);
    assert(wf_doc(arena, c.doc_ref as int));
    let pad = sat_add32(c2.indent, c2.align);
    assert(render_from(arena, w, col, s1) == seq!['\n'] + spaces(pad as nat) + render_from(
        arena,
        w,
        pad,
        stack,
    ));
}

} // verus!
