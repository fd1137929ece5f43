//! The document model and its renderer.
//!
//! A document is an immutable tree of layout primitives. Nodes live in an
//! index-based arena (a `Vec<Doc>`); a node refers to its children by their
//! indices, which are always strictly smaller than the node's own index, so
//! the tree is acyclic by construction. The renderer walks a document with an
//! explicit stack of chunks and resolves every `Choice` with a bounded
//! lookahead (`fits`), keeping each line within the width budget where it can.
//!
//! The meaning of rendering is given by the spec-level stack machine
//! `render_from` (with `fits_from` as the lookahead); `pretty_print` is proved
//! to return exactly that sequence of characters.
use crate::config::ConfigError;
use vstd::prelude::*;

verus! {

/// A handle to a document node: its index in the arena that owns it.
pub type DocRef = usize;

/// One layout primitive. Column counts saturate at `u32::MAX`.
#[derive(Debug)]
pub enum Doc {
    /// Mandatory line break; resumes at the current indent plus alignment.
    Newline,
    /// Mandatory line break with the column reset to zero.
    NewlineWithNoIndent,
    /// Literal single-line content, with its display width precomputed.
    Text(String, u32),
    /// A space when flattened, otherwise a line break.
    Softline,
    /// Empty when flattened, otherwise a line break.
    Maybeline,
    /// Forces everything beneath to render in flattened mode.
    Flat(DocRef),
    /// Adds columns to the block indent applied to breaks inside.
    Indent(u32, DocRef),
    /// Subtracts columns from the block indent, saturating at zero.
    Dedent(u32, DocRef),
    /// An ordered sequence, rendered in order with no separator.
    Concat(Vec<DocRef>),
    /// Render the first alternative if it fits, else the second.
    Choice(DocRef, DocRef),
    /// Adds columns to the alignment offset applied to breaks inside.
    Align(u32, DocRef),
}

/// A document reference paired with its inherited rendering context.
#[derive(Debug, Clone, Copy)]
pub struct Chunk {
    pub doc_ref: DocRef,
    pub indent: u32,
    pub flat: bool,
    pub align: u32,
}

/// Addition on column counts, saturating at `u32::MAX`.
pub open spec fn sat_add32(a: u32, b: u32) -> u32 {
    if a + b <= u32::MAX {
        (a + b) as u32
    } else {
        u32::MAX
    }
}

/// Subtraction on column counts, saturating at zero.
pub open spec fn sat_sub32(a: u32, b: u32) -> u32 {
    if a >= b {
        (a - b) as u32
    } else {
        0
    }
}

fn saturating_add_u32(a: u32, b: u32) -> (r: u32)
    ensures
        r == sat_add32(a, b),
{
    if a <= u32::MAX - b {
        a + b
    } else {
        u32::MAX
    }
}

pub open spec fn chunk_with(c: Chunk, doc_ref: DocRef) -> Chunk {
    Chunk { doc_ref, ..c }
}

pub open spec fn chunk_indented(c: Chunk, indent: u32, doc_ref: DocRef) -> Chunk {
    Chunk { doc_ref, indent: sat_add32(c.indent, indent), ..c }
}

pub open spec fn chunk_dedented(c: Chunk, indent: u32, doc_ref: DocRef) -> Chunk {
    Chunk { doc_ref, indent: sat_sub32(c.indent, indent), ..c }
}

pub open spec fn chunk_flat(c: Chunk, doc_ref: DocRef) -> Chunk {
    Chunk { doc_ref, flat: true, ..c }
}

pub open spec fn chunk_aligned(c: Chunk, align: u32, doc_ref: DocRef) -> Chunk {
    Chunk { doc_ref, align: sat_add32(c.align, align), ..c }
}

impl Chunk {
    /// The same context, moved to another document node.
    pub fn with_doc(self, doc_ref: DocRef) -> (r: Chunk)
        ensures
            r == chunk_with(self, doc_ref),
    {
        Chunk { doc_ref, ..self }
    }

    /// The same context with `indent` more columns of block indent.
    pub fn indented(self, indent: u32, doc_ref: DocRef) -> (r: Chunk)
        ensures
            r == chunk_indented(self, indent, doc_ref),
    {
        Chunk { doc_ref, indent: saturating_add_u32(self.indent, indent), ..self }
    }

    /// The same context with `indent` fewer columns of block indent (floor 0).
    pub fn dedented(self, indent: u32, doc_ref: DocRef) -> (r: Chunk)
        ensures
            r == chunk_dedented(self, indent, doc_ref),
    {
        let new_indent: u32 = if self.indent >= indent {
            self.indent - indent
        } else {
            0
        };
        Chunk { doc_ref, indent: new_indent, ..self }
    }

    /// The same context with flattened mode forced on.
    pub fn flat(self, doc_ref: DocRef) -> (r: Chunk)
        ensures
            r == chunk_flat(self, doc_ref),
    {
        Chunk { doc_ref, flat: true, ..self }
    }

    /// The same context with `align` more columns of alignment offset.
    pub fn aligned(self, align: u32, doc_ref: DocRef) -> (r: Chunk)
        ensures
            r == chunk_aligned(self, align, doc_ref),
    {
        Chunk { doc_ref, align: saturating_add_u32(self.align, align), ..self }
    }
}

/// Every child index of the node at `j` is strictly below `j`.
pub open spec fn wf_doc(arena: Seq<Doc>, j: int) -> bool {
    match arena[j] {
        Doc::Flat(x) => (x as int) < j,
        Doc::Indent(_, x) => (x as int) < j,
        Doc::Dedent(_, x) => (x as int) < j,
        Doc::Align(_, x) => (x as int) < j,
        Doc::Choice(x, y) => (x as int) < j && (y as int) < j,
        Doc::Concat(cs) => forall|k: int| 0 <= k < cs@.len() ==> (cs@[k] as int) < j,
        _ => true,
    }
}

/// The arena invariant: children precede their parents, so documents are
/// acyclic and every reachable index is in range.
pub open spec fn wf_arena(arena: Seq<Doc>) -> bool {
    forall|j: int| 0 <= j < arena.len() ==> #[trigger] wf_doc(arena, j)
}

/// The size of the document tree rooted at index `i` (used as a measure).
pub open spec fn size(arena: Seq<Doc>, i: int) -> nat
    decreases i, 1int, 0int,
{
    if i < 0 || i >= arena.len() {
        1
    } else {
        match arena[i] {
            Doc::Flat(x) => 1 + (if (x as int) < i {
                size(arena, x as int)
            } else {
                0
            }),
            Doc::Indent(_, x) => 1 + (if (x as int) < i {
                size(arena, x as int)
            } else {
                0
            }),
            Doc::Dedent(_, x) => 1 + (if (x as int) < i {
                size(arena, x as int)
            } else {
                0
            }),
            Doc::Align(_, x) => 1 + (if (x as int) < i {
                size(arena, x as int)
            } else {
                0
            }),
            Doc::Choice(x, y) => 1 + (if (x as int) < i {
                size(arena, x as int)
            } else {
                0
            }) + (if (y as int) < i {
                size(arena, y as int)
            } else {
                0
            }),
            Doc::Concat(cs) => 1 + size_seq(arena, cs@, i),
            _ => 1,
        }
    }
}

/// The total size of the trees rooted at the indices in `cs`, each counted
/// only when it lies below `bound`.
pub open spec fn size_seq(arena: Seq<Doc>, cs: Seq<usize>, bound: int) -> nat
    decreases bound, 0int, cs.len() as int,
{
    if cs.len() == 0 {
        0
    } else {
        (if (cs[0] as int) < bound {
            size(arena, cs[0] as int)
        } else {
            1
        }) + size_seq(arena, cs.drop_first(), bound)
    }
}

/// The total size of the documents on a chunk stack (the machine's measure).
pub open spec fn stack_size(arena: Seq<Doc>, stack: Seq<Chunk>) -> nat
    decreases stack.len(),
{
    if stack.len() == 0 {
        0
    } else {
        stack_size(arena, stack.drop_last()) + size(arena, stack.last().doc_ref as int)
    }
}

pub proof fn lemma_size_pos(arena: Seq<Doc>, i: int)
    ensures
        size(arena, i) >= 1,
{
}

pub proof fn lemma_stack_size_push(arena: Seq<Doc>, stack: Seq<Chunk>, c: Chunk)
    ensures
        stack_size(arena, stack.push(c)) == stack_size(arena, stack) + size(
            arena,
            c.doc_ref as int,
        ),
{
    assert(stack.push(c).drop_last() =~= stack);
}

pub proof fn lemma_stack_size_concat(arena: Seq<Doc>, s1: Seq<Chunk>, s2: Seq<Chunk>)
    ensures
        stack_size(arena, s1 + s2) == stack_size(arena, s1) + stack_size(arena, s2),
    decreases s2.len(),
{
    if s2.len() == 0 {
        assert(s1 + s2 =~= s1);
    } else {
        lemma_stack_size_concat(arena, s1, s2.drop_last());
        assert((s1 + s2).drop_last() =~= s1 + s2.drop_last());
        assert((s1 + s2).last() == s2.last());
    }
}

/// The chunks that processing a `Concat` node pushes: the children in reverse
/// order, each inheriting the parent chunk's context, so that they are popped
/// in their original order.
pub open spec fn concat_chunks(c: Chunk, cs: Seq<usize>) -> Seq<Chunk> {
    Seq::new(cs.len(), |k: int| chunk_with(c, cs[cs.len() - 1 - k]))
}

pub proof fn lemma_concat_chunks_size(arena: Seq<Doc>, c: Chunk, cs: Seq<usize>, bound: int)
    requires
        forall|k: int| 0 <= k < cs.len() ==> (cs[k] as int) < bound,
    ensures
        stack_size(arena, concat_chunks(c, cs)) == size_seq(arena, cs, bound),
    decreases cs.len(),
{
    if cs.len() == 0 {
    } else {
        lemma_concat_chunks_size(arena, c, cs.drop_first(), bound);
        assert(concat_chunks(c, cs).drop_last() =~= concat_chunks(c, cs.drop_first()));
        assert(concat_chunks(c, cs).last() == chunk_with(c, cs[0]));
        lemma_size_pos(arena, cs[0] as int);
    }
}

/// Every chunk on the stack refers to a node inside the arena.
pub open spec fn chunks_in_range(arena: Seq<Doc>, stack: Seq<Chunk>) -> bool {
    forall|k: int| 0 <= k < stack.len() ==> (#[trigger] stack[k].doc_ref as int) < arena.len()
}

/// The bounded lookahead: whether rendering the stack (top chunk first) stays
/// within `remaining` columns up to the first line break it would emit. A
/// mandatory break, or an optional break in a non-flattened context, ends the
/// current line and counts as fitting; running out of stack also fits. Inside
/// the lookahead a `Choice` resolves to its flat alternative in a flattened
/// context and to its broken alternative otherwise.
pub open spec fn fits_from(arena: Seq<Doc>, remaining: u32, stack: Seq<Chunk>) -> bool
    decreases stack_size(arena, stack),
    via fits_from_decreases
{
    if stack.len() == 0 {
        true
    } else {
        let c = stack.last();
        let rest = stack.drop_last();
        let j = c.doc_ref as int;
        if !(0 <= j < arena.len() && wf_doc(arena, j)) {
            true  // unreachable under a well-formed arena
        } else {
            match arena[j] {
                Doc::Newline => true,
                Doc::NewlineWithNoIndent => true,
                Doc::Softline => if c.flat {
                    if remaining >= 1 {
                        fits_from(arena, (remaining - 1) as u32, rest)
                    } else {
                        false
                    }
                } else {
                    true
                },
                Doc::Maybeline => if c.flat {
                    fits_from(arena, remaining, rest)
                } else {
                    true
                },
                Doc::Text(_, w) => if w <= remaining {
                    fits_from(arena, (remaining - w) as u32, rest)
                } else {
                    false
                },
                Doc::Flat(x) => fits_from(arena, remaining, rest.push(chunk_flat(c, x))),
                Doc::Indent(n, x) => fits_from(arena, remaining, rest.push(chunk_indented(c, n, x))),
                Doc::Dedent(n, x) => fits_from(arena, remaining, rest.push(chunk_dedented(c, n, x))),
                Doc::Align(n, x) => fits_from(arena, remaining, rest.push(chunk_aligned(c, n, x))),
                Doc::Concat(cs) => fits_from(arena, remaining, rest + concat_chunks(c, cs@)),
                Doc::Choice(x, y) => if c.flat {
                    fits_from(arena, remaining, rest.push(chunk_with(c, x)))
                } else {
                    fits_from(arena, remaining, rest.push(chunk_with(c, y)))
                },
            }
        }
    }
}

#[via_fn]
proof fn fits_from_decreases(arena: Seq<Doc>, remaining: u32, stack: Seq<Chunk>) {
    lemma_machine_step_decreases(arena, stack);
}

/// Whatever node the top chunk holds, the stack that one machine step leaves
/// behind is smaller than the current one; shared by the termination proofs of
/// `fits_from` and `render_from`.
pub proof fn lemma_machine_step_decreases(arena: Seq<Doc>, stack: Seq<Chunk>)
    ensures
        stack.len() > 0 ==> {
            let c = stack.last();
            let rest = stack.drop_last();
            let j = c.doc_ref as int;
            (0 <= j < arena.len() && wf_doc(arena, j)) ==> match arena[j] {
                Doc::Flat(x) => stack_size(arena, rest.push(chunk_flat(c, x))) < stack_size(
                    arena,
                    stack,
                ),
                Doc::Indent(n, x) => stack_size(arena, rest.push(chunk_indented(c, n, x)))
                    < stack_size(arena, stack),
                Doc::Dedent(n, x) => stack_size(arena, rest.push(chunk_dedented(c, n, x)))
                    < stack_size(arena, stack),
                Doc::Align(n, x) => stack_size(arena, rest.push(chunk_aligned(c, n, x)))
                    < stack_size(arena, stack),
                Doc::Concat(cs) => stack_size(arena, rest + concat_chunks(c, cs@)) < stack_size(
                    arena,
                    stack,
                ),
                Doc::Choice(x, y) => stack_size(arena, rest.push(chunk_with(c, x))) < stack_size(
                    arena,
                    stack,
                ) && stack_size(arena, rest.push(chunk_with(c, y))) < stack_size(arena, stack),
                _ => stack_size(arena, rest) < stack_size(arena, stack),
            }
        },
{
    if stack.len() > 0 {
        let c = stack.last();
        let rest = stack.drop_last();
        let j = c.doc_ref as int;
        assert(stack_size(arena, stack) == stack_size(arena, rest) + size(arena, j));
        lemma_size_pos(arena, j);
        if 0 <= j < arena.len() && wf_doc(arena, j) {
            match arena[j] {
                Doc::Flat(x) => {
                    lemma_stack_size_push(arena, rest, chunk_flat(c, x));
                },
                Doc::Indent(n, x) => {
                    lemma_stack_size_push(arena, rest, chunk_indented(c, n, x));
                },
                Doc::Dedent(n, x) => {
                    lemma_stack_size_push(arena, rest, chunk_dedented(c, n, x));
                },
                Doc::Align(n, x) => {
                    lemma_stack_size_push(arena, rest, chunk_aligned(c, n, x));
                },
                Doc::Concat(cs) => {
                    lemma_stack_size_concat(arena, rest, concat_chunks(c, cs@));
                    lemma_concat_chunks_size(arena, c, cs@, j);
                },
                Doc::Choice(x, y) => {
                    lemma_stack_size_push(arena, rest, chunk_with(c, x));
                    lemma_stack_size_push(arena, rest, chunk_with(c, y));
                },
                _ => {},
            }
        }
    }
}

/// A run of `n` spaces.
pub open spec fn spaces(n: nat) -> Seq<char>
    decreases n,
{
    if n == 0 {
        Seq::empty()
    } else {
        spaces((n - 1) as nat).push(' ')
    }
}

/// The rendering machine. Pops the top chunk of the stack and dispatches on
/// its document node, producing output text left to right; `col` tracks the
/// current output column and `max_width` is the width budget consulted when a
/// `Choice` is resolved. This is the meaning of rendering: `pretty_print`
/// returns exactly this character sequence.
pub open spec fn render_from(arena: Seq<Doc>, max_width: u32, col: u32, stack: Seq<Chunk>) -> Seq<
    char,
>
    decreases stack_size(arena, stack),
    via render_from_decreases
{
    if stack.len() == 0 {
        Seq::empty()
    } else {
        let c = stack.last();
        let rest = stack.drop_last();
        let j = c.doc_ref as int;
        if !(0 <= j < arena.len() && wf_doc(arena, j)) {
            Seq::empty()  // unreachable under a well-formed arena
        } else {
            match arena[j] {
                Doc::Newline => {
                    let ti = sat_add32(c.indent, c.align);
                    seq!['\n'] + spaces(ti as nat) + render_from(arena, max_width, ti, rest)
                },
                Doc::NewlineWithNoIndent => seq!['\n'] + render_from(arena, max_width, 0, rest),
                Doc::Softline => if c.flat {
                    seq![' '] + render_from(arena, max_width, sat_add32(col, 1), rest)
                } else {
                    let ti = sat_add32(c.indent, c.align);
                    seq!['\n'] + spaces(ti as nat) + render_from(arena, max_width, ti, rest)
                },
                Doc::Maybeline => if c.flat {
                    render_from(arena, max_width, col, rest)
                } else {
                    let ti = sat_add32(c.indent, c.align);
                    seq!['\n'] + spaces(ti as nat) + render_from(arena, max_width, ti, rest)
                },
                Doc::Text(s, w) => s@ + render_from(arena, max_width, sat_add32(col, w), rest),
                Doc::Flat(x) => render_from(arena, max_width, col, rest.push(chunk_flat(c, x))),
                Doc::Indent(n, x) => render_from(
                    arena,
                    max_width,
                    col,
                    rest.push(chunk_indented(c, n, x)),
                ),
                Doc::Dedent(n, x) => render_from(
                    arena,
                    max_width,
                    col,
                    rest.push(chunk_dedented(c, n, x)),
                ),
                Doc::Align(n, x) => render_from(
                    arena,
                    max_width,
                    col,
                    rest.push(chunk_aligned(c, n, x)),
                ),
                Doc::Concat(cs) => render_from(arena, max_width, col, rest + concat_chunks(c, cs@)),
                Doc::Choice(x, y) => if c.flat || fits_from(
                    arena,
                    sat_sub32(max_width, col),
                    rest.push(chunk_with(c, x)),
                ) {
                    render_from(arena, max_width, col, rest.push(chunk_with(c, x)))
                } else {
                    render_from(arena, max_width, col, rest.push(chunk_with(c, y)))
                },
            }
        }
    }
}

#[via_fn]
proof fn render_from_decreases(arena: Seq<Doc>, max_width: u32, col: u32, stack: Seq<Chunk>) {
    lemma_machine_step_decreases(arena, stack);
}

/// The chunk the renderer starts from: no indent, no alignment, not flattened.
pub open spec fn init_chunk(doc_ref: DocRef) -> Chunk {
    Chunk { doc_ref, indent: 0, flat: false, align: 0 }
}

/// The text that rendering the document at `doc_ref` within `max_width`
/// columns produces.
pub open spec fn render_doc(arena: Seq<Doc>, doc_ref: DocRef, max_width: u32) -> Seq<char> {
    render_from(arena, max_width, 0, seq![init_chunk(doc_ref)])
}

/// The renderer's configuration: how many columns one indentation level adds.
pub struct PrettyConfig {
    pub indent_size: u32,
}

impl PrettyConfig {
    /// A zero indentation unit is rejected here, at construction time, with a
    /// typed error; it never surfaces as a rendering failure.
    pub fn new(indent_size: u32) -> (r: Result<PrettyConfig, ConfigError>)
        ensures
            indent_size == 0 ==> r == Result::<PrettyConfig, ConfigError>::Err(
                ConfigError::ZeroIndentSize,
            ),
            indent_size != 0 ==> (r matches Ok(c) && c.indent_size == indent_size),
    {
        if indent_size == 0 {
            Err(ConfigError::ZeroIndentSize)
        } else {
            Ok(PrettyConfig { indent_size })
        }
    }
}


/// Pushes the children of a `Concat` node in reverse order, so that they pop
/// in their original order, each inheriting the context of chunk `c`.
fn push_reversed(stack: &mut Vec<Chunk>, c: Chunk, cs: &Vec<usize>, Ghost(arena): Ghost<Seq<Doc>>)
    requires
        chunks_in_range(arena, old(stack)@),
        forall|k: int| 0 <= k < cs@.len() ==> (#[trigger] cs@[k] as int) < arena.len(),
    ensures
        final(stack)@ == old(stack)@ + concat_chunks(c, cs@),
        chunks_in_range(arena, final(stack)@),
{
    let ghost snap = stack@;
    let ghost goal = concat_chunks(c, cs@);
    let n = cs.len();
    let mut i: usize = 0;
    while i < n
        invariant
            n == cs@.len(),
            i <= n,
            goal == concat_chunks(c, cs@),
            forall|k: int| 0 <= k < cs@.len() ==> (#[trigger] cs@[k] as int) < arena.len(),
            chunks_in_range(arena, stack@),
            stack@ =~= snap + goal.take(i as int),
        decreases n - i,
    {
        let child: DocRef = cs[n - 1 - i];
        stack.push(c.with_doc(child));
        proof {
            assert(goal[i as int] == chunk_with(c, cs@[n - 1 - i]));
            assert(stack@ =~= snap + goal.take(i as int + 1));
        }
        i = i + 1;
    }
    proof {
        assert(goal.take(n as int) =~= goal);
        assert(stack@ =~= snap + goal);
    }
}

struct PrettyPrinter {
    max_width: u32,
    col: u32,
    chunks: Vec<Chunk>,
}

impl PrettyPrinter {
    fn new(doc_ref: DocRef, max_width: u32) -> (r: Self)
        ensures
            r.max_width == max_width,
            r.col == 0,
            r.chunks@ =~= seq![init_chunk(doc_ref)],
    {
        let mut chunks: Vec<Chunk> = Vec::new();
        chunks.push(Chunk { doc_ref, indent: 0, flat: false, align: 0 });
        PrettyPrinter { max_width, col: 0, chunks }
    }

    /// The bounded lookahead: walks `chunk` first and then whatever remains on
    /// the live chunk stack (without mutating it), mirroring `fits_from`.
    fn fits(&self, arena: &Vec<Doc>, chunk: Chunk) -> (r: bool)
        requires
            wf_arena(arena@),
            chunks_in_range(arena@, self.chunks@),
            (chunk.doc_ref as int) < arena@.len(),
        ensures
            r == fits_from(arena@, sat_sub32(self.max_width, self.col), self.chunks@.push(chunk)),
    {
        let mut remaining_width: u32 = if self.max_width >= self.col {
            self.max_width - self.col
        } else {
            0
        };
        let mut stack: Vec<Chunk> = Vec::new();
        stack.push(chunk);
        let mut pos: usize = self.chunks.len();
        let ghost budget0 = sat_sub32(self.max_width, self.col);
        proof {
            assert(self.chunks@.take(pos as int) + stack@ =~= self.chunks@.push(chunk));
        }
        loop
            invariant
                wf_arena(arena@),
                chunks_in_range(arena@, self.chunks@),
                chunks_in_range(arena@, stack@),
                pos <= self.chunks@.len(),
                budget0 == sat_sub32(self.max_width, self.col),
                fits_from(arena@, budget0, self.chunks@.push(chunk)) == fits_from(
                    arena@,
                    remaining_width,
                    self.chunks@.take(pos as int) + stack@,
                ),
            decreases stack_size(arena@, self.chunks@.take(pos as int) + stack@),
        {
            let ghost walk_before = self.chunks@.take(pos as int) + stack@;
            let c: Chunk;
            if stack.len() > 0 {
                c = stack.pop().unwrap();
                proof {
                    assert(walk_before =~= (self.chunks@.take(pos as int) + stack@).push(c));
                }
            } else if pos > 0 {
                pos = pos - 1;
                c = self.chunks[pos];
                proof {
                    assert(walk_before =~= (self.chunks@.take(pos as int) + stack@).push(c));
                }
            } else {
                proof {
                    assert(walk_before =~= Seq::<Chunk>::empty());
                }
                return true;
            }
            let ghost rest = self.chunks@.take(pos as int) + stack@;
            proof {
                assert(walk_before =~= rest.push(c));
                assert(walk_before.drop_last() =~= rest);
                lemma_machine_step_decreases(arena@, walk_before);
            }
            let d = &arena[c.doc_ref];
            match d {
                Doc::Newline => {
                    return true;
                },
                Doc::NewlineWithNoIndent => {
                    return true;
                },
                Doc::Softline => {
                    if c.flat {
                        if remaining_width >= 1 {
                            remaining_width = remaining_width - 1;
                        } else {
                            return false;
                        }
                    } else {
                        return true;
                    }
                },
                Doc::Maybeline => {
                    if !c.flat {
                        return true;
                    }
                },
                Doc::Text(_, text_width) => {
                    if *text_width <= remaining_width {
                        remaining_width = remaining_width - *text_width;
                    } else {
                        return false;
                    }
                },
                Doc::Flat(x) => {
                    stack.push(c.flat(*x));
                    proof {
                        assert(self.chunks@.take(pos as int) + stack@ =~= rest.push(
                            chunk_flat(c, *x),
                        ));
                    }
                },
                Doc::Indent(n, x) => {
                    stack.push(c.indented(*n, *x));
                    proof {
                        assert(self.chunks@.take(pos as int) + stack@ =~= rest.push(
                            chunk_indented(c, *n, *x),
                        ));
                    }
                },
                Doc::Dedent(n, x) => {
                    stack.push(c.dedented(*n, *x));
                    proof {
                        assert(self.chunks@.take(pos as int) + stack@ =~= rest.push(
                            chunk_dedented(c, *n, *x),
                        ));
                    }
                },
                Doc::Align(n, x) => {
                    stack.push(c.aligned(*n, *x));
                    proof {
                        assert(self.chunks@.take(pos as int) + stack@ =~= rest.push(
                            chunk_aligned(c, *n, *x),
                        ));
                    }
                },
                Doc::Concat(cs) => {
                    proof {
                        assert(wf_doc(arena@, c.doc_ref as int));
                    }
                    push_reversed(&mut stack, c, cs, Ghost(arena@));
                    proof {
                        assert(self.chunks@.take(pos as int) + stack@ =~= rest + concat_chunks(
                            c,
                            cs@,
                        ));
                    }
                },
                Doc::Choice(x, y) => {
                    if c.flat {
                        stack.push(c.with_doc(*x));
                        proof {
                            assert(self.chunks@.take(pos as int) + stack@ =~= rest.push(
                                chunk_with(c, *x),
                            ));
                        }
                    } else {
                        stack.push(c.with_doc(*y));
                        proof {
                            assert(self.chunks@.take(pos as int) + stack@ =~= rest.push(
                                chunk_with(c, *y),
                            ));
                        }
                    }
                },
            }
        }
    }

    /// Pops chunks until the stack is empty, appending output text; returns
    /// exactly the text that the `render_from` machine assigns to the
    /// printer's starting state.
    fn print(&mut self, arena: &Vec<Doc>) -> (r: String)
        requires
            wf_arena(arena@),
            chunks_in_range(arena@, old(self).chunks@),
        ensures
            r@ == render_from(arena@, old(self).max_width, old(self).col, old(self).chunks@),
    {
        let mut result = String::new();
        let ghost mw = self.max_width;
        let ghost target = render_from(arena@, self.max_width, self.col, self.chunks@);
        while self.chunks.len() != 0
            invariant
                wf_arena(arena@),
                chunks_in_range(arena@, self.chunks@),
                self.max_width == mw,
                result@ + render_from(arena@, mw, self.col, self.chunks@) == target,
            decreases stack_size(arena@, self.chunks@),
        {
            let ghost stack_before = self.chunks@;
            let ghost col_before = self.col;
            let ghost result_before = result@;
            let chunk = self.chunks.pop().unwrap();
            proof {
                assert(stack_before =~= self.chunks@.push(chunk));
            }
            let ghost rest = self.chunks@;
            proof {
                assert(stack_before.drop_last() =~= rest);
                lemma_machine_step_decreases(arena@, stack_before);
            }
            let d = &arena[chunk.doc_ref];
            match d {
                Doc::Newline => {
                    proof {
                        reveal_strlit("\n");
                    }
                    result.append("\n");
                    let total_indent = saturating_add_u32(chunk.indent, chunk.align);
                    result = Self::push_spaces(result, total_indent);
                    self.col = total_indent;
                    proof {
                        let ti = sat_add32(chunk.indent, chunk.align);
                        assert(result@ + render_from(arena@, mw, ti, rest) =~= result_before + (
                        seq!['\n'] + spaces(ti as nat) + render_from(arena@, mw, ti, rest)));
                    }
                },
                Doc::NewlineWithNoIndent => {
                    proof {
                        reveal_strlit("\n");
                    }
                    result.append("\n");
                    self.col = 0;
                    proof {
                        assert(result@ + render_from(arena@, mw, 0, rest) =~= result_before + (
                        seq!['\n'] + render_from(arena@, mw, 0, rest)));
                    }
                },
                Doc::Softline => {
                    if chunk.flat {
                        proof {
                            reveal_strlit(" ");
                        }
                        result.append(" ");
                        self.col = saturating_add_u32(self.col, 1);
                        proof {
                            assert(result@ + render_from(arena@, mw, self.col, rest)
                                =~= result_before + (seq![' '] + render_from(
                                arena@,
                                mw,
                                self.col,
                                rest,
                            )));
                        }
                    } else {
                        proof {
                            reveal_strlit("\n");
                        }
                        result.append("\n");
                        let total_indent = saturating_add_u32(chunk.indent, chunk.align);
                        result = Self::push_spaces(result, total_indent);
                        self.col = total_indent;
                        proof {
                            let ti = sat_add32(chunk.indent, chunk.align);
                            assert(result@ + render_from(arena@, mw, ti, rest) =~= result_before + (
                            seq!['\n'] + spaces(ti as nat) + render_from(arena@, mw, ti, rest)));
                        }
                    }
                },
                Doc::Maybeline => {
                    if !chunk.flat {
                        proof {
                            reveal_strlit("\n");
                        }
                        result.append("\n");
                        let total_indent = saturating_add_u32(chunk.indent, chunk.align);
                        result = Self::push_spaces(result, total_indent);
                        self.col = total_indent;
                        proof {
                            let ti = sat_add32(chunk.indent, chunk.align);
                            assert(result@ + render_from(arena@, mw, ti, rest) =~= result_before + (
                            seq!['\n'] + spaces(ti as nat) + render_from(arena@, mw, ti, rest)));
                        }
                    }
                },
                Doc::Text(text, width) => {
                    result.append(text.as_str());
                    self.col = saturating_add_u32(self.col, *width);
                    proof {
                        assert(result@ + render_from(arena@, mw, self.col, rest) =~= result_before
                            + (text@ + render_from(arena@, mw, self.col, rest)));
                    }
                },
                Doc::Flat(x) => {
                    self.chunks.push(chunk.flat(*x));
                    proof {
                        assert(self.chunks@ =~= rest.push(chunk_flat(chunk, *x)));
                    }
                },
                Doc::Indent(n, x) => {
                    self.chunks.push(chunk.indented(*n, *x));
                    proof {
                        assert(self.chunks@ =~= rest.push(chunk_indented(chunk, *n, *x)));
                    }
                },
                Doc::Dedent(n, x) => {
                    self.chunks.push(chunk.dedented(*n, *x));
                    proof {
                        assert(self.chunks@ =~= rest.push(chunk_dedented(chunk, *n, *x)));
                    }
                },
                Doc::Align(n, x) => {
                    self.chunks.push(chunk.aligned(*n, *x));
                    proof {
                        assert(self.chunks@ =~= rest.push(chunk_aligned(chunk, *n, *x)));
                    }
                },
                Doc::Concat(cs) => {
                    proof {
                        assert(wf_doc(arena@, chunk.doc_ref as int));
                    }
                    push_reversed(&mut self.chunks, chunk, cs, Ghost(arena@));
                    proof {
                        assert(self.chunks@ =~= rest + concat_chunks(chunk, cs@));
                    }
                },
                Doc::Choice(x, y) => {
                    if chunk.flat {
                        self.chunks.push(chunk.with_doc(*x));
                        proof {
                            assert(self.chunks@ =~= rest.push(chunk_with(chunk, *x)));
                        }
                    } else if self.fits(arena, chunk.with_doc(*x)) {
                        self.chunks.push(chunk.with_doc(*x));
                        proof {
                            assert(self.chunks@ =~= rest.push(chunk_with(chunk, *x)));
                        }
                    } else {
                        self.chunks.push(chunk.with_doc(*y));
                        proof {
                            assert(self.chunks@ =~= rest.push(chunk_with(chunk, *y)));
                        }
                    }
                },
            }
        }
        proof {
            assert(result@ + render_from(arena@, mw, self.col, self.chunks@) =~= result@);
        }
        result
    }

    /// Appends `n` spaces to `text`.
    fn push_spaces(text: String, n: u32) -> (r: String)
        ensures
            r@ == text@ + spaces(n as nat),
    {
        let mut out = text;
        let ghost base = out@;
        let mut k: u32 = 0;
        while k < n
            invariant
                k <= n,
                out@ == base + spaces(k as nat),
            decreases n - k,
        {
            proof {
                reveal_strlit(" ");
            }
            out.append(" ");
            proof {
                assert(out@ =~= base + spaces((k + 1) as nat));
            }
            k = k + 1;
        }
        proof {
            assert(out@ =~= base + spaces(n as nat));
        }
        out
    }
}

/// Renders the document at `doc_ref` with the given width budget: the single
/// entry point of the renderer. The result is exactly what the `render_from`
/// machine produces from the initial chunk.
pub fn pretty_print(arena: &Vec<Doc>, doc_ref: DocRef, max_width: u32) -> (r: String)
    requires
        wf_arena(arena@),
        (doc_ref as int) < arena@.len(),
    ensures
        r@ == render_doc(arena@, doc_ref, max_width),
{
    let mut printer = PrettyPrinter::new(doc_ref, max_width);
    proof {
        assert(chunks_in_range(arena@, seq![init_chunk(doc_ref)]));
    }
    printer.print(arena)
}

/// The display width the builder precomputes for a text fragment: its length
/// in characters, saturating at `u32::MAX`.
pub open spec fn text_width(s: Seq<char>) -> u32 {
    if s.len() <= u32::MAX {
        s.len() as u32
    } else {
        u32::MAX
    }
}

/// The node `d` is a text leaf holding exactly the characters `s`.
pub open spec fn is_text(d: Doc, s: Seq<char>) -> bool {
    &&& d matches Doc::Text(t, w) && t@ == s && w == text_width(s)
}

/// A structural description of a document: what a builder call promises about
/// the tree it returned. `Ref` stands for an already-built subdocument, given
/// by its handle; the other variants mirror the node variants.
pub enum Shape {
    Ref(DocRef),
    Text(Seq<char>),
    Newline,
    NewlineWithNoIndent,
    Softline,
    Maybeline,
    Flat(Box<Shape>),
    Indent(u32, Box<Shape>),
    Dedent(u32, Box<Shape>),
    Concat(Seq<Shape>),
    Choice(Box<Shape>, Box<Shape>),
    Align(u32, Box<Shape>),
}

/// The document at index `i` of the arena has the given shape.
pub open spec fn has_shape(arena: Seq<Doc>, i: int, s: Shape) -> bool
    decreases s,
{
    match s {
        Shape::Ref(x) => i == x as int,
        Shape::Text(t) => 0 <= i < arena.len() && is_text(arena[i], t),
        Shape::Newline => 0 <= i < arena.len() && arena[i] == Doc::Newline,
        Shape::NewlineWithNoIndent => 0 <= i < arena.len() && arena[i]
            == Doc::NewlineWithNoIndent,
        Shape::Softline => 0 <= i < arena.len() && arena[i] == Doc::Softline,
        Shape::Maybeline => 0 <= i < arena.len() && arena[i] == Doc::Maybeline,
        Shape::Flat(sub) => 0 <= i < arena.len() && (arena[i] matches Doc::Flat(x) && has_shape(
            arena,
            x as int,
            *sub,
        )),
        Shape::Indent(n, sub) => 0 <= i < arena.len() && (arena[i] matches Doc::Indent(m, x) && m
            == n && has_shape(arena, x as int, *sub)),
        Shape::Dedent(n, sub) => 0 <= i < arena.len() && (arena[i] matches Doc::Dedent(m, x) && m
            == n && has_shape(arena, x as int, *sub)),
        Shape::Concat(ss) => 0 <= i < arena.len() && (arena[i] matches Doc::Concat(cs) && cs@.len()
            == ss.len() && forall|k: int|
            0 <= k < ss.len() ==> has_shape(arena, cs@[k] as int, #[trigger] ss[k])),
        Shape::Choice(s1, s2) => 0 <= i < arena.len() && (arena[i] matches Doc::Choice(x, y)
            && has_shape(arena, x as int, *s1) && has_shape(arena, y as int, *s2)),
        Shape::Align(n, sub) => 0 <= i < arena.len() && (arena[i] matches Doc::Align(m, x) && m
            == n && has_shape(arena, x as int, *sub)),
    }
}

/// The new arena extends the old one: it is at least as long and agrees with
/// it on every existing index, so nodes never change once allocated.
pub open spec fn extends(old_a: Seq<Doc>, new_a: Seq<Doc>) -> bool {
    old_a.len() <= new_a.len() && forall|j: int| 0 <= j < old_a.len() ==> new_a[j] == old_a[j]
}

/// Shape facts survive later allocations: extending the arena never changes
/// the nodes a shape describes.
pub proof fn lemma_has_shape_extends(old_a: Seq<Doc>, new_a: Seq<Doc>, i: int, s: Shape)
    requires
        extends(old_a, new_a),
        has_shape(old_a, i, s),
    ensures
        has_shape(new_a, i, s),
    decreases s,
{
    match s {
        Shape::Ref(x) => {},
        Shape::Flat(sub) => {
            if let Doc::Flat(x) = old_a[i] {
                lemma_has_shape_extends(old_a, new_a, x as int, *sub);
            }
        },
        Shape::Indent(n, sub) => {
            if let Doc::Indent(m, x) = old_a[i] {
                lemma_has_shape_extends(old_a, new_a, x as int, *sub);
            }
        },
        Shape::Dedent(n, sub) => {
            if let Doc::Dedent(m, x) = old_a[i] {
                lemma_has_shape_extends(old_a, new_a, x as int, *sub);
            }
        },
        Shape::Align(n, sub) => {
            if let Doc::Align(m, x) = old_a[i] {
                lemma_has_shape_extends(old_a, new_a, x as int, *sub);
            }
        },
        Shape::Choice(s1, s2) => {
            if let Doc::Choice(x, y) = old_a[i] {
                lemma_has_shape_extends(old_a, new_a, x as int, *s1);
                lemma_has_shape_extends(old_a, new_a, y as int, *s2);
            }
        },
        Shape::Concat(ss) => {
            if let Doc::Concat(cs) = old_a[i] {
                assert forall|k: int| 0 <= k < ss.len() implies has_shape(
                    new_a,
                    cs@[k] as int,
                    #[trigger] ss[k],
                ) by {
                    lemma_has_shape_extends(old_a, new_a, cs@[k] as int, ss[k]);
                }
            }
        },
        _ => {},
    }
}

/// The text holds no line break: the single-line invariant of text leaves.
pub open spec fn single_line(s: Seq<char>) -> bool {
    forall|k: int| 0 <= k < s.len() ==> s[k] != '\n'
}

} // verus!
