use afmt::doc::{pretty_print, Doc, PrettyConfig};
use afmt::doc_builder::DocBuilder;

fn builder() -> DocBuilder {
    DocBuilder::new(PrettyConfig::new(2).unwrap())
}

#[test]
fn text_nodes_render_verbatim() {
    let mut b = builder();
    let t1 = b.txt("hello");
    let t2 = b.txt(" world");
    let c = b.concat(vec![t1, t2]);
    assert_eq!(b.pretty(c, 80), "hello world");
}

#[test]
fn text_preservation_is_width_independent() {
    // Text/Concat only: the output is the concatenation of the fragments,
    // whatever the width budget.
    let mut b = builder();
    let t1 = b.txt("alpha");
    let t2 = b.txt("beta");
    let t3 = b.txt("gamma");
    let inner = b.concat(vec![t2, t3]);
    let c = b.concat(vec![t1, inner]);
    let wide = b.pretty(c, 100);
    let narrow = b.pretty(c, 1);
    assert_eq!(wide, "alphabetagamma");
    assert_eq!(narrow, "alphabetagamma");
}

#[test]
fn newline_resumes_at_indent() {
    let mut b = builder();
    let nl = b.nl();
    let x = b.txt("x");
    let c = b.concat(vec![nl, x]);
    let i1 = b.indent(c);
    let i2 = b.indent(i1);
    // two indent levels of two columns each
    assert_eq!(b.pretty(i2, 80), "\n    x");
}

#[test]
fn indent_additivity_via_raw_nodes() {
    // Indent(3, Indent(4, Concat[Newline, Text])) gives 7 spaces.
    let arena = vec![
        Doc::Newline,
        Doc::Text(String::from("x"), 1),
        Doc::Concat(vec![0, 1]),
        Doc::Indent(4, 2),
        Doc::Indent(3, 3),
    ];
    assert_eq!(pretty_print(&arena, 4, 80), "\n       x");
    assert_eq!(pretty_print(&arena, 4, 0), "\n       x");
}

#[test]
fn dedent_saturates_at_zero() {
    // Dedent below an indent smaller than its amount floors at column zero.
    let arena = vec![Doc::Newline, Doc::Dedent(5, 0), Doc::Indent(2, 1)];
    assert_eq!(pretty_print(&arena, 2, 80), "\n");
    let arena2 = vec![Doc::Newline, Doc::Dedent(1, 0), Doc::Indent(3, 1)];
    assert_eq!(pretty_print(&arena2, 2, 80), "\n  ");
}

#[test]
fn alignment_adds_to_indent() {
    let mut b = builder();
    let nl = b.nl();
    let x = b.txt("x");
    let c = b.concat(vec![nl, x]);
    let al = b.align(c);
    let ind = b.indent(al);
    // indent 2 + align 2
    assert_eq!(b.pretty(ind, 80), "\n    x");
    // shifting the outer indent shifts the line uniformly
    let ind2 = b.indent(ind);
    assert_eq!(b.pretty(ind2, 80), "\n      x");
}

#[test]
fn newline_with_no_indent_resets_column() {
    let mut b = builder();
    let nl = b.nl();
    let x = b.txt("x");
    let nn = b.nl_with_no_indent();
    let y = b.txt("y");
    let c = b.concat(vec![nl, x, nn, y]);
    let ind = b.indent(c);
    assert_eq!(b.pretty(ind, 80), "\n  x\ny");
}

#[test]
fn flat_collapses_optional_breaks_only() {
    let mut b = builder();
    let a = b.txt("a");
    let sl = b.softline();
    let bb = b.txt("b");
    let nl = b.nl();
    let ml = b.maybeline();
    let c = b.txt("c");
    let inner = b.concat(vec![a, sl, bb, nl, ml, c]);
    let f = b.flat(inner);
    // softline becomes a space, maybeline vanishes, the mandatory break stays
    assert_eq!(b.pretty(f, 80), "a b\nc");
    assert_eq!(b.pretty(f, 0), "a b\nc");
}

#[test]
fn softline_breaks_when_not_flat() {
    let mut b = builder();
    let a = b.txt("a");
    let sl = b.softline();
    let bb = b.txt("b");
    let c = b.concat(vec![a, sl, bb]);
    assert_eq!(b.pretty(c, 80), "a\nb");
}

#[test]
fn choice_picks_flat_alternative_when_it_fits() {
    let mut b = builder();
    let a = b.txt("aaaa");
    let sl = b.softline();
    let bb = b.txt("bbbb");
    let c = b.concat(vec![a, sl, bb]);
    let g = b.group(c);
    assert_eq!(b.pretty(g, 80), "aaaa bbbb");
    assert_eq!(b.pretty(g, 5), "aaaa\nbbbb");
}

#[test]
fn choice_free_documents_ignore_the_width() {
    let mut b = builder();
    let a = b.txt("one");
    let nl = b.nl();
    let bb = b.txt("two");
    let c = b.concat(vec![a, nl, bb]);
    let at80 = b.pretty(c, 80);
    let at3 = b.pretty(c, 3);
    let at0 = b.pretty(c, 0);
    assert_eq!(at80, "one\ntwo");
    assert_eq!(at80, at3);
    assert_eq!(at80, at0);
}

#[test]
fn fits_looks_across_the_rest_of_the_line() {
    // The lookahead counts the text that follows the group on the same line:
    // "xx" after the group leaves no room at width 6 for "ab cd".
    let mut b = builder();
    let a = b.txt("ab");
    let sl = b.softline();
    let c = b.txt("cd");
    let inner = b.concat(vec![a, sl, c]);
    let g = b.group(inner);
    let tail = b.txt("xx");
    let whole = b.concat(vec![g, tail]);
    assert_eq!(b.pretty(whole, 7), "ab cdxx");
    assert_eq!(b.pretty(whole, 6), "ab\ncdxx");
}

#[test]
fn group_round_trip_example() {
    // The classic call-argument group: empty-or-break next to the brackets,
    // space-or-break after the comma. Wide it collapses onto one line,
    // narrow it breaks with one indent unit of two columns.
    let mut b = builder();
    let foo = b.txt("foo(");
    let ml1 = b.maybeline();
    let a = b.txt("a");
    let comma = b.txt(",");
    let sl = b.softline();
    let bb = b.txt("b");
    let inner = b.concat(vec![ml1, a, comma, sl, bb]);
    let ind = b.indent(inner);
    let ml2 = b.maybeline();
    let close = b.txt(")");
    let top = b.concat(vec![foo, ind, ml2, close]);
    let g = b.group(top);
    assert_eq!(b.pretty(g, 80), "foo(a, b)");
    assert_eq!(b.pretty(g, 6), "foo(\n  a,\n  b\n)");
}

#[test]
fn group_with_softlines_keeps_spaces_when_flat() {
    // With softlines at the brackets instead, the flattened layout keeps
    // their spaces: a flattened softline is a space, never empty.
    let mut b = builder();
    let foo = b.txt("foo(");
    let sl1 = b.softline();
    let a = b.txt("a");
    let comma = b.txt(",");
    let sl2 = b.softline();
    let bb = b.txt("b");
    let inner = b.concat(vec![sl1, a, comma, sl2, bb]);
    let ind = b.indent(inner);
    let sl3 = b.softline();
    let close = b.txt(")");
    let top = b.concat(vec![foo, ind, sl3, close]);
    let g = b.group(top);
    assert_eq!(b.pretty(g, 80), "foo( a, b )");
    assert_eq!(b.pretty(g, 6), "foo(\n  a,\n  b\n)");
}

#[test]
fn flat_resolves_nested_choices_to_their_flat_side() {
    let mut b = builder();
    let a = b.txt("aaaaaaaa");
    let sl = b.softline();
    let c = b.txt("bbbbbbbb");
    let inner = b.concat(vec![a, sl, c]);
    let g = b.group(inner);
    let f = b.flat(g);
    // even with no width budget at all, nothing breaks under Flat
    assert_eq!(b.pretty(f, 0), "aaaaaaaa bbbbbbbb");
}
