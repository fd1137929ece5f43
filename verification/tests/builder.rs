use afmt::doc::PrettyConfig;
use afmt::doc_builder::{BodyMember, DocBuilder, Insertable};

fn builder() -> DocBuilder {
    DocBuilder::new(PrettyConfig::new(2).unwrap())
}

#[test]
fn pretty_config_rejects_zero_indent() {
    assert!(PrettyConfig::new(0).is_err());
    let c = PrettyConfig::new(4).unwrap();
    assert_eq!(c.indent_size, 4);
}

#[test]
fn nil_is_the_empty_document() {
    let mut b = builder();
    let n = b.nil();
    assert_eq!(b.pretty(n, 80), "");
}

#[test]
fn txt_variants_add_padding_spaces() {
    let mut b = builder();
    let plain = b.txt("if");
    let leading = b._txt("if");
    let trailing = b.txt_("if");
    let both = b._txt_("if");
    assert_eq!(b.pretty(plain, 80), "if");
    assert_eq!(b.pretty(leading, 80), " if");
    assert_eq!(b.pretty(trailing, 80), "if ");
    assert_eq!(b.pretty(both, 80), " if ");
}

#[test]
fn intersperse_places_the_separator_between_items() {
    let mut b = builder();
    let a = b.txt("a");
    let c = b.txt("b");
    let d = b.txt("c");
    let sep = Insertable::new(None, Some(","), None);
    let doc = b.intersperse(&vec![a, c, d], sep);
    assert_eq!(b.pretty(doc, 80), "a,b,c");
}

#[test]
fn intersperse_of_nothing_is_empty() {
    let mut b = builder();
    let sep = Insertable::new(None, Some(","), None);
    let doc = b.intersperse(&vec![], sep);
    assert_eq!(b.pretty(doc, 80), "");
}

#[test]
fn intersperse_single_line_uses_plain_text() {
    let mut b = builder();
    let a = b.txt("x");
    let c = b.txt("y");
    let doc = b.intersperse_single_line(&vec![a, c], ", ");
    assert_eq!(b.pretty(doc, 1), "x, y");
}

#[test]
fn empty_surround_collapses_to_the_brackets() {
    // surround([], sep, "(", ")") is "()" regardless of the width
    let mut b = builder();
    let sl = b.softline();
    let sep = Insertable::new(None, Some(","), Some(sl));
    let open = Insertable::new(None, Some("("), None);
    let close = Insertable::new(None, Some(")"), None);
    let doc = b.surround(&vec![], sep, open, close);
    assert_eq!(b.pretty(doc, 80), "()");
    assert_eq!(b.pretty(doc, 0), "()");
}

#[test]
fn surround_breaks_like_an_argument_list() {
    let mut b = builder();
    let a = b.txt("aaaa");
    let c = b.txt("bbbb");
    let sl = b.softline();
    let sep = Insertable::new(None, Some(","), Some(sl));
    let ml1 = b.maybeline();
    let open = Insertable::new(None, Some("("), Some(ml1));
    let ml2 = b.maybeline();
    let close = Insertable::new(Some(ml2), Some(")"), None);
    let doc = b.group_surround(&vec![a, c], sep, open, close);
    assert_eq!(b.pretty(doc, 80), "(aaaa, bbbb)");
    assert_eq!(b.pretty(doc, 6), "(\n  aaaa,\n  bbbb\n)");
}

#[test]
fn surround_align_uses_alignment_not_indent() {
    let mut b = builder();
    let a = b.txt("one");
    let c = b.txt("two");
    let nl = b.nl();
    let sep = Insertable::new(None, Some(","), Some(nl));
    let open = Insertable::new(None, Some("["), None);
    let close = Insertable::new(None, Some("]"), None);
    let doc = b.surround_align(&vec![a, c], sep, open, close);
    // the alignment offset (one unit of two columns) applies to the break
    assert_eq!(b.pretty(doc, 80), "[one,\n  two]");
}

#[test]
fn group_then_indent_indents_the_broken_layout() {
    let mut b = builder();
    let a = b.txt("left");
    let sl = b.softline();
    let c = b.txt("right");
    let inner = b.concat(vec![a, sl, c]);
    let doc = b.group_then_indent(inner);
    assert_eq!(b.pretty(doc, 80), "left right");
    assert_eq!(b.pretty(doc, 5), "left\n  right");
}

#[test]
fn surround_body_of_nothing_is_an_empty_block() {
    let mut b = builder();
    let doc = b.surround_body(&vec![], "{", "}");
    assert_eq!(b.pretty(doc, 80), "{\n}");
}

#[test]
fn surround_body_keeps_trailing_blank_lines() {
    let mut b = builder();
    let s1 = b.txt("one;");
    let s2 = b.txt("two;");
    let members = vec![
        BodyMember { member: s1, has_trailing_newline: true },
        BodyMember { member: s2, has_trailing_newline: false },
    ];
    let doc = b.surround_body(&members, "{", "}");
    assert_eq!(b.pretty(doc, 80), "{\n  one;\n\n  two;\n}");
}

#[test]
fn intersperse_body_members_separates_with_breaks() {
    let mut b = builder();
    let s1 = b.txt("a");
    let s2 = b.txt("b");
    let members = vec![
        BodyMember { member: s1, has_trailing_newline: false },
        BodyMember { member: s2, has_trailing_newline: false },
    ];
    let doc = b.intersperse_body_members(&members);
    assert_eq!(b.pretty(doc, 80), "a\nb");
}

#[test]
fn insertable_parts_wrap_each_gap() {
    let mut b = builder();
    let a = b.txt("a");
    let c = b.txt("b");
    let pre = b.txt("<");
    let suf = b.txt(">");
    let sep = Insertable::new(Some(pre), Some("-"), Some(suf));
    let doc = b.intersperse(&vec![a, c], sep);
    assert_eq!(b.pretty(doc, 80), "a<->b");
}

#[test]
fn surround_body_uses_its_own_bracket_tokens() {
    let mut b = builder();
    let doc = b.surround_body(&vec![], "begin", "end");
    assert_eq!(b.pretty(doc, 80), "begin\nend");
}
