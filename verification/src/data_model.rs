//! The struct side of the data model the document compiler works on: one
//! plain value type per grammar production, each with a `build` method that
//! emits the builder calls describing its layout. Every `build` leaves the
//! arena well-formed and only ever appends to it (`builds` in the
//! contracts); the concrete layout each one chooses is the compiler's
//! business and is not specified beyond that interface.
use crate::doc::{extends, single_line, DocRef};
use crate::doc_builder::{
    builds, members_in_bounds, refs_in_bounds, BodyMember, DocBuilder, Insertable,
};
use crate::enum_def::{
    AnnotationArgumentList, ClassMember, Expression, Literal_, Modifier, PrimaryExpression,
    PropertyNavigation, RootMember, SimpleType, Statement, TriggerEvent, Type, UnannotatedType,
    VariableInitializer,
};
use vstd::prelude::*;

verus! {

broadcast use vstd::std_specs::vec::group_vec_axioms;

/// The optional security-mode clause feeds only single-line text.
pub open spec fn opt_wf_dml(o: Option<DmlSecurityMode>) -> bool {
    match o {
        Some(s) => s.wf(),
        None => true,
    }
}

/// A byte-and-position span of a node in the original source.
pub struct DataRange {
    pub start_byte: usize,
    pub end_byte: usize,
    pub start_point: DataPoint,
    pub end_point: DataPoint,
}

/// A row/column position in the original source.
pub struct DataPoint {
    pub row: usize,
    pub column: usize,
}

/// The comments attached before and after a node.
pub struct CommentBuckets {
    pub pre_comments: Vec<Comment>,
    pub post_comments: Vec<Comment>,
}

/// One source comment awaiting placement.
pub struct Comment {
    pub id: usize,
    pub content: String,
    pub comment_type: CommentType,
    pub is_processed: bool,
    pub range: DataRange,
}

pub enum CommentType {
    Line,
    Block,
}

/// The root of a parsed source file.
pub struct Root {
    pub members: Vec<RootMember>,
}

impl Root {
    /// The value feeds only single-line text to the builder.
    pub open spec fn wf(self) -> bool
        decreases self,
    {
        &&& forall|k: int| 0 <= k < self.members@.len() ==> (#[trigger] self.members@[k]).wf()
    }

    pub fn build(&self, b: &mut DocBuilder) -> (r: DocRef)
        requires
            old(b).wf(),
            self.wf(),
        ensures
            builds(*old(b), *final(b), r),
        decreases self,
    {
        let ghost b0 = *b;
        let mut docs: Vec<DocRef> = Vec::new();
        let mut i: usize = 0;
        proof {
            assert(forall|k: int| 0 <= k < self.members@.len() ==> (#[trigger] self.members@[k]).wf());
        }
        while i < self.members.len()
            invariant
                forall|k: int| 0 <= k < self.members@.len() ==> (#[trigger] self.members@[k]).wf(),
                b.wf(),
                self.wf(),
                b.config == b0.config,
                extends(b0@, b@),
                refs_in_bounds(docs@, b@.len() as int),
                i <= self.members.len(),
            decreases self.members.len() - i,
        {
            proof {
                vstd::std_specs::vec::axiom_vec_index_decreases(self.members, i as int);
                assert(self.members@[i as int].wf());
            }
            let d = self.members[i].build(b);
            docs.push(d);
            i = i + 1;
        }
        let nl_sep = b.nl();
        let sep = Insertable::new(None, None, Some(nl_sep));
        let body = b.intersperse(&docs, sep);
        let tail = b.nl();
        b.concat(vec![body, tail])
    }
}

pub struct ClassDeclaration {
    pub buckets: Option<CommentBuckets>,
    pub modifiers: Option<Modifiers>,
    pub name: String,
    pub type_parameters: Option<TypeParameters>,
    pub superclass: Option<SuperClass>,
    pub interface: Option<Interface>,
    pub body: ClassBody,
    pub range: DataRange,
}

impl ClassDeclaration {
    /// The value feeds only single-line text to the builder.
    pub open spec fn wf(self) -> bool
        decreases self,
    {
        &&& match self.modifiers { Some(n) => n.wf(), None => true }
        &&& single_line(self.name@)
        &&& match self.type_parameters { Some(n) => n.wf(), None => true }
        &&& match self.superclass { Some(n) => n.wf(), None => true }
        &&& match self.interface { Some(n) => n.wf(), None => true }
        &&& self.body.wf()
    }

    pub fn build(&self, b: &mut DocBuilder) -> (r: DocRef)
        requires
            old(b).wf(),
            self.wf(),
        ensures
            builds(*old(b), *final(b), r),
        decreases self,
    {
        let mut result: Vec<DocRef> = Vec::new();
        if let Some(n) = &self.modifiers {
            let d = n.build(b);
            result.push(d);
        }
        proof {
            reveal_strlit("class");
            assert(single_line("class"@));
        }
        let d = b.txt_("class");
        result.push(d);
        let d = b.txt(self.name.as_str());
        result.push(d);
        if let Some(n) = &self.type_parameters {
            let d = n.build(b);
            result.push(d);
        }
        if let Some(n) = &self.superclass {
            let d = n.build(b);
            result.push(d);
        }
        if let Some(n) = &self.interface {
            let d = n.build(b);
            result.push(d);
        }
        proof {
            reveal_strlit(" ");
            assert(single_line(" "@));
        }
        let d = b.txt(" ");
        result.push(d);
        let d = self.body.build(b);
        result.push(d);
        b.concat(result)
    }
}

pub struct MethodDeclaration {
    pub modifiers: Option<Modifiers>,
    pub type_: UnannotatedType,
    pub name: String,
    pub formal_parameters: FormalParameters,
    pub body: Option<Block>,
}

impl MethodDeclaration {
    /// The value feeds only single-line text to the builder.
    pub open spec fn wf(self) -> bool
        decreases self,
    {
        &&& match self.modifiers { Some(n) => n.wf(), None => true }
        &&& self.type_.wf()
        &&& single_line(self.name@)
        &&& self.formal_parameters.wf()
        &&& match self.body { Some(n) => n.wf(), None => true }
    }

    pub fn build(&self, b: &mut DocBuilder) -> (r: DocRef)
        requires
            old(b).wf(),
            self.wf(),
        ensures
            builds(*old(b), *final(b), r),
        decreases self,
    {
        let mut result: Vec<DocRef> = Vec::new();
        if let Some(n) = &self.modifiers {
            let d = n.build(b);
            result.push(d);
        }
        let d = self.type_.build(b);
        result.push(d);
        let d = b._txt(self.name.as_str());
        result.push(d);
        let d = self.formal_parameters.build(b);
        result.push(d);
        match &self.body {
            Some(n) => {
                proof {
                    reveal_strlit(" ");
                    assert(single_line(" "@));
                }
                let d = b.txt(" ");
                result.push(d);
                let d = n.build(b);
                result.push(d);
            },
            None => {
                proof {
                    reveal_strlit(";");
                    assert(single_line(";"@));
                }
                let d = b.txt(";");
                result.push(d);
            },
        }
        b.concat(result)
    }
}

pub struct FormalParameters {
    pub formal_parameters: Vec<FormalParameter>,
}

impl FormalParameters {
    /// The value feeds only single-line text to the builder.
    pub open spec fn wf(self) -> bool
        decreases self,
    {
        &&& forall|k: int| 0 <= k < self.formal_parameters@.len() ==> (#[trigger] self.formal_parameters@[k]).wf()
    }

    pub fn build(&self, b: &mut DocBuilder) -> (r: DocRef)
        requires
            old(b).wf(),
            self.wf(),
        ensures
            builds(*old(b), *final(b), r),
        decreases self,
    {
        let ghost b0 = *b;
        let mut docs: Vec<DocRef> = Vec::new();
        let mut i: usize = 0;
        proof {
            assert(forall|k: int| 0 <= k < self.formal_parameters@.len() ==> (#[trigger] self.formal_parameters@[k]).wf());
        }
        while i < self.formal_parameters.len()
            invariant
                forall|k: int| 0 <= k < self.formal_parameters@.len() ==> (#[trigger] self.formal_parameters@[k]).wf(),
                b.wf(),
                self.wf(),
                b.config == b0.config,
                extends(b0@, b@),
                refs_in_bounds(docs@, b@.len() as int),
                i <= self.formal_parameters.len(),
            decreases self.formal_parameters.len() - i,
        {
            proof {
                vstd::std_specs::vec::axiom_vec_index_decreases(self.formal_parameters, i as int);
                assert(self.formal_parameters@[i as int].wf());
            }
            let d = self.formal_parameters[i].build(b);
            docs.push(d);
            i = i + 1;
        }
        let sl = b.softline();
        proof {
            reveal_strlit(",");
            assert(single_line(","@));
        }
        let sep = Insertable::new(None, Some(","), Some(sl));
        let ml1 = b.maybeline();
        proof {
            reveal_strlit("(");
            assert(single_line("("@));
        }
        let open_in = Insertable::new(None, Some("("), Some(ml1));
        let ml2 = b.maybeline();
        proof {
            reveal_strlit(")");
            assert(single_line(")"@));
        }
        let close_in = Insertable::new(Some(ml2), Some(")"), None);
        b.group_surround(&docs, sep, open_in, close_in)
    }
}

pub struct FormalParameter {
    pub modifiers: Option<Modifiers>,
    pub type_: UnannotatedType,
    pub name: String,
}

impl FormalParameter {
    /// The value feeds only single-line text to the builder.
    pub open spec fn wf(self) -> bool
        decreases self,
    {
        &&& match self.modifiers { Some(n) => n.wf(), None => true }
        &&& self.type_.wf()
        &&& single_line(self.name@)
    }

    pub fn build(&self, b: &mut DocBuilder) -> (r: DocRef)
        requires
            old(b).wf(),
            self.wf(),
        ensures
            builds(*old(b), *final(b), r),
        decreases self,
    {
        let mut result: Vec<DocRef> = Vec::new();
        if let Some(n) = &self.modifiers {
            let d = n.build(b);
            result.push(d);
        }
        let d = self.type_.build(b);
        result.push(d);
        let d = b._txt(self.name.as_str());
        result.push(d);
        b.concat(result)
    }
}

pub struct SuperClass {
    pub type_: Type,
}

impl SuperClass {
    /// The value feeds only single-line text to the builder.
    pub open spec fn wf(self) -> bool
        decreases self,
    {
        &&& self.type_.wf()
    }

    pub fn build(&self, b: &mut DocBuilder) -> (r: DocRef)
        requires
            old(b).wf(),
            self.wf(),
        ensures
            builds(*old(b), *final(b), r),
        decreases self,
    {
        proof {
            reveal_strlit(" extends ");
            assert(single_line(" extends "@));
        }
        let t = b.txt(" extends ");
        let d = self.type_.build(b);
        b.concat(vec![t, d])
    }
}

pub struct Modifiers {
    pub annotation: Option<Annotation>,
    pub modifiers: Vec<Modifier>,
}

impl Modifiers {
    /// The value feeds only single-line text to the builder.
    pub open spec fn wf(self) -> bool
        decreases self,
    {
        &&& match self.annotation { Some(n) => n.wf(), None => true }
    }

    pub fn build(&self, b: &mut DocBuilder) -> (r: DocRef)
        requires
            old(b).wf(),
            self.wf(),
        ensures
            builds(*old(b), *final(b), r),
        decreases self,
    {
        let mut result: Vec<DocRef> = Vec::new();
        if let Some(n) = &self.annotation {
            let d = n.build(b);
            result.push(d);
        }
        let ghost b0 = *b;
        let mut docs: Vec<DocRef> = Vec::new();
        let mut i: usize = 0;
        while i < self.modifiers.len()
            invariant
                b.wf(),
                self.wf(),
                b.config == b0.config,
                extends(b0@, b@),
                refs_in_bounds(docs@, b@.len() as int),
                refs_in_bounds(result@, b@.len() as int),
                i <= self.modifiers.len(),
            decreases self.modifiers.len() - i,
        {
            proof {
                vstd::std_specs::vec::axiom_vec_index_decreases(self.modifiers, i as int);
            }
            let d = self.modifiers[i].build(b);
            docs.push(d);
            i = i + 1;
        }
        if self.modifiers.len() > 0 {
            proof {
                reveal_strlit(" ");
                assert(single_line(" "@));
            }
            let inner = b.intersperse_single_line(&docs, " ");
            result.push(inner);
            proof {
                reveal_strlit(" ");
                assert(single_line(" "@));
            }
            let sp = b.txt(" ");
            result.push(sp);
        }
        b.concat(result)
    }
}

pub struct Annotation {
    pub name: String,
    pub arguments: Option<AnnotationArgumentList>,
}

impl Annotation {
    /// The value feeds only single-line text to the builder.
    pub open spec fn wf(self) -> bool
        decreases self,
    {
        &&& single_line(self.name@)
        &&& match self.arguments { Some(n) => n.wf(), None => true }
    }

    pub fn build(&self, b: &mut DocBuilder) -> (r: DocRef)
        requires
            old(b).wf(),
            self.wf(),
        ensures
            builds(*old(b), *final(b), r),
        decreases self,
    {
        let mut result: Vec<DocRef> = Vec::new();
        let mut s = String::new();
        s.append("@");
        s.append(self.name.as_str());
        proof {
            reveal_strlit("@");
            assert(s@ =~= seq!['@'] + self.name@);
            assert forall|k: int| 0 <= k < s@.len() implies s@[k] != '\n' by {
                if k >= 1 {
                    assert(s@[k] == self.name@[k - 1]);
                }
            }
        }
        let d = b.txt(s.as_str());
        result.push(d);
        if let Some(a) = &self.arguments {
            let d = a.build(b);
            result.push(d);
        }
        let d = b.nl();
        result.push(d);
        b.concat(result)
    }
}

pub struct AnnotationKeyValue {
    pub key: String,
    pub value: String,
}

impl AnnotationKeyValue {
    /// The value feeds only single-line text to the builder.
    pub open spec fn wf(self) -> bool
        decreases self,
    {
        &&& single_line(self.key@)
        &&& single_line(self.value@)
    }

    pub fn build(&self, b: &mut DocBuilder) -> (r: DocRef)
        requires
            old(b).wf(),
            self.wf(),
        ensures
            builds(*old(b), *final(b), r),
        decreases self,
    {
        let k = b.txt(self.key.as_str());
        proof {
            reveal_strlit("=");
            assert(single_line("="@));
        }
        let eq = b.txt("=");
        let v = b.txt(self.value.as_str());
        b.concat(vec![k, eq, v])
    }
}

pub struct ClassBody {
    pub class_members: Vec<BodyMember<ClassMember>>,
}

impl ClassBody {
    /// The value feeds only single-line text to the builder.
    pub open spec fn wf(self) -> bool
        decreases self,
    {
        &&& forall|k: int| 0 <= k < self.class_members@.len() ==> (#[trigger] self.class_members@[k]).member.wf()
    }

    pub fn build(&self, b: &mut DocBuilder) -> (r: DocRef)
        requires
            old(b).wf(),
            self.wf(),
        ensures
            builds(*old(b), *final(b), r),
        decreases self,
    {
        let ghost b0 = *b;
        let mut mdocs: Vec<BodyMember<DocRef>> = Vec::new();
        let mut i: usize = 0;
        proof {
            assert(forall|k: int| 0 <= k < self.class_members@.len() ==> (#[trigger] self.class_members@[k]).member.wf());
        }
        while i < self.class_members.len()
            invariant
                forall|k: int| 0 <= k < self.class_members@.len() ==> (#[trigger] self.class_members@[k]).member.wf(),
                b.wf(),
                self.wf(),
                b.config == b0.config,
                extends(b0@, b@),
                members_in_bounds(mdocs@, b@.len() as int),
                i <= self.class_members.len(),
            decreases self.class_members.len() - i,
        {
            proof {
                vstd::std_specs::vec::axiom_vec_index_decreases(self.class_members, i as int);
                assert(self.class_members@[i as int].member.wf());
            }
            let d = self.class_members[i].member.build(b);
            let tn = self.class_members[i].has_trailing_newline;
            mdocs.push(BodyMember { member: d, has_trailing_newline: tn });
            i = i + 1;
        }
        proof {
            reveal_strlit("{");
            reveal_strlit("}");
            assert(single_line("{"@));
            assert(single_line("}"@));
        }
        b.surround_body(&mdocs, "{", "}")
    }
}

pub struct FieldDeclaration {
    pub buckets: Option<CommentBuckets>,
    pub modifiers: Option<Modifiers>,
    pub type_: UnannotatedType,
    pub declarators: Vec<VariableDeclarator>,
    pub accessor_list: Option<AccessorList>,
    pub range: DataRange,
}

impl FieldDeclaration {
    /// The value feeds only single-line text to the builder.
    pub open spec fn wf(self) -> bool
        decreases self,
    {
        &&& match self.modifiers { Some(n) => n.wf(), None => true }
        &&& self.type_.wf()
        &&& forall|k: int| 0 <= k < self.declarators@.len() ==> (#[trigger] self.declarators@[k]).wf()
        &&& match self.accessor_list { Some(n) => n.wf(), None => true }
    }

    pub fn build(&self, b: &mut DocBuilder) -> (r: DocRef)
        requires
            old(b).wf(),
            self.wf(),
        ensures
            builds(*old(b), *final(b), r),
        decreases self,
    {
        let mut result: Vec<DocRef> = Vec::new();
        if let Some(n) = &self.modifiers {
            let d = n.build(b);
            result.push(d);
        }
        let d = self.type_.build(b);
        result.push(d);
        proof {
            reveal_strlit(" ");
            assert(single_line(" "@));
        }
        let d = b.txt(" ");
        result.push(d);
        let ghost b0 = *b;
        let mut docs: Vec<DocRef> = Vec::new();
        let mut i: usize = 0;
        proof {
            assert(forall|k: int| 0 <= k < self.declarators@.len() ==> (#[trigger] self.declarators@[k]).wf());
        }
        while i < self.declarators.len()
            invariant
                forall|k: int| 0 <= k < self.declarators@.len() ==> (#[trigger] self.declarators@[k]).wf(),
                b.wf(),
                self.wf(),
                b.config == b0.config,
                extends(b0@, b@),
                refs_in_bounds(docs@, b@.len() as int),
                refs_in_bounds(result@, b@.len() as int),
                i <= self.declarators.len(),
            decreases self.declarators.len() - i,
        {
            proof {
                vstd::std_specs::vec::axiom_vec_index_decreases(self.declarators, i as int);
                assert(self.declarators@[i as int].wf());
            }
            let d = self.declarators[i].build(b);
            docs.push(d);
            i = i + 1;
        }
        let sl = b.softline();
        proof {
            reveal_strlit(",");
            assert(single_line(","@));
        }
        let sep = Insertable::new(None, Some(","), Some(sl));
        let inter = b.intersperse(&docs, sep);
        let d = b.group_then_indent(inter);
        result.push(d);
        match &self.accessor_list {
            Some(n) => {
                proof {
                    reveal_strlit(" ");
                    assert(single_line(" "@));
                }
                let d = b.txt(" ");
                result.push(d);
                let d = n.build(b);
                result.push(d);
            },
            None => {
                proof {
                    reveal_strlit(";");
                    assert(single_line(";"@));
                }
                let d = b.txt(";");
                result.push(d);
            },
        }
        b.concat(result)
    }
}

pub struct ArrayInitializer {
    pub initializers: Vec<VariableInitializer>,
}

impl ArrayInitializer {
    /// The value feeds only single-line text to the builder.
    pub open spec fn wf(self) -> bool
        decreases self,
    {
        &&& forall|k: int| 0 <= k < self.initializers@.len() ==> (#[trigger] self.initializers@[k]).wf()
    }

    pub fn build(&self, b: &mut DocBuilder) -> (r: DocRef)
        requires
            old(b).wf(),
            self.wf(),
        ensures
            builds(*old(b), *final(b), r),
        decreases self,
    {
        let ghost b0 = *b;
        let mut docs: Vec<DocRef> = Vec::new();
        let mut i: usize = 0;
        proof {
            assert(forall|k: int| 0 <= k < self.initializers@.len() ==> (#[trigger] self.initializers@[k]).wf());
        }
        while i < self.initializers.len()
            invariant
                forall|k: int| 0 <= k < self.initializers@.len() ==> (#[trigger] self.initializers@[k]).wf(),
                b.wf(),
                self.wf(),
                b.config == b0.config,
                extends(b0@, b@),
                refs_in_bounds(docs@, b@.len() as int),
                i <= self.initializers.len(),
            decreases self.initializers.len() - i,
        {
            proof {
                vstd::std_specs::vec::axiom_vec_index_decreases(self.initializers, i as int);
                assert(self.initializers@[i as int].wf());
            }
            let d = self.initializers[i].build(b);
            docs.push(d);
            i = i + 1;
        }
        let sl = b.softline();
        proof {
            reveal_strlit(",");
            assert(single_line(","@));
        }
        let sep = Insertable::new(None, Some(","), Some(sl));
        let sl2 = b.softline();
        proof {
            reveal_strlit("{");
            assert(single_line("{"@));
        }
        let open_in = Insertable::new(None, Some("{"), Some(sl2));
        let sl3 = b.softline();
        proof {
            reveal_strlit("}");
            assert(single_line("}"@));
        }
        let close_in = Insertable::new(Some(sl3), Some("}"), None);
        b.group_surround(&docs, sep, open_in, close_in)
    }
}

pub struct AssignmentExpression {
    pub left: AssignmentLeft,
    pub op: String,
    pub right: Expression,
}

impl AssignmentExpression {
    /// The value feeds only single-line text to the builder.
    pub open spec fn wf(self) -> bool
        decreases self,
    {
        &&& self.left.wf()
        &&& single_line(self.op@)
        &&& self.right.wf()
    }

    pub fn build(&self, b: &mut DocBuilder) -> (r: DocRef)
        requires
            old(b).wf(),
            self.wf(),
        ensures
            builds(*old(b), *final(b), r),
        decreases self,
    {
        let l = self.left.build(b);
        let o = b._txt_(self.op.as_str());
        let rr = self.right.build(b);
        b.concat(vec![l, o, rr])
    }
}

pub enum AssignmentLeft {
    Identifier(String),
    Field(FieldAccess),
    Array(ArrayAccess),
}

impl AssignmentLeft {
    /// The value feeds only single-line text to the builder.
    pub open spec fn wf(self) -> bool
        decreases self,
    {
        match self {
            AssignmentLeft::Identifier(s) => single_line(s@),
            AssignmentLeft::Field(n) => n.wf(),
            AssignmentLeft::Array(n) => n.wf(),
        }
    }

    pub fn build(&self, b: &mut DocBuilder) -> (r: DocRef)
        requires
            old(b).wf(),
            self.wf(),
        ensures
            builds(*old(b), *final(b), r),
        decreases self,
    {
        match self {
            AssignmentLeft::Identifier(n) => b.txt(n.as_str()),
            AssignmentLeft::Field(n) => n.build(b),
            AssignmentLeft::Array(n) => n.build(b),
        }
    }
}

/// The `void` return type.
pub struct VoidType {
    pub value: String,
}

impl VoidType {
    /// The value feeds only single-line text to the builder.
    pub open spec fn wf(self) -> bool
        decreases self,
    {
        &&& single_line(self.value@)
    }

    pub fn build(&self, b: &mut DocBuilder) -> (r: DocRef)
        requires
            old(b).wf(),
            self.wf(),
        ensures
            builds(*old(b), *final(b), r),
    {
        b.txt(self.value.as_str())
    }
}

/// A braced block of statements.
pub struct Block {
    pub statements: Vec<BodyMember<Statement>>,
}

impl Block {
    /// The value feeds only single-line text to the builder.
    pub open spec fn wf(self) -> bool
        decreases self,
    {
        &&& forall|k: int| 0 <= k < self.statements@.len() ==> (#[trigger] self.statements@[k]).member.wf()
    }

    pub fn build(&self, b: &mut DocBuilder) -> (r: DocRef)
        requires
            old(b).wf(),
            self.wf(),
        ensures
            builds(*old(b), *final(b), r),
        decreases self,
    {
        if self.statements.len() == 0 {
            proof {
                reveal_strlit("{");
                assert(single_line("{"@));
            }
            let t1 = b.txt("{");
            let nl = b.nl();
            proof {
                reveal_strlit("}");
                assert(single_line("}"@));
            }
            let t2 = b.txt("}");
            let inner = b.concat(vec![t1, nl, t2]);
            return b.concat(vec![inner]);
        }
        let ghost b0 = *b;
        let mut mdocs: Vec<BodyMember<DocRef>> = Vec::new();
        let mut i: usize = 0;
        proof {
            assert(forall|k: int| 0 <= k < self.statements@.len() ==> (#[trigger] self.statements@[k]).member.wf());
        }
        while i < self.statements.len()
            invariant
                forall|k: int| 0 <= k < self.statements@.len() ==> (#[trigger] self.statements@[k]).member.wf(),
                b.wf(),
                self.wf(),
                b.config == b0.config,
                extends(b0@, b@),
                members_in_bounds(mdocs@, b@.len() as int),
                i <= self.statements.len(),
            decreases self.statements.len() - i,
        {
            proof {
                vstd::std_specs::vec::axiom_vec_index_decreases(self.statements, i as int);
                assert(self.statements@[i as int].member.wf());
            }
            let d = self.statements[i].member.build(b);
            let tn = self.statements[i].has_trailing_newline;
            mdocs.push(BodyMember { member: d, has_trailing_newline: tn });
            i = i + 1;
        }
        proof {
            reveal_strlit("{");
            reveal_strlit("}");
            assert(single_line("{"@));
            assert(single_line("}"@));
        }
        let body = b.surround_body(&mdocs, "{", "}");
        b.concat(vec![body])
    }
}

pub struct Interface {
    pub types: Vec<Type>,
}

impl Interface {
    /// The value feeds only single-line text to the builder.
    pub open spec fn wf(self) -> bool
        decreases self,
    {
        &&& forall|k: int| 0 <= k < self.types@.len() ==> (#[trigger] self.types@[k]).wf()
    }

    pub fn build(&self, b: &mut DocBuilder) -> (r: DocRef)
        requires
            old(b).wf(),
            self.wf(),
        ensures
            builds(*old(b), *final(b), r),
        decreases self,
    {
        let ghost b0 = *b;
        let mut docs: Vec<DocRef> = Vec::new();
        let mut i: usize = 0;
        proof {
            assert(forall|k: int| 0 <= k < self.types@.len() ==> (#[trigger] self.types@[k]).wf());
        }
        while i < self.types.len()
            invariant
                forall|k: int| 0 <= k < self.types@.len() ==> (#[trigger] self.types@[k]).wf(),
                b.wf(),
                self.wf(),
                b.config == b0.config,
                extends(b0@, b@),
                refs_in_bounds(docs@, b@.len() as int),
                i <= self.types.len(),
            decreases self.types.len() - i,
        {
            proof {
                vstd::std_specs::vec::axiom_vec_index_decreases(self.types, i as int);
                assert(self.types@[i as int].wf());
            }
            let d = self.types[i].build(b);
            docs.push(d);
            i = i + 1;
        }
        proof {
            reveal_strlit(", ");
            assert(single_line(", "@));
        }
        let inner = b.intersperse_single_line(&docs, ", ");
        proof {
            reveal_strlit("implements");
            assert(single_line("implements"@));
        }
        let kw = b._txt_("implements");
        let grp = b.concat(vec![kw, inner]);
        b.concat(vec![grp])
    }
}

pub struct MethodInvocation {
    pub is_base: bool,
    pub object: Option<MethodObject>,
    pub property_navigation: Option<PropertyNavigation>,
    pub type_arguments: Option<TypeArguments>,
    pub name: String,
    pub arguments: ArgumentList,
}

impl MethodInvocation {
    /// The value feeds only single-line text to the builder.
    pub open spec fn wf(self) -> bool
        decreases self,
    {
        &&& match self.object { Some(n) => n.wf(), None => true }
        &&& single_line(self.name@)
        &&& self.arguments.wf()
    }

    pub fn build(&self, b: &mut DocBuilder) -> (r: DocRef)
        requires
            old(b).wf(),
            self.wf(),
        ensures
            builds(*old(b), *final(b), r),
        decreases self,
    {
        let mut docs: Vec<DocRef> = Vec::new();
        if let Some(o) = &self.object {
            let d = o.build(b);
            docs.push(d);
            let ml = b.maybeline();
            docs.push(ml);
        }
        if let Some(p) = &self.property_navigation {
            let d = p.build(b);
            docs.push(d);
        }
        let d = b.txt(self.name.as_str());
        docs.push(d);
        let d = self.arguments.build(b);
        docs.push(d);
        let mut doc = b.concat(docs);
        if self.is_base {
            doc = b.group_then_indent(doc);
        }
        b.concat(vec![doc])
    }
}

pub enum MethodObject {
    Super(Super),
    Primary(Box<PrimaryExpression>),
}

impl MethodObject {
    /// The value feeds only single-line text to the builder.
    pub open spec fn wf(self) -> bool
        decreases self,
    {
        match self {
            MethodObject::Super(_) => true,
            MethodObject::Primary(p) => p.wf(),
        }
    }

    pub fn build(&self, b: &mut DocBuilder) -> (r: DocRef)
        requires
            old(b).wf(),
            self.wf(),
        ensures
            builds(*old(b), *final(b), r),
        decreases self,
    {
        match self {
            MethodObject::Super(s) => s.build(b),
            MethodObject::Primary(p) => p.build(b),
        }
    }
}

pub struct TypeArguments {
    pub types: Vec<Type>,
}

impl TypeArguments {
    /// The value feeds only single-line text to the builder.
    pub open spec fn wf(self) -> bool
        decreases self,
    {
        &&& forall|k: int| 0 <= k < self.types@.len() ==> (#[trigger] self.types@[k]).wf()
    }

    pub fn build(&self, b: &mut DocBuilder) -> (r: DocRef)
        requires
            old(b).wf(),
            self.wf(),
        ensures
            builds(*old(b), *final(b), r),
        decreases self,
    {
        let ghost b0 = *b;
        let mut docs: Vec<DocRef> = Vec::new();
        let mut i: usize = 0;
        proof {
            assert(forall|k: int| 0 <= k < self.types@.len() ==> (#[trigger] self.types@[k]).wf());
        }
        while i < self.types.len()
            invariant
                forall|k: int| 0 <= k < self.types@.len() ==> (#[trigger] self.types@[k]).wf(),
                b.wf(),
                self.wf(),
                b.config == b0.config,
                extends(b0@, b@),
                refs_in_bounds(docs@, b@.len() as int),
                i <= self.types.len(),
            decreases self.types.len() - i,
        {
            proof {
                vstd::std_specs::vec::axiom_vec_index_decreases(self.types, i as int);
                assert(self.types@[i as int].wf());
            }
            let d = self.types[i].build(b);
            docs.push(d);
            i = i + 1;
        }
        let sl = b.softline();
        proof {
            reveal_strlit(",");
            assert(single_line(","@));
        }
        let sep = Insertable::new(None, Some(","), Some(sl));
        let ml1 = b.maybeline();
        proof {
            reveal_strlit("<");
            assert(single_line("<"@));
        }
        let open_in = Insertable::new(None, Some("<"), Some(ml1));
        let ml2 = b.maybeline();
        proof {
            reveal_strlit(">");
            assert(single_line(">"@));
        }
        let close_in = Insertable::new(Some(ml2), Some(">"), None);
        b.group_surround(&docs, sep, open_in, close_in)
    }
}

pub struct ArgumentList {
    pub expressions: Vec<Expression>,
}

impl ArgumentList {
    /// The value feeds only single-line text to the builder.
    pub open spec fn wf(self) -> bool
        decreases self,
    {
        &&& forall|k: int| 0 <= k < self.expressions@.len() ==> (#[trigger] self.expressions@[k]).wf()
    }

    pub fn build(&self, b: &mut DocBuilder) -> (r: DocRef)
        requires
            old(b).wf(),
            self.wf(),
        ensures
            builds(*old(b), *final(b), r),
        decreases self,
    {
        let ghost b0 = *b;
        let mut docs: Vec<DocRef> = Vec::new();
        let mut i: usize = 0;
        proof {
            assert(forall|k: int| 0 <= k < self.expressions@.len() ==> (#[trigger] self.expressions@[k]).wf());
        }
        while i < self.expressions.len()
            invariant
                forall|k: int| 0 <= k < self.expressions@.len() ==> (#[trigger] self.expressions@[k]).wf(),
                b.wf(),
                self.wf(),
                b.config == b0.config,
                extends(b0@, b@),
                refs_in_bounds(docs@, b@.len() as int),
                i <= self.expressions.len(),
            decreases self.expressions.len() - i,
        {
            proof {
                vstd::std_specs::vec::axiom_vec_index_decreases(self.expressions, i as int);
                assert(self.expressions@[i as int].wf());
            }
            let d = self.expressions[i].build(b);
            docs.push(d);
            i = i + 1;
        }
        let sl = b.softline();
        proof {
            reveal_strlit(",");
            assert(single_line(","@));
        }
        let sep = Insertable::new(None, Some(","), Some(sl));
        let ml1 = b.maybeline();
        proof {
            reveal_strlit("(");
            assert(single_line("("@));
        }
        let open_in = Insertable::new(None, Some("("), Some(ml1));
        let ml2 = b.maybeline();
        proof {
            reveal_strlit(")");
            assert(single_line(")"@));
        }
        let close_in = Insertable::new(Some(ml2), Some(")"), None);
        b.group_surround(&docs, sep, open_in, close_in)
    }
}

/// The `super` keyword.
pub struct Super {}

impl Super {
    pub fn build(&self, b: &mut DocBuilder) -> (r: DocRef)
        requires
            old(b).wf(),
        ensures
            builds(*old(b), *final(b), r),
    {
        proof {
            reveal_strlit("super");
            assert(single_line("super"@));
        }
        b.txt("super")
    }
}

/// The `this` keyword.
pub struct This {}

impl This {
    pub fn build(&self, b: &mut DocBuilder) -> (r: DocRef)
        requires
            old(b).wf(),
        ensures
            builds(*old(b), *final(b), r),
    {
        proof {
            reveal_strlit("this");
            assert(single_line("this"@));
        }
        b.txt("this")
    }
}

pub struct BinaryExpression {
    pub left: Expression,
    pub op: String,
    pub right: Expression,
}

impl BinaryExpression {
    /// The value feeds only single-line text to the builder.
    pub open spec fn wf(self) -> bool
        decreases self,
    {
        &&& self.left.wf()
        &&& single_line(self.op@)
        &&& self.right.wf()
    }

    pub fn build(&self, b: &mut DocBuilder) -> (r: DocRef)
        requires
            old(b).wf(),
            self.wf(),
        ensures
            builds(*old(b), *final(b), r),
        decreases self,
    {
        let l = self.left.build(b);
        let rr = self.right.build(b);
        let docs = vec![l, rr];
        let mut s = String::new();
        s.append(" ");
        s.append(self.op.as_str());
        proof {
            reveal_strlit(" ");
            assert(s@ =~= seq![' '] + self.op@);
            assert forall|k: int| 0 <= k < s@.len() implies s@[k] != '\n' by {
                if k >= 1 {
                    assert(s@[k] == self.op@[k - 1]);
                }
            }
        }
        let sl = b.softline();
        let sep = Insertable::new(None, Some(s.as_str()), Some(sl));
        let inter = b.intersperse(&docs, sep);
        b.group_then_indent(inter)
    }
}

pub struct LocalVariableDeclaration {
    pub modifiers: Option<Modifiers>,
    pub type_: UnannotatedType,
    pub declarators: Vec<VariableDeclarator>,
}

impl LocalVariableDeclaration {
    /// The value feeds only single-line text to the builder.
    pub open spec fn wf(self) -> bool
        decreases self,
    {
        &&& match self.modifiers { Some(n) => n.wf(), None => true }
        &&& self.type_.wf()
        &&& forall|k: int| 0 <= k < self.declarators@.len() ==> (#[trigger] self.declarators@[k]).wf()
    }

    pub fn build(&self, b: &mut DocBuilder) -> (r: DocRef)
        requires
            old(b).wf(),
            self.wf(),
        ensures
            builds(*old(b), *final(b), r),
        decreases self,
    {
        let mut result: Vec<DocRef> = Vec::new();
        if let Some(n) = &self.modifiers {
            let d = n.build(b);
            result.push(d);
        }
        let d = self.type_.build(b);
        result.push(d);
        proof {
            reveal_strlit(" ");
            assert(single_line(" "@));
        }
        let d = b.txt(" ");
        result.push(d);
        let ghost b0 = *b;
        let mut docs: Vec<DocRef> = Vec::new();
        let mut i: usize = 0;
        proof {
            assert(forall|k: int| 0 <= k < self.declarators@.len() ==> (#[trigger] self.declarators@[k]).wf());
        }
        while i < self.declarators.len()
            invariant
                forall|k: int| 0 <= k < self.declarators@.len() ==> (#[trigger] self.declarators@[k]).wf(),
                b.wf(),
                self.wf(),
                b.config == b0.config,
                extends(b0@, b@),
                refs_in_bounds(docs@, b@.len() as int),
                refs_in_bounds(result@, b@.len() as int),
                i <= self.declarators.len(),
            decreases self.declarators.len() - i,
        {
            proof {
                vstd::std_specs::vec::axiom_vec_index_decreases(self.declarators, i as int);
                assert(self.declarators@[i as int].wf());
            }
            let d = self.declarators[i].build(b);
            docs.push(d);
            i = i + 1;
        }
        let doc = if docs.len() == 1 {
            docs[0]
        } else {
            let sl = b.softline();
            proof {
                reveal_strlit(",");
                assert(single_line(","@));
            }
            let sep = Insertable::new(None, Some(","), Some(sl));
            let inter = b.intersperse(&docs, sep);
            b.group_then_indent(inter)
        };
        result.push(doc);
        b.concat(result)
    }
}

pub struct VariableDeclarator {
    pub name: String,
    pub value: Option<VariableInitializer>,
}

impl VariableDeclarator {
    /// The value feeds only single-line text to the builder.
    pub open spec fn wf(self) -> bool
        decreases self,
    {
        &&& single_line(self.name@)
        &&& match self.value { Some(n) => n.wf(), None => true }
    }

    pub fn build(&self, b: &mut DocBuilder) -> (r: DocRef)
        requires
            old(b).wf(),
            self.wf(),
        ensures
            builds(*old(b), *final(b), r),
        decreases self,
    {
        let mut result: Vec<DocRef> = Vec::new();
        let d = b.txt(self.name.as_str());
        result.push(d);
        if let Some(v) = &self.value {
            proof {
                reveal_strlit(" = ");
                assert(single_line(" = "@));
            }
            let d = b.txt(" = ");
            result.push(d);
            let d = v.build(b);
            result.push(d);
        }
        b.concat(result)
    }
}

pub struct GenericType {
    pub generic_identifier: GenericIdentifier,
    pub type_arguments: TypeArguments,
}

impl GenericType {
    /// The value feeds only single-line text to the builder.
    pub open spec fn wf(self) -> bool
        decreases self,
    {
        &&& self.generic_identifier.wf()
        &&& self.type_arguments.wf()
    }

    pub fn build(&self, b: &mut DocBuilder) -> (r: DocRef)
        requires
            old(b).wf(),
            self.wf(),
        ensures
            builds(*old(b), *final(b), r),
        decreases self,
    {
        let g = self.generic_identifier.build(b);
        let t = self.type_arguments.build(b);
        b.concat(vec![g, t])
    }
}

pub enum GenericIdentifier {
    Type(String),
    Scoped(ScopedTypeIdentifier),
}

impl GenericIdentifier {
    /// The value feeds only single-line text to the builder.
    pub open spec fn wf(self) -> bool
        decreases self,
    {
        match self {
            GenericIdentifier::Type(s) => single_line(s@),
            GenericIdentifier::Scoped(s) => s.wf(),
        }
    }

    pub fn build(&self, b: &mut DocBuilder) -> (r: DocRef)
        requires
            old(b).wf(),
            self.wf(),
        ensures
            builds(*old(b), *final(b), r),
        decreases self,
    {
        match self {
            GenericIdentifier::Type(s) => b.txt(s.as_str()),
            GenericIdentifier::Scoped(s) => s.build(b),
        }
    }
}

pub struct IfStatement {
    pub condition: ParenthesizedExpression,
    pub consequence: Statement,
    pub alternative: Option<Statement>,
}

impl IfStatement {
    /// The value feeds only single-line text to the builder.
    pub open spec fn wf(self) -> bool
        decreases self,
    {
        &&& self.condition.wf()
        &&& self.consequence.wf()
        &&& match self.alternative { Some(n) => n.wf(), None => true }
    }

    pub fn build(&self, b: &mut DocBuilder) -> (r: DocRef)
        requires
            old(b).wf(),
            self.wf(),
        ensures
            builds(*old(b), *final(b), r),
        decreases self,
    {
        let mut result: Vec<DocRef> = Vec::new();
        proof {
            reveal_strlit("if ");
            assert(single_line("if "@));
        }
        let d = b.txt("if ");
        result.push(d);
        let d = self.condition.build(b);
        result.push(d);
        if self.consequence.is_block() {
            proof {
                reveal_strlit(" ");
                assert(single_line(" "@));
            }
            let d = b.txt(" ");
            result.push(d);
            let d = self.consequence.build(b);
            result.push(d);
        } else {
            let nl = b.nl();
            let d = b.indent(nl);
            result.push(d);
            let cq = self.consequence.build(b);
            let d = b.indent(cq);
            result.push(d);
        }
        if let Some(a) = &self.alternative {
            match a {
                Statement::If(_) | Statement::Block(_) => {
                    if self.consequence.is_block() {
                        proof {
                            reveal_strlit(" else ");
                            assert(single_line(" else "@));
                        }
                        let d = b.txt(" else ");
                        result.push(d);
                    } else {
                        let d = b.nl();
                        result.push(d);
                        proof {
                            reveal_strlit("else ");
                            assert(single_line("else "@));
                        }
                        let d = b.txt("else ");
                        result.push(d);
                    }
                    let d = a.build(b);
                    result.push(d);
                },
                _ => {
                    if self.consequence.is_block() {
                        proof {
                            reveal_strlit(" else ");
                            assert(single_line(" else "@));
                        }
                        let d = b.txt(" else ");
                        result.push(d);
                    } else {
                        let d = b.nl();
                        result.push(d);
                        proof {
                            reveal_strlit("else");
                            assert(single_line("else"@));
                        }
                        let d = b.txt("else");
                        result.push(d);
                        let nl = b.nl();
                        let d = b.indent(nl);
                        result.push(d);
                    }
                    let d = a.build(b);
                    result.push(d);
                },
            }
        }
        b.concat(result)
    }
}

pub struct ParenthesizedExpression {
    pub exp: Expression,
}

impl ParenthesizedExpression {
    /// The value feeds only single-line text to the builder.
    pub open spec fn wf(self) -> bool
        decreases self,
    {
        &&& self.exp.wf()
    }

    pub fn build(&self, b: &mut DocBuilder) -> (r: DocRef)
        requires
            old(b).wf(),
            self.wf(),
        ensures
            builds(*old(b), *final(b), r),
        decreases self,
    {
        proof {
            reveal_strlit("(");
            assert(single_line("("@));
        }
        let t1 = b.txt("(");
        let ml1 = b.maybeline();
        let i1 = b.indent(ml1);
        let e = self.exp.build(b);
        let i2 = b.indent(e);
        let ml2 = b.maybeline();
        let inner = b.concat(vec![i1, i2, ml2]);
        let grp = b.group(inner);
        proof {
            reveal_strlit(")");
            assert(single_line(")"@));
        }
        let t2 = b.txt(")");
        b.concat(vec![t1, grp, t2])
    }
}

pub struct ForStatement {
    pub init: Option<LocalVariableDeclaration>,
    pub condition: Option<Expression>,
    pub update: Option<Expression>,
    pub body: Statement,
}

impl ForStatement {
    /// The value feeds only single-line text to the builder.
    pub open spec fn wf(self) -> bool
        decreases self,
    {
        &&& match self.init { Some(n) => n.wf(), None => true }
        &&& match self.condition { Some(n) => n.wf(), None => true }
        &&& match self.update { Some(n) => n.wf(), None => true }
        &&& self.body.wf()
    }

    pub fn build(&self, b: &mut DocBuilder) -> (r: DocRef)
        requires
            old(b).wf(),
            self.wf(),
        ensures
            builds(*old(b), *final(b), r),
        decreases self,
    {
        let mut result: Vec<DocRef> = Vec::new();
        proof {
            reveal_strlit("for ");
            assert(single_line("for "@));
        }
        let d = b.txt("for ");
        result.push(d);
        let init = match &self.init {
            Some(n) => n.build(b),
            None => b.nil(),
        };
        let condition = match &self.condition {
            Some(c) => {
                proof {
                    reveal_strlit(" ");
                    assert(single_line(" "@));
                }
                let sp = b.txt(" ");
                let d = c.build(b);
                b.concat(vec![sp, d])
            },
            None => b.nil(),
        };
        let update = match &self.update {
            Some(u) => {
                proof {
                    reveal_strlit(" ");
                    assert(single_line(" "@));
                }
                let sp = b.txt(" ");
                let d = u.build(b);
                b.concat(vec![sp, d])
            },
            None => b.nil(),
        };
        let docs = vec![init, condition, update];
        let ml0 = b.maybeline();
        proof {
            reveal_strlit(";");
            assert(single_line(";"@));
        }
        let sep = Insertable::new(None, Some(";"), Some(ml0));
        let ml1 = b.maybeline();
        proof {
            reveal_strlit("(");
            assert(single_line("("@));
        }
        let open_in = Insertable::new(None, Some("("), Some(ml1));
        let ml2 = b.maybeline();
        proof {
            reveal_strlit(")");
            assert(single_line(")"@));
        }
        let close_in = Insertable::new(Some(ml2), Some(")"), None);
        let d = b.group_surround(&docs, sep, open_in, close_in);
        result.push(d);
        match &self.body {
            Statement::SemiColumn => {
                proof {
                    reveal_strlit(";");
                    assert(single_line(";"@));
                }
                let d = b.txt(";");
                result.push(d);
            },
            _ => {
                proof {
                    reveal_strlit(" ");
                    assert(single_line(" "@));
                }
                let d = b.txt(" ");
                result.push(d);
                let d = self.body.build(b);
                result.push(d);
            },
        }
        b.concat(result)
    }
}

pub struct EnhancedForStatement {
    pub modifiers: Option<Modifiers>,
    pub type_: UnannotatedType,
    pub name: String,
    pub value: Expression,
    pub body: Statement,
}

impl EnhancedForStatement {
    /// The value feeds only single-line text to the builder.
    pub open spec fn wf(self) -> bool
        decreases self,
    {
        &&& self.type_.wf()
        &&& single_line(self.name@)
        &&& self.value.wf()
        &&& self.body.wf()
    }

    pub fn build(&self, b: &mut DocBuilder) -> (r: DocRef)
        requires
            old(b).wf(),
            self.wf(),
        ensures
            builds(*old(b), *final(b), r),
        decreases self,
    {
        let mut result: Vec<DocRef> = Vec::new();
        proof {
            reveal_strlit("for (");
            assert(single_line("for ("@));
        }
        let d = b.txt("for (");
        result.push(d);
        let d = self.type_.build(b);
        result.push(d);
        let d = b._txt(self.name.as_str());
        result.push(d);
        proof {
            reveal_strlit(":");
            assert(single_line(":"@));
        }
        let d = b._txt_(":");
        result.push(d);
        let d = self.value.build(b);
        result.push(d);
        proof {
            reveal_strlit(")");
            assert(single_line(")"@));
        }
        let d = b.txt(")");
        result.push(d);
        match &self.body {
            Statement::SemiColumn => {
                proof {
                    reveal_strlit(";");
                    assert(single_line(";"@));
                }
                let d = b.txt(";");
                result.push(d);
            },
            _ => {
                proof {
                    reveal_strlit(" ");
                    assert(single_line(" "@));
                }
                let d = b.txt(" ");
                result.push(d);
                let d = self.body.build(b);
                result.push(d);
            },
        }
        b.concat(result)
    }
}

pub enum UpdateExpression {
    Pre { operator: String, operand: Box<Expression> },
    Post { operand: Box<Expression>, operator: String },
}

impl UpdateExpression {
    /// The value feeds only single-line text to the builder.
    pub open spec fn wf(self) -> bool
        decreases self,
    {
        match self {
            UpdateExpression::Pre { operator, operand } => single_line(operator@) && operand.wf(),
            UpdateExpression::Post { operand, operator } => single_line(operator@) && operand.wf(),
        }
    }

    pub fn build(&self, b: &mut DocBuilder) -> (r: DocRef)
        requires
            old(b).wf(),
            self.wf(),
        ensures
            builds(*old(b), *final(b), r),
        decreases self,
    {
        match self {
            UpdateExpression::Pre { operator, operand } => {
                let o = b.txt(operator.as_str());
                let e = operand.build(b);
                b.concat(vec![o, e])
            },
            UpdateExpression::Post { operand, operator } => {
                let e = operand.build(b);
                let o = b.txt(operator.as_str());
                b.concat(vec![e, o])
            },
        }
    }
}

pub struct ScopedTypeIdentifier {
    pub scoped_choice: ScopedChoice,
    pub annotations: Vec<Annotation>,
    pub type_identifier: String,
}

impl ScopedTypeIdentifier {
    /// The value feeds only single-line text to the builder.
    pub open spec fn wf(self) -> bool
        decreases self,
    {
        &&& self.scoped_choice.wf()
        &&& forall|k: int| 0 <= k < self.annotations@.len() ==> (#[trigger] self.annotations@[k]).wf()
        &&& single_line(self.type_identifier@)
    }

    pub fn build(&self, b: &mut DocBuilder) -> (r: DocRef)
        requires
            old(b).wf(),
            self.wf(),
        ensures
            builds(*old(b), *final(b), r),
        decreases self,
    {
        let mut result: Vec<DocRef> = Vec::new();
        let d = self.scoped_choice.build(b);
        result.push(d);
        proof {
            reveal_strlit(".");
            assert(single_line("."@));
        }
        let d = b.txt(".");
        result.push(d);
        if self.annotations.len() > 0 {
            let ghost b0 = *b;
            let mut docs: Vec<DocRef> = Vec::new();
            let mut i: usize = 0;
            proof {
                assert(forall|k: int| 0 <= k < self.annotations@.len() ==> (#[trigger] self.annotations@[k]).wf());
            }
            while i < self.annotations.len()
                invariant
                    forall|k: int| 0 <= k < self.annotations@.len() ==> (#[trigger] self.annotations@[k]).wf(),
                    b.wf(),
                    self.wf(),
                    b.config == b0.config,
                    extends(b0@, b@),
                    refs_in_bounds(docs@, b@.len() as int),
                    refs_in_bounds(result@, b@.len() as int),
                    i <= self.annotations.len(),
                decreases self.annotations.len() - i,
            {
                proof {
                    vstd::std_specs::vec::axiom_vec_index_decreases(self.annotations, i as int);
                    assert(self.annotations@[i as int].wf());
                }
                let d = self.annotations[i].build(b);
                docs.push(d);
                i = i + 1;
            }
            proof {
                reveal_strlit(" ");
                assert(single_line(" "@));
            }
            let inner = b.intersperse_single_line(&docs, " ");
            result.push(inner);
            proof {
                reveal_strlit(" ");
                assert(single_line(" "@));
            }
            let sp = b.txt(" ");
            result.push(sp);
        }
        let d = b.txt(self.type_identifier.as_str());
        result.push(d);
        b.concat(result)
    }
}

pub enum ScopedChoice {
    TypeIdentifier(String),
    Scoped(Box<ScopedTypeIdentifier>),
    Generic(Box<GenericType>),
}

impl ScopedChoice {
    /// The value feeds only single-line text to the builder.
    pub open spec fn wf(self) -> bool
        decreases self,
    {
        match self {
            ScopedChoice::TypeIdentifier(t) => single_line(t@),
            ScopedChoice::Scoped(s) => s.wf(),
            ScopedChoice::Generic(g) => g.wf(),
        }
    }

    pub fn build(&self, b: &mut DocBuilder) -> (r: DocRef)
        requires
            old(b).wf(),
            self.wf(),
        ensures
            builds(*old(b), *final(b), r),
        decreases self,
    {
        match self {
            ScopedChoice::TypeIdentifier(t) => b.txt(t.as_str()),
            ScopedChoice::Scoped(s) => s.build(b),
            ScopedChoice::Generic(g) => g.build(b),
        }
    }
}

pub struct ConstructorDeclaration {
    pub modifiers: Option<Modifiers>,
    pub type_parameters: Option<TypeParameters>,
    pub name: String,
    pub parameters: FormalParameters,
    pub body: ConstructorBody,
}

impl ConstructorDeclaration {
    /// The value feeds only single-line text to the builder.
    pub open spec fn wf(self) -> bool
        decreases self,
    {
        &&& match self.modifiers { Some(n) => n.wf(), None => true }
        &&& match self.type_parameters { Some(n) => n.wf(), None => true }
        &&& single_line(self.name@)
        &&& self.parameters.wf()
        &&& self.body.wf()
    }

    pub fn build(&self, b: &mut DocBuilder) -> (r: DocRef)
        requires
            old(b).wf(),
            self.wf(),
        ensures
            builds(*old(b), *final(b), r),
        decreases self,
    {
        let mut result: Vec<DocRef> = Vec::new();
        if let Some(n) = &self.modifiers {
            let d = n.build(b);
            result.push(d);
        }
        if let Some(n) = &self.type_parameters {
            let d = n.build(b);
            result.push(d);
        }
        let d = b.txt(self.name.as_str());
        result.push(d);
        let d = self.parameters.build(b);
        result.push(d);
        proof {
            reveal_strlit(" ");
            assert(single_line(" "@));
        }
        let d = b.txt(" ");
        result.push(d);
        let d = self.body.build(b);
        result.push(d);
        b.concat(result)
    }
}

pub struct ConstructorBody {
    pub constructor_invocation: Option<BodyMember<ConstructInvocation>>,
    pub statements: Vec<BodyMember<Statement>>,
}

impl ConstructorBody {
    /// The value feeds only single-line text to the builder.
    pub open spec fn wf(self) -> bool
        decreases self,
    {
        &&& match self.constructor_invocation { Some(m) => m.member.wf(), None => true }
        &&& forall|k: int| 0 <= k < self.statements@.len() ==> (#[trigger] self.statements@[k]).member.wf()
    }

    pub fn build(&self, b: &mut DocBuilder) -> (r: DocRef)
        requires
            old(b).wf(),
            self.wf(),
        ensures
            builds(*old(b), *final(b), r),
        decreases self,
    {
        if self.constructor_invocation.is_none() && self.statements.len() == 0 {
            proof {
                reveal_strlit("{");
                assert(single_line("{"@));
            }
            let t1 = b.txt("{");
            let nl = b.nl();
            proof {
                reveal_strlit("}");
                assert(single_line("}"@));
            }
            let t2 = b.txt("}");
            let inner = b.concat(vec![t1, nl, t2]);
            return b.concat(vec![inner]);
        }
        let mut result: Vec<DocRef> = Vec::new();
        proof {
            reveal_strlit("{");
            assert(single_line("{"@));
        }
        let d = b.txt("{");
        result.push(d);
        let nl0 = b.nl();
        let d = b.indent(nl0);
        result.push(d);
        if let Some(c) = &self.constructor_invocation {
            let d = c.member.build(b);
            result.push(d);
            proof {
                reveal_strlit(";");
                assert(single_line(";"@));
            }
            let d = b.txt(";");
            result.push(d);
            if self.statements.len() > 0 {
                if c.has_trailing_newline {
                    let d = b.nl_with_no_indent();
                    result.push(d);
                }
                let d = b.nl();
                result.push(d);
            }
        }
        let ghost b0 = *b;
        let mut mdocs: Vec<BodyMember<DocRef>> = Vec::new();
        let mut i: usize = 0;
        proof {
            assert(forall|k: int| 0 <= k < self.statements@.len() ==> (#[trigger] self.statements@[k]).member.wf());
        }
        while i < self.statements.len()
            invariant
                forall|k: int| 0 <= k < self.statements@.len() ==> (#[trigger] self.statements@[k]).member.wf(),
                b.wf(),
                self.wf(),
                b.config == b0.config,
                extends(b0@, b@),
                members_in_bounds(mdocs@, b@.len() as int),
                refs_in_bounds(result@, b@.len() as int),
                i <= self.statements.len(),
            decreases self.statements.len() - i,
        {
            proof {
                vstd::std_specs::vec::axiom_vec_index_decreases(self.statements, i as int);
                assert(self.statements@[i as int].member.wf());
            }
            let d = self.statements[i].member.build(b);
            let tn = self.statements[i].has_trailing_newline;
            mdocs.push(BodyMember { member: d, has_trailing_newline: tn });
            i = i + 1;
        }
        let inter = b.intersperse_body_members(&mdocs);
        let d = b.indent(inter);
        result.push(d);
        let d = b.nl();
        result.push(d);
        proof {
            reveal_strlit("}");
            assert(single_line("}"@));
        }
        let d = b.txt("}");
        result.push(d);
        b.concat(result)
    }
}

pub struct ConstructInvocation {
    pub object: Option<Box<PrimaryExpression>>,
    pub type_arguments: Option<TypeArguments>,
    pub constructor: Option<Constructor>,
    pub arguments: ArgumentList,
}

impl ConstructInvocation {
    /// The value feeds only single-line text to the builder.
    pub open spec fn wf(self) -> bool
        decreases self,
    {
        &&& match self.object { Some(n) => n.wf(), None => true }
        &&& match self.type_arguments { Some(n) => n.wf(), None => true }
        &&& self.arguments.wf()
    }

    pub fn build(&self, b: &mut DocBuilder) -> (r: DocRef)
        requires
            old(b).wf(),
            self.wf(),
        ensures
            builds(*old(b), *final(b), r),
        decreases self,
    {
        let mut result: Vec<DocRef> = Vec::new();
        if let Some(o) = &self.object {
            let d = o.build(b);
            result.push(d);
        }
        if let Some(t) = &self.type_arguments {
            let d = t.build(b);
            result.push(d);
        }
        if let Some(c) = &self.constructor {
            let d = c.build(b);
            result.push(d);
        }
        let d = self.arguments.build(b);
        result.push(d);
        b.concat(result)
    }
}

/// Which constructor an explicit invocation targets.
pub enum Constructor {
    This,
    Super,
}

impl Constructor {
    pub fn build(&self, b: &mut DocBuilder) -> (r: DocRef)
        requires
            old(b).wf(),
        ensures
            builds(*old(b), *final(b), r),
        decreases self,
    {
        match self {
            Constructor::This => {
                proof {
                    reveal_strlit("this");
                    assert(single_line("this"@));
                }
                b.txt("this")
            },
            Constructor::Super => {
                proof {
                    reveal_strlit("super");
                    assert(single_line("super"@));
                }
                b.txt("super")
            },
        }
    }
}

pub struct TypeParameters {
    pub type_parameters: Vec<TypeParameter>,
}

impl TypeParameters {
    /// The value feeds only single-line text to the builder.
    pub open spec fn wf(self) -> bool
        decreases self,
    {
        &&& forall|k: int| 0 <= k < self.type_parameters@.len() ==> (#[trigger] self.type_parameters@[k]).wf()
    }

    pub fn build(&self, b: &mut DocBuilder) -> (r: DocRef)
        requires
            old(b).wf(),
            self.wf(),
        ensures
            builds(*old(b), *final(b), r),
        decreases self,
    {
        let ghost b0 = *b;
        let mut docs: Vec<DocRef> = Vec::new();
        let mut i: usize = 0;
        proof {
            assert(forall|k: int| 0 <= k < self.type_parameters@.len() ==> (#[trigger] self.type_parameters@[k]).wf());
        }
        while i < self.type_parameters.len()
            invariant
                forall|k: int| 0 <= k < self.type_parameters@.len() ==> (#[trigger] self.type_parameters@[k]).wf(),
                b.wf(),
                self.wf(),
                b.config == b0.config,
                extends(b0@, b@),
                refs_in_bounds(docs@, b@.len() as int),
                i <= self.type_parameters.len(),
            decreases self.type_parameters.len() - i,
        {
            proof {
                vstd::std_specs::vec::axiom_vec_index_decreases(self.type_parameters, i as int);
                assert(self.type_parameters@[i as int].wf());
            }
            let d = self.type_parameters[i].build(b);
            docs.push(d);
            i = i + 1;
        }
        let sl = b.softline();
        proof {
            reveal_strlit(",");
            assert(single_line(","@));
        }
        let sep = Insertable::new(None, Some(","), Some(sl));
        let ml1 = b.maybeline();
        proof {
            reveal_strlit("<");
            assert(single_line("<"@));
        }
        let open_in = Insertable::new(None, Some("<"), Some(ml1));
        let ml2 = b.maybeline();
        proof {
            reveal_strlit(">");
            assert(single_line(">"@));
        }
        let close_in = Insertable::new(Some(ml2), Some(">"), None);
        b.group_surround(&docs, sep, open_in, close_in)
    }
}

pub struct TypeParameter {
    pub annotations: Vec<Annotation>,
    pub type_identifier: String,
}

impl TypeParameter {
    /// The value feeds only single-line text to the builder.
    pub open spec fn wf(self) -> bool
        decreases self,
    {
        &&& single_line(self.type_identifier@)
    }

    pub fn build(&self, b: &mut DocBuilder) -> (r: DocRef)
        requires
            old(b).wf(),
            self.wf(),
        ensures
            builds(*old(b), *final(b), r),
        decreases self,
    {
        b.txt(self.type_identifier.as_str())
    }
}

pub struct ObjectCreationExpression {
    pub type_arguments: Option<TypeArguments>,
    pub type_: UnannotatedType,
    pub arguments: ArgumentList,
    pub class_body: Option<ClassBody>,
}

impl ObjectCreationExpression {
    /// The value feeds only single-line text to the builder.
    pub open spec fn wf(self) -> bool
        decreases self,
    {
        &&& match self.type_arguments { Some(n) => n.wf(), None => true }
        &&& self.type_.wf()
        &&& self.arguments.wf()
        &&& match self.class_body { Some(n) => n.wf(), None => true }
    }

    pub fn build(&self, b: &mut DocBuilder) -> (r: DocRef)
        requires
            old(b).wf(),
            self.wf(),
        ensures
            builds(*old(b), *final(b), r),
        decreases self,
    {
        let mut result: Vec<DocRef> = Vec::new();
        proof {
            reveal_strlit("new");
            assert(single_line("new"@));
        }
        let d = b.txt("new");
        result.push(d);
        if let Some(t) = &self.type_arguments {
            let d = t.build(b);
            result.push(d);
        }
        proof {
            reveal_strlit(" ");
            assert(single_line(" "@));
        }
        let d = b.txt(" ");
        result.push(d);
        let d = self.type_.build(b);
        result.push(d);
        let d = self.arguments.build(b);
        result.push(d);
        if let Some(c) = &self.class_body {
            let d = c.build(b);
            result.push(d);
        }
        b.concat(result)
    }
}

pub struct RunAsStatement {
    pub user: ParenthesizedExpression,
    pub block: Block,
}

impl RunAsStatement {
    /// The value feeds only single-line text to the builder.
    pub open spec fn wf(self) -> bool
        decreases self,
    {
        &&& self.user.wf()
        &&& self.block.wf()
    }

    pub fn build(&self, b: &mut DocBuilder) -> (r: DocRef)
        requires
            old(b).wf(),
            self.wf(),
        ensures
            builds(*old(b), *final(b), r),
        decreases self,
    {
        proof {
            reveal_strlit("System.runAs");
            assert(single_line("System.runAs"@));
        }
        let t = b.txt("System.runAs");
        let u = self.user.build(b);
        proof {
            reveal_strlit(" ");
            assert(single_line(" "@));
        }
        let sp = b.txt(" ");
        let blk = self.block.build(b);
        b.concat(vec![t, u, sp, blk])
    }
}

pub struct DoStatement {
    pub body: Block,
    pub condition: ParenthesizedExpression,
}

impl DoStatement {
    /// The value feeds only single-line text to the builder.
    pub open spec fn wf(self) -> bool
        decreases self,
    {
        &&& self.body.wf()
        &&& self.condition.wf()
    }

    pub fn build(&self, b: &mut DocBuilder) -> (r: DocRef)
        requires
            old(b).wf(),
            self.wf(),
        ensures
            builds(*old(b), *final(b), r),
        decreases self,
    {
        proof {
            reveal_strlit("do");
            assert(single_line("do"@));
        }
        let kw = b.txt_("do");
        let body = self.body.build(b);
        proof {
            reveal_strlit("while");
            assert(single_line("while"@));
        }
        let wh = b._txt_("while");
        let cond = self.condition.build(b);
        proof {
            reveal_strlit(";");
            assert(single_line(";"@));
        }
        let sc = b.txt(";");
        b.concat(vec![kw, body, wh, cond, sc])
    }
}

pub struct WhileStatement {
    pub condition: ParenthesizedExpression,
    pub body: Statement,
}

impl WhileStatement {
    /// The value feeds only single-line text to the builder.
    pub open spec fn wf(self) -> bool
        decreases self,
    {
        &&& self.condition.wf()
        &&& self.body.wf()
    }

    pub fn build(&self, b: &mut DocBuilder) -> (r: DocRef)
        requires
            old(b).wf(),
            self.wf(),
        ensures
            builds(*old(b), *final(b), r),
        decreases self,
    {
        let mut result: Vec<DocRef> = Vec::new();
        proof {
            reveal_strlit("while");
            assert(single_line("while"@));
        }
        let d = b.txt_("while");
        result.push(d);
        let d = self.condition.build(b);
        result.push(d);
        match &self.body {
            Statement::SemiColumn => {
                proof {
                    reveal_strlit(";");
                    assert(single_line(";"@));
                }
                let d = b.txt(";");
                result.push(d);
            },
            _ => {
                proof {
                    reveal_strlit(" ");
                    assert(single_line(" "@));
                }
                let d = b.txt(" ");
                result.push(d);
                let d = self.body.build(b);
                result.push(d);
            },
        }
        b.concat(result)
    }
}

pub struct UnaryExpression {
    pub operator: String,
    pub operand: Box<Expression>,
}

impl UnaryExpression {
    /// The value feeds only single-line text to the builder.
    pub open spec fn wf(self) -> bool
        decreases self,
    {
        &&& single_line(self.operator@)
        &&& self.operand.wf()
    }

    pub fn build(&self, b: &mut DocBuilder) -> (r: DocRef)
        requires
            old(b).wf(),
            self.wf(),
        ensures
            builds(*old(b), *final(b), r),
        decreases self,
    {
        let o = b.txt(self.operator.as_str());
        let e = self.operand.build(b);
        b.concat(vec![o, e])
    }
}

pub struct FieldAccess {
    pub object: MethodObject,
    pub property_navigation: PropertyNavigation,
    pub field: String,
}

impl FieldAccess {
    /// The value feeds only single-line text to the builder.
    pub open spec fn wf(self) -> bool
        decreases self,
    {
        &&& self.object.wf()
        &&& single_line(self.field@)
    }

    pub fn build(&self, b: &mut DocBuilder) -> (r: DocRef)
        requires
            old(b).wf(),
            self.wf(),
        ensures
            builds(*old(b), *final(b), r),
        decreases self,
    {
        let o = self.object.build(b);
        let p = self.property_navigation.build(b);
        let f = b.txt(self.field.as_str());
        b.concat(vec![o, p, f])
    }
}

pub struct EnumDeclaration {
    pub modifiers: Option<Modifiers>,
    pub name: String,
    pub interface: Option<Interface>,
    pub body: EnumBody,
}

impl EnumDeclaration {
    /// The value feeds only single-line text to the builder.
    pub open spec fn wf(self) -> bool
        decreases self,
    {
        &&& match self.modifiers { Some(n) => n.wf(), None => true }
        &&& single_line(self.name@)
        &&& match self.interface { Some(n) => n.wf(), None => true }
        &&& self.body.wf()
    }

    pub fn build(&self, b: &mut DocBuilder) -> (r: DocRef)
        requires
            old(b).wf(),
            self.wf(),
        ensures
            builds(*old(b), *final(b), r),
        decreases self,
    {
        let mut result: Vec<DocRef> = Vec::new();
        if let Some(n) = &self.modifiers {
            let d = n.build(b);
            result.push(d);
        }
        proof {
            reveal_strlit("enum");
            assert(single_line("enum"@));
        }
        let d = b.txt_("enum");
        result.push(d);
        let d = b.txt_(self.name.as_str());
        result.push(d);
        if let Some(n) = &self.interface {
            let d = n.build(b);
            result.push(d);
        }
        let d = self.body.build(b);
        result.push(d);
        b.concat(result)
    }
}

pub struct EnumBody {
    pub enum_constants: Vec<EnumConstant>,
}

impl EnumBody {
    /// The value feeds only single-line text to the builder.
    pub open spec fn wf(self) -> bool
        decreases self,
    {
        &&& forall|k: int| 0 <= k < self.enum_constants@.len() ==> (#[trigger] self.enum_constants@[k]).wf()
    }

    pub fn build(&self, b: &mut DocBuilder) -> (r: DocRef)
        requires
            old(b).wf(),
            self.wf(),
        ensures
            builds(*old(b), *final(b), r),
        decreases self,
    {
        let ghost b0 = *b;
        let mut docs: Vec<DocRef> = Vec::new();
        let mut i: usize = 0;
        proof {
            assert(forall|k: int| 0 <= k < self.enum_constants@.len() ==> (#[trigger] self.enum_constants@[k]).wf());
        }
        while i < self.enum_constants.len()
            invariant
                forall|k: int| 0 <= k < self.enum_constants@.len() ==> (#[trigger] self.enum_constants@[k]).wf(),
                b.wf(),
                self.wf(),
                b.config == b0.config,
                extends(b0@, b@),
                refs_in_bounds(docs@, b@.len() as int),
                i <= self.enum_constants.len(),
            decreases self.enum_constants.len() - i,
        {
            proof {
                vstd::std_specs::vec::axiom_vec_index_decreases(self.enum_constants, i as int);
                assert(self.enum_constants@[i as int].wf());
            }
            let d = self.enum_constants[i].build(b);
            docs.push(d);
            i = i + 1;
        }
        if docs.len() == 0 {
            proof {
                reveal_strlit("{");
                assert(single_line("{"@));
            }
            let t1 = b.txt("{");
            let nl = b.nl();
            proof {
                reveal_strlit("}");
                assert(single_line("}"@));
            }
            let t2 = b.txt("}");
            let inner = b.concat(vec![t1, nl, t2]);
            return b.concat(vec![inner]);
        }
        let nl1 = b.nl();
        proof {
            reveal_strlit(",");
            assert(single_line(","@));
        }
        let sep = Insertable::new(None, Some(","), Some(nl1));
        let nl2 = b.nl();
        proof {
            reveal_strlit("{");
            assert(single_line("{"@));
        }
        let open_in = Insertable::new(None, Some("{"), Some(nl2));
        let nl3 = b.nl();
        proof {
            reveal_strlit("}");
            assert(single_line("}"@));
        }
        let close_in = Insertable::new(Some(nl3), Some("}"), None);
        b.group_surround(&docs, sep, open_in, close_in)
    }
}

pub struct EnumConstant {
    pub modifiers: Option<Modifiers>,
    pub name: String,
}

impl EnumConstant {
    /// The value feeds only single-line text to the builder.
    pub open spec fn wf(self) -> bool
        decreases self,
    {
        &&& match self.modifiers { Some(n) => n.wf(), None => true }
        &&& single_line(self.name@)
    }

    pub fn build(&self, b: &mut DocBuilder) -> (r: DocRef)
        requires
            old(b).wf(),
            self.wf(),
        ensures
            builds(*old(b), *final(b), r),
        decreases self,
    {
        let mut result: Vec<DocRef> = Vec::new();
        if let Some(n) = &self.modifiers {
            let d = n.build(b);
            result.push(d);
        }
        let d = b.txt(self.name.as_str());
        result.push(d);
        b.concat(result)
    }
}

pub enum DmlExpression {
    Basic { dml_type: DmlType, security_mode: Option<DmlSecurityMode>, exp: Expression },
    Upsert {
        dml_type: DmlType,
        security_mode: Option<DmlSecurityMode>,
        exp: Expression,
        unannotated: Option<Box<UnannotatedType>>,
    },
    Merge {
        dml_type: DmlType,
        security_mode: Option<DmlSecurityMode>,
        exp: Expression,
        exp_extra: Expression,
    },
}

impl DmlExpression {
    /// The value feeds only single-line text to the builder.
    pub open spec fn wf(self) -> bool
        decreases self,
    {
        match self {
            DmlExpression::Basic { dml_type: _, security_mode, exp } => opt_wf_dml(security_mode) && exp.wf(),
            DmlExpression::Upsert { dml_type: _, security_mode, exp, unannotated } => opt_wf_dml(security_mode) && exp.wf() && (match unannotated { Some(u) => u.wf(), None => true }),
            DmlExpression::Merge { dml_type: _, security_mode, exp, exp_extra } => opt_wf_dml(security_mode) && exp.wf() && exp_extra.wf(),
        }
    }

    pub fn build(&self, b: &mut DocBuilder) -> (r: DocRef)
        requires
            old(b).wf(),
            self.wf(),
        ensures
            builds(*old(b), *final(b), r),
        decreases self,
    {
        let mut result: Vec<DocRef> = Vec::new();
        match self {
            DmlExpression::Basic { dml_type, security_mode, exp } => {
                let d = b.txt_(dml_type.as_str());
                result.push(d);
                if let Some(s) = security_mode {
                    let d = s.build(b);
                    result.push(d);
                    proof {
                        reveal_strlit(" ");
                        assert(single_line(" "@));
                    }
                    let d = b.txt(" ");
                    result.push(d);
                }
                let d = exp.build(b);
                result.push(d);
            },
            DmlExpression::Merge { dml_type, security_mode, exp, exp_extra } => {
                let d = b.txt_(dml_type.as_str());
                result.push(d);
                if let Some(s) = security_mode {
                    let d = s.build(b);
                    result.push(d);
                    proof {
                        reveal_strlit(" ");
                        assert(single_line(" "@));
                    }
                    let d = b.txt(" ");
                    result.push(d);
                }
                let e1 = exp.build(b);
                let e2 = exp_extra.build(b);
                let docs = vec![e1, e2];
                let sl = b.softline();
                let sep = Insertable::new(None, None, Some(sl));
                let inter = b.intersperse(&docs, sep);
                let d = b.group_then_indent(inter);
                result.push(d);
            },
            DmlExpression::Upsert { dml_type, security_mode, exp, unannotated } => {
                let d = b.txt_(dml_type.as_str());
                result.push(d);
                let mut docs: Vec<DocRef> = Vec::new();
                if let Some(s) = security_mode {
                    let d = s.build(b);
                    docs.push(d);
                }
                let e = exp.build(b);
                let d = b.dedent(e);
                docs.push(d);
                if let Some(u) = unannotated {
                    let d = u.build(b);
                    docs.push(d);
                }
                let sl = b.softline();
                let sep = Insertable::new(None, None, Some(sl));
                let inter = b.intersperse(&docs, sep);
                let d = b.group_then_indent(inter);
                result.push(d);
            },
        }
        let d = b.nil();
        result.push(d);
        b.concat(result)
    }
}

pub enum DmlSecurityMode {
    User(String),
    System(String),
}

impl DmlSecurityMode {
    /// The value feeds only single-line text to the builder.
    pub open spec fn wf(self) -> bool
        decreases self,
    {
        match self {
            DmlSecurityMode::User(v) => single_line(v@),
            DmlSecurityMode::System(v) => single_line(v@),
        }
    }

    pub fn build(&self, b: &mut DocBuilder) -> (r: DocRef)
        requires
            old(b).wf(),
            self.wf(),
        ensures
            builds(*old(b), *final(b), r),
        decreases self,
    {
        proof {
            reveal_strlit("as");
            assert(single_line("as"@));
        }
        let kw = b.txt_("as");
        let v = match self {
            DmlSecurityMode::User(v) => b.txt(v.as_str()),
            DmlSecurityMode::System(v) => b.txt(v.as_str()),
        };
        b.concat(vec![kw, v])
    }
}

pub enum DmlType {
    Insert,
    Update,
    Delete,
    Undelete,
    Merge,
    Upsert,
}

impl DmlType {
    /// The keyword this operation is written with.
    pub fn as_str(&self) -> (r: &'static str)
        ensures
            self matches DmlType::Insert ==> r@ == "insert"@,
            self matches DmlType::Update ==> r@ == "update"@,
            self matches DmlType::Delete ==> r@ == "delete"@,
            self matches DmlType::Undelete ==> r@ == "undelete"@,
            self matches DmlType::Merge ==> r@ == "merge"@,
            self matches DmlType::Upsert ==> r@ == "upsert"@,
            single_line(r@),
    {
        proof {
            reveal_strlit("insert");
            reveal_strlit("update");
            reveal_strlit("delete");
            reveal_strlit("undelete");
            reveal_strlit("merge");
            reveal_strlit("upsert");
            assert(single_line("insert"@));
            assert(single_line("update"@));
            assert(single_line("delete"@));
            assert(single_line("undelete"@));
            assert(single_line("merge"@));
            assert(single_line("upsert"@));
        }
        match self {
            DmlType::Insert => "insert",
            DmlType::Update => "update",
            DmlType::Delete => "delete",
            DmlType::Undelete => "undelete",
            DmlType::Merge => "merge",
            DmlType::Upsert => "upsert",
        }
    }
}

pub struct ArrayAccess {
    pub array: PrimaryExpression,
    pub index: Expression,
}

impl ArrayAccess {
    /// The value feeds only single-line text to the builder.
    pub open spec fn wf(self) -> bool
        decreases self,
    {
        &&& self.array.wf()
        &&& self.index.wf()
    }

    pub fn build(&self, b: &mut DocBuilder) -> (r: DocRef)
        requires
            old(b).wf(),
            self.wf(),
        ensures
            builds(*old(b), *final(b), r),
        decreases self,
    {
        let a = self.array.build(b);
        proof {
            reveal_strlit("[");
            assert(single_line("["@));
        }
        let o = b.txt("[");
        let ix = self.index.build(b);
        proof {
            reveal_strlit("]");
            assert(single_line("]"@));
        }
        let c = b.txt("]");
        b.concat(vec![a, o, ix, c])
    }
}

pub struct ArrayCreationExpression {
    pub type_: SimpleType,
    pub variant: ArrayCreationVariant,
}

impl ArrayCreationExpression {
    /// The value feeds only single-line text to the builder.
    pub open spec fn wf(self) -> bool
        decreases self,
    {
        &&& self.type_.wf()
        &&& self.variant.wf()
    }

    pub fn build(&self, b: &mut DocBuilder) -> (r: DocRef)
        requires
            old(b).wf(),
            self.wf(),
        ensures
            builds(*old(b), *final(b), r),
        decreases self,
    {
        proof {
            reveal_strlit("new");
            assert(single_line("new"@));
        }
        let kw = b.txt_("new");
        let t = self.type_.build(b);
        let v = self.variant.build(b);
        b.concat(vec![kw, t, v])
    }
}

pub enum ArrayCreationVariant {
    DD { dimensions_exprs: Vec<DimensionsExpr>, dimensions: Option<Dimensions> },
    DV { dimensions: Dimensions, value: ArrayInitializer },
    OnlyV { value: ArrayInitializer },
}

impl ArrayCreationVariant {
    /// The value feeds only single-line text to the builder.
    pub open spec fn wf(self) -> bool
        decreases self,
    {
        match self {
            ArrayCreationVariant::DD { dimensions_exprs, dimensions: _ } => forall|k: int| 0 <= k < dimensions_exprs@.len() ==> (#[trigger] dimensions_exprs@[k]).wf(),
            ArrayCreationVariant::DV { dimensions: _, value } => value.wf(),
            ArrayCreationVariant::OnlyV { value } => value.wf(),
        }
    }

    pub fn build(&self, b: &mut DocBuilder) -> (r: DocRef)
        requires
            old(b).wf(),
            self.wf(),
        ensures
            builds(*old(b), *final(b), r),
        decreases self,
    {
        match self {
            ArrayCreationVariant::OnlyV { value } => {
                let d = value.build(b);
                b.concat(vec![d])
            },
            ArrayCreationVariant::DD { dimensions_exprs, dimensions } => {
                let ghost b0 = *b;
                proof {
                    assert(decreases_to!(self => *dimensions_exprs));
                }
                let mut result: Vec<DocRef> = Vec::new();
                let mut i: usize = 0;
                proof {
                    assert(forall|k: int| 0 <= k < dimensions_exprs@.len() ==> (#[trigger] dimensions_exprs@[k]).wf());
                }
                while i < dimensions_exprs.len()
                    invariant
                        forall|k: int| 0 <= k < dimensions_exprs@.len() ==> (#[trigger] dimensions_exprs@[k]).wf(),
                        b.wf(),
                        self.wf(),
                        b.config == b0.config,
                        extends(b0@, b@),
                        refs_in_bounds(result@, b@.len() as int),
                        i <= dimensions_exprs.len(),
                        decreases_to!(self => *dimensions_exprs),
                    decreases dimensions_exprs.len() - i,
                {
                    proof {
                        vstd::std_specs::vec::axiom_vec_index_decreases(
                            *dimensions_exprs,
                            i as int,
                        );
                        assert(dimensions_exprs@[i as int].wf());
                    }
                    let d = dimensions_exprs[i].build(b);
                    result.push(d);
                    i = i + 1;
                }
                if let Some(n) = dimensions {
                    proof {
                        reveal_strlit(" ");
                        assert(single_line(" "@));
                    }
                    let sp = b.txt(" ");
                    result.push(sp);
                    let d = n.build(b);
                    result.push(d);
                }
                b.concat(result)
            },
            ArrayCreationVariant::DV { dimensions, value } => {
                let d1 = dimensions.build(b);
                let d2 = value.build(b);
                b.concat(vec![d1, d2])
            },
        }
    }
}

/// An empty `[]` dimension marker.
pub struct Dimensions {}

impl Dimensions {
    pub fn build(&self, b: &mut DocBuilder) -> (r: DocRef)
        requires
            old(b).wf(),
        ensures
            builds(*old(b), *final(b), r),
    {
        proof {
            reveal_strlit("[]");
            assert(single_line("[]"@));
        }
        b.txt("[]")
    }
}

pub struct DimensionsExpr {
    pub exp: Expression,
}

impl DimensionsExpr {
    /// The value feeds only single-line text to the builder.
    pub open spec fn wf(self) -> bool
        decreases self,
    {
        &&& self.exp.wf()
    }

    pub fn build(&self, b: &mut DocBuilder) -> (r: DocRef)
        requires
            old(b).wf(),
            self.wf(),
        ensures
            builds(*old(b), *final(b), r),
        decreases self,
    {
        proof {
            reveal_strlit("[");
            assert(single_line("["@));
        }
        let o = b.txt("[");
        let e = self.exp.build(b);
        proof {
            reveal_strlit("]");
            assert(single_line("]"@));
        }
        let c = b.txt("]");
        b.concat(vec![o, e, c])
    }
}

pub struct ReturnStatement {
    pub exp: Option<Expression>,
}

impl ReturnStatement {
    /// The value feeds only single-line text to the builder.
    pub open spec fn wf(self) -> bool
        decreases self,
    {
        &&& match self.exp { Some(n) => n.wf(), None => true }
    }

    pub fn build(&self, b: &mut DocBuilder) -> (r: DocRef)
        requires
            old(b).wf(),
            self.wf(),
        ensures
            builds(*old(b), *final(b), r),
        decreases self,
    {
        let mut result: Vec<DocRef> = Vec::new();
        proof {
            reveal_strlit("return");
            assert(single_line("return"@));
        }
        let d = b.txt("return");
        result.push(d);
        if let Some(e) = &self.exp {
            proof {
                reveal_strlit(" ");
                assert(single_line(" "@));
            }
            let d = b.txt(" ");
            result.push(d);
            let d = e.build(b);
            result.push(d);
        }
        proof {
            reveal_strlit(";");
            assert(single_line(";"@));
        }
        let d = b.txt(";");
        result.push(d);
        b.concat(result)
    }
}

pub struct TernaryExpression {
    pub condition: Expression,
    pub consequence: Expression,
    pub alternative: Expression,
}

impl TernaryExpression {
    /// The value feeds only single-line text to the builder.
    pub open spec fn wf(self) -> bool
        decreases self,
    {
        &&& self.condition.wf()
        &&& self.consequence.wf()
        &&& self.alternative.wf()
    }

    pub fn build(&self, b: &mut DocBuilder) -> (r: DocRef)
        requires
            old(b).wf(),
            self.wf(),
        ensures
            builds(*old(b), *final(b), r),
        decreases self,
    {
        let c = self.condition.build(b);
        proof {
            reveal_strlit("?");
            assert(single_line("?"@));
        }
        let q = b._txt_("?");
        let t = self.consequence.build(b);
        proof {
            reveal_strlit(":");
            assert(single_line(":"@));
        }
        let col = b._txt_(":");
        let a = self.alternative.build(b);
        b.concat(vec![c, q, t, col, a])
    }
}

pub struct TryStatement {
    pub body: Block,
    pub tail: TryStatementTail,
}

impl TryStatement {
    /// The value feeds only single-line text to the builder.
    pub open spec fn wf(self) -> bool
        decreases self,
    {
        &&& self.body.wf()
        &&& self.tail.wf()
    }

    pub fn build(&self, b: &mut DocBuilder) -> (r: DocRef)
        requires
            old(b).wf(),
            self.wf(),
        ensures
            builds(*old(b), *final(b), r),
        decreases self,
    {
        proof {
            reveal_strlit("try");
            assert(single_line("try"@));
        }
        let kw = b.txt_("try");
        let body = self.body.build(b);
        let tail = self.tail.build(b);
        b.concat(vec![kw, body, tail])
    }
}

pub enum TryStatementTail {
    Catches(Vec<CatchClause>),
    CatchesFinally(Vec<CatchClause>, FinallyClause),
}

impl TryStatementTail {
    /// The value feeds only single-line text to the builder.
    pub open spec fn wf(self) -> bool
        decreases self,
    {
        match self {
            TryStatementTail::Catches(v) => forall|k: int| 0 <= k < v@.len() ==> (#[trigger] v@[k]).wf(),
            TryStatementTail::CatchesFinally(v, f) => (forall|k: int| 0 <= k < v@.len() ==> (#[trigger] v@[k]).wf()) && f.wf(),
        }
    }

    pub fn build(&self, b: &mut DocBuilder) -> (r: DocRef)
        requires
            old(b).wf(),
            self.wf(),
        ensures
            builds(*old(b), *final(b), r),
        decreases self,
    {
        match self {
            TryStatementTail::Catches(v) => {
                let ghost b0 = *b;
                proof {
                    assert(decreases_to!(self => *v));
                }
                let mut docs: Vec<DocRef> = Vec::new();
                let mut i: usize = 0;
                proof {
                    assert(forall|k: int| 0 <= k < v@.len() ==> (#[trigger] v@[k]).wf());
                }
                while i < v.len()
                    invariant
                        forall|k: int| 0 <= k < v@.len() ==> (#[trigger] v@[k]).wf(),
                        b.wf(),
                        self.wf(),
                        b.config == b0.config,
                        extends(b0@, b@),
                        refs_in_bounds(docs@, b@.len() as int),
                        i <= v.len(),
                        decreases_to!(self => *v),
                    decreases v.len() - i,
                {
                    proof {
                        vstd::std_specs::vec::axiom_vec_index_decreases(*v, i as int);
                        assert(v@[i as int].wf());
                    }
                    let d = v[i].build(b);
                    docs.push(d);
                    i = i + 1;
                }
                let catches = b.concat(docs);
                b.concat(vec![catches])
            },
            TryStatementTail::CatchesFinally(v, f) => {
                let ghost b0 = *b;
                proof {
                    assert(decreases_to!(self => *v));
                }
                let mut docs: Vec<DocRef> = Vec::new();
                let mut i: usize = 0;
                proof {
                    assert(forall|k: int| 0 <= k < v@.len() ==> (#[trigger] v@[k]).wf());
                }
                while i < v.len()
                    invariant
                        forall|k: int| 0 <= k < v@.len() ==> (#[trigger] v@[k]).wf(),
                        b.wf(),
                        self.wf(),
                        b.config == b0.config,
                        extends(b0@, b@),
                        refs_in_bounds(docs@, b@.len() as int),
                        i <= v.len(),
                        decreases_to!(self => *v),
                    decreases v.len() - i,
                {
                    proof {
                        vstd::std_specs::vec::axiom_vec_index_decreases(*v, i as int);
                        assert(v@[i as int].wf());
                    }
                    let d = v[i].build(b);
                    docs.push(d);
                    i = i + 1;
                }
                let catches = b.concat(docs);
                let fin = f.build(b);
                b.concat(vec![catches, fin])
            },
        }
    }
}

pub struct CatchClause {
    pub formal_parameter: CatchFormalParameter,
    pub body: Block,
}

impl CatchClause {
    /// The value feeds only single-line text to the builder.
    pub open spec fn wf(self) -> bool
        decreases self,
    {
        &&& self.formal_parameter.wf()
        &&& self.body.wf()
    }

    pub fn build(&self, b: &mut DocBuilder) -> (r: DocRef)
        requires
            old(b).wf(),
            self.wf(),
        ensures
            builds(*old(b), *final(b), r),
        decreases self,
    {
        proof {
            reveal_strlit("catch");
            assert(single_line("catch"@));
        }
        let kw = b._txt_("catch");
        proof {
            reveal_strlit("(");
            assert(single_line("("@));
        }
        let o = b.txt("(");
        let fp = self.formal_parameter.build(b);
        proof {
            reveal_strlit(")");
            assert(single_line(")"@));
        }
        let c = b.txt_(")");
        let body = self.body.build(b);
        b.concat(vec![kw, o, fp, c, body])
    }
}

pub struct CatchFormalParameter {
    pub modifiers: Option<Modifiers>,
    pub type_: UnannotatedType,
    pub name: String,
    pub dimensions: Option<Dimensions>,
}

impl CatchFormalParameter {
    /// The value feeds only single-line text to the builder.
    pub open spec fn wf(self) -> bool
        decreases self,
    {
        &&& match self.modifiers { Some(n) => n.wf(), None => true }
        &&& self.type_.wf()
        &&& single_line(self.name@)
    }

    pub fn build(&self, b: &mut DocBuilder) -> (r: DocRef)
        requires
            old(b).wf(),
            self.wf(),
        ensures
            builds(*old(b), *final(b), r),
        decreases self,
    {
        let mut result: Vec<DocRef> = Vec::new();
        if let Some(n) = &self.modifiers {
            let d = n.build(b);
            result.push(d);
        }
        let d = self.type_.build(b);
        result.push(d);
        let d = b._txt(self.name.as_str());
        result.push(d);
        if let Some(dm) = &self.dimensions {
            proof {
                reveal_strlit(" ");
                assert(single_line(" "@));
            }
            let d = b.txt(" ");
            result.push(d);
            let d = dm.build(b);
            result.push(d);
        }
        b.concat(result)
    }
}

pub struct FinallyClause {
    pub body: Block,
}

impl FinallyClause {
    /// The value feeds only single-line text to the builder.
    pub open spec fn wf(self) -> bool
        decreases self,
    {
        &&& self.body.wf()
    }

    pub fn build(&self, b: &mut DocBuilder) -> (r: DocRef)
        requires
            old(b).wf(),
            self.wf(),
        ensures
            builds(*old(b), *final(b), r),
        decreases self,
    {
        proof {
            reveal_strlit("finally");
            assert(single_line("finally"@));
        }
        let kw = b._txt_("finally");
        let body = self.body.build(b);
        b.concat(vec![kw, body])
    }
}

pub struct StaticInitializer {
    pub block: Block,
}

impl StaticInitializer {
    /// The value feeds only single-line text to the builder.
    pub open spec fn wf(self) -> bool
        decreases self,
    {
        &&& self.block.wf()
    }

    pub fn build(&self, b: &mut DocBuilder) -> (r: DocRef)
        requires
            old(b).wf(),
            self.wf(),
        ensures
            builds(*old(b), *final(b), r),
        decreases self,
    {
        proof {
            reveal_strlit("static");
            assert(single_line("static"@));
        }
        let kw = b.txt_("static");
        let blk = self.block.build(b);
        b.concat(vec![kw, blk])
    }
}

pub struct InterfaceDeclaration {
    pub modifiers: Option<Modifiers>,
    pub name: String,
    pub type_parameters: Option<TypeParameters>,
    pub extends: Option<ExtendsInterface>,
    pub body: InterfaceBody,
}

impl InterfaceDeclaration {
    /// The value feeds only single-line text to the builder.
    pub open spec fn wf(self) -> bool
        decreases self,
    {
        &&& match self.modifiers { Some(n) => n.wf(), None => true }
        &&& single_line(self.name@)
        &&& match self.type_parameters { Some(n) => n.wf(), None => true }
        &&& match self.extends { Some(n) => n.wf(), None => true }
        &&& self.body.wf()
    }

    pub fn build(&self, b: &mut DocBuilder) -> (r: DocRef)
        requires
            old(b).wf(),
            self.wf(),
        ensures
            builds(*old(b), *final(b), r),
        decreases self,
    {
        let mut result: Vec<DocRef> = Vec::new();
        if let Some(n) = &self.modifiers {
            let d = n.build(b);
            result.push(d);
        }
        proof {
            reveal_strlit("interface");
            assert(single_line("interface"@));
        }
        let d = b.txt_("interface");
        result.push(d);
        let d = b.txt(self.name.as_str());
        result.push(d);
        if let Some(n) = &self.type_parameters {
            let d = n.build(b);
            result.push(d);
        }
        if let Some(n) = &self.extends {
            let d = n.build(b);
            result.push(d);
        }
        proof {
            reveal_strlit(" ");
            assert(single_line(" "@));
        }
        let d = b.txt(" ");
        result.push(d);
        let d = self.body.build(b);
        result.push(d);
        b.concat(result)
    }
}

pub struct ExtendsInterface {
    pub types: Vec<Type>,
}

impl ExtendsInterface {
    /// The value feeds only single-line text to the builder.
    pub open spec fn wf(self) -> bool
        decreases self,
    {
        &&& forall|k: int| 0 <= k < self.types@.len() ==> (#[trigger] self.types@[k]).wf()
    }

    pub fn build(&self, b: &mut DocBuilder) -> (r: DocRef)
        requires
            old(b).wf(),
            self.wf(),
        ensures
            builds(*old(b), *final(b), r),
        decreases self,
    {
        let ghost b0 = *b;
        let mut docs: Vec<DocRef> = Vec::new();
        let mut i: usize = 0;
        proof {
            assert(forall|k: int| 0 <= k < self.types@.len() ==> (#[trigger] self.types@[k]).wf());
        }
        while i < self.types.len()
            invariant
                forall|k: int| 0 <= k < self.types@.len() ==> (#[trigger] self.types@[k]).wf(),
                b.wf(),
                self.wf(),
                b.config == b0.config,
                extends(b0@, b@),
                refs_in_bounds(docs@, b@.len() as int),
                i <= self.types.len(),
            decreases self.types.len() - i,
        {
            proof {
                vstd::std_specs::vec::axiom_vec_index_decreases(self.types, i as int);
                assert(self.types@[i as int].wf());
            }
            let d = self.types[i].build(b);
            docs.push(d);
            i = i + 1;
        }
        proof {
            reveal_strlit(", ");
            assert(single_line(", "@));
        }
        let inner = b.intersperse_single_line(&docs, ", ");
        proof {
            reveal_strlit("extends");
            assert(single_line("extends"@));
        }
        let kw = b._txt_("extends");
        let grp = b.concat(vec![kw, inner]);
        b.concat(vec![grp])
    }
}

pub struct InterfaceBody {
    pub members: Vec<BodyMember<InterfaceMember>>,
}

impl InterfaceBody {
    /// The value feeds only single-line text to the builder.
    pub open spec fn wf(self) -> bool
        decreases self,
    {
        &&& forall|k: int| 0 <= k < self.members@.len() ==> (#[trigger] self.members@[k]).member.wf()
    }

    pub fn build(&self, b: &mut DocBuilder) -> (r: DocRef)
        requires
            old(b).wf(),
            self.wf(),
        ensures
            builds(*old(b), *final(b), r),
        decreases self,
    {
        let ghost b0 = *b;
        let mut mdocs: Vec<BodyMember<DocRef>> = Vec::new();
        let mut i: usize = 0;
        proof {
            assert(forall|k: int| 0 <= k < self.members@.len() ==> (#[trigger] self.members@[k]).member.wf());
        }
        while i < self.members.len()
            invariant
                forall|k: int| 0 <= k < self.members@.len() ==> (#[trigger] self.members@[k]).member.wf(),
                b.wf(),
                self.wf(),
                b.config == b0.config,
                extends(b0@, b@),
                members_in_bounds(mdocs@, b@.len() as int),
                i <= self.members.len(),
            decreases self.members.len() - i,
        {
            proof {
                vstd::std_specs::vec::axiom_vec_index_decreases(self.members, i as int);
                assert(self.members@[i as int].member.wf());
            }
            let d = self.members[i].member.build(b);
            let tn = self.members[i].has_trailing_newline;
            mdocs.push(BodyMember { member: d, has_trailing_newline: tn });
            i = i + 1;
        }
        proof {
            reveal_strlit("{");
            reveal_strlit("}");
            assert(single_line("{"@));
            assert(single_line("}"@));
        }
        b.surround_body(&mdocs, "{", "}")
    }
}

/// One member of an interface body; a stray semicolon renders as itself.
pub enum InterfaceMember {
    Constant(ConstantDeclaration),
    EnumD(EnumDeclaration),
    Method(MethodDeclaration),
    Class(ClassDeclaration),
    Interface(InterfaceDeclaration),
    Semicolon,
}

impl InterfaceMember {
    /// The value feeds only single-line text to the builder.
    pub open spec fn wf(self) -> bool
        decreases self,
    {
        match self {
            InterfaceMember::Constant(n) => n.wf(),
            InterfaceMember::EnumD(n) => n.wf(),
            InterfaceMember::Method(n) => n.wf(),
            InterfaceMember::Class(n) => n.wf(),
            InterfaceMember::Interface(n) => n.wf(),
            InterfaceMember::Semicolon => true,
        }
    }

    pub fn build(&self, b: &mut DocBuilder) -> (r: DocRef)
        requires
            old(b).wf(),
            self.wf(),
        ensures
            builds(*old(b), *final(b), r),
        decreases self,
    {
        match self {
            InterfaceMember::Constant(n) => n.build(b),
            InterfaceMember::EnumD(n) => n.build(b),
            InterfaceMember::Method(n) => n.build(b),
            InterfaceMember::Class(n) => n.build(b),
            InterfaceMember::Interface(n) => n.build(b),
            InterfaceMember::Semicolon => {
                proof {
                    reveal_strlit(";");
                    assert(single_line(";"@));
                }
                b.txt(";")
            },
        }
    }
}

pub struct ConstantDeclaration {
    pub modifiers: Option<Modifiers>,
    pub type_: UnannotatedType,
    pub declarators: Vec<VariableDeclarator>,
}

impl ConstantDeclaration {
    /// The value feeds only single-line text to the builder.
    pub open spec fn wf(self) -> bool
        decreases self,
    {
        &&& match self.modifiers { Some(n) => n.wf(), None => true }
        &&& self.type_.wf()
        &&& forall|k: int| 0 <= k < self.declarators@.len() ==> (#[trigger] self.declarators@[k]).wf()
    }

    pub fn build(&self, b: &mut DocBuilder) -> (r: DocRef)
        requires
            old(b).wf(),
            self.wf(),
        ensures
            builds(*old(b), *final(b), r),
        decreases self,
    {
        let mut result: Vec<DocRef> = Vec::new();
        if let Some(n) = &self.modifiers {
            let d = n.build(b);
            result.push(d);
        }
        let d = self.type_.build(b);
        result.push(d);
        proof {
            reveal_strlit(" ");
            assert(single_line(" "@));
        }
        let d = b.txt(" ");
        result.push(d);
        let ghost b0 = *b;
        let mut docs: Vec<DocRef> = Vec::new();
        let mut i: usize = 0;
        proof {
            assert(forall|k: int| 0 <= k < self.declarators@.len() ==> (#[trigger] self.declarators@[k]).wf());
        }
        while i < self.declarators.len()
            invariant
                forall|k: int| 0 <= k < self.declarators@.len() ==> (#[trigger] self.declarators@[k]).wf(),
                b.wf(),
                self.wf(),
                b.config == b0.config,
                extends(b0@, b@),
                refs_in_bounds(docs@, b@.len() as int),
                refs_in_bounds(result@, b@.len() as int),
                i <= self.declarators.len(),
            decreases self.declarators.len() - i,
        {
            proof {
                vstd::std_specs::vec::axiom_vec_index_decreases(self.declarators, i as int);
                assert(self.declarators@[i as int].wf());
            }
            let d = self.declarators[i].build(b);
            docs.push(d);
            i = i + 1;
        }
        let sl = b.softline();
        proof {
            reveal_strlit(",");
            assert(single_line(","@));
        }
        let sep = Insertable::new(None, Some(","), Some(sl));
        let inter = b.intersperse(&docs, sep);
        let d = b.group_then_indent(inter);
        result.push(d);
        proof {
            reveal_strlit(";");
            assert(single_line(";"@));
        }
        let d = b.txt(";");
        result.push(d);
        b.concat(result)
    }
}

pub struct AccessorList {
    pub accessor_declarations: Vec<AccessorDeclaration>,
    pub child_has_body_section: bool,
}

impl AccessorList {
    /// The value feeds only single-line text to the builder.
    pub open spec fn wf(self) -> bool
        decreases self,
    {
        &&& forall|k: int| 0 <= k < self.accessor_declarations@.len() ==> (#[trigger] self.accessor_declarations@[k]).wf()
    }

    pub fn build(&self, b: &mut DocBuilder) -> (r: DocRef)
        requires
            old(b).wf(),
            self.wf(),
        ensures
            builds(*old(b), *final(b), r),
        decreases self,
    {
        let ghost b0 = *b;
        let mut docs: Vec<DocRef> = Vec::new();
        let mut i: usize = 0;
        proof {
            assert(forall|k: int| 0 <= k < self.accessor_declarations@.len() ==> (#[trigger] self.accessor_declarations@[k]).wf());
        }
        while i < self.accessor_declarations.len()
            invariant
                forall|k: int| 0 <= k < self.accessor_declarations@.len() ==> (#[trigger] self.accessor_declarations@[k]).wf(),
                b.wf(),
                self.wf(),
                b.config == b0.config,
                extends(b0@, b@),
                refs_in_bounds(docs@, b@.len() as int),
                i <= self.accessor_declarations.len(),
            decreases self.accessor_declarations.len() - i,
        {
            proof {
                vstd::std_specs::vec::axiom_vec_index_decreases(self.accessor_declarations, i as int);
                assert(self.accessor_declarations@[i as int].wf());
            }
            let d = self.accessor_declarations[i].build(b);
            docs.push(d);
            i = i + 1;
        }
        if self.child_has_body_section {
            let nl1 = b.nl();
            let sep = Insertable::new(None, None, Some(nl1));
            let nl2 = b.nl();
            proof {
                reveal_strlit("{");
                assert(single_line("{"@));
            }
            let open_in = Insertable::new(None, Some("{"), Some(nl2));
            let nl3 = b.nl();
            proof {
                reveal_strlit("}");
                assert(single_line("}"@));
            }
            let close_in = Insertable::new(Some(nl3), Some("}"), None);
            b.group_surround(&docs, sep, open_in, close_in)
        } else {
            let sl1 = b.softline();
            let sep = Insertable::new(None, None, Some(sl1));
            let sl2 = b.softline();
            proof {
                reveal_strlit("{");
                assert(single_line("{"@));
            }
            let open_in = Insertable::new(None, Some("{"), Some(sl2));
            let sl3 = b.softline();
            proof {
                reveal_strlit("}");
                assert(single_line("}"@));
            }
            let close_in = Insertable::new(Some(sl3), Some("}"), None);
            b.group_surround(&docs, sep, open_in, close_in)
        }
    }
}

pub struct AccessorDeclaration {
    pub modifiers: Option<Modifiers>,
    pub accessor: String,
    pub body: Option<Block>,
}

impl AccessorDeclaration {
    /// The value feeds only single-line text to the builder.
    pub open spec fn wf(self) -> bool
        decreases self,
    {
        &&& match self.modifiers { Some(n) => n.wf(), None => true }
        &&& single_line(self.accessor@)
        &&& match self.body { Some(n) => n.wf(), None => true }
    }

    pub fn build(&self, b: &mut DocBuilder) -> (r: DocRef)
        requires
            old(b).wf(),
            self.wf(),
        ensures
            builds(*old(b), *final(b), r),
        decreases self,
    {
        let mut result: Vec<DocRef> = Vec::new();
        if let Some(n) = &self.modifiers {
            let d = n.build(b);
            result.push(d);
        }
        let d = b.txt(self.accessor.as_str());
        result.push(d);
        match &self.body {
            Some(n) => {
                proof {
                    reveal_strlit(" ");
                    assert(single_line(" "@));
                }
                let d = b.txt(" ");
                result.push(d);
                let d = n.build(b);
                result.push(d);
            },
            None => {
                proof {
                    reveal_strlit(";");
                    assert(single_line(";"@));
                }
                let d = b.txt(";");
                result.push(d);
            },
        }
        b.concat(result)
    }
}

pub struct CastExpression {
    pub type_: Type,
    pub value: Expression,
}

impl CastExpression {
    /// The value feeds only single-line text to the builder.
    pub open spec fn wf(self) -> bool
        decreases self,
    {
        &&& self.type_.wf()
        &&& self.value.wf()
    }

    pub fn build(&self, b: &mut DocBuilder) -> (r: DocRef)
        requires
            old(b).wf(),
            self.wf(),
        ensures
            builds(*old(b), *final(b), r),
        decreases self,
    {
        proof {
            reveal_strlit("(");
            assert(single_line("("@));
        }
        let o = b.txt("(");
        let t = self.type_.build(b);
        proof {
            reveal_strlit(")");
            assert(single_line(")"@));
        }
        let c = b.txt_(")");
        let v = self.value.build(b);
        b.concat(vec![o, t, c, v])
    }
}

pub struct ThrowStatement {
    pub exp: Expression,
}

impl ThrowStatement {
    /// The value feeds only single-line text to the builder.
    pub open spec fn wf(self) -> bool
        decreases self,
    {
        &&& self.exp.wf()
    }

    pub fn build(&self, b: &mut DocBuilder) -> (r: DocRef)
        requires
            old(b).wf(),
            self.wf(),
        ensures
            builds(*old(b), *final(b), r),
        decreases self,
    {
        proof {
            reveal_strlit("throw ");
            assert(single_line("throw "@));
        }
        let kw = b.txt("throw ");
        let e = self.exp.build(b);
        proof {
            reveal_strlit(";");
            assert(single_line(";"@));
        }
        let sc = b.txt(";");
        b.concat(vec![kw, e, sc])
    }
}

pub struct BreakStatement {
    pub identifier: Option<String>,
}

impl BreakStatement {
    /// The value feeds only single-line text to the builder.
    pub open spec fn wf(self) -> bool
        decreases self,
    {
        &&& match self.identifier { Some(s) => single_line(s@), None => true }
    }

    pub fn build(&self, b: &mut DocBuilder) -> (r: DocRef)
        requires
            old(b).wf(),
            self.wf(),
        ensures
            builds(*old(b), *final(b), r),
        decreases self,
    {
        let mut result: Vec<DocRef> = Vec::new();
        proof {
            reveal_strlit("break");
            assert(single_line("break"@));
        }
        let d = b.txt("break");
        result.push(d);
        if let Some(n) = &self.identifier {
            proof {
                reveal_strlit(" ");
                assert(single_line(" "@));
            }
            let d = b.txt(" ");
            result.push(d);
            let d = b.txt(n.as_str());
            result.push(d);
        }
        proof {
            reveal_strlit(";");
            assert(single_line(";"@));
        }
        let d = b.txt(";");
        result.push(d);
        b.concat(result)
    }
}

pub struct ContinueStatement {
    pub identifier: Option<String>,
}

impl ContinueStatement {
    /// The value feeds only single-line text to the builder.
    pub open spec fn wf(self) -> bool
        decreases self,
    {
        &&& match self.identifier { Some(s) => single_line(s@), None => true }
    }

    pub fn build(&self, b: &mut DocBuilder) -> (r: DocRef)
        requires
            old(b).wf(),
            self.wf(),
        ensures
            builds(*old(b), *final(b), r),
        decreases self,
    {
        let mut result: Vec<DocRef> = Vec::new();
        proof {
            reveal_strlit("continue");
            assert(single_line("continue"@));
        }
        let d = b.txt("continue");
        result.push(d);
        if let Some(n) = &self.identifier {
            proof {
                reveal_strlit(" ");
                assert(single_line(" "@));
            }
            let d = b.txt(" ");
            result.push(d);
            let d = b.txt(n.as_str());
            result.push(d);
        }
        proof {
            reveal_strlit(";");
            assert(single_line(";"@));
        }
        let d = b.txt(";");
        result.push(d);
        b.concat(result)
    }
}

pub struct SwitchExpression {
    pub condition: Expression,
    pub body: SwitchBlock,
}

impl SwitchExpression {
    /// The value feeds only single-line text to the builder.
    pub open spec fn wf(self) -> bool
        decreases self,
    {
        &&& self.condition.wf()
        &&& self.body.wf()
    }

    pub fn build(&self, b: &mut DocBuilder) -> (r: DocRef)
        requires
            old(b).wf(),
            self.wf(),
        ensures
            builds(*old(b), *final(b), r),
        decreases self,
    {
        proof {
            reveal_strlit("switch on");
            assert(single_line("switch on"@));
        }
        let kw = b.txt_("switch on");
        let c = self.condition.build(b);
        proof {
            reveal_strlit(" ");
            assert(single_line(" "@));
        }
        let sp = b.txt(" ");
        let body = self.body.build(b);
        b.concat(vec![kw, c, sp, body])
    }
}

pub struct SwitchBlock {
    pub rules: Vec<SwitchRule>,
}

impl SwitchBlock {
    /// The value feeds only single-line text to the builder.
    pub open spec fn wf(self) -> bool
        decreases self,
    {
        &&& forall|k: int| 0 <= k < self.rules@.len() ==> (#[trigger] self.rules@[k]).wf()
    }

    pub fn build(&self, b: &mut DocBuilder) -> (r: DocRef)
        requires
            old(b).wf(),
            self.wf(),
        ensures
            builds(*old(b), *final(b), r),
        decreases self,
    {
        let ghost b0 = *b;
        let mut docs: Vec<DocRef> = Vec::new();
        let mut i: usize = 0;
        proof {
            assert(forall|k: int| 0 <= k < self.rules@.len() ==> (#[trigger] self.rules@[k]).wf());
        }
        while i < self.rules.len()
            invariant
                forall|k: int| 0 <= k < self.rules@.len() ==> (#[trigger] self.rules@[k]).wf(),
                b.wf(),
                self.wf(),
                b.config == b0.config,
                extends(b0@, b@),
                refs_in_bounds(docs@, b@.len() as int),
                i <= self.rules.len(),
            decreases self.rules.len() - i,
        {
            proof {
                vstd::std_specs::vec::axiom_vec_index_decreases(self.rules, i as int);
                assert(self.rules@[i as int].wf());
            }
            let d = self.rules[i].build(b);
            docs.push(d);
            i = i + 1;
        }
        let nl1 = b.nl();
        proof {
            reveal_strlit("");
            assert(single_line(""@));
        }
        let sep = Insertable::new(None, Some(""), Some(nl1));
        let nl2 = b.nl();
        proof {
            reveal_strlit("{");
            assert(single_line("{"@));
        }
        let open_in = Insertable::new(None, Some("{"), Some(nl2));
        let nl3 = b.nl();
        proof {
            reveal_strlit("}");
            assert(single_line("}"@));
        }
        let close_in = Insertable::new(Some(nl3), Some("}"), None);
        b.surround(&docs, sep, open_in, close_in)
    }
}

pub struct SwitchRule {
    pub label: SwitchLabel,
    pub block: Block,
}

impl SwitchRule {
    /// The value feeds only single-line text to the builder.
    pub open spec fn wf(self) -> bool
        decreases self,
    {
        &&& self.label.wf()
        &&& self.block.wf()
    }

    pub fn build(&self, b: &mut DocBuilder) -> (r: DocRef)
        requires
            old(b).wf(),
            self.wf(),
        ensures
            builds(*old(b), *final(b), r),
        decreases self,
    {
        let l = self.label.build(b);
        proof {
            reveal_strlit(" ");
            assert(single_line(" "@));
        }
        let sp = b.txt(" ");
        let blk = self.block.build(b);
        b.concat(vec![l, sp, blk])
    }
}

pub enum SwitchLabel {
    SObjects(Vec<SObjectVar>),
    Expressions(Vec<Expression>),
    Else,
}

impl SwitchLabel {
    /// The value feeds only single-line text to the builder.
    pub open spec fn wf(self) -> bool
        decreases self,
    {
        match self {
            SwitchLabel::SObjects(v) => forall|k: int| 0 <= k < v@.len() ==> (#[trigger] v@[k]).wf(),
            SwitchLabel::Expressions(v) => forall|k: int| 0 <= k < v@.len() ==> (#[trigger] v@[k]).wf(),
            SwitchLabel::Else => true,
        }
    }

    pub fn build(&self, b: &mut DocBuilder) -> (r: DocRef)
        requires
            old(b).wf(),
            self.wf(),
        ensures
            builds(*old(b), *final(b), r),
        decreases self,
    {
        proof {
            reveal_strlit("when");
            assert(single_line("when"@));
        }
        let kw = b.txt_("when");
        match self {
            SwitchLabel::SObjects(v) => {
                let ghost b0 = *b;
                let mut docs: Vec<DocRef> = Vec::new();
                let mut i: usize = 0;
                proof {
                    assert(forall|k: int| 0 <= k < v@.len() ==> (#[trigger] v@[k]).wf());
                }
                while i < v.len()
                    invariant
                        forall|k: int| 0 <= k < v@.len() ==> (#[trigger] v@[k]).wf(),
                        b.wf(),
                        self.wf(),
                        b.config == b0.config,
                        extends(b0@, b@),
                        refs_in_bounds(docs@, b@.len() as int),
                        (kw as int) < b@.len(),
                        i <= v.len(),
                    decreases v.len() - i,
                {
                    proof {
                        vstd::std_specs::vec::axiom_vec_index_decreases(*v, i as int);
                        assert(v@[i as int].wf());
                    }
                    let d = v[i].build(b);
                    docs.push(d);
                    i = i + 1;
                }
                proof {
                    reveal_strlit(", ");
                    assert(single_line(", "@));
                }
                let inner = b.intersperse_single_line(&docs, ", ");
                b.concat(vec![kw, inner])
            },
            SwitchLabel::Expressions(v) => {
                let ghost b0 = *b;
                proof {
                    assert(decreases_to!(self => *v));
                }
                let mut docs: Vec<DocRef> = Vec::new();
                let mut i: usize = 0;
                proof {
                    assert(forall|k: int| 0 <= k < v@.len() ==> (#[trigger] v@[k]).wf());
                }
                while i < v.len()
                    invariant
                        forall|k: int| 0 <= k < v@.len() ==> (#[trigger] v@[k]).wf(),
                        b.wf(),
                        self.wf(),
                        b.config == b0.config,
                        extends(b0@, b@),
                        refs_in_bounds(docs@, b@.len() as int),
                        (kw as int) < b@.len(),
                        i <= v.len(),
                        decreases_to!(self => *v),
                    decreases v.len() - i,
                {
                    proof {
                        vstd::std_specs::vec::axiom_vec_index_decreases(*v, i as int);
                        assert(v@[i as int].wf());
                    }
                    let d = v[i].build(b);
                    docs.push(d);
                    i = i + 1;
                }
                proof {
                    reveal_strlit(", ");
                    assert(single_line(", "@));
                }
                let inner = b.intersperse_single_line(&docs, ", ");
                b.concat(vec![kw, inner])
            },
            SwitchLabel::Else => {
                proof {
                    reveal_strlit("else");
                    assert(single_line("else"@));
                }
                let e = b.txt("else");
                b.concat(vec![kw, e])
            },
        }
    }
}

pub struct SObjectVar {
    pub unannotated_type: Option<UnannotatedType>,
    pub identifier: String,
}

impl SObjectVar {
    /// The value feeds only single-line text to the builder.
    pub open spec fn wf(self) -> bool
        decreases self,
    {
        &&& match self.unannotated_type { Some(n) => n.wf(), None => true }
        &&& single_line(self.identifier@)
    }

    pub fn build(&self, b: &mut DocBuilder) -> (r: DocRef)
        requires
            old(b).wf(),
            self.wf(),
        ensures
            builds(*old(b), *final(b), r),
        decreases self,
    {
        let mut result: Vec<DocRef> = Vec::new();
        if let Some(n) = &self.unannotated_type {
            let d = n.build(b);
            result.push(d);
            proof {
                reveal_strlit(" ");
                assert(single_line(" "@));
            }
            let d = b.txt(" ");
            result.push(d);
        }
        let d = b.txt(self.identifier.as_str());
        result.push(d);
        b.concat(result)
    }
}

pub struct InstanceOfExpression {
    pub left: Expression,
    pub right: Type,
}

impl InstanceOfExpression {
    /// The value feeds only single-line text to the builder.
    pub open spec fn wf(self) -> bool
        decreases self,
    {
        &&& self.left.wf()
        &&& self.right.wf()
    }

    pub fn build(&self, b: &mut DocBuilder) -> (r: DocRef)
        requires
            old(b).wf(),
            self.wf(),
        ensures
            builds(*old(b), *final(b), r),
        decreases self,
    {
        let l = self.left.build(b);
        proof {
            reveal_strlit("instanceof");
            assert(single_line("instanceof"@));
        }
        let kw = b._txt_("instanceof");
        let rr = self.right.build(b);
        b.concat(vec![l, kw, rr])
    }
}

/// A reference to the running package version.
pub struct VersionExpression {}

impl VersionExpression {
    pub fn build(&self, b: &mut DocBuilder) -> (r: DocRef)
        requires
            old(b).wf(),
        ensures
            builds(*old(b), *final(b), r),
    {
        proof {
            reveal_strlit("Package.Version.Request");
            assert(single_line("Package.Version.Request"@));
        }
        b.txt("Package.Version.Request")
    }
}

pub struct JavaFieldAccess {
    pub field_access: FieldAccess,
}

impl JavaFieldAccess {
    /// The value feeds only single-line text to the builder.
    pub open spec fn wf(self) -> bool
        decreases self,
    {
        &&& self.field_access.wf()
    }

    pub fn build(&self, b: &mut DocBuilder) -> (r: DocRef)
        requires
            old(b).wf(),
            self.wf(),
        ensures
            builds(*old(b), *final(b), r),
        decreases self,
    {
        proof {
            reveal_strlit("java:");
            assert(single_line("java:"@));
        }
        let kw = b.txt("java:");
        let fa = self.field_access.build(b);
        b.concat(vec![kw, fa])
    }
}

pub struct JavaType {
    pub scoped_type_identifier: ScopedTypeIdentifier,
}

impl JavaType {
    /// The value feeds only single-line text to the builder.
    pub open spec fn wf(self) -> bool
        decreases self,
    {
        &&& self.scoped_type_identifier.wf()
    }

    pub fn build(&self, b: &mut DocBuilder) -> (r: DocRef)
        requires
            old(b).wf(),
            self.wf(),
        ensures
            builds(*old(b), *final(b), r),
        decreases self,
    {
        proof {
            reveal_strlit("java:");
            assert(single_line("java:"@));
        }
        let kw = b.txt("java:");
        let sti = self.scoped_type_identifier.build(b);
        b.concat(vec![kw, sti])
    }
}

pub struct ArrayType {
    pub element: UnannotatedType,
    pub dimensions: Dimensions,
}

impl ArrayType {
    /// The value feeds only single-line text to the builder.
    pub open spec fn wf(self) -> bool
        decreases self,
    {
        &&& self.element.wf()
    }

    pub fn build(&self, b: &mut DocBuilder) -> (r: DocRef)
        requires
            old(b).wf(),
            self.wf(),
        ensures
            builds(*old(b), *final(b), r),
        decreases self,
    {
        let e = self.element.build(b);
        let d = self.dimensions.build(b);
        b.concat(vec![e, d])
    }
}

pub struct TriggerDeclaration {
    pub name: String,
    pub object: String,
    pub events: Vec<TriggerEvent>,
    pub body: TriggerBody,
}

impl TriggerDeclaration {
    /// The value feeds only single-line text to the builder.
    pub open spec fn wf(self) -> bool
        decreases self,
    {
        &&& single_line(self.name@)
        &&& single_line(self.object@)
        &&& self.body.wf()
    }

    pub fn build(&self, b: &mut DocBuilder) -> (r: DocRef)
        requires
            old(b).wf(),
            self.wf(),
        ensures
            builds(*old(b), *final(b), r),
        decreases self,
    {
        let mut result: Vec<DocRef> = Vec::new();
        proof {
            reveal_strlit("trigger");
            assert(single_line("trigger"@));
        }
        let d = b.txt_("trigger");
        result.push(d);
        let d = b.txt(self.name.as_str());
        result.push(d);
        proof {
            reveal_strlit("on");
            assert(single_line("on"@));
        }
        let d = b._txt_("on");
        result.push(d);
        let d = b.txt(self.object.as_str());
        result.push(d);
        let ghost b0 = *b;
        let mut docs: Vec<DocRef> = Vec::new();
        let mut i: usize = 0;
        while i < self.events.len()
            invariant
                b.wf(),
                self.wf(),
                b.config == b0.config,
                extends(b0@, b@),
                refs_in_bounds(docs@, b@.len() as int),
                refs_in_bounds(result@, b@.len() as int),
                i <= self.events.len(),
            decreases self.events.len() - i,
        {
            proof {
                vstd::std_specs::vec::axiom_vec_index_decreases(self.events, i as int);
            }
            let d = self.events[i].build(b);
            docs.push(d);
            i = i + 1;
        }
        let sl = b.softline();
        proof {
            reveal_strlit(",");
            assert(single_line(","@));
        }
        let sep = Insertable::new(None, Some(","), Some(sl));
        let ml1 = b.maybeline();
        proof {
            reveal_strlit("(");
            assert(single_line("("@));
        }
        let open_in = Insertable::new(None, Some("("), Some(ml1));
        let ml2 = b.maybeline();
        proof {
            reveal_strlit(")");
            assert(single_line(")"@));
        }
        let close_in = Insertable::new(Some(ml2), Some(")"), None);
        let d = b.group_surround(&docs, sep, open_in, close_in);
        result.push(d);
        proof {
            reveal_strlit(" ");
            assert(single_line(" "@));
        }
        let d = b.txt(" ");
        result.push(d);
        let d = self.body.build(b);
        result.push(d);
        b.concat(result)
    }
}

pub struct TriggerBody {
    pub block: Block,
}

impl TriggerBody {
    /// The value feeds only single-line text to the builder.
    pub open spec fn wf(self) -> bool
        decreases self,
    {
        &&& self.block.wf()
    }

    pub fn build(&self, b: &mut DocBuilder) -> (r: DocRef)
        requires
            old(b).wf(),
            self.wf(),
        ensures
            builds(*old(b), *final(b), r),
        decreases self,
    {
        let d = self.block.build(b);
        b.concat(vec![d])
    }
}

pub struct BoundApexExpression {
    pub exp: Box<Expression>,
}

impl BoundApexExpression {
    /// The value feeds only single-line text to the builder.
    pub open spec fn wf(self) -> bool
        decreases self,
    {
        &&& self.exp.wf()
    }

    pub fn build(&self, b: &mut DocBuilder) -> (r: DocRef)
        requires
            old(b).wf(),
            self.wf(),
        ensures
            builds(*old(b), *final(b), r),
        decreases self,
    {
        proof {
            reveal_strlit(":");
            assert(single_line(":"@));
        }
        let c = b.txt(":");
        let e = self.exp.build(b);
        b.concat(vec![c, e])
    }
}

pub struct MapCreationExpression {
    pub type_: SimpleType,
    pub value: MapInitializer,
}

impl MapCreationExpression {
    /// The value feeds only single-line text to the builder.
    pub open spec fn wf(self) -> bool
        decreases self,
    {
        &&& self.type_.wf()
        &&& self.value.wf()
    }

    pub fn build(&self, b: &mut DocBuilder) -> (r: DocRef)
        requires
            old(b).wf(),
            self.wf(),
        ensures
            builds(*old(b), *final(b), r),
        decreases self,
    {
        proof {
            reveal_strlit("new");
            assert(single_line("new"@));
        }
        let kw = b.txt_("new");
        let t = self.type_.build(b);
        let v = self.value.build(b);
        b.concat(vec![kw, t, v])
    }
}

pub struct MapInitializer {
    pub initializers: Vec<MapKeyInitializer>,
}

impl MapInitializer {
    /// The value feeds only single-line text to the builder.
    pub open spec fn wf(self) -> bool
        decreases self,
    {
        &&& forall|k: int| 0 <= k < self.initializers@.len() ==> (#[trigger] self.initializers@[k]).wf()
    }

    pub fn build(&self, b: &mut DocBuilder) -> (r: DocRef)
        requires
            old(b).wf(),
            self.wf(),
        ensures
            builds(*old(b), *final(b), r),
        decreases self,
    {
        let ghost b0 = *b;
        let mut docs: Vec<DocRef> = Vec::new();
        let mut i: usize = 0;
        proof {
            assert(forall|k: int| 0 <= k < self.initializers@.len() ==> (#[trigger] self.initializers@[k]).wf());
        }
        while i < self.initializers.len()
            invariant
                forall|k: int| 0 <= k < self.initializers@.len() ==> (#[trigger] self.initializers@[k]).wf(),
                b.wf(),
                self.wf(),
                b.config == b0.config,
                extends(b0@, b@),
                refs_in_bounds(docs@, b@.len() as int),
                i <= self.initializers.len(),
            decreases self.initializers.len() - i,
        {
            proof {
                vstd::std_specs::vec::axiom_vec_index_decreases(self.initializers, i as int);
                assert(self.initializers@[i as int].wf());
            }
            let d = self.initializers[i].build(b);
            docs.push(d);
            i = i + 1;
        }
        let sl = b.softline();
        proof {
            reveal_strlit(",");
            assert(single_line(","@));
        }
        let sep = Insertable::new(None, Some(","), Some(sl));
        let sl2 = b.softline();
        proof {
            reveal_strlit("{");
            assert(single_line("{"@));
        }
        let open_in = Insertable::new(None, Some("{"), Some(sl2));
        let sl3 = b.softline();
        proof {
            reveal_strlit("}");
            assert(single_line("}"@));
        }
        let close_in = Insertable::new(Some(sl3), Some("}"), None);
        b.group_surround(&docs, sep, open_in, close_in)
    }
}

pub struct MapKeyInitializer {
    pub exp1: Box<Expression>,
    pub exp2: Box<Expression>,
}

impl MapKeyInitializer {
    /// The value feeds only single-line text to the builder.
    pub open spec fn wf(self) -> bool
        decreases self,
    {
        &&& self.exp1.wf()
        &&& self.exp2.wf()
    }

    pub fn build(&self, b: &mut DocBuilder) -> (r: DocRef)
        requires
            old(b).wf(),
            self.wf(),
        ensures
            builds(*old(b), *final(b), r),
        decreases self,
    {
        let e1 = self.exp1.build(b);
        proof {
            reveal_strlit("=>");
            assert(single_line("=>"@));
        }
        let a = b._txt_("=>");
        let e2 = self.exp2.build(b);
        b.concat(vec![e1, a, e2])
    }
}

} // verus!
