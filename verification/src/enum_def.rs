//! The enum side of the data model: one variant per alternative a grammar
//! production offers, each with a `build` method that emits the builder
//! calls describing its layout. Every `build` leaves the arena well-formed
//! and only ever appends to it (`builds` in the contracts).
use crate::data_model::{
    Annotation, AnnotationKeyValue, ArrayAccess, ArrayCreationExpression, ArrayInitializer,
    ArrayType, AssignmentExpression, BinaryExpression, Block, BreakStatement, CastExpression,
    ClassDeclaration, ConstructorDeclaration, ContinueStatement, DmlExpression, DoStatement,
    EnhancedForStatement, EnumDeclaration, FieldAccess, FieldDeclaration, ForStatement,
    GenericType, IfStatement, InstanceOfExpression, InterfaceDeclaration, JavaFieldAccess,
    JavaType, LocalVariableDeclaration, MethodDeclaration, MethodInvocation,
    ObjectCreationExpression, ParenthesizedExpression, ReturnStatement, RunAsStatement,
    ScopedTypeIdentifier, StaticInitializer, SwitchExpression, TernaryExpression, This,
    ThrowStatement, TriggerDeclaration, TryStatement, UnaryExpression, UpdateExpression,
    VersionExpression, VoidType, WhileStatement,
};
use crate::doc::{extends, single_line, DocRef};
use crate::doc_builder::{builds, refs_in_bounds, DocBuilder, Insertable};
use vstd::prelude::*;

verus! {

broadcast use vstd::std_specs::vec::group_vec_axioms;

/// A top-level declaration of a source file.
pub enum RootMember {
    Class(Box<ClassDeclaration>),
    Enum(Box<EnumDeclaration>),
    Interface(Box<InterfaceDeclaration>),
    Trigger(Box<TriggerDeclaration>),
}

impl RootMember {
    /// The value feeds only single-line text to the builder.
    pub open spec fn wf(self) -> bool
        decreases self,
    {
        match self {
            RootMember::Class(n) => n.wf(),
            RootMember::Enum(n) => n.wf(),
            RootMember::Interface(n) => n.wf(),
            RootMember::Trigger(n) => n.wf(),
        }
    }

    pub fn build(&self, b: &mut DocBuilder) -> (r: DocRef)
        requires
            old(b).wf(),
            self.wf(),
        ensures
            builds(*old(b), *final(b), r),
        decreases self,
    {
        match self {
            RootMember::Class(n) => {
                n.build(b)
            },
            RootMember::Enum(n) => {
                n.build(b)
            },
            RootMember::Interface(n) => {
                n.build(b)
            },
            RootMember::Trigger(n) => {
                n.build(b)
            },
        }
    }
}

/// One member of a class body.
pub enum ClassMember {
    Field(Box<FieldDeclaration>),
    NestedClass(Box<ClassDeclaration>),
    Method(Box<MethodDeclaration>),
    Block(Box<Block>),
    Interface(Box<InterfaceDeclaration>),
    Enum(EnumDeclaration),
    Static(StaticInitializer),
    Constructor(ConstructorDeclaration),
}

impl ClassMember {
    /// The value feeds only single-line text to the builder.
    pub open spec fn wf(self) -> bool
        decreases self,
    {
        match self {
            ClassMember::Field(n) => n.wf(),
            ClassMember::NestedClass(n) => n.wf(),
            ClassMember::Method(n) => n.wf(),
            ClassMember::Block(n) => n.wf(),
            ClassMember::Interface(n) => n.wf(),
            ClassMember::Enum(n) => n.wf(),
            ClassMember::Static(n) => n.wf(),
            ClassMember::Constructor(n) => n.wf(),
        }
    }

    pub fn build(&self, b: &mut DocBuilder) -> (r: DocRef)
        requires
            old(b).wf(),
            self.wf(),
        ensures
            builds(*old(b), *final(b), r),
        decreases self,
    {
        match self {
            ClassMember::Field(n) => {
                n.build(b)
            },
            ClassMember::NestedClass(n) => {
                n.build(b)
            },
            ClassMember::Method(n) => {
                n.build(b)
            },
            ClassMember::Interface(n) => {
                n.build(b)
            },
            ClassMember::Block(n) => {
                n.build(b)
            },
            ClassMember::Constructor(n) => {
                n.build(b)
            },
            ClassMember::Enum(n) => {
                n.build(b)
            },
            ClassMember::Static(n) => {
                n.build(b)
            },
        }
    }
}

/// A type without annotations: either simple or an array type.
pub enum UnannotatedType {
    Simple(SimpleType),
    Array(Box<ArrayType>),
}

impl UnannotatedType {
    /// The value feeds only single-line text to the builder.
    pub open spec fn wf(self) -> bool
        decreases self,
    {
        match self {
            UnannotatedType::Simple(n) => n.wf(),
            UnannotatedType::Array(n) => n.wf(),
        }
    }

    pub fn build(&self, b: &mut DocBuilder) -> (r: DocRef)
        requires
            old(b).wf(),
            self.wf(),
        ensures
            builds(*old(b), *final(b), r),
        decreases self,
    {
        match self {
            UnannotatedType::Simple(n) => {
                n.build(b)
            },
            UnannotatedType::Array(n) => {
                n.build(b)
            },
        }
    }
}

pub enum SimpleType {
    Identifier(String),
    Void(VoidType),
    Generic(GenericType),
    Scoped(ScopedTypeIdentifier),
    Java(JavaType),
}

impl SimpleType {
    /// The value feeds only single-line text to the builder.
    pub open spec fn wf(self) -> bool
        decreases self,
    {
        match self {
            SimpleType::Identifier(s) => single_line(s@),
            SimpleType::Void(n) => n.wf(),
            SimpleType::Generic(n) => n.wf(),
            SimpleType::Scoped(n) => n.wf(),
            SimpleType::Java(n) => n.wf(),
        }
    }

    pub fn build(&self, b: &mut DocBuilder) -> (r: DocRef)
        requires
            old(b).wf(),
            self.wf(),
        ensures
            builds(*old(b), *final(b), r),
        decreases self,
    {
        match self {
            SimpleType::Identifier(n) => {
                b.txt(n.as_str())
            },
            SimpleType::Java(n) => {
                n.build(b)
            },
            SimpleType::Void(n) => {
                b.txt(n.value.as_str())
            },
            SimpleType::Generic(n) => {
                n.build(b)
            },
            SimpleType::Scoped(n) => {
                n.build(b)
            },
        }
    }
}

pub enum VariableInitializer {
    Exp(Expression),
    Array(Box<ArrayInitializer>),
}

impl VariableInitializer {
    /// The value feeds only single-line text to the builder.
    pub open spec fn wf(self) -> bool
        decreases self,
    {
        match self {
            VariableInitializer::Exp(n) => n.wf(),
            VariableInitializer::Array(n) => n.wf(),
        }
    }

    pub fn build(&self, b: &mut DocBuilder) -> (r: DocRef)
        requires
            old(b).wf(),
            self.wf(),
        ensures
            builds(*old(b), *final(b), r),
        decreases self,
    {
        match self {
            VariableInitializer::Exp(n) => {
                n.build(b)
            },
            VariableInitializer::Array(n) => {
                n.build(b)
            },
        }
    }
}

/// Any expression of the language.
pub enum Expression {
    Assignment(Box<AssignmentExpression>),
    Binary(Box<BinaryExpression>),
    Primary(Box<PrimaryExpression>),
    Update(UpdateExpression),
    Unary(UnaryExpression),
    Dml(Box<DmlExpression>),
    Te(Box<TernaryExpression>),
    Cast(Box<CastExpression>),
    Instance(Box<InstanceOfExpression>),
}

impl Expression {
    /// The value feeds only single-line text to the builder.
    pub open spec fn wf(self) -> bool
        decreases self,
    {
        match self {
            Expression::Assignment(n) => n.wf(),
            Expression::Binary(n) => n.wf(),
            Expression::Primary(n) => n.wf(),
            Expression::Update(n) => n.wf(),
            Expression::Unary(n) => n.wf(),
            Expression::Dml(n) => n.wf(),
            Expression::Te(n) => n.wf(),
            Expression::Cast(n) => n.wf(),
            Expression::Instance(n) => n.wf(),
        }
    }

    pub fn build(&self, b: &mut DocBuilder) -> (r: DocRef)
        requires
            old(b).wf(),
            self.wf(),
        ensures
            builds(*old(b), *final(b), r),
        decreases self,
    {
        match self {
            Expression::Assignment(n) => {
                n.build(b)
            },
            Expression::Binary(n) => {
                n.build(b)
            },
            Expression::Primary(n) => {
                n.build(b)
            },
            Expression::Update(n) => {
                n.build(b)
            },
            Expression::Unary(n) => {
                n.build(b)
            },
            Expression::Dml(n) => {
                n.build(b)
            },
            Expression::Te(n) => {
                n.build(b)
            },
            Expression::Cast(n) => {
                n.build(b)
            },
            Expression::Instance(n) => {
                n.build(b)
            },
        }
    }
}

pub enum PrimaryExpression {
    Literal(Literal_),
    Identifier(String),
    Method(MethodInvocation),
    Parenth(ParenthesizedExpression),
    Obj(ObjectCreationExpression),
    Field(FieldAccess),
    Array(Box<ArrayAccess>),
    ArrayCreation(ArrayCreationExpression),
    Version(VersionExpression),
    This(This),
    Java(JavaFieldAccess),
}

impl PrimaryExpression {
    /// The value feeds only single-line text to the builder.
    pub open spec fn wf(self) -> bool
        decreases self,
    {
        match self {
            PrimaryExpression::Literal(n) => n.wf(),
            PrimaryExpression::Identifier(s) => single_line(s@),
            PrimaryExpression::Method(n) => n.wf(),
            PrimaryExpression::Parenth(n) => n.wf(),
            PrimaryExpression::Obj(n) => n.wf(),
            PrimaryExpression::Field(n) => n.wf(),
            PrimaryExpression::Array(n) => n.wf(),
            PrimaryExpression::ArrayCreation(n) => n.wf(),
            PrimaryExpression::Version(_) => true,
            PrimaryExpression::This(_) => true,
            PrimaryExpression::Java(n) => n.wf(),
        }
    }

    pub fn build(&self, b: &mut DocBuilder) -> (r: DocRef)
        requires
            old(b).wf(),
            self.wf(),
        ensures
            builds(*old(b), *final(b), r),
        decreases self,
    {
        match self {
            PrimaryExpression::Literal(n) => {
                n.build(b)
            },
            PrimaryExpression::Identifier(n) => {
                b.txt(n.as_str())
            },
            PrimaryExpression::Method(n) => {
                n.build(b)
            },
            PrimaryExpression::Parenth(n) => {
                n.build(b)
            },
            PrimaryExpression::Obj(n) => {
                n.build(b)
            },
            PrimaryExpression::Field(n) => {
                n.build(b)
            },
            PrimaryExpression::Array(n) => {
                n.build(b)
            },
            PrimaryExpression::ArrayCreation(n) => {
                n.build(b)
            },
            PrimaryExpression::Version(n) => {
                n.build(b)
            },
            PrimaryExpression::Java(n) => {
                n.build(b)
            },
            PrimaryExpression::This(n) => {
                n.build(b)
            },
        }
    }
}

pub enum Literal_ {
    Bool(String),
    Null,
    Int(String),
    Decimal(String),
    Str(String),
}

impl Literal_ {
    /// The value feeds only single-line text to the builder.
    pub open spec fn wf(self) -> bool
        decreases self,
    {
        match self {
            Literal_::Bool(s) => single_line(s@),
            Literal_::Null => true,
            Literal_::Int(s) => single_line(s@),
            Literal_::Decimal(s) => single_line(s@),
            Literal_::Str(s) => single_line(s@),
        }
    }

    pub fn build(&self, b: &mut DocBuilder) -> (r: DocRef)
        requires
            old(b).wf(),
            self.wf(),
        ensures
            builds(*old(b), *final(b), r),
        decreases self,
    {
        match self {
            Literal_::Bool(n) => {
                b.txt(n.as_str())
            },
            Literal_::Null => {
                proof {
                    reveal_strlit("null");
                    assert(single_line("null"@));
                }
                b.txt("null")
            },
            Literal_::Int(n) => {
                b.txt(n.as_str())
            },
            Literal_::Decimal(n) => {
                b.txt(n.as_str())
            },
            Literal_::Str(n) => {
                b.txt(n.as_str())
            },
        }
    }
}

pub enum Modifier {
    Abstract,
    Final,
    Global,
    InheritedSharing,
    Override,
    Private,
    Protected,
    Public,
    Static,
    TestMethod,
    Transient,
    Virtual,
    Webservice,
    WithSharing,
    WithoutSharing,
}

impl Modifier {
    pub fn build(&self, b: &mut DocBuilder) -> (r: DocRef)
        requires
            old(b).wf(),
        ensures
            builds(*old(b), *final(b), r),
        decreases self,
    {
        match self {
            Modifier::Abstract => {
                proof {
                    reveal_strlit("abstract");
                    assert(single_line("abstract"@));
                }
                b.txt("abstract")
            },
            Modifier::Final => {
                proof {
                    reveal_strlit("final");
                    assert(single_line("final"@));
                }
                b.txt("final")
            },
            Modifier::Global => {
                proof {
                    reveal_strlit("global");
                    assert(single_line("global"@));
                }
                b.txt("global")
            },
            Modifier::InheritedSharing => {
                proof {
                    reveal_strlit("inherited sharing");
                    assert(single_line("inherited sharing"@));
                }
                b.txt("inherited sharing")
            },
            Modifier::Override => {
                proof {
                    reveal_strlit("override");
                    assert(single_line("override"@));
                }
                b.txt("override")
            },
            Modifier::Private => {
                proof {
                    reveal_strlit("private");
                    assert(single_line("private"@));
                }
                b.txt("private")
            },
            Modifier::Protected => {
                proof {
                    reveal_strlit("protected");
                    assert(single_line("protected"@));
                }
                b.txt("protected")
            },
            Modifier::Public => {
                proof {
                    reveal_strlit("public");
                    assert(single_line("public"@));
                }
                b.txt("public")
            },
            Modifier::Static => {
                proof {
                    reveal_strlit("static");
                    assert(single_line("static"@));
                }
                b.txt("static")
            },
            Modifier::TestMethod => {
                proof {
                    reveal_strlit("testmethod");
                    assert(single_line("testmethod"@));
                }
                b.txt("testmethod")
            },
            Modifier::Transient => {
                proof {
                    reveal_strlit("transient");
                    assert(single_line("transient"@));
                }
                b.txt("transient")
            },
            Modifier::Virtual => {
                proof {
                    reveal_strlit("virtual");
                    assert(single_line("virtual"@));
                }
                b.txt("virtual")
            },
            Modifier::Webservice => {
                proof {
                    reveal_strlit("webserivce");
                    assert(single_line("webserivce"@));
                }
                b.txt("webserivce")
            },
            Modifier::WithSharing => {
                proof {
                    reveal_strlit("with sharing");
                    assert(single_line("with sharing"@));
                }
                b.txt("with sharing")
            },
            Modifier::WithoutSharing => {
                proof {
                    reveal_strlit("without sharing");
                    assert(single_line("without sharing"@));
                }
                b.txt("without sharing")
            },
        }
    }
}

/// Any statement of the language.
pub enum Statement {
    If(Box<IfStatement>),
    Exp(Expression),
    Local(LocalVariableDeclaration),
    Block(Box<Block>),
    For(Box<ForStatement>),
    EnhancedFor(Box<EnhancedForStatement>),
    Run(RunAsStatement),
    Do(Box<DoStatement>),
    While(Box<WhileStatement>),
    Return(ReturnStatement),
    Try(Box<TryStatement>),
    Throw(ThrowStatement),
    Break(BreakStatement),
    Continue(ContinueStatement),
    Switch(Box<SwitchExpression>),
    SemiColumn,
}

impl Statement {
    /// The value feeds only single-line text to the builder.
    pub open spec fn wf(self) -> bool
        decreases self,
    {
        match self {
            Statement::If(n) => n.wf(),
            Statement::Exp(n) => n.wf(),
            Statement::Local(n) => n.wf(),
            Statement::Block(n) => n.wf(),
            Statement::For(n) => n.wf(),
            Statement::EnhancedFor(n) => n.wf(),
            Statement::Run(n) => n.wf(),
            Statement::Do(n) => n.wf(),
            Statement::While(n) => n.wf(),
            Statement::Return(n) => n.wf(),
            Statement::Try(n) => n.wf(),
            Statement::Throw(n) => n.wf(),
            Statement::Break(n) => n.wf(),
            Statement::Continue(n) => n.wf(),
            Statement::Switch(n) => n.wf(),
            Statement::SemiColumn => true,
        }
    }

    /// Whether this statement is a braced block.
    pub fn is_block(&self) -> (r: bool)
        ensures
            r == (self matches Statement::Block(_)),
    {
        matches!(self, Statement::Block(_))
    }

    pub fn build(&self, b: &mut DocBuilder) -> (r: DocRef)
        requires
            old(b).wf(),
            self.wf(),
        ensures
            builds(*old(b), *final(b), r),
        decreases self,
    {
        match self {
            Statement::If(n) => {
                n.build(b)
            },
            Statement::Exp(n) => {
                let d = n.build(b);
                proof {
                    reveal_strlit(";");
                    assert(single_line(";"@));
                }
                let t = b.txt(";");
                b.concat(vec![d, t])
            },
            Statement::Local(n) => {
                let d = n.build(b);
                proof {
                    reveal_strlit(";");
                    assert(single_line(";"@));
                }
                let t = b.txt(";");
                b.concat(vec![d, t])
            },
            Statement::Block(n) => {
                n.build(b)
            },
            Statement::For(n) => {
                n.build(b)
            },
            Statement::EnhancedFor(n) => {
                n.build(b)
            },
            Statement::Run(n) => {
                n.build(b)
            },
            Statement::Do(n) => {
                n.build(b)
            },
            Statement::While(n) => {
                n.build(b)
            },
            Statement::Return(n) => {
                n.build(b)
            },
            Statement::Try(n) => {
                n.build(b)
            },
            Statement::Throw(n) => {
                n.build(b)
            },
            Statement::Break(n) => {
                n.build(b)
            },
            Statement::Continue(n) => {
                n.build(b)
            },
            Statement::Switch(n) => {
                n.build(b)
            },
            Statement::SemiColumn => {
                proof {
                    reveal_strlit(";");
                    assert(single_line(";"@));
                }
                b.txt(";")
            },
        }
    }
}

pub enum Type {
    Unannotated(UnannotatedType),
}

impl Type {
    /// The value feeds only single-line text to the builder.
    pub open spec fn wf(self) -> bool
        decreases self,
    {
        match self {
            Type::Unannotated(u) => u.wf(),
        }
    }

    pub fn build(&self, b: &mut DocBuilder) -> (r: DocRef)
        requires
            old(b).wf(),
            self.wf(),
        ensures
            builds(*old(b), *final(b), r),
        decreases self,
    {
        match self {
            Type::Unannotated(u) => {
                u.build(b)
            },
        }
    }
}

pub enum PropertyNavigation {
    SafeNavigationOperator,
    Dot,
}

impl PropertyNavigation {
    pub fn build(&self, b: &mut DocBuilder) -> (r: DocRef)
        requires
            old(b).wf(),
        ensures
            builds(*old(b), *final(b), r),
        decreases self,
    {
        match self {
            PropertyNavigation::SafeNavigationOperator => {
                proof {
                    reveal_strlit("?.");
                    assert(single_line("?."@));
                }
                b.txt("?.")
            },
            PropertyNavigation::Dot => {
                proof {
                    reveal_strlit(".");
                    assert(single_line("."@));
                }
                b.txt(".")
            },
        }
    }
}

pub enum AnnotationArgumentList {
    Nil,
    Value(String),
    KeyValues(Vec<AnnotationKeyValue>),
}

impl AnnotationArgumentList {
    /// The value feeds only single-line text to the builder.
    pub open spec fn wf(self) -> bool
        decreases self,
    {
        match self {
            AnnotationArgumentList::Nil => true,
            AnnotationArgumentList::Value(s) => single_line(s@),
            AnnotationArgumentList::KeyValues(vs) => forall|k: int| 0 <= k < vs@.len() ==> (#[trigger] vs@[k]).wf(),
        }
    }

    pub fn build(&self, b: &mut DocBuilder) -> (r: DocRef)
        requires
            old(b).wf(),
            self.wf(),
        ensures
            builds(*old(b), *final(b), r),
        decreases self,
    {
        match self {
            AnnotationArgumentList::Nil => {
                let empty: Vec<DocRef> = Vec::new();
                b.concat(empty)
            },
            AnnotationArgumentList::Value(v) => {
                proof {
                    reveal_strlit("(");
                    assert(single_line("("@));
                }
                let t1 = b.txt("(");
                let t2 = b.txt(v.as_str());
                proof {
                    reveal_strlit(")");
                    assert(single_line(")"@));
                }
                let t3 = b.txt(")");
                b.concat(vec![t1, t2, t3])
            },
            AnnotationArgumentList::KeyValues(vs) => {
                if vs.len() == 0 {
                    let empty: Vec<DocRef> = Vec::new();
                    b.concat(empty)
                } else {
                    let ghost b0 = *b;
                    let mut docs: Vec<DocRef> = Vec::new();
                    let mut i: usize = 0;
                    proof {
                        assert(forall|k: int| 0 <= k < vs@.len() ==> (#[trigger] vs@[k]).wf());
                    }
                    while i < vs.len()
                        invariant
                            forall|k: int| 0 <= k < vs@.len() ==> (#[trigger] vs@[k]).wf(),
                            b.wf(),
                            self.wf(),
                            b.config == b0.config,
                            extends(b0@, b@),
                            refs_in_bounds(docs@, b@.len() as int),
                            i <= vs.len(),
                        decreases vs.len() - i,
                    {
                        proof {
                            vstd::std_specs::vec::axiom_vec_index_decreases(*vs, i as int);
                            assert(vs@[i as int].wf());
                        }
                        let d = vs[i].build(b);
                        docs.push(d);
                        i = i + 1;
                    }
                    proof {
                        reveal_strlit("(");
                        assert(single_line("("@));
                    }
                    let t1 = b.txt("(");
                    proof {
                        reveal_strlit(" ");
                        assert(single_line(" "@));
                    }
                    let inner = b.intersperse_single_line(&docs, " ");
                    proof {
                        reveal_strlit(")");
                        assert(single_line(")"@));
                    }
                    let t2 = b.txt(")");
                    b.concat(vec![t1, inner, t2])
                }
            },
        }
    }
}

pub enum TriggerEvent {
    BeforeInsert,
    BeforeUpdate,
    BeforeDelete,
    AfterInsert,
    AfterUpdate,
    AfterDelete,
    AfterUndelete,
}

impl TriggerEvent {
    pub fn build(&self, b: &mut DocBuilder) -> (r: DocRef)
        requires
            old(b).wf(),
        ensures
            builds(*old(b), *final(b), r),
        decreases self,
    {
        match self {
            TriggerEvent::BeforeInsert => {
                proof {
                    reveal_strlit("before insert");
                    assert(single_line("before insert"@));
                }
                b.txt("before insert")
            },
            TriggerEvent::BeforeUpdate => {
                proof {
                    reveal_strlit("before update");
                    assert(single_line("before update"@));
                }
                b.txt("before update")
            },
            TriggerEvent::BeforeDelete => {
                proof {
                    reveal_strlit("before delete");
                    assert(single_line("before delete"@));
                }
                b.txt("before delete")
            },
            TriggerEvent::AfterInsert => {
                proof {
                    reveal_strlit("after insert");
                    assert(single_line("after insert"@));
                }
                b.txt("after insert")
            },
            TriggerEvent::AfterUpdate => {
                proof {
                    reveal_strlit("after update");
                    assert(single_line("after update"@));
                }
                b.txt("after update")
            },
            TriggerEvent::AfterDelete => {
                proof {
                    reveal_strlit("after delete");
                    assert(single_line("after delete"@));
                }
                b.txt("after delete")
            },
            TriggerEvent::AfterUndelete => {
                proof {
                    reveal_strlit("after undelete");
                    assert(single_line("after undelete"@));
                }
                b.txt("after undelete")
            },
        }
    }
}

} // verus!
