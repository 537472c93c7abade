//! The data model: literal values, the type lattice and the declarations a
//! class is built from, each with the mathematical view that contracts use.

use vstd::prelude::*;
use vstd::string::*;
use crate::literal::{decimal_of, push_decimal};

verus! {

/// A literal value as it stands after parsing.
///
/// A floating-point literal is kept as its decimal text, exactly as written.
#[derive(Debug, PartialEq)]
pub enum Value {
    Default,
    Nullptr,
    Char(u8),
    Bool(bool),
    Float(String),
    Str(String),
    Integer(i64),
}

/// Mathematical view of a [`Value`].
pub enum ValueView {
    Default,
    Nullptr,
    Char(u8),
    Bool(bool),
    Float(Seq<char>),
    Str(Seq<char>),
    Integer(i64),
}

impl View for Value {
    type V = ValueView;

    open spec fn view(&self) -> ValueView {
        match *self {
            Value::Default => ValueView::Default,
            Value::Nullptr => ValueView::Nullptr,
            Value::Char(c) => ValueView::Char(c),
            Value::Bool(b) => ValueView::Bool(b),
            Value::Float(t) => ValueView::Float(t@),
            Value::Str(t) => ValueView::Str(t@),
            Value::Integer(i) => ValueView::Integer(i),
        }
    }
}

/// View of an optional value.
pub open spec fn view_opt_value(v: Option<Value>) -> Option<ValueView> {
    match v {
        Some(x) => Some(x@),
        None => None,
    }
}

/// A type of the closed lattice: a primitive, a wrapper around an inner type,
/// or a reference to a class by name.
#[derive(Debug, PartialEq)]
pub enum Type {
    Void,
    Char,
    Bool,
    Float,
    String,
    Integer,
    Array(Box<Type>),
    Matrix(Box<Type>),
    Pointer(Box<Type>, u32),
    Reference(Box<Type>),
    Class(String),
}

/// Mathematical view of a [`Type`].
pub enum TypeView {
    Void,
    Char,
    Bool,
    Float,
    String,
    Integer,
    Array(Box<TypeView>),
    Matrix(Box<TypeView>),
    Pointer(Box<TypeView>, u32),
    Reference(Box<TypeView>),
    Class(Seq<char>),
}

/// The view of a type, wrapper by wrapper.
pub open spec fn type_view(t: Type) -> TypeView
    decreases t,
{
    match t {
        Type::Void => TypeView::Void,
        Type::Char => TypeView::Char,
        Type::Bool => TypeView::Bool,
        Type::Float => TypeView::Float,
        Type::String => TypeView::String,
        Type::Integer => TypeView::Integer,
        Type::Array(inner) => TypeView::Array(Box::new(type_view(*inner))),
        Type::Matrix(inner) => TypeView::Matrix(Box::new(type_view(*inner))),
        Type::Pointer(inner, depth) => TypeView::Pointer(Box::new(type_view(*inner)), depth),
        Type::Reference(inner) => TypeView::Reference(Box::new(type_view(*inner))),
        Type::Class(name) => TypeView::Class(name@),
    }
}

impl View for Type {
    type V = TypeView;

    open spec fn view(&self) -> TypeView {
        type_view(*self)
    }
}

/// A named annotation with an optional value.
#[derive(Debug, PartialEq)]
pub struct Property {
    pub meta: bool,
    pub name: String,
    pub value: Option<Value>,
}

/// Mathematical view of a [`Property`].
pub struct PropertyView {
    pub meta: bool,
    pub name: Seq<char>,
    pub value: Option<ValueView>,
}

impl View for Property {
    type V = PropertyView;

    open spec fn view(&self) -> PropertyView {
        PropertyView { meta: self.meta, name: self.name@, value: view_opt_value(self.value) }
    }
}

/// Views of a list of properties, in order.
pub open spec fn view_properties(v: Seq<Property>) -> Seq<PropertyView> {
    v.map_values(|p: Property| p@)
}

/// A method argument; its type is kept as the text that was written.
#[derive(Debug, PartialEq)]
pub struct Argument {
    pub properties: Vec<Property>,
    pub name: String,
    pub typ: String,
    pub value: Option<Value>,
}

/// Mathematical view of an [`Argument`].
pub struct ArgumentView {
    pub properties: Seq<PropertyView>,
    pub name: Seq<char>,
    pub typ: Seq<char>,
    pub value: Option<ValueView>,
}

impl View for Argument {
    type V = ArgumentView;

    open spec fn view(&self) -> ArgumentView {
        ArgumentView {
            properties: view_properties(self.properties@),
            name: self.name@,
            typ: self.typ@,
            value: view_opt_value(self.value),
        }
    }
}

/// Views of a list of arguments, in order.
pub open spec fn view_arguments(v: Seq<Argument>) -> Seq<ArgumentView> {
    v.map_values(|a: Argument| a@)
}

/// A field of a class.
#[derive(Debug, PartialEq)]
pub struct Field {
    pub is_static: bool,
    pub properties: Vec<Property>,
    pub name: String,
    pub typ: Type,
    pub value: Option<Value>,
}

/// Mathematical view of a [`Field`].
pub struct FieldView {
    pub is_static: bool,
    pub properties: Seq<PropertyView>,
    pub name: Seq<char>,
    pub typ: TypeView,
    pub value: Option<ValueView>,
}

impl View for Field {
    type V = FieldView;

    open spec fn view(&self) -> FieldView {
        FieldView {
            is_static: self.is_static,
            properties: view_properties(self.properties@),
            name: self.name@,
            typ: self.typ@,
            value: view_opt_value(self.value),
        }
    }
}

/// A method of a class; its return type is kept as the text that was written.
#[derive(Debug, PartialEq)]
pub struct Method {
    pub is_static: bool,
    pub properties: Vec<Property>,
    pub name: String,
    pub returns: String,
    pub arguments: Vec<Argument>,
}

/// Mathematical view of a [`Method`].
pub struct MethodView {
    pub is_static: bool,
    pub properties: Seq<PropertyView>,
    pub name: Seq<char>,
    pub returns: Seq<char>,
    pub arguments: Seq<ArgumentView>,
}

impl View for Method {
    type V = MethodView;

    open spec fn view(&self) -> MethodView {
        MethodView {
            is_static: self.is_static,
            properties: view_properties(self.properties@),
            name: self.name@,
            returns: self.returns@,
            arguments: view_arguments(self.arguments@),
        }
    }
}

/// One entry of a block: a nested block or a leaf.
#[derive(Debug, PartialEq)]
pub enum Declaration {
    Block(Block),
    Field(Field),
    Method(Method),
}

/// A brace-delimited group of declarations that share properties.
#[derive(Debug, PartialEq)]
pub struct Block {
    pub properties: Vec<Property>,
    pub inner: Vec<Declaration>,
}

/// Mathematical view of a [`Declaration`].
pub enum DeclarationView {
    Block(BlockView),
    Field(FieldView),
    Method(MethodView),
}

/// Mathematical view of a [`Block`].
pub struct BlockView {
    pub properties: Seq<PropertyView>,
    pub inner: Seq<DeclarationView>,
}

/// The view of a declaration, through every nested block.
pub open spec fn declaration_view(d: Declaration) -> DeclarationView
    decreases d,
{
    match d {
        Declaration::Block(b) => DeclarationView::Block(block_view(b)),
        Declaration::Field(f) => DeclarationView::Field(f@),
        Declaration::Method(m) => DeclarationView::Method(m@),
    }
}

/// The view of a block, through every nested block.
pub open spec fn block_view(b: Block) -> BlockView
    decreases b,
{
    BlockView {
        properties: view_properties(b.properties@),
        inner: Seq::new(
            b.inner@.len(),
            |i: int|
                if 0 <= i < b.inner.len() {
                    declaration_view(b.inner[i])
                } else {
                    arbitrary()
                },
        ),
    }
}

impl View for Declaration {
    type V = DeclarationView;

    open spec fn view(&self) -> DeclarationView {
        declaration_view(*self)
    }
}

impl View for Block {
    type V = BlockView;

    open spec fn view(&self) -> BlockView {
        block_view(*self)
    }
}

/// A class: its own properties, its name, the names of its base classes with
/// the primary base first, and its declarations.
///
/// The properties written in front of the class belong to the class alone:
/// the block `inner` has none of its own, so that normalizing it hands none
/// of them down to the fields and methods.
#[derive(Debug, PartialEq)]
pub struct Class {
    pub properties: Vec<Property>,
    pub name: String,
    pub inherit: Vec<String>,
    pub inner: Block,
}

/// Mathematical view of a [`Class`].
pub struct ClassView {
    pub properties: Seq<PropertyView>,
    pub name: Seq<char>,
    pub inherit: Seq<Seq<char>>,
    pub inner: BlockView,
}

/// Views of a list of names, in order.
pub open spec fn view_names(v: Seq<String>) -> Seq<Seq<char>> {
    v.map_values(|n: String| n@)
}

impl View for Class {
    type V = ClassView;

    open spec fn view(&self) -> ClassView {
        ClassView {
            properties: view_properties(self.properties@),
            name: self.name@,
            inherit: view_names(self.inherit@),
            inner: self.inner@,
        }
    }
}

/// The classes of one source text, in the order in which they are written.
#[derive(Debug, PartialEq)]
pub struct TranslationUnit(pub Vec<Class>);

/// Views of a list of classes, in order.
pub open spec fn view_classes(v: Seq<Class>) -> Seq<ClassView> {
    v.map_values(|c: Class| c@)
}

impl View for TranslationUnit {
    type V = Seq<ClassView>;

    open spec fn view(&self) -> Seq<ClassView> {
        view_classes(self.0@)
    }
}

impl Clone for Value {
    fn clone(&self) -> (copy: Value)
        ensures
            copy@ == self@,
    {
        match self {
            Value::Default => Value::Default,
            Value::Nullptr => Value::Nullptr,
            Value::Char(c) => Value::Char(*c),
            Value::Bool(b) => Value::Bool(*b),
            Value::Float(t) => Value::Float(t.clone()),
            Value::Str(t) => Value::Str(t.clone()),
            Value::Integer(i) => Value::Integer(*i),
        }
    }
}

/// Copies an optional value.
pub fn clone_opt_value(v: &Option<Value>) -> (copy: Option<Value>)
    ensures
        view_opt_value(copy) == view_opt_value(*v),
{
    match v {
        Some(x) => Some(x.clone()),
        None => None,
    }
}

impl Clone for Type {
    fn clone(&self) -> (copy: Type)
        ensures
            copy@ == self@,
        decreases *self,
    {
        match self {
            Type::Void => Type::Void,
            Type::Char => Type::Char,
            Type::Bool => Type::Bool,
            Type::Float => Type::Float,
            Type::String => Type::String,
            Type::Integer => Type::Integer,
            Type::Array(inner) => Type::Array(Box::new((&**inner).clone())),
            Type::Matrix(inner) => Type::Matrix(Box::new((&**inner).clone())),
            Type::Pointer(inner, depth) => Type::Pointer(Box::new((&**inner).clone()), *depth),
            Type::Reference(inner) => Type::Reference(Box::new((&**inner).clone())),
            Type::Class(name) => Type::Class(name.clone()),
        }
    }
}

impl Clone for Property {
    fn clone(&self) -> (copy: Property)
        ensures
            copy@ == self@,
    {
        Property {
            meta: self.meta,
            name: self.name.clone(),
            value: clone_opt_value(&self.value),
        }
    }
}

/// Copies a list of properties.
pub fn clone_properties(v: &Vec<Property>) -> (copy: Vec<Property>)
    ensures
        view_properties(copy@) == view_properties(v@),
{
    let mut copy: Vec<Property> = Vec::new();
    let mut i: usize = 0;
    while i < v.len()
        invariant
            i <= v.len(),
            copy@.len() == i,
            forall|j: int| 0 <= j < i ==> copy@[j]@ == v@[j]@,
        decreases v.len() - i,
    {
        copy.push(v[i].clone());
        i += 1;
    }
    assert(view_properties(copy@) =~= view_properties(v@));
    copy
}

impl Clone for Argument {
    fn clone(&self) -> (copy: Argument)
        ensures
            copy@ == self@,
    {
        Argument {
            properties: clone_properties(&self.properties),
            name: self.name.clone(),
            typ: self.typ.clone(),
            value: clone_opt_value(&self.value),
        }
    }
}

/// Copies a list of arguments.
pub fn clone_arguments(v: &Vec<Argument>) -> (copy: Vec<Argument>)
    ensures
        view_arguments(copy@) == view_arguments(v@),
{
    let mut copy: Vec<Argument> = Vec::new();
    let mut i: usize = 0;
    while i < v.len()
        invariant
            i <= v.len(),
            copy@.len() == i,
            forall|j: int| 0 <= j < i ==> copy@[j]@ == v@[j]@,
        decreases v.len() - i,
    {
        copy.push(v[i].clone());
        i += 1;
    }
    assert(view_arguments(copy@) =~= view_arguments(v@));
    copy
}

impl Clone for Field {
    fn clone(&self) -> (copy: Field)
        ensures
            copy@ == self@,
    {
        Field {
            is_static: self.is_static,
            properties: clone_properties(&self.properties),
            name: self.name.clone(),
            typ: self.typ.clone(),
            value: clone_opt_value(&self.value),
        }
    }
}

impl Clone for Method {
    fn clone(&self) -> (copy: Method)
        ensures
            copy@ == self@,
    {
        Method {
            is_static: self.is_static,
            properties: clone_properties(&self.properties),
            name: self.name.clone(),
            returns: self.returns.clone(),
            arguments: clone_arguments(&self.arguments),
        }
    }
}

/// Views of a list of declarations, in order.
pub open spec fn view_declarations(v: Seq<Declaration>) -> Seq<DeclarationView> {
    v.map_values(|d: Declaration| d@)
}

/// The view of a block lists the views of its entries.
pub proof fn lemma_block_view_inner(b: Block)
    ensures
        b@.inner == view_declarations(b.inner@),
        b@.properties == view_properties(b.properties@),
{
    assert(b@.inner =~= view_declarations(b.inner@));
}

impl Clone for Block {
    fn clone(&self) -> (copy: Block)
        ensures
            copy@ == self@,
        decreases *self,
    {
        let mut inner: Vec<Declaration> = Vec::new();
        let mut i: usize = 0;
        while i < self.inner.len()
            invariant
                i <= self.inner.len(),
                inner@.len() == i,
                forall|j: int| 0 <= j < i ==> inner@[j]@ == self.inner@[j]@,
            decreases self.inner.len() - i,
        {
            let d = match &self.inner[i] {
                Declaration::Block(b) => Declaration::Block(b.clone()),
                Declaration::Field(f) => Declaration::Field(f.clone()),
                Declaration::Method(m) => Declaration::Method(m.clone()),
            };
            inner.push(d);
            i += 1;
        }
        let copy = Block { properties: clone_properties(&self.properties), inner };
        proof {
            lemma_block_view_inner(copy);
            lemma_block_view_inner(*self);
            assert(view_declarations(copy.inner@) =~= view_declarations(self.inner@));
        }
        copy
    }
}

impl Clone for Declaration {
    fn clone(&self) -> (copy: Declaration)
        ensures
            copy@ == self@,
    {
        match self {
            Declaration::Block(b) => Declaration::Block(b.clone()),
            Declaration::Field(f) => Declaration::Field(f.clone()),
            Declaration::Method(m) => Declaration::Method(m.clone()),
        }
    }
}

/// Copies a list of names.
pub fn clone_names(v: &Vec<String>) -> (copy: Vec<String>)
    ensures
        view_names(copy@) == view_names(v@),
{
    let mut copy: Vec<String> = Vec::new();
    let mut i: usize = 0;
    while i < v.len()
        invariant
            i <= v.len(),
            copy@.len() == i,
            forall|j: int| 0 <= j < i ==> copy@[j]@ == v@[j]@,
        decreases v.len() - i,
    {
        copy.push(v[i].clone());
        i += 1;
    }
    assert(view_names(copy@) =~= view_names(v@));
    copy
}

impl Clone for Class {
    fn clone(&self) -> (copy: Class)
        ensures
            copy@ == self@,
    {
        Class {
            properties: clone_properties(&self.properties),
            name: self.name.clone(),
            inherit: clone_names(&self.inherit),
            inner: self.inner.clone(),
        }
    }
}

/// The name of the kind of a value.
pub open spec fn value_kind(v: ValueView) -> Seq<char> {
    match v {
        ValueView::Default => "default"@,
        ValueView::Nullptr => "nullptr"@,
        ValueView::Char(_) => "char"@,
        ValueView::Bool(_) => "bool"@,
        ValueView::Float(_) => "float"@,
        ValueView::Str(_) => "string"@,
        ValueView::Integer(_) => "integer"@,
    }
}

/// A value as it is written into generated code. A string keeps its quotes
/// and a number with a fraction the text it was written with.
pub open spec fn value_text(v: ValueView) -> Seq<char> {
    match v {
        ValueView::Default => "(*void)0"@,
        ValueView::Nullptr => "nullptr"@,
        ValueView::Char(c) => "(char)"@ + decimal_of(c as int),
        ValueView::Bool(b) => if b {
            "true"@
        } else {
            "false"@
        },
        ValueView::Float(t) => t,
        ValueView::Str(t) => t,
        ValueView::Integer(i) => decimal_of(i as int),
    }
}

impl Value {
    /// The name of the kind of the value.
    pub fn pure(&mut self) -> (name: String)
        ensures
            name@ == value_kind(old(self)@),
            *final(self) == *old(self),
    {
        match self {
            Value::Default => String::from_str("default"),
            Value::Nullptr => String::from_str("nullptr"),
            Value::Char(_) => String::from_str("char"),
            Value::Bool(_) => String::from_str("bool"),
            Value::Float(_) => String::from_str("float"),
            Value::Str(_) => String::from_str("string"),
            Value::Integer(_) => String::from_str("integer"),
        }
    }

    /// Tells whether no literal was written.
    pub fn is_empty(&mut self) -> (yes: bool)
        ensures
            yes == (old(self)@ is Default),
            *final(self) == *old(self),
    {
        match self {
            Value::Default => true,
            _ => false,
        }
    }

    /// The value as it is written into generated code.
    pub fn print(&mut self) -> (text: String)
        ensures
            text@ == value_text(old(self)@),
            *final(self) == *old(self),
    {
        self.to_text()
    }

    /// The value as it is written into generated code.
    pub fn to_text(&self) -> (text: String)
        ensures
            text@ == value_text(self@),
    {
        match self {
            Value::Default => String::from_str("(*void)0"),
            Value::Nullptr => String::from_str("nullptr"),
            Value::Char(c) => {
                let mut text = String::from_str("(char)");
                push_decimal(&mut text, *c as i64);
                text
            },
            Value::Bool(true) => String::from_str("true"),
            Value::Bool(false) => String::from_str("false"),
            Value::Float(t) => t.clone(),
            Value::Str(t) => t.clone(),
            Value::Integer(i) => {
                let mut text = String::new();
                push_decimal(&mut text, *i);
                assert(text@ =~= decimal_of(*i as int));
                text
            },
        }
    }
}

/// One of the six primitive types.
pub open spec fn is_primitive_type(t: TypeView) -> bool {
    t is Void || t is Char || t is Bool || t is Float || t is String || t is Integer
}

/// The name of the kind of a type; for a class, the name of the class.
pub open spec fn type_kind(t: TypeView) -> Seq<char> {
    match t {
        TypeView::Void => "none"@,
        TypeView::Char => "char"@,
        TypeView::Bool => "bool"@,
        TypeView::Float => "float"@,
        TypeView::String => "string"@,
        TypeView::Integer => "integer"@,
        TypeView::Array(_) => "array"@,
        TypeView::Matrix(_) => "matrix"@,
        TypeView::Pointer(_, _) => "pointer"@,
        TypeView::Reference(_) => "reference"@,
        TypeView::Class(name) => name,
    }
}

/// What stands one level inside a type: the wrapped type of a wrapper, and
/// the class itself for a class. A primitive has nothing inside.
pub open spec fn inner_type(t: TypeView) -> Option<TypeView> {
    match t {
        TypeView::Array(inner) => Some(*inner),
        TypeView::Matrix(inner) => Some(*inner),
        TypeView::Pointer(inner, _) => Some(*inner),
        TypeView::Reference(inner) => Some(*inner),
        TypeView::Class(_) => Some(t),
        _ => None,
    }
}

impl Type {
    /// Tells whether the type is one of the six primitives.
    pub fn is_primitive(&mut self) -> (yes: bool)
        ensures
            yes == is_primitive_type(old(self)@),
            *final(self) == *old(self),
    {
        match self {
            Type::Void | Type::Char | Type::Bool => true,
            Type::Float | Type::String | Type::Integer => true,
            _ => false,
        }
    }

    /// The name of the kind of the type; for a class, its name.
    pub fn pure(&mut self) -> (name: String)
        ensures
            name@ == type_kind(old(self)@),
            *final(self) == *old(self),
    {
        match self {
            Type::Void => String::from_str("none"),
            Type::Char => String::from_str("char"),
            Type::Bool => String::from_str("bool"),
            Type::Float => String::from_str("float"),
            Type::String => String::from_str("string"),
            Type::Integer => String::from_str("integer"),
            Type::Array(_) => String::from_str("array"),
            Type::Matrix(_) => String::from_str("matrix"),
            Type::Pointer(_, _) => String::from_str("pointer"),
            Type::Reference(_) => String::from_str("reference"),
            Type::Class(c) => c.clone(),
        }
    }

    /// The type one level inside: what a wrapper wraps, and the class itself
    /// for a class. It must not be asked of a primitive.
    pub fn inner(&mut self) -> (t: Type)
        requires
            !is_primitive_type(old(self)@),
        ensures
            Some(t@) == inner_type(old(self)@),
            *final(self) == *old(self),
    {
        match self {
            Type::Array(b) => (&**b).clone(),
            Type::Matrix(m) => (&**m).clone(),
            Type::Pointer(p, _) => (&**p).clone(),
            Type::Reference(r) => (&**r).clone(),
            Type::Class(c) => Type::Class(c.clone()),
            _ => Type::Void,
        }
    }
}

impl Property {
    /// A copy of the name.
    pub fn get_name(&mut self) -> (name: String)
        ensures
            name@ == old(self)@.name,
            *final(self) == *old(self),
    {
        self.name.clone()
    }

    /// A copy of the value, if there is one.
    pub fn get_value(&mut self) -> (value: Option<Value>)
        ensures
            view_opt_value(value) == old(self)@.value,
            *final(self) == *old(self),
    {
        clone_opt_value(&self.value)
    }
}

impl Field {
    /// A copy of the properties.
    pub fn get_properties(&mut self) -> (properties: Vec<Property>)
        ensures
            view_properties(properties@) == old(self)@.properties,
            *final(self) == *old(self),
    {
        clone_properties(&self.properties)
    }

    /// A copy of the name.
    pub fn get_name(&mut self) -> (name: String)
        ensures
            name@ == old(self)@.name,
            *final(self) == *old(self),
    {
        self.name.clone()
    }

    /// A copy of the type.
    pub fn get_type(&mut self) -> (typ: Type)
        ensures
            typ@ == old(self)@.typ,
            *final(self) == *old(self),
    {
        self.typ.clone()
    }

    /// The value of the field, and `Default` if none is written.
    pub fn get_value(&mut self) -> (value: Value)
        ensures
            value@ == match old(self)@.value {
                Some(v) => v,
                None => ValueView::Default,
            },
            *final(self) == *old(self),
    {
        match &self.value {
            Some(v) => v.clone(),
            None => Value::Default,
        }
    }

    /// Tells whether the field is static.
    pub fn get_is_static(&mut self) -> (is_static: bool)
        ensures
            is_static == old(self)@.is_static,
            *final(self) == *old(self),
    {
        self.is_static
    }
}

impl Argument {
    /// A copy of the properties.
    pub fn get_properties(&mut self) -> (properties: Vec<Property>)
        ensures
            view_properties(properties@) == old(self)@.properties,
            *final(self) == *old(self),
    {
        clone_properties(&self.properties)
    }

    /// A copy of the name.
    pub fn get_name(&mut self) -> (name: String)
        ensures
            name@ == old(self)@.name,
            *final(self) == *old(self),
    {
        self.name.clone()
    }

    /// A copy of the type, as it was written.
    pub fn get_type(&mut self) -> (typ: String)
        ensures
            typ@ == old(self)@.typ,
            *final(self) == *old(self),
    {
        self.typ.clone()
    }

    /// A copy of the value, if there is one.
    pub fn get_value(&mut self) -> (value: Option<Value>)
        ensures
            view_opt_value(value) == old(self)@.value,
            *final(self) == *old(self),
    {
        clone_opt_value(&self.value)
    }
}

/// The properties of `props` whose `meta` mark is `meta`, in order.
pub open spec fn marked(props: Seq<PropertyView>, meta: bool) -> Seq<PropertyView>
    decreases props.len(),
{
    if props.len() == 0 {
        Seq::empty()
    } else if props.last().meta == meta {
        marked(props.drop_last(), meta).push(props.last())
    } else {
        marked(props.drop_last(), meta)
    }
}

/// Copies the properties whose `meta` mark is `meta`.
fn select_marked(props: &Vec<Property>, meta: bool) -> (found: Vec<Property>)
    ensures
        view_properties(found@) == marked(view_properties(props@), meta),
{
    let ghost all = view_properties(props@);
    let mut found: Vec<Property> = Vec::new();
    assert(view_properties(found@) =~= Seq::empty());
    assert(all.take(0) =~= Seq::empty());
    let mut i: usize = 0;
    while i < props.len()
        invariant
            i <= props.len(),
            all == view_properties(props@),
            view_properties(found@) == marked(all.take(i as int), meta),
        decreases props.len() - i,
    {
        proof {
            assert(all.take(i + 1).drop_last() =~= all.take(i as int));
        }
        if props[i].meta == meta {
            let ghost before = view_properties(found@);
            let p = props[i].clone();
            found.push(p);
            assert(view_properties(found@) =~= before.push(p@));
        }
        i += 1;
    }
    assert(all.take(props.len() as int) =~= all);
    found
}

/// An argument as it is written in a signature: its type, a blank and its
/// name.
pub open spec fn argument_text(a: ArgumentView) -> Seq<char> {
    a.typ + seq![' '] + a.name
}

/// The arguments as they are written in a signature, with a comma and a
/// blank between one and the next.
pub open spec fn arguments_text(args: Seq<ArgumentView>) -> Seq<char>
    decreases args.len(),
{
    if args.len() == 0 {
        Seq::empty()
    } else if args.len() == 1 {
        argument_text(args[0])
    } else {
        arguments_text(args.drop_last()) + seq![',', ' '] + argument_text(args.last())
    }
}

impl Method {
    /// The properties that are not marked `meta`.
    pub fn get_properties(&mut self) -> (properties: Vec<Property>)
        ensures
            view_properties(properties@) == marked(old(self)@.properties, false),
            *final(self) == *old(self),
    {
        select_marked(&self.properties, false)
    }

    /// The properties that are marked `meta`.
    pub fn get_meta_properties(&mut self) -> (properties: Vec<Property>)
        ensures
            view_properties(properties@) == marked(old(self)@.properties, true),
            *final(self) == *old(self),
    {
        select_marked(&self.properties, true)
    }

    /// A copy of the name.
    pub fn get_name(&mut self) -> (name: String)
        ensures
            name@ == old(self)@.name,
            *final(self) == *old(self),
    {
        self.name.clone()
    }

    /// A copy of the return type, as it was written.
    pub fn get_return_type(&mut self) -> (typ: String)
        ensures
            typ@ == old(self)@.returns,
            *final(self) == *old(self),
    {
        self.returns.clone()
    }

    /// A copy of the arguments.
    pub fn get_arguments(&mut self) -> (arguments: Vec<Argument>)
        ensures
            view_arguments(arguments@) == old(self)@.arguments,
            *final(self) == *old(self),
    {
        clone_arguments(&self.arguments)
    }

    /// The arguments as they are written in a signature.
    pub fn arguments_as_str(&mut self) -> (text: String)
        ensures
            text@ == arguments_text(old(self)@.arguments),
            *final(self) == *old(self),
    {
        let ghost args = view_arguments(self.arguments@);
        let mut text = String::new();
        assert(args.take(0) =~= Seq::empty());
        let mut i: usize = 0;
        while i < self.arguments.len()
            invariant
                i <= self.arguments.len(),
                args == view_arguments(self.arguments@),
                text@ == arguments_text(args.take(i as int)),
            decreases self.arguments.len() - i,
        {
            proof {
                reveal_strlit(", ");
                reveal_strlit(" ");
                assert(args.take(i + 1).drop_last() =~= args.take(i as int));
                assert(", "@ =~= seq![',', ' ']);
                assert(" "@ =~= seq![' ']);
            }
            if i > 0 {
                text.append(", ");
            }
            let ghost before = text@;
            text.append(self.arguments[i].typ.as_str());
            text.append(" ");
            text.append(self.arguments[i].name.as_str());
            assert(text@ =~= before + argument_text(args[i as int]));
            assert(i == 0 ==> before =~= Seq::<char>::empty());
            i += 1;
        }
        assert(args.take(self.arguments.len() as int) =~= args);
        text
    }

    /// Tells whether the method is static.
    pub fn get_is_static(&mut self) -> (is_static: bool)
        ensures
            is_static == old(self)@.is_static,
            *final(self) == *old(self),
    {
        self.is_static
    }
}

impl Block {
    /// A copy of the properties of the block itself.
    pub fn get_properties(&mut self) -> (properties: Vec<Property>)
        ensures
            view_properties(properties@) == old(self)@.properties,
            *final(self) == *old(self),
    {
        clone_properties(&self.properties)
    }

    /// A copy of the entries of the block.
    pub fn get_inner(&mut self) -> (inner: Vec<Declaration>)
        ensures
            view_declarations(inner@) == old(self)@.inner,
            *final(self) == *old(self),
    {
        proof {
            lemma_block_view_inner(*self);
        }
        let copy = self.clone();
        proof {
            lemma_block_view_inner(copy);
        }
        copy.inner
    }
}

impl Class {
    /// A copy of the name.
    pub fn get_name(&mut self) -> (name: String)
        ensures
            name@ == old(self)@.name,
            *final(self) == *old(self),
    {
        self.name.clone()
    }

    /// A copy of the names of the bases.
    pub fn get_inherit(&mut self) -> (inherit: Vec<String>)
        ensures
            view_names(inherit@) == old(self)@.inherit,
            *final(self) == *old(self),
    {
        clone_names(&self.inherit)
    }

    /// A copy of the block of declarations.
    pub fn get_inner(&mut self) -> (inner: Block)
        ensures
            inner@ == old(self)@.inner,
            *final(self) == *old(self),
    {
        self.inner.clone()
    }

    /// The properties written in front of the class.
    pub fn get_properties(&mut self) -> (properties: Vec<Property>)
        ensures
            view_properties(properties@) == old(self)@.properties,
            *final(self) == *old(self),
    {
        clone_properties(&self.properties)
    }
}

} // verus!
