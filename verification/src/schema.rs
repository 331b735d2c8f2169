//! Descriptions of types, as they are sent over a connection.
use vstd::prelude::*;

verus! {

/// What names an item: a digest of 32 bytes.
#[derive(Debug, Clone, Copy, Eq, Hash, PartialEq)]
pub struct Id(pub [u8; 32]);

/// One described type.
#[derive(Debug, Clone, Eq, Hash, PartialEq)]
pub struct Item {
    /// What the type is made of.
    pub content: Type,
}

/// A type where one is used: a parameter of the item, by its position, or another item.
#[derive(Debug, Clone, Copy, Eq, Hash, PartialEq)]
pub enum TypePosition {
    /// The parameter at this position.
    Generic(u32),
    /// The item of this name.
    Concrete(Id),
}

/// The parameters of an item.
#[derive(Debug, Clone, Eq, Hash, PartialEq)]
pub struct Generics {
    /// The item that the parameters belong to.
    pub base: [u8; 32],
    /// The parameters, with their names where they have one.
    pub parameters: Vec<(Option<String>, Id)>,
}

/// A field.
#[derive(Debug, Clone, Eq, Hash, PartialEq)]
pub struct Binding {
    /// Its name, where it has one.
    pub name: Option<String>,
    /// Its type.
    pub ty: TypePosition,
}

/// Some fields together.
#[derive(Debug, Clone, Eq, Hash, PartialEq)]
pub struct Product {
    /// The fields.
    pub bindings: Vec<Binding>,
}

/// One alternative of a sum.
#[derive(Debug, Clone, Eq, Hash, PartialEq)]
pub struct Variant {
    /// Its name, where it has one.
    pub name: Option<String>,
    /// Its fields.
    pub ty: Product,
}

/// How a method takes the object it is called on.
#[derive(Debug, Clone, Copy, Eq, Hash, PartialEq)]
pub enum Receiver {
    /// By value.
    Move,
    /// By mutable reference.
    Mut,
    /// By shared reference.
    Ref,
}

/// A method of an object.
#[derive(Debug, Clone, Eq, Hash, PartialEq)]
pub struct Method {
    /// How it takes the object.
    pub receiver: Receiver,
    /// The types of its arguments.
    pub arguments: Vec<TypePosition>,
    /// The type of its result, where it has one.
    pub ret: Option<TypePosition>,
}

/// How a function may be called.
#[derive(Debug, Clone, Copy, Eq, Hash, PartialEq)]
pub enum Capture {
    /// Once.
    Once,
    /// Again and again, by one caller at a time.
    Mut,
    /// Again and again.
    Ref,
}

/// What a type is made of.
#[derive(Debug, Clone, Eq, Hash, PartialEq)]
pub enum Type {
    /// One of some alternatives.
    Sum(Vec<Variant>),
    /// Some fields together.
    Product(Product),
    /// Nothing is known of it.
    Opaque,
    /// A function.
    Function {
        /// How it may be called.
        capture: Capture,
        /// The types of its arguments.
        arguments: Vec<TypePosition>,
        /// The type of its result, where it has one.
        ret: Option<TypePosition>,
    },
    /// Something with methods.
    Object {
        /// The methods.
        methods: Vec<Method>,
    },
}

} // verus!
