//! The structural type model: type identities, types and fields, and their
//! mathematical views.

use vstd::prelude::*;

verus! {

/// The identity of a type parameter.
#[derive(Debug, PartialEq, Eq, Hash, Clone, Copy, Structural)]
pub struct TypeId {
    pub(crate) id: usize,
}

/// The address of the code that the compiler emits for this function and
/// `T`, read as an integer. Nothing is claimed of it: an address belongs to
/// one build and one process.
#[verifier::external_body]
#[inline(never)]
fn code_address<T: ?Sized>() -> usize {
    code_address::<T> as usize
}

impl TypeId {
    /// The identity of `T`. It does not ask that `T` be free of borrowed
    /// data, and takes no account of lifetimes: it is the address of a piece
    /// of code that exists once for each `T`.
    pub fn of<T: ?Sized>() -> Self {
        TypeId { id: code_address::<T>() }
    }
}

/// A wire type.
#[derive(Debug, PartialEq, Eq, Hash)]
pub enum Type {
    Null,
    Bool,
    Nat,
    Int,
    Nat8,
    Nat16,
    Nat32,
    Nat64,
    Int8,
    Int16,
    Int32,
    Int64,
    Float32,
    Float64,
    Text,
    Reserved,
    Empty,
    Knot(TypeId),
    Unknown,
    Opt(Box<Type>),
    Vec(Box<Type>),
    Record(Vec<Field>),
    Variant(Vec<Field>),
}

/// A labelled element of a record or of a variant.
#[derive(Debug, PartialEq, Eq, Hash)]
pub struct Field {
    pub id: String,
    pub hash: u32,
    pub ty: Type,
}

/// What a [`Type`] is, as a mathematical value.
pub enum TypeView {
    Null,
    Bool,
    Nat,
    Int,
    Nat8,
    Nat16,
    Nat32,
    Nat64,
    Int8,
    Int16,
    Int32,
    Int64,
    Float32,
    Float64,
    Text,
    Reserved,
    Empty,
    Knot(TypeId),
    Unknown,
    Opt(Box<TypeView>),
    Vec(Box<TypeView>),
    Record(Seq<FieldView>),
    Variant(Seq<FieldView>),
}

/// What a [`Field`] is, as a mathematical value.
pub struct FieldView {
    pub id: Seq<char>,
    pub hash: u32,
    pub ty: TypeView,
}

impl Type {
    /// The mathematical value of this type: the same tree, with sequences
    /// in place of vectors and strings.
    pub open spec fn model(self) -> TypeView
        decreases self,
    {
        match self {
            Type::Null => TypeView::Null,
            Type::Bool => TypeView::Bool,
            Type::Nat => TypeView::Nat,
            Type::Int => TypeView::Int,
            Type::Nat8 => TypeView::Nat8,
            Type::Nat16 => TypeView::Nat16,
            Type::Nat32 => TypeView::Nat32,
            Type::Nat64 => TypeView::Nat64,
            Type::Int8 => TypeView::Int8,
            Type::Int16 => TypeView::Int16,
            Type::Int32 => TypeView::Int32,
            Type::Int64 => TypeView::Int64,
            Type::Float32 => TypeView::Float32,
            Type::Float64 => TypeView::Float64,
            Type::Text => TypeView::Text,
            Type::Reserved => TypeView::Reserved,
            Type::Empty => TypeView::Empty,
            Type::Knot(id) => TypeView::Knot(id),
            Type::Unknown => TypeView::Unknown,
            Type::Opt(t) => TypeView::Opt(Box::new(t.model())),
            Type::Vec(t) => TypeView::Vec(Box::new(t.model())),
            Type::Record(fs) => TypeView::Record(Field::models(fs@)),
            Type::Variant(fs) => TypeView::Variant(Field::models(fs@)),
        }
    }
}

impl Field {
    /// The mathematical value of this field.
    pub open spec fn model(self) -> FieldView
        decreases self,
    {
        FieldView { id: self.id@, hash: self.hash, ty: self.ty.model() }
    }

    /// The mathematical values of a sequence of fields, in order.
    pub open spec fn models(fs: Seq<Field>) -> Seq<FieldView>
        decreases fs,
    {
        Seq::new(
            fs.len(),
            |i: int|
                if 0 <= i < fs.len() {
                    fs[i].model()
                } else {
                    arbitrary()
                },
        )
    }
}

impl View for Field {
    type V = FieldView;

    open spec fn view(&self) -> FieldView {
        self.model()
    }
}

impl View for Type {
    type V = TypeView;

    open spec fn view(&self) -> TypeView {
        self.model()
    }
}

impl TypeView {
    /// Whether no indirection node occurs in this type.
    pub open spec fn knot_free(self) -> bool
        decreases self,
    {
        match self {
            TypeView::Knot(_) => false,
            TypeView::Opt(inner) => inner.knot_free(),
            TypeView::Vec(inner) => inner.knot_free(),
            TypeView::Record(fs) => forall|i: int|
                0 <= i < fs.len() ==> (#[trigger] fs[i]).ty.knot_free(),
            TypeView::Variant(fs) => forall|i: int|
                0 <= i < fs.len() ==> (#[trigger] fs[i]).ty.knot_free(),
            _ => true,
        }
    }

    /// Whether the transient placeholder `Unknown` occurs nowhere in this
    /// type.
    pub open spec fn finished(self) -> bool
        decreases self,
    {
        match self {
            TypeView::Unknown => false,
            TypeView::Opt(inner) => inner.finished(),
            TypeView::Vec(inner) => inner.finished(),
            TypeView::Record(fs) => forall|i: int|
                0 <= i < fs.len() ==> (#[trigger] fs[i]).ty.finished(),
            TypeView::Variant(fs) => forall|i: int|
                0 <= i < fs.len() ==> (#[trigger] fs[i]).ty.finished(),
            _ => true,
        }
    }

    /// Whether this type has no children to descend into: every atomic leaf
    /// and every indirection node, whatever the indirection stands for.
    pub open spec fn is_primitive(self) -> bool {
        !(self is Opt || self is Vec || self is Record || self is Variant)
    }
}

impl Type {
    /// A deep copy of this type.
    pub fn duplicate(&self) -> (r: Type)
        ensures
            r@ == self@,
        decreases self,
    {
        match self {
            Type::Null => Type::Null,
            Type::Bool => Type::Bool,
            Type::Nat => Type::Nat,
            Type::Int => Type::Int,
            Type::Nat8 => Type::Nat8,
            Type::Nat16 => Type::Nat16,
            Type::Nat32 => Type::Nat32,
            Type::Nat64 => Type::Nat64,
            Type::Int8 => Type::Int8,
            Type::Int16 => Type::Int16,
            Type::Int32 => Type::Int32,
            Type::Int64 => Type::Int64,
            Type::Float32 => Type::Float32,
            Type::Float64 => Type::Float64,
            Type::Text => Type::Text,
            Type::Reserved => Type::Reserved,
            Type::Empty => Type::Empty,
            Type::Knot(id) => Type::Knot(*id),
            Type::Unknown => Type::Unknown,
            Type::Opt(t) => Type::Opt(Box::new(t.duplicate())),
            Type::Vec(t) => Type::Vec(Box::new(t.duplicate())),
            Type::Record(fs) => Type::Record(Field::duplicate_all(fs)),
            Type::Variant(fs) => Type::Variant(Field::duplicate_all(fs)),
        }
    }
}

impl Field {
    /// A deep copy of this field.
    pub fn duplicate(&self) -> (r: Field)
        ensures
            r@ == self@,
        decreases self,
    {
        Field { id: self.id.clone(), hash: self.hash, ty: self.ty.duplicate() }
    }

    /// Deep copies of the fields in `fs`, in order.
    pub fn duplicate_all(fs: &Vec<Field>) -> (r: Vec<Field>)
        ensures
            Field::models(r@) == Field::models(fs@),
        decreases fs,
    {
        let mut out: Vec<Field> = Vec::new();
        let mut i: usize = 0;
        while i < fs.len()
            invariant
                i <= fs.len(),
                out.len() == i,
                forall|j: int| 0 <= j < i ==> out@[j].model() == fs@[j].model(),
            decreases fs.len() - i,
        {
            let f = fs[i].duplicate();
            out.push(f);
            i += 1;
        }
        assert(Field::models(out@) =~= Field::models(fs@));
        out
    }
}

impl Clone for Type {
    fn clone(&self) -> (r: Self)
        ensures
            r@ == self@,
    {
        self.duplicate()
    }
}

impl Clone for Field {
    fn clone(&self) -> (r: Self)
        ensures
            r@ == self@,
    {
        self.duplicate()
    }
}

/// Tells whether `t` is atomic. An indirection node counts as atomic: it is
/// not resolved. The transient placeholder [`Type::Unknown`] is no finished
/// type and may not be passed.
pub fn is_primitive(t: &Type) -> (r: bool)
    requires
        !(t@ is Unknown),
    ensures
        r == t@.is_primitive(),
{
    match t {
        Type::Opt(_) | Type::Vec(_) | Type::Record(_) | Type::Variant(_) => false,
        _ => true,
    }
}

} // verus!
