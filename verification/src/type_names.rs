//! Java types as the analysis names them.
use vstd::prelude::*;

use crate::text::{contains_char, str_eq, to_chars};
use crate::text_map::Duplicate;

verus! {

/// A type: an internal name (`java/util/List`) or that of a primitive (`int`), its type arguments
/// and how many times it is wrapped in an array.
#[derive(Debug, PartialEq, Eq)]
pub struct TypeName {
    pub base: String,
    pub args: Vec<TypeName>,
    pub array_dims: usize,
}

/// What a [`TypeName`] says.
pub struct TypeView {
    pub base: Seq<char>,
    pub args: Seq<TypeView>,
    pub array_dims: nat,
}

impl TypeName {
    pub open spec fn model(self) -> TypeView
        decreases self,
    {
        TypeView {
            base: self.base@,
            args: type_models(self.args@),
            array_dims: self.array_dims as nat,
        }
    }
}

pub open spec fn type_models(types: Seq<TypeName>) -> Seq<TypeView>
    decreases types,
{
    if types.len() == 0 {
        Seq::empty()
    } else {
        type_models(types.drop_last()).push(types.last().model())
    }
}

/// The model of a list of types is the list of their models.
pub proof fn lemma_type_models(types: Seq<TypeName>)
    ensures
        type_models(types).len() == types.len(),
        forall|i: int| 0 <= i < types.len() ==> #[trigger] type_models(types)[i] == types[i].model(),
    decreases types.len(),
{
    if types.len() > 0 {
        lemma_type_models(types.drop_last());
        assert forall|i: int| 0 <= i < types.len() implies #[trigger] type_models(types)[i]
            == types[i].model() by {
            if i < types.len() - 1 {
                assert(types.drop_last()[i] == types[i]);
                assert(type_models(types.drop_last())[i] == types[i].model());
            }
        }
    }
}

impl DeepView for TypeName {
    type V = TypeView;

    open spec fn deep_view(&self) -> TypeView {
        self.model()
    }
}

/// The deep view of a list of types is its model.
pub proof fn lemma_type_list(types: Vec<TypeName>)
    ensures
        types.deep_view() == type_models(types@),
{
    lemma_type_models(types@);
    assert(types.deep_view() =~= type_models(types@));
}

/// Copies a type.
pub fn copy_type(t: &TypeName) -> (r: TypeName)
    ensures
        r.model() == t.model(),
    decreases t,
{
    let mut args: Vec<TypeName> = Vec::new();
    let mut i: usize = 0;
    while i < t.args.len()
        invariant
            i <= t.args.len(),
            args.len() == i,
            forall|k: int| 0 <= k < i ==> #[trigger] args@[k].model() == t.args@[k].model(),
        decreases t.args.len() - i,
    {
        assert(decreases_to!(t => t.args));
        assert(decreases_to!(t.args => t.args@));
        assert(decreases_to!(t.args@ => t.args@[i as int]));
        args.push(copy_type(&t.args[i]));
        i += 1;
    }
    proof {
        lemma_type_models(args@);
        lemma_type_models(t.args@);
    }
    assert(type_models(args@) =~= type_models(t.args@));
    TypeName { base: t.base.clone(), args, array_dims: t.array_dims }
}

impl Duplicate for TypeName {
    fn duplicate(&self) -> (r: TypeName) {
        copy_type(self)
    }
}

/// Whether two types are the same.
pub fn same_type(a: &TypeName, b: &TypeName) -> (r: bool)
    ensures
        r == (a.model() == b.model()),
    decreases a,
{
    proof {
        lemma_type_models(a.args@);
        lemma_type_models(b.args@);
    }
    if !str_eq(a.base.as_str(), b.base.as_str()) || a.array_dims != b.array_dims || a.args.len()
        != b.args.len() {
        return false;
    }
    let mut i: usize = 0;
    while i < a.args.len()
        invariant
            i <= a.args.len(),
            a.args.len() == b.args.len(),
            type_models(a.args@).len() == a.args@.len(),
            type_models(b.args@).len() == b.args@.len(),
            forall|k: int|
                0 <= k < a.args@.len() ==> #[trigger] type_models(a.args@)[k] == a.args@[k].model(),
            forall|k: int|
                0 <= k < b.args@.len() ==> #[trigger] type_models(b.args@)[k] == b.args@[k].model(),
            forall|k: int|
                0 <= k < i ==> #[trigger] type_models(a.args@)[k] == type_models(b.args@)[k],
        decreases a.args.len() - i,
    {
        assert(decreases_to!(a => a.args));
        assert(decreases_to!(a.args => a.args@));
        assert(decreases_to!(a.args@ => a.args@[i as int]));
        if !same_type(&a.args[i], &b.args[i]) {
            assert(type_models(a.args@)[i as int] != type_models(b.args@)[i as int]);
            return false;
        }
        i += 1;
    }
    assert(type_models(a.args@) =~= type_models(b.args@));
    true
}

/// The names of the primitive types.
pub open spec fn is_primitive_name(s: Seq<char>) -> bool {
    ||| s == "byte"@
    ||| s == "short"@
    ||| s == "int"@
    ||| s == "long"@
    ||| s == "float"@
    ||| s == "double"@
    ||| s == "boolean"@
    ||| s == "char"@
}

/// Whether a name is that of a primitive type.
pub fn names_primitive(s: &str) -> (r: bool)
    ensures
        r == is_primitive_name(s@),
{
    str_eq(s, "byte") || str_eq(s, "short") || str_eq(s, "int") || str_eq(s, "long") || str_eq(
        s,
        "float",
    ) || str_eq(s, "double") || str_eq(s, "boolean") || str_eq(s, "char")
}

impl TypeView {
    /// A type without arguments that is no array.
    pub open spec fn plain(base: Seq<char>) -> TypeView {
        TypeView { base, args: Seq::empty(), array_dims: 0 }
    }

    pub open spec fn is_primitive(self) -> bool {
        self.array_dims == 0 && is_primitive_name(self.base)
    }

    /// The type with one array less around it.
    pub open spec fn element(self) -> Option<TypeView> {
        if self.array_dims == 0 {
            None
        } else {
            Some(TypeView { array_dims: (self.array_dims - 1) as nat, ..self })
        }
    }

    /// The type inside so many arrays.
    pub open spec fn element_at(self, dims: nat) -> Option<TypeView> {
        if self.array_dims < dims {
            None
        } else {
            Some(TypeView { array_dims: (self.array_dims - dims) as nat, ..self })
        }
    }
}

impl TypeName {
    pub fn new(base: &str) -> (r: TypeName)
        ensures
            r.deep_view() == TypeView::plain(base@),
    {
        let r = TypeName { base: base.to_string(), args: Vec::new(), array_dims: 0 };
        assert(type_models(r.args@) =~= Seq::<TypeView>::empty());
        r
    }

    pub fn with_args(base: &str, args: Vec<TypeName>) -> (r: TypeName)
        ensures
            r.deep_view() == (TypeView { base: base@, args: args.deep_view(), array_dims: 0 }),
    {
        proof {
            lemma_type_list(args);
        }
        TypeName { base: base.to_string(), args, array_dims: 0 }
    }

    pub fn with_array_dims(self, dims: usize) -> (r: TypeName)
        ensures
            r.deep_view() == (TypeView { array_dims: dims as nat, ..self.deep_view() }),
    {
        TypeName { base: self.base, args: self.args, array_dims: dims }
    }

    pub fn is_array(&self) -> (r: bool)
        ensures
            r == (self.deep_view().array_dims > 0),
    {
        self.array_dims > 0
    }

    pub fn is_primitive(&self) -> (r: bool)
        ensures
            r == self.deep_view().is_primitive(),
    {
        self.array_dims == 0 && names_primitive(self.base.as_str())
    }

    /// The name without arguments and arrays.
    pub fn erased_internal(&self) -> (r: &str)
        ensures
            r@ == self.deep_view().base,
    {
        self.base.as_str()
    }

    /// The type with one array less around it.
    pub fn element_type(&self) -> (r: Option<TypeName>)
        ensures
            r.deep_view() == self.deep_view().element(),
    {
        if self.array_dims == 0 {
            None
        } else {
            let t = copy_type(self);
            Some(TypeName { base: t.base, args: t.args, array_dims: self.array_dims - 1 })
        }
    }

    /// Whether the name is a path.
    pub fn contains_slash(&self) -> (r: bool)
        ensures
            r == self.deep_view().base.contains('/'),
    {
        let text = to_chars(self.base.as_str());
        contains_char(text.as_slice(), '/')
    }
}

} // verus!
