//! The types that the checker assigns to expressions.

use vstd::prelude::*;

verus! {

/// The mathematical value of an [`InternalType`].
pub enum TypeModel {
    Number,
    Float,
    Boolean,
    Text,
    List,
    Any,
    Unit,
    /// Callee name, argument types, return type.
    Application(Seq<char>, Seq<TypeModel>, Box<TypeModel>),
}

/// A type of the language.
#[derive(Debug)]
pub enum InternalType {
    Number,
    Float,
    Boolean,
    Text,
    List,
    Any,
    Unit,
    /// The type of a call: callee name, argument types, return type.
    Application(String, Vec<InternalType>, Box<InternalType>),
}

impl View for InternalType {
    type V = TypeModel;

    open spec fn view(&self) -> TypeModel
        decreases self,
    {
        match self {
            InternalType::Number => TypeModel::Number,
            InternalType::Float => TypeModel::Float,
            InternalType::Boolean => TypeModel::Boolean,
            InternalType::Text => TypeModel::Text,
            InternalType::List => TypeModel::List,
            InternalType::Any => TypeModel::Any,
            InternalType::Unit => TypeModel::Unit,
            InternalType::Application(name, args, ret) => TypeModel::Application(
                name@,
                Seq::new(
                    args.len() as nat,
                    |i: int|
                        if 0 <= i < args.len() {
                            args[i]@
                        } else {
                            TypeModel::Any
                        },
                ),
                Box::new((**ret)@),
            ),
        }
    }
}

/// The values of a sequence of types, one for one.
pub open spec fn types_view(types: Seq<InternalType>) -> Seq<TypeModel> {
    Seq::new(types.len(), |i: int| types[i]@)
}

/// The equality under which `Any` absorbs every type: `Any` equals everything,
/// two plain types are equal when they are the same, and two applications are
/// equal when their names are the same and their argument and return types
/// are equal under this same relation. It is reflexive and symmetric, and not
/// transitive.
pub open spec fn compatible(a: TypeModel, b: TypeModel) -> bool
    decreases a,
{
    match (a, b) {
        (TypeModel::Any, _) => true,
        (_, TypeModel::Any) => true,
        (TypeModel::Number, TypeModel::Number) => true,
        (TypeModel::Float, TypeModel::Float) => true,
        (TypeModel::Boolean, TypeModel::Boolean) => true,
        (TypeModel::Text, TypeModel::Text) => true,
        (TypeModel::List, TypeModel::List) => true,
        (TypeModel::Unit, TypeModel::Unit) => true,
        (TypeModel::Application(n1, a1, r1), TypeModel::Application(n2, a2, r2)) => {
            &&& n1 == n2
            &&& all_compatible(a1, a2)
            &&& compatible(*r1, *r2)
        },
        _ => false,
    }
}

/// Two sequences of types are equal under [`compatible`] when they have the
/// same length and agree at every index.
pub open spec fn all_compatible(a: Seq<TypeModel>, b: Seq<TypeModel>) -> bool
    decreases a,
{
    &&& a.len() == b.len()
    &&& forall|i: int| 0 <= i < a.len() ==> compatible(#[trigger] a[i], b[i])
}


/// `Any` equals every type, on either side.
pub proof fn any_absorbs(t: TypeModel)
    ensures
        compatible(TypeModel::Any, t),
        compatible(t, TypeModel::Any),
{
}

/// Every type equals itself.
pub proof fn compatible_reflexive(t: TypeModel)
    ensures
        compatible(t, t),
    decreases t,
{
    match t {
        TypeModel::Application(_, args, ret) => {
            assert forall|i: int| 0 <= i < args.len() implies compatible(
                #[trigger] args[i],
                args[i],
            ) by {
                compatible_reflexive(args[i]);
            }
            assert(all_compatible(args, args));
            compatible_reflexive(*ret);
        },
        _ => {},
    }
}

/// The equality does not depend on the order of its two sides.
pub proof fn compatible_symmetric(a: TypeModel, b: TypeModel)
    ensures
        compatible(a, b) == compatible(b, a),
    decreases a,
{
    match (a, b) {
        (TypeModel::Application(_, a1, r1), TypeModel::Application(_, a2, r2)) => {
            if a1.len() == a2.len() {
                assert forall|i: int| 0 <= i < a1.len() implies compatible(a1[i], a2[i])
                    == compatible(a2[i], a1[i]) by {
                    compatible_symmetric(a1[i], a2[i]);
                }
            }
            assert(all_compatible(a1, a2) == all_compatible(a2, a1));
            compatible_symmetric(*r1, *r2);
        },
        _ => {},
    }
}

/// The equality is not transitive: `Number` equals `Any` and `Any` equals
/// `Text`, while `Number` does not equal `Text`.
pub proof fn compatible_not_transitive()
    ensures
        exists|a: TypeModel, b: TypeModel, c: TypeModel|
            compatible(a, b) && compatible(b, c) && !compatible(a, c),
{
    assert(compatible(TypeModel::Number, TypeModel::Any) && compatible(
        TypeModel::Any,
        TypeModel::Text,
    ) && !compatible(TypeModel::Number, TypeModel::Text));
}

/// The name under which a type is shown.
pub open spec fn shown_name(t: TypeModel) -> Seq<char> {
    match t {
        TypeModel::Number => "Number"@,
        TypeModel::Float => "Float"@,
        TypeModel::Boolean => "Boolean"@,
        TypeModel::Text => "Text"@,
        TypeModel::List => "List"@,
        TypeModel::Any => "Any"@,
        TypeModel::Unit => "Unit"@,
        TypeModel::Application(_, _, _) => "Application"@,
    }
}

/// The value of an application type, with its argument types taken by
/// [`types_view`].
pub proof fn lemma_application_view(name: String, args: Vec<InternalType>, ret: Box<InternalType>)
    ensures
        InternalType::Application(name, args, ret)@ == TypeModel::Application(
            name@,
            types_view(args@),
            Box::new((*ret)@),
        ),
{
    let t = InternalType::Application(name, args, ret);
    assert(t@->Application_1 =~= types_view(args@));
}

/// Whether two lists of types are equal under the absorbing equality.
pub fn types_absorb(a: &Vec<InternalType>, b: &Vec<InternalType>) -> (r: bool)
    ensures
        r == all_compatible(types_view(a@), types_view(b@)),
    decreases a, 0nat,
{
    if a.len() != b.len() {
        return false;
    }
    let mut i: usize = 0;
    while i < a.len()
        invariant
            i <= a.len(),
            a.len() == b.len(),
            forall|j: int| 0 <= j < i ==> compatible(#[trigger] types_view(a@)[j], types_view(b@)[j]),
        decreases a.len() - i,
    {
        if !a[i].absorbs(&b[i]) {
            assert(!compatible(types_view(a@)[i as int], types_view(b@)[i as int]));
            return false;
        }
        i += 1;
    }
    true
}

/// A copy of a list of types.
pub fn clone_types(types: &Vec<InternalType>) -> (r: Vec<InternalType>)
    ensures
        types_view(r@) == types_view(types@),
    decreases types, 0nat,
{
    let mut out: Vec<InternalType> = Vec::new();
    let mut i: usize = 0;
    while i < types.len()
        invariant
            i <= types.len(),
            out.len() == i,
            forall|j: int| 0 <= j < i ==> out[j]@ == types[j]@,
        decreases types.len() - i,
    {
        out.push(types[i].clone());
        i += 1;
    }
    assert(types_view(out@) =~= types_view(types@));
    out
}

impl InternalType {
    /// Whether `self` equals `other` under the absorbing equality.
    pub fn absorbs(&self, other: &InternalType) -> (r: bool)
        ensures
            r == compatible(self@, other@),
        decreases self, 1nat,
    {
        match (self, other) {
            (InternalType::Any, _) => true,
            (_, InternalType::Any) => true,
            (InternalType::Number, InternalType::Number) => true,
            (InternalType::Float, InternalType::Float) => true,
            (InternalType::Boolean, InternalType::Boolean) => true,
            (InternalType::Text, InternalType::Text) => true,
            (InternalType::List, InternalType::List) => true,
            (InternalType::Unit, InternalType::Unit) => true,
            (InternalType::Application(n1, a1, r1), InternalType::Application(n2, a2, r2)) => {
                proof {
                    lemma_application_view(*n1, *a1, *r1);
                    lemma_application_view(*n2, *a2, *r2);
                }
                *n1 == *n2 && types_absorb(a1, a2) && r1.absorbs(r2)
            },
            _ => false,
        }
    }

    /// The name under which the type is shown: that of its variant.
    pub fn name(&self) -> (r: String)
        ensures
            r@ == shown_name(self@),
    {
        match self {
            InternalType::Number => "Number".to_owned(),
            InternalType::Float => "Float".to_owned(),
            InternalType::Boolean => "Boolean".to_owned(),
            InternalType::Text => "Text".to_owned(),
            InternalType::List => "List".to_owned(),
            InternalType::Any => "Any".to_owned(),
            InternalType::Unit => "Unit".to_owned(),
            InternalType::Application(_, _, _) => "Application".to_owned(),
        }
    }
}

impl Clone for InternalType {
    fn clone(&self) -> (r: Self)
        ensures
            r@ == self@,
        decreases self, 1nat,
    {
        match self {
            InternalType::Number => InternalType::Number,
            InternalType::Float => InternalType::Float,
            InternalType::Boolean => InternalType::Boolean,
            InternalType::Text => InternalType::Text,
            InternalType::List => InternalType::List,
            InternalType::Any => InternalType::Any,
            InternalType::Unit => InternalType::Unit,
            InternalType::Application(name, args, ret) => {
                let name2 = name.clone();
                let args2 = clone_types(args);
                let ret2 = Box::new((**ret).clone());
                proof {
                    lemma_application_view(*name, *args, *ret);
                    lemma_application_view(name2, args2, ret2);
                }
                InternalType::Application(name2, args2, ret2)
            },
        }
    }
}

impl Default for InternalType {
    fn default() -> (r: Self)
        ensures
            r@ == TypeModel::Any,
    {
        InternalType::Any
    }
}

impl PartialEq for InternalType {
    /// `==` on types is the absorbing equality.
    fn eq(&self, other: &Self) -> (r: bool) {
        self.absorbs(other)
    }
}

impl vstd::std_specs::cmp::PartialEqSpecImpl for InternalType {
    open spec fn obeys_eq_spec() -> bool {
        true
    }

    open spec fn eq_spec(&self, other: &Self) -> bool {
        compatible(self@, other@)
    }
}

} // verus!
