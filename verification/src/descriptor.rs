//! Descriptors: the runtime registry of declared models and their typed
//! methods, which generated code registers and tooling walks.
//!
//! A [`Registry`] holds one [`ModelDescriptor`] per declared model; each
//! descriptor lists its updater and getter methods with their argument and
//! return types, written in the small type language [`Ty`].

use vstd::prelude::*;

verus! {

/// How a generated item is exported.
pub enum Visibility {
    /// Exported from the crate.
    Public,
    /// Visible where the declaration is.
    Inherited,
}

/// The length of an integer type.
pub enum IntLength {
    _8,
    _16,
    _32,
    _64,
    _128,
    Size,
}

/// The signedness and length of an integer type.
pub enum IntKind {
    Unsigned(IntLength),
    Signed(IntLength),
}

/// The length of a floating-point type.
pub enum FloatLength {
    _32,
    _64,
}

/// The type of a method argument or return value.
pub enum Ty {
    Int(IntKind),
    Float(FloatLength),
    Bool,
    Char,
    Unit,
    String,
    Array(Box<Ty>, usize),
    Vec(Box<Ty>),
    Bytes,
    VecDeque(Box<Ty>),
    HashMap(Box<Ty>, Box<Ty>),
    HashSet(Box<Ty>),
    BTreeMap(Box<Ty>, Box<Ty>),
    BTreeSet(Box<Ty>),
    Option(Box<Ty>),
    Result(Box<Ty>, Box<Ty>),
    SystemTime,
    Instant,
    Duration,
    Unknown(String, Vec<Ty>),
}

/// The generic arguments a named type carries.
pub enum Generics {
    One(Box<Ty>),
    Two(Box<Ty>, Box<Ty>),
    Many(Vec<Ty>),
}

/// What a parsed type name and its generic arguments stand for: each known
/// name with the right shape maps to its own [`Ty`]; everything else is
/// kept as an unknown name with its arguments.
pub open spec fn from_unknown_rel(name: Seq<char>, generics: Seq<Ty>, r: Ty) -> bool {
    if name == "u8"@ && generics.len() == 0 {
        r == Ty::Int(IntKind::Unsigned(IntLength::_8))
    } else if name == "u16"@ && generics.len() == 0 {
        r == Ty::Int(IntKind::Unsigned(IntLength::_16))
    } else if name == "u32"@ && generics.len() == 0 {
        r == Ty::Int(IntKind::Unsigned(IntLength::_32))
    } else if name == "u64"@ && generics.len() == 0 {
        r == Ty::Int(IntKind::Unsigned(IntLength::_64))
    } else if name == "u128"@ && generics.len() == 0 {
        r == Ty::Int(IntKind::Unsigned(IntLength::_128))
    } else if name == "usize"@ && generics.len() == 0 {
        r == Ty::Int(IntKind::Unsigned(IntLength::Size))
    } else if name == "i8"@ && generics.len() == 0 {
        r == Ty::Int(IntKind::Signed(IntLength::_8))
    } else if name == "i16"@ && generics.len() == 0 {
        r == Ty::Int(IntKind::Signed(IntLength::_16))
    } else if name == "i32"@ && generics.len() == 0 {
        r == Ty::Int(IntKind::Signed(IntLength::_32))
    } else if name == "i64"@ && generics.len() == 0 {
        r == Ty::Int(IntKind::Signed(IntLength::_64))
    } else if name == "i128"@ && generics.len() == 0 {
        r == Ty::Int(IntKind::Signed(IntLength::_128))
    } else if name == "isize"@ && generics.len() == 0 {
        r == Ty::Int(IntKind::Signed(IntLength::Size))
    } else if name == "f32"@ && generics.len() == 0 {
        r == Ty::Float(FloatLength::_32)
    } else if name == "f64"@ && generics.len() == 0 {
        r == Ty::Float(FloatLength::_64)
    } else if name == "bool"@ && generics.len() == 0 {
        r == Ty::Bool
    } else if name == "char"@ && generics.len() == 0 {
        r == Ty::Char
    } else if name == "()"@ && generics.len() == 0 {
        r == Ty::Unit
    } else if name == "String"@ && generics.len() == 0 {
        r == Ty::String
    } else if name == "Vec"@ && generics.len() == 1 && generics[0] == Ty::Int(
        IntKind::Unsigned(IntLength::_8),
    ) {
        r == Ty::Bytes
    } else if name == "Vec"@ && generics.len() == 1 {
        r matches Ty::Vec(t) && *t == generics[0]
    } else if name == "VecDeque"@ && generics.len() == 1 {
        r matches Ty::VecDeque(t) && *t == generics[0]
    } else if name == "HashMap"@ && generics.len() == 2 {
        r matches Ty::HashMap(k, v) && *k == generics[0] && *v == generics[1]
    } else if name == "HashSet"@ && generics.len() == 1 {
        r matches Ty::HashSet(t) && *t == generics[0]
    } else if name == "BTreeMap"@ && generics.len() == 2 {
        r matches Ty::BTreeMap(k, v) && *k == generics[0] && *v == generics[1]
    } else if name == "BTreeSet"@ && generics.len() == 1 {
        r matches Ty::BTreeSet(t) && *t == generics[0]
    } else if name == "Option"@ && generics.len() == 1 {
        r matches Ty::Option(t) && *t == generics[0]
    } else if name == "Result"@ && generics.len() == 2 {
        r matches Ty::Result(t, e) && *t == generics[0] && *e == generics[1]
    } else if name == "SystemTime"@ && generics.len() == 0 {
        r == Ty::SystemTime
    } else if name == "Instant"@ && generics.len() == 0 {
        r == Ty::Instant
    } else if name == "Duration"@ && generics.len() == 0 {
        r == Ty::Duration
    } else {
        r matches Ty::Unknown(n, g) && n@ == name && g@ == generics
    }
}

/// What rendering a [`Ty`] back to a name and generic arguments gives:
/// the inverse direction of [`from_unknown_rel`]. An `Array` has no
/// rendering in the registry's type language.
pub open spec fn to_unknown_rel(t: Ty, name: Seq<char>, g: Option<Generics>) -> bool {
    match t {
        Ty::Int(IntKind::Unsigned(IntLength::_8)) => name == "u8"@ && g is None,
        Ty::Int(IntKind::Unsigned(IntLength::_16)) => name == "u16"@ && g is None,
        Ty::Int(IntKind::Unsigned(IntLength::_32)) => name == "u32"@ && g is None,
        Ty::Int(IntKind::Unsigned(IntLength::_64)) => name == "u64"@ && g is None,
        Ty::Int(IntKind::Unsigned(IntLength::_128)) => name == "u128"@ && g is None,
        Ty::Int(IntKind::Unsigned(IntLength::Size)) => name == "usize"@ && g is None,
        Ty::Int(IntKind::Signed(IntLength::_8)) => name == "i8"@ && g is None,
        Ty::Int(IntKind::Signed(IntLength::_16)) => name == "i16"@ && g is None,
        Ty::Int(IntKind::Signed(IntLength::_32)) => name == "i32"@ && g is None,
        Ty::Int(IntKind::Signed(IntLength::_64)) => name == "i64"@ && g is None,
        Ty::Int(IntKind::Signed(IntLength::_128)) => name == "i128"@ && g is None,
        Ty::Int(IntKind::Signed(IntLength::Size)) => name == "isize"@ && g is None,
        Ty::Float(FloatLength::_32) => name == "f32"@ && g is None,
        Ty::Float(FloatLength::_64) => name == "f64"@ && g is None,
        Ty::Bool => name == "bool"@ && g is None,
        Ty::Char => name == "char"@ && g is None,
        Ty::Unit => name == "()"@ && g is None,
        Ty::String => name == "String"@ && g is None,
        Ty::Array(_, _) => false,
        Ty::Vec(t0) => name == "Vec"@ && (g matches Option::Some(Generics::One(b)) && b == t0),
        Ty::Bytes => name == "Vec"@ && (g matches Option::Some(Generics::One(b)) && *b == Ty::Int(
            IntKind::Unsigned(IntLength::_8),
        )),
        Ty::VecDeque(t0) => name == "VecDeque"@ && (g matches Option::Some(Generics::One(b)) && b
            == t0),
        Ty::HashMap(k0, v0) => name == "HashMap"@ && (g matches Option::Some(Generics::Two(k, v))
            && k == k0 && v == v0),
        Ty::HashSet(t0) => name == "HashSet"@ && (g matches Option::Some(Generics::One(b)) && b
            == t0),
        Ty::BTreeMap(k0, v0) => name == "BTreeMap"@ && (g matches Option::Some(Generics::Two(k, v))
            && k == k0 && v == v0),
        Ty::BTreeSet(t0) => name == "BTreeSet"@ && (g matches Option::Some(Generics::One(b)) && b
            == t0),
        Ty::Option(t0) => name == "Option"@ && (g matches Option::Some(Generics::One(b)) && b
            == t0),
        Ty::Result(t0, e0) => name == "Result"@ && (g matches Option::Some(Generics::Two(t, e))
            && t == t0 && e == e0),
        Ty::SystemTime => name == "SystemTime"@ && g is None,
        Ty::Instant => name == "Instant"@ && g is None,
        Ty::Duration => name == "Duration"@ && g is None,
        Ty::Unknown(n, gs) => name == n@ && (g matches Option::Some(Generics::Many(v)) && v == gs),
    }
}

/// Whether an owned name equals a literal one.
fn name_is(name: &String, lit: &str) -> (r: bool)
    ensures
        r == (name@ == lit@),
{
    *name == lit.to_owned()
}

impl Ty {
    /// Resolves a parsed type name with its generic arguments: known names
    /// of the right shape become their own variants, any other name is
    /// kept with its arguments.
    pub fn from_unknown(name: String, generics: Vec<Ty>) -> (r: Self)
        ensures
            from_unknown_rel(name@, generics@, r),
    {
        let n = generics.len();
        if name_is(&name, "u8") && n == 0 {
            Ty::Int(IntKind::Unsigned(IntLength::_8))
        } else if name_is(&name, "u16") && n == 0 {
            Ty::Int(IntKind::Unsigned(IntLength::_16))
        } else if name_is(&name, "u32") && n == 0 {
            Ty::Int(IntKind::Unsigned(IntLength::_32))
        } else if name_is(&name, "u64") && n == 0 {
            Ty::Int(IntKind::Unsigned(IntLength::_64))
        } else if name_is(&name, "u128") && n == 0 {
            Ty::Int(IntKind::Unsigned(IntLength::_128))
        } else if name_is(&name, "usize") && n == 0 {
            Ty::Int(IntKind::Unsigned(IntLength::Size))
        } else if name_is(&name, "i8") && n == 0 {
            Ty::Int(IntKind::Signed(IntLength::_8))
        } else if name_is(&name, "i16") && n == 0 {
            Ty::Int(IntKind::Signed(IntLength::_16))
        } else if name_is(&name, "i32") && n == 0 {
            Ty::Int(IntKind::Signed(IntLength::_32))
        } else if name_is(&name, "i64") && n == 0 {
            Ty::Int(IntKind::Signed(IntLength::_64))
        } else if name_is(&name, "i128") && n == 0 {
            Ty::Int(IntKind::Signed(IntLength::_128))
        } else if name_is(&name, "isize") && n == 0 {
            Ty::Int(IntKind::Signed(IntLength::Size))
        } else if name_is(&name, "f32") && n == 0 {
            Ty::Float(FloatLength::_32)
        } else if name_is(&name, "f64") && n == 0 {
            Ty::Float(FloatLength::_64)
        } else if name_is(&name, "bool") && n == 0 {
            Ty::Bool
        } else if name_is(&name, "char") && n == 0 {
            Ty::Char
        } else if name_is(&name, "()") && n == 0 {
            Ty::Unit
        } else if name_is(&name, "String") && n == 0 {
            Ty::String
        } else if name_is(&name, "Vec") && n == 1 && is_u8(&generics[0]) {
            Ty::Bytes
        } else if name_is(&name, "Vec") && n == 1 {
            let mut g = generics;
            Ty::Vec(Box::new(g.remove(0)))
        } else if name_is(&name, "VecDeque") && n == 1 {
            let mut g = generics;
            Ty::VecDeque(Box::new(g.remove(0)))
        } else if name_is(&name, "HashMap") && n == 2 {
            let mut g = generics;
            let k = g.remove(0);
            let v = g.remove(0);
            Ty::HashMap(Box::new(k), Box::new(v))
        } else if name_is(&name, "HashSet") && n == 1 {
            let mut g = generics;
            Ty::HashSet(Box::new(g.remove(0)))
        } else if name_is(&name, "BTreeMap") && n == 2 {
            let mut g = generics;
            let k = g.remove(0);
            let v = g.remove(0);
            Ty::BTreeMap(Box::new(k), Box::new(v))
        } else if name_is(&name, "BTreeSet") && n == 1 {
            let mut g = generics;
            Ty::BTreeSet(Box::new(g.remove(0)))
        } else if name_is(&name, "Option") && n == 1 {
            let mut g = generics;
            Ty::Option(Box::new(g.remove(0)))
        } else if name_is(&name, "Result") && n == 2 {
            let mut g = generics;
            let t = g.remove(0);
            let e = g.remove(0);
            Ty::Result(Box::new(t), Box::new(e))
        } else if name_is(&name, "SystemTime") && n == 0 {
            Ty::SystemTime
        } else if name_is(&name, "Instant") && n == 0 {
            Ty::Instant
        } else if name_is(&name, "Duration") && n == 0 {
            Ty::Duration
        } else {
            Ty::Unknown(name, generics)
        }
    }

    /// Renders the type back to a name and its generic arguments.
    /// An `Array` has no rendering in the registry's type language and is
    /// refused up front.
    pub fn to_unknown(self) -> (r: (String, Option<Generics>))
        requires
            !(self is Array),
        ensures
            to_unknown_rel(self, r.0@, r.1),
    {
        match self {
            Ty::Int(IntKind::Unsigned(IntLength::_8)) => ("u8".to_owned(), None),
            Ty::Int(IntKind::Unsigned(IntLength::_16)) => ("u16".to_owned(), None),
            Ty::Int(IntKind::Unsigned(IntLength::_32)) => ("u32".to_owned(), None),
            Ty::Int(IntKind::Unsigned(IntLength::_64)) => ("u64".to_owned(), None),
            Ty::Int(IntKind::Unsigned(IntLength::_128)) => ("u128".to_owned(), None),
            Ty::Int(IntKind::Unsigned(IntLength::Size)) => ("usize".to_owned(), None),
            Ty::Int(IntKind::Signed(IntLength::_8)) => ("i8".to_owned(), None),
            Ty::Int(IntKind::Signed(IntLength::_16)) => ("i16".to_owned(), None),
            Ty::Int(IntKind::Signed(IntLength::_32)) => ("i32".to_owned(), None),
            Ty::Int(IntKind::Signed(IntLength::_64)) => ("i64".to_owned(), None),
            Ty::Int(IntKind::Signed(IntLength::_128)) => ("i128".to_owned(), None),
            Ty::Int(IntKind::Signed(IntLength::Size)) => ("isize".to_owned(), None),
            Ty::Float(FloatLength::_32) => ("f32".to_owned(), None),
            Ty::Float(FloatLength::_64) => ("f64".to_owned(), None),
            Ty::Bool => ("bool".to_owned(), None),
            Ty::Char => ("char".to_owned(), None),
            Ty::Unit => ("()".to_owned(), None),
            Ty::String => ("String".to_owned(), None),
            Ty::Array(t, _) => {
                proof {
                    assert(false);
                }
                ("u8".to_owned(), None)
            },
            Ty::Vec(t) => ("Vec".to_owned(), Some(Generics::One(t))),
            Ty::Bytes => (
                "Vec".to_owned(),
                Some(Generics::One(Box::new(Ty::Int(IntKind::Unsigned(IntLength::_8))))),
            ),
            Ty::VecDeque(t) => ("VecDeque".to_owned(), Some(Generics::One(t))),
            Ty::HashMap(k, v) => ("HashMap".to_owned(), Some(Generics::Two(k, v))),
            Ty::HashSet(t) => ("HashSet".to_owned(), Some(Generics::One(t))),
            Ty::BTreeMap(k, v) => ("BTreeMap".to_owned(), Some(Generics::Two(k, v))),
            Ty::BTreeSet(t) => ("BTreeSet".to_owned(), Some(Generics::One(t))),
            Ty::Option(t) => ("Option".to_owned(), Some(Generics::One(t))),
            Ty::Result(t, e) => ("Result".to_owned(), Some(Generics::Two(t, e))),
            Ty::SystemTime => ("SystemTime".to_owned(), None),
            Ty::Instant => ("Instant".to_owned(), None),
            Ty::Duration => ("Duration".to_owned(), None),
            Ty::Unknown(n, gs) => (n, Some(Generics::Many(gs))),
        }
    }
}

/// Whether the type is the eight-bit unsigned integer.
fn is_u8(t: &Ty) -> (r: bool)
    ensures
        r == (*t == Ty::Int(IntKind::Unsigned(IntLength::_8))),
{
    match t {
        Ty::Int(IntKind::Unsigned(IntLength::_8)) => true,
        _ => false,
    }
}

/// One argument of an updater method.
pub struct MethodArg {
    /// The argument's name.
    pub name: String,
    /// The argument's type.
    pub ty: Ty,
}

/// What a generated method does.
pub enum MethodDescriptorVariant {
    /// Sends a message built from the arguments.
    Updater { args: Vec<MethodArg> },
    /// Asks for a value or a nested model.
    Getter { ret_ty: ReturnTy },
}

/// What a getter returns.
pub enum ReturnTy {
    /// A plain value.
    Ty(Ty),
    /// A nested model, named by its descriptor's name.
    Model(String),
}

/// One generated method of a declared model.
pub struct MethodDescriptor {
    /// How the method is exported.
    pub vis: Visibility,
    /// The method's name.
    pub name: String,
    /// What the method does.
    pub variant: MethodDescriptorVariant,
}

/// One declared model: its name, its path in the crate, whether it is the
/// root of the tree, how its constructor is exported, and its methods.
pub struct ModelDescriptor {
    /// The model's type name.
    pub name: String,
    /// The model's full path in the crate.
    pub path: String,
    /// Whether this model is the root of the application's tree.
    pub root: bool,
    /// How the generated constructor is exported.
    pub new_vis: Visibility,
    /// The generated methods.
    pub methods: Vec<MethodDescriptor>,
}

/// Every declared model, collected at registration time.
pub struct Registry {
    /// One descriptor per declared model.
    pub models: Vec<ModelDescriptor>,
}

impl Registry {
    /// Whether a model of the given name is registered.
    pub open spec fn contains_model(self, name: Seq<char>) -> bool {
        exists|i: int|
            0 <= i < self.models@.len() && (#[trigger] self.models@[i]).name@ == name
    }

    /// The index of the model with the given name.
    pub open spec fn index_of_model(self, name: Seq<char>) -> int {
        choose|i: int|
            0 <= i < self.models@.len() && (#[trigger] self.models@[i]).name@ == name
    }

    /// Well-formedness: model names are distinct.
    pub open spec fn wf(self) -> bool {
        forall|i: int, j: int|
            #![trigger self.models@[i], self.models@[j]]
            0 <= i < j < self.models@.len() ==> self.models@[i].name@ != self.models@[j].name@
    }

    /// An empty registry.
    pub fn new() -> (r: Self)
        ensures
            r.models@ == Seq::<ModelDescriptor>::empty(),
            r.wf(),
    {
        Registry { models: Vec::new() }
    }

    /// The index of the model with the given name, if one is registered.
    pub fn find_model(&self, name: &String) -> (r: Option<usize>)
        requires
            self.wf(),
        ensures
            r is Some <==> self.contains_model(name@),
            r matches Option::Some(i) ==> i as int == self.index_of_model(name@) && i
                < self.models@.len() && self.models@[i as int].name@ == name@,
    {
        let mut i: usize = 0;
        while i < self.models.len()
            invariant
                self.wf(),
                i <= self.models@.len(),
                forall|j: int| 0 <= j < i ==> (#[trigger] self.models@[j]).name@ != name@,
            decreases self.models@.len() - i,
        {
            if self.models[i].name == *name {
                proof {
                    assert(self.models@[i as int].name@ == name@);
                    let j = self.index_of_model(name@);
                    if j != i as int {
                        if j < i as int {
                            assert(self.models@[j].name@ != self.models@[i as int].name@);
                        } else {
                            assert(self.models@[i as int].name@ != self.models@[j].name@);
                        }
                    }
                }
                return Some(i);
            }
            i = i + 1;
        }
        None
    }
}

/// One method's contribution to the nested-model list: the index of the
/// registered model a getter returns, if any.
pub open spec fn model_index_of_method(m: MethodDescriptor, registry: Registry) -> Seq<int> {
    match m.variant {
        MethodDescriptorVariant::Getter { ret_ty: ReturnTy::Model(name) } => if
            registry.contains_model(name@) {
            seq![registry.index_of_model(name@)]
        } else {
            Seq::empty()
        },
        _ => Seq::empty(),
    }
}

/// The nested models a descriptor's getters return, in method order, as
/// indices into the registry; getters of unregistered names contribute
/// nothing.
pub open spec fn nested_model_indices(methods: Seq<MethodDescriptor>, registry: Registry) -> Seq<
    int,
>
    decreases methods.len(),
{
    if methods.len() == 0 {
        Seq::empty()
    } else {
        model_index_of_method(methods.first(), registry) + nested_model_indices(
            methods.drop_first(),
            registry,
        )
    }
}

/// One more method contributes at the end of the list.
proof fn lemma_nested_model_indices_snoc(
    methods: Seq<MethodDescriptor>,
    m: MethodDescriptor,
    registry: Registry,
)
    ensures
        nested_model_indices(methods.push(m), registry) == nested_model_indices(methods, registry)
            + model_index_of_method(m, registry),
    decreases methods.len(),
{
    let snoc = methods.push(m);
    if methods.len() == 0 {
        assert(snoc.first() == m);
        assert(snoc.drop_first() =~= Seq::<MethodDescriptor>::empty());
        assert(nested_model_indices(snoc.drop_first(), registry) =~= Seq::<int>::empty());
        assert(nested_model_indices(methods, registry) =~= Seq::<int>::empty());
        assert(nested_model_indices(snoc, registry) =~= nested_model_indices(methods, registry)
            + model_index_of_method(m, registry));
    } else {
        assert(snoc.first() == methods.first());
        assert(snoc.drop_first() =~= methods.drop_first().push(m));
        lemma_nested_model_indices_snoc(methods.drop_first(), m, registry);
        assert(nested_model_indices(snoc, registry) =~= nested_model_indices(methods, registry)
            + model_index_of_method(m, registry));
    }
}

impl ModelDescriptor {
    /// The registered root model, if one was declared: the first
    /// registered descriptor marked as root.
    pub fn root(registry: &Registry) -> (r: Option<usize>)
        ensures
            r is None ==> forall|j: int|
                0 <= j < registry.models@.len() ==> !(#[trigger] registry.models@[j]).root,
            r matches Option::Some(i) ==> i < registry.models@.len() && registry.models@[
                i as int
            ].root && forall|j: int| 0 <= j < i ==> !(#[trigger] registry.models@[j]).root,
    {
        let mut i: usize = 0;
        while i < registry.models.len()
            invariant
                i <= registry.models@.len(),
                forall|j: int| 0 <= j < i ==> !(#[trigger] registry.models@[j]).root,
            decreases registry.models@.len() - i,
        {
            if registry.models[i].root {
                return Some(i);
            }
            i = i + 1;
        }
        None
    }

    /// The nested models this model's getters return, as indices into the
    /// registry, in method order.
    pub fn models(&self, registry: &Registry) -> (r: Vec<usize>)
        requires
            registry.wf(),
        ensures
            r@.len() == nested_model_indices(self.methods@, *registry).len(),
            forall|k: int|
                0 <= k < r@.len() ==> r@[k] as int == nested_model_indices(
                    self.methods@,
                    *registry,
                )[k],
    {
        let ghost all = self.methods@;
        let mut out: Vec<usize> = Vec::new();
        let mut i: usize = 0;
        proof {
            assert(all.take(0) =~= Seq::<MethodDescriptor>::empty());
        }
        while i < self.methods.len()
            invariant
                registry.wf(),
                i <= self.methods@.len(),
                all == self.methods@,
                out@.len() == nested_model_indices(all.take(i as int), *registry).len(),
                forall|k: int|
                    0 <= k < out@.len() ==> out@[k] as int == nested_model_indices(
                        all.take(i as int),
                        *registry,
                    )[k],
            decreases self.methods@.len() - i,
        {
            let ghost prev = all.take(i as int);
            let m = &self.methods[i];
            match &m.variant {
                MethodDescriptorVariant::Getter { ret_ty: ReturnTy::Model(name) } => {
                    match registry.find_model(name) {
                        Some(idx) => out.push(idx),
                        None => {},
                    }
                },
                _ => {},
            }
            proof {
                lemma_nested_model_indices_snoc(prev, all[i as int], *registry);
                assert(all.take(i + 1) =~= prev.push(all[i as int]));
            }
            i = i + 1;
        }
        proof {
            assert(all.take(all.len() as int) =~= all);
        }
        out
    }
}

} // verus!
