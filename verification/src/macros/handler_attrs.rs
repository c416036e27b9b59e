//! Plans for the items that the `calls` and `queries` attributes
//! generate from a trait of handler methods: the dispatch arms of the
//! module and the methods of the client.

use vstd::prelude::*;
use crate::text::{join, owned, str_eq};

verus! {

/// The singular of a word, as `inflector::string::singularize::to_singular`
/// forms it.
pub uninterp spec fn singular_form(word: Seq<char>) -> Seq<char>;

/// A name in Pascal case, as
/// `inflector::cases::pascalcase::to_pascal_case` writes it.
pub uninterp spec fn pascal_case(name: Seq<char>) -> Seq<char>;

/// Calls `inflector::string::singularize::to_singular`.
#[verifier::external_body]
fn to_singular(word: &str) -> (singular: String)
    ensures
        singular@ == singular_form(word@),
{
    inflector::string::singularize::to_singular(word)
}

/// Calls `inflector::cases::pascalcase::to_pascal_case`.
#[verifier::external_body]
fn to_pascal_case(name: &str) -> (pascal: String)
    ensures
        pascal@ == pascal_case(name@),
{
    inflector::cases::pascalcase::to_pascal_case(name)
}

/// The kind of handlers that a trait declares.
#[derive(PartialEq, Eq, Structural, Clone, Copy, Debug)]
pub enum Handlers {
    Calls,
    Queries,
}

impl Handlers {
    /// The name of the kind.
    pub open spec fn name_spec(&self) -> Seq<char> {
        match self {
            Handlers::Calls => "calls"@,
            Handlers::Queries => "queries"@,
        }
    }

    /// The context trait that handlers of the kind take.
    pub fn context_ty(&self) -> (name: &'static str)
        ensures
            name@ == match self {
                Handlers::Calls => "TxContext"@,
                Handlers::Queries => "Context"@,
            },
    {
        match self {
            Handlers::Calls => "TxContext",
            Handlers::Queries => "Context",
        }
    }

    /// The name of the kind.
    pub fn name(&self) -> (name: &'static str)
        ensures
            name@ == self.name_spec(),
    {
        match self {
            Handlers::Calls => "calls",
            Handlers::Queries => "queries",
        }
    }

    /// The name of the attribute that marks one handler of the kind.
    pub fn attr_name(&self) -> (name: String)
        ensures
            name@ == singular_form(self.name_spec()),
    {
        to_singular(self.name())
    }

    /// The name of the function that dispatches to the handlers.
    pub fn handler_fn_ident(&self) -> (name: String)
        ensures
            name@ == "handle_"@ + singular_form(self.name_spec()),
    {
        let singular = to_singular(self.name());
        join("handle_", singular.as_str())
    }

    /// The name of the client trait for the handlers.
    pub fn client_trait_ident(&self) -> (name: String)
        ensures
            name@ == "Client"@ + pascal_case(self.name_spec()),
    {
        let pascal = to_pascal_case(self.name());
        join("Client", pascal.as_str())
    }
}

/// The types that are passed to the client by value.
pub struct CopyTypes {
    names: Vec<String>,
}

/// Registers user-defined `Copy` types.
pub fn register_copy_types(registry: &mut CopyTypes, copy_types: Vec<String>)
    ensures
        forall|name: Seq<char>| #[trigger]
            holds(final(registry).names(), name) <==> holds(old(registry).names(), name)
                || holds(copy_types@, name),
        old(registry).is_well_formed() ==> final(registry).is_well_formed(),
{
    registry.register_copy_types(copy_types)
}

/// Whether a list of names holds a name.
pub open spec fn holds(names: Seq<String>, name: Seq<char>) -> bool {
    exists|i: int| 0 <= i < names.len() && #[trigger] names[i]@ == name
}

impl CopyTypes {
    /// The registered names.
    pub closed spec fn names(&self) -> Seq<String> {
        self.names@
    }

    /// The registry is a set: no name is registered twice.
    pub open spec fn is_well_formed(&self) -> bool {
        are_distinct(self.names())
    }

    /// The types that are `Copy` without being registered: the numbers.
    pub fn new() -> (types: Self)
        ensures
            types.names().len() == 12,
            holds(types.names(), "u8"@),
            holds(types.names(), "i8"@),
            holds(types.names(), "u16"@),
            holds(types.names(), "i16"@),
            holds(types.names(), "u32"@),
            holds(types.names(), "i32"@),
            holds(types.names(), "u64"@),
            holds(types.names(), "i64"@),
            holds(types.names(), "u128"@),
            holds(types.names(), "i128"@),
            holds(types.names(), "f32"@),
            holds(types.names(), "f64"@),
            types.is_well_formed(),
    {
        let mut names: Vec<String> = Vec::new();
        names.push(owned("u8"));
        names.push(owned("i8"));
        names.push(owned("u16"));
        names.push(owned("i16"));
        names.push(owned("u32"));
        names.push(owned("i32"));
        names.push(owned("u64"));
        names.push(owned("i64"));
        names.push(owned("u128"));
        names.push(owned("i128"));
        names.push(owned("f32"));
        names.push(owned("f64"));
        proof {
            assert(names@[0]@ == "u8"@);
            assert(names@[1]@ == "i8"@);
            assert(names@[2]@ == "u16"@);
            assert(names@[3]@ == "i16"@);
            assert(names@[4]@ == "u32"@);
            assert(names@[5]@ == "i32"@);
            assert(names@[6]@ == "u64"@);
            assert(names@[7]@ == "i64"@);
            assert(names@[8]@ == "u128"@);
            assert(names@[9]@ == "i128"@);
            assert(names@[10]@ == "f32"@);
            assert(names@[11]@ == "f64"@);
            reveal_strlit("u8");
            reveal_strlit("i8");
            reveal_strlit("u16");
            reveal_strlit("i16");
            reveal_strlit("u32");
            reveal_strlit("i32");
            reveal_strlit("u64");
            reveal_strlit("i64");
            reveal_strlit("u128");
            reveal_strlit("i128");
            reveal_strlit("f32");
            reveal_strlit("f64");
            assert(are_distinct(names@)) by {
                assert forall|i: int, j: int| 0 <= i < j < names@.len() implies (
                #[trigger] names@[i])@ != (#[trigger] names@[j])@ by {
                    let a = names@[i]@;
                    let b = names@[j]@;
                    if a.len() == b.len() {
                        assert(a[0] != b[0] || a[1] != b[1] || a[2] != b[2]);
                    }
                }
            }
        }
        CopyTypes { names }
    }

    /// Registers user-defined `Copy` types; one that is registered is
    /// not registered again.
    pub fn register_copy_types(&mut self, copy_types: Vec<String>)
        ensures
            forall|name: Seq<char>| #[trigger]
                holds(final(self).names(), name) <==> holds(old(self).names(), name) || holds(
                    copy_types@,
                    name,
                ),
            old(self).is_well_formed() ==> final(self).is_well_formed(),
    {
        let ghost all = copy_types@;
        let mut rest = crate::cbor::reversed(copy_types);
        let ghost mut done: int = 0;
        while rest.len() > 0
            invariant
                rest@.len() + done == all.len(),
                0 <= done <= all.len(),
                rest@ == all.reverse().subrange(0, rest@.len() as int),
                forall|name: Seq<char>|
                    holds(self.names(), name) <==> holds(old(self).names(), name) || holds(
                        all.subrange(0, done),
                        name,
                    ),
                old(self).is_well_formed() ==> self.is_well_formed(),
            decreases rest.len(),
        {
            let name = rest.pop().unwrap();
            assert(name == all[done]);
            let ghost before = self.names();
            let ghost seen = all.subrange(0, done);
            let ghost next = all.subrange(0, done + 1);
            assert(next.drop_last() =~= seen);
            assert(next.last() == name);
            let known = self.is_copy_ty(name.as_str());
            if !known {
                proof {
                    if self.is_well_formed() {
                        lemma_push_distinct(before, name);
                    }
                }
                self.names.push(name);
            }
            proof {
                let after = self.names();
                assert forall|other: Seq<char>|
                    holds(after, other) <==> holds(old(self).names(), other) || holds(
                        next,
                        other,
                    ) by {
                    lemma_holds_push(seen, name, other);
                    if known {
                        assert(after == before);
                    } else {
                        assert(after == before.push(name));
                        lemma_holds_push(before, name, other);
                    }
                }
                done = done + 1;
            }
        }
        assert(all.subrange(0, all.len() as int) =~= all);
    }

    /// Whether the type of the given name is passed by value.
    pub fn is_copy_ty(&self, ty_ident: &str) -> (copy: bool)
        ensures
            copy == holds(self.names(), ty_ident@),
    {
        let mut i: usize = 0;
        while i < self.names.len()
            invariant
                i <= self.names.len(),
                forall|j: int| 0 <= j < i ==> self.names@[j]@ != ty_ident@,
            decreases self.names.len() - i,
        {
            if str_eq(self.names[i].as_str(), ty_ident) {
                return true;
            }
            i += 1;
        }
        false
    }
}

/// The modules for which a client has been generated.
pub struct GenerationRecord {
    modules: Vec<String>,
}

/// No name stands twice in the list.
pub open spec fn are_distinct(names: Seq<String>) -> bool {
    forall|i: int, j: int| 0 <= i < j < names.len() ==> (#[trigger] names[i])@ != (#[trigger] names[j])@
}

/// A list with one more name holds what it held and that name.
pub proof fn lemma_holds_push(names: Seq<String>, name: String, other: Seq<char>)
    ensures
        holds(names.push(name), other) <==> holds(names, other) || name@ == other,
{
    let longer = names.push(name);
    if holds(longer, other) {
        let i = choose|i: int| 0 <= i < longer.len() && #[trigger] longer[i]@ == other;
        if i < names.len() {
            assert(names[i]@ == other);
        }
    }
    if holds(names, other) {
        let i = choose|i: int| 0 <= i < names.len() && #[trigger] names[i]@ == other;
        assert(longer[i]@ == other);
    }
    if name@ == other {
        assert(longer[names.len() as int]@ == other);
    }
}

/// A name that the list does not hold can be added to it.
pub proof fn lemma_push_distinct(names: Seq<String>, name: String)
    requires
        are_distinct(names),
        !holds(names, name@),
    ensures
        are_distinct(names.push(name)),
{
    let longer = names.push(name);
    assert forall|i: int, j: int| 0 <= i < j < longer.len() implies (#[trigger] longer[i])@ != (
    #[trigger] longer[j])@ by {
        if j < names.len() {
            assert(names[i]@ != names[j]@);
        } else {
            assert(names[i]@ != name@);
        }
    }
}

impl GenerationRecord {
    /// The recorded modules.
    pub closed spec fn modules(&self) -> Seq<String> {
        self.modules@
    }

    /// The record is a set: no module is recorded twice.
    pub open spec fn is_well_formed(&self) -> bool {
        are_distinct(self.modules())
    }

    /// A record without modules.
    pub fn new() -> (record: Self)
        ensures
            record.modules().len() == 0,
            record.is_well_formed(),
    {
        GenerationRecord { modules: Vec::new() }
    }

    /// Whether the record holds a module.
    pub fn contains(&self, module: &str) -> (found: bool)
        ensures
            found == holds(self.modules(), module@),
    {
        let mut i: usize = 0;
        while i < self.modules.len()
            invariant
                i <= self.modules.len(),
                forall|j: int| 0 <= j < i ==> self.modules@[j]@ != module@,
            decreases self.modules.len() - i,
        {
            if str_eq(self.modules[i].as_str(), module) {
                return true;
            }
            i += 1;
        }
        false
    }
}

/// Runs the generator for a module unless it has run for that module
/// before, and records the module.
pub fn generate_once<T, F: FnOnce() -> T>(
    record: &mut GenerationRecord,
    current_mod: String,
    generator: F,
) -> (r: Option<T>)
    requires
        generator.requires(()),
    ensures
        match r {
            Some(generated) => {
                &&& !holds(old(record).modules(), current_mod@)
                &&& generator.ensures((), generated)
                &&& final(record).modules() == old(record).modules().push(current_mod)
            },
            None => holds(old(record).modules(), current_mod@) && final(record).modules() == old(
                record,
            ).modules(),
        },
        old(record).is_well_formed() ==> final(record).is_well_formed(),
{
    if record.contains(current_mod.as_str()) {
        return None;
    }
    proof {
        if record.is_well_formed() {
            lemma_push_distinct(record.modules(), current_mod);
        }
    }
    record.modules.push(current_mod);
    Some(generator())
}

/// The shape of a type, as far as the client cares.
pub enum Type {
    /// `&T`.
    Reference(Box<Type>),
    /// `[T; N]`.
    Array(Box<Type>),
    /// A type in invisible brackets.
    Group(Box<Type>),
    /// A type in round brackets.
    Paren(Box<Type>),
    /// `impl Trait`.
    ImplTrait,
    /// `(A, B)`.
    Tuple,
    /// `dyn Trait`.
    TraitObject,
    /// A path: the name of its last segment and that segment's first
    /// type argument, if it has one.
    Path { last: String, argument: Option<Box<Type>> },
    /// Any other type.
    Other,
}

/// How the client takes an argument.
pub enum Borrowed {
    /// By reference to the type itself.
    Ref,
    /// By reference to what the reference refers to.
    RefElement,
    /// By reference to a slice of the elements.
    RefSlice,
    /// By reference to a string slice.
    RefStr,
    /// By reference to a path.
    RefPath,
    /// By value, as the element of the cell.
    Element,
    /// By value.
    Value,
    /// As the type inside the wrapper is taken.
    Inner(Box<Borrowed>),
}

/// Whether a name is that of a wrapper that the client looks through.
pub open spec fn is_wrapper(name: Seq<char>) -> bool {
    name == "Box"@ || name == "Arc"@ || name == "Rc"@ || name == "RefCell"@ || name == "Mutex"@
        || name == "RwLock"@
}

/// How the client takes an argument of the given type, and whether it
/// borrows it. A wrapper is looked through; a wrapper, cell or vector
/// without a type argument is taken as a type of its own.
pub open spec fn borrowed_of(ty: Type, copy_types: Seq<String>) -> (bool, Borrowed)
    decreases ty,
{
    match ty {
        Type::Reference(_) => (true, Borrowed::RefElement),
        Type::Array(_) => (true, Borrowed::Ref),
        Type::Group(elem) => borrowed_of(*elem, copy_types),
        Type::Paren(elem) => borrowed_of(*elem, copy_types),
        Type::ImplTrait => (true, Borrowed::Ref),
        Type::Tuple => (true, Borrowed::Ref),
        Type::TraitObject => (true, Borrowed::Ref),
        Type::Path { last, argument } => {
            if is_wrapper(last@) && argument is Some {
                (
                    borrowed_of(*argument->Some_0, copy_types).0,
                    Borrowed::Inner(Box::new(borrowed_of(*argument->Some_0, copy_types).1)),
                )
            } else if last@ == "Cell"@ && argument is Some {
                (false, Borrowed::Element)
            } else if last@ == "Vec"@ && argument is Some {
                (true, Borrowed::RefSlice)
            } else if last@ == "String"@ {
                (true, Borrowed::RefStr)
            } else if last@ == "PathBuf"@ {
                (true, Borrowed::RefPath)
            } else if !is_wrapper(last@) && last@ != "Cell"@ && last@ != "Vec"@ && holds(
                copy_types,
                last@,
            ) {
                (false, Borrowed::Value)
            } else {
                (true, Borrowed::Ref)
            }
        },
        Type::Other => (false, Borrowed::Value),
    }
}

/// Whether a name is that of a wrapper that the client looks through.
fn is_wrapper_name(name: &str) -> (wrapper: bool)
    ensures
        wrapper == is_wrapper(name@),
{
    str_eq(name, "Box") || str_eq(name, "Arc") || str_eq(name, "Rc") || str_eq(name, "RefCell")
        || str_eq(name, "Mutex") || str_eq(name, "RwLock")
}

/// The first type argument of the last segment of a path.
pub fn extract_generic_ty(ty: &Type) -> (argument: &Type)
    requires
        ty matches Type::Path { last, argument } && argument is Some,
    ensures
        ty matches Type::Path { last, argument: Some(a) } && *argument == *a,
{
    match ty {
        Type::Path { argument: Some(argument), .. } => argument,
        _ => ty,
    }
}

/// Returns `(has_been_borrowed, ty)`.
pub fn to_borrowed(ty: &Type, copy_types: &CopyTypes) -> (r: (bool, Borrowed))
    ensures
        r == borrowed_of(*ty, copy_types.names()),
    decreases ty,
{
    match ty {
        Type::Reference(_) => (true, Borrowed::RefElement),
        Type::Array(_) => (true, Borrowed::Ref),
        Type::Group(elem) => to_borrowed(elem, copy_types),
        Type::Paren(elem) => to_borrowed(elem, copy_types),
        Type::ImplTrait => (true, Borrowed::Ref),
        Type::Tuple => (true, Borrowed::Ref),
        Type::TraitObject => (true, Borrowed::Ref),
        Type::Path { last, argument } => {
            let name = last.as_str();
            match argument {
                Some(elem) => {
                    if is_wrapper_name(name) {
                        let (borrowed, inner) = to_borrowed(elem, copy_types);
                        return (borrowed, Borrowed::Inner(Box::new(inner)));
                    } else if str_eq(name, "Cell") {
                        return (false, Borrowed::Element);
                    } else if str_eq(name, "Vec") {
                        return (true, Borrowed::RefSlice);
                    }
                },
                None => {},
            }
            if str_eq(name, "String") {
                (true, Borrowed::RefStr)
            } else if str_eq(name, "PathBuf") {
                (true, Borrowed::RefPath)
            } else if !is_wrapper_name(name) && !str_eq(name, "Cell") && !str_eq(name, "Vec")
                && copy_types.is_copy_ty(name) {
                (false, Borrowed::Value)
            } else {
                (true, Borrowed::Ref)
            }
        },
        Type::Other => (false, Borrowed::Value),
    }
}

/// A literal in an attribute.
pub enum Lit {
    /// A string, and whether it reads as an identifier.
    Str { value: String, is_ident: bool },
    /// Any other literal.
    Other,
}

/// A `name = literal` pair in an attribute.
pub struct MetaNameValue {
    /// The name, where it is a single identifier.
    pub ident: Option<String>,
    pub lit: Lit,
}

/// An argument of an attribute.
pub enum NestedMeta {
    NameValue(MetaNameValue),
    Other,
}

/// The content of an attribute.
pub enum Meta {
    /// A bare path.
    Path,
    /// A list of arguments.
    List(Vec<NestedMeta>),
    /// A `name = literal` pair.
    NameValue(MetaNameValue),
}

/// An attribute: the segments of its path, and its content where it
/// parses.
pub struct Attribute {
    pub path: Vec<String>,
    pub meta: Option<Meta>,
}

/// The path of an attribute ends as expected: the segments are compared
/// from the last one backwards, as far as both lists go.
pub open spec fn path_matches(path: Seq<String>, expected: Seq<String>) -> bool {
    forall|k: int|
        0 <= k < path.len() && k < expected.len() ==> (#[trigger] path[path.len() - 1 - k])@
            == expected[expected.len() - 1 - k]@
}

/// Whether the path of an attribute ends as expected.
pub fn attr_path_matches(path: &Vec<String>, expected: &Vec<String>) -> (matches: bool)
    ensures
        matches == path_matches(path@, expected@),
{
    let mut k: usize = 0;
    while k < path.len() && k < expected.len()
        invariant
            k <= path.len(),
            k <= expected.len(),
            forall|j: int|
                0 <= j < k ==> (#[trigger] path@[path@.len() - 1 - j])@ == expected@[expected@.len()
                    - 1 - j]@,
        decreases path.len() - k,
    {
        if !str_eq(
            path[path.len() - 1 - k].as_str(),
            expected[expected.len() - 1 - k].as_str(),
        ) {
            assert(path@[path@.len() - 1 - k]@ != expected@[expected@.len() - 1 - k]@);
            return false;
        }
        k += 1;
    }
    true
}

/// The position of the first attribute whose path ends as expected and
/// whose content parses.
pub open spec fn is_found_attr(
    attrs: Seq<Attribute>,
    expected: Seq<String>,
    r: Option<usize>,
) -> bool {
    match r {
        Some(at) => {
            &&& at < attrs.len()
            &&& path_matches(attrs[at as int].path@, expected)
            &&& attrs[at as int].meta is Some
            &&& forall|j: int|
                0 <= j < at ==> !(path_matches((#[trigger] attrs[j]).path@, expected)
                    && attrs[j].meta is Some)
        },
        None => forall|j: int|
            0 <= j < attrs.len() ==> !(path_matches((#[trigger] attrs[j]).path@, expected)
                && attrs[j].meta is Some),
    }
}

/// Returns the position of the parsed attribute with path ending with
/// `attr_path` or `None` if not found.
pub fn find_attr(attrs: &Vec<Attribute>, attr_path: &Vec<String>) -> (r: Option<usize>)
    ensures
        is_found_attr(attrs@, attr_path@, r),
{
    let mut i: usize = 0;
    while i < attrs.len()
        invariant
            i <= attrs.len(),
            forall|j: int|
                0 <= j < i ==> !(path_matches((#[trigger] attrs@[j]).path@, attr_path@)
                    && attrs@[j].meta is Some),
        decreases attrs.len() - i,
    {
        if attr_path_matches(&attrs[i].path, attr_path) && attrs[i].meta.is_some() {
            return Some(i);
        }
        i += 1;
    }
    None
}

/// The argument is the pair with the given name.
pub open spec fn is_key(meta: NestedMeta, key: Seq<char>) -> bool {
    meta matches NestedMeta::NameValue(pair) && pair.ident matches Some(name) && name@ == key
}

/// The first pair with the given name stands at `at`; `None` where no
/// pair has the name.
pub open spec fn is_first_key(metas: Seq<NestedMeta>, key: Seq<char>, at: Option<int>) -> bool {
    match at {
        Some(i) => 0 <= i < metas.len() && is_key(metas[i], key) && forall|j: int|
            0 <= j < i ==> !is_key(#[trigger] metas[j], key),
        None => forall|j: int| 0 <= j < metas.len() ==> !is_key(#[trigger] metas[j], key),
    }
}

/// The literal of the first pair with the given name.
pub open spec fn is_key_literal(metas: Seq<NestedMeta>, key: Seq<char>, lit: Option<Lit>) -> bool {
    exists|at: Option<int>| #[trigger]
        is_first_key(metas, key, at) && lit == match at {
            Some(i) => Some(metas[i]->NameValue_0.lit),
            None => None,
        }
}

/// Returns the position of the `MetaNameValue` identified by `key` or
/// `None` if not found.
pub fn find_meta_key(metas: &Vec<NestedMeta>, key: &str) -> (r: Option<usize>)
    ensures
        is_first_key(
            metas@,
            key@,
            match r {
                Some(at) => Some(at as int),
                None => None,
            },
        ),
{
    let mut i: usize = 0;
    while i < metas.len()
        invariant
            i <= metas.len(),
            forall|j: int| 0 <= j < i ==> !is_key(#[trigger] metas@[j], key@),
        decreases metas.len() - i,
    {
        match &metas[i] {
            NestedMeta::NameValue(pair) => match &pair.ident {
                Some(name) => {
                    if str_eq(name.as_str(), key) {
                        return Some(i);
                    }
                },
                None => {},
            },
            NestedMeta::Other => {},
        }
        i += 1;
    }
    None
}

/// An argument of a method as it is declared.
pub struct FnArg {
    /// The name that the argument is bound to, where the pattern is a
    /// plain name.
    pub ident: Option<String>,
    pub ty: Type,
}

/// What a method returns.
pub enum ReturnType {
    /// Nothing is written: the method returns `()`.
    Default,
    /// A type is written.
    Type(Type),
}

/// A method of the trait of handlers.
pub struct TraitMethod {
    pub ident: String,
    pub attrs: Vec<Attribute>,
    /// Whether the method takes `self`.
    pub has_receiver: bool,
    pub inputs: Vec<FnArg>,
    pub output: ReturnType,
}

/// Why no items can be generated for a trait of handlers.
#[derive(PartialEq, Eq, Structural, Clone, Copy, Debug)]
pub enum AttrError {
    /// `module_name` is not a string.
    ExpectedModuleName,
    /// A method takes `self`.
    SelfArgument,
    /// An argument of a method is not bound to a plain name.
    UnnamedArgument,
    /// `client_method` is a string that is no identifier.
    ExpectedIdentifier,
    /// `client_method` or `name` is not a string.
    ExpectedLiteralString,
}

impl AttrError {
    /// The error in words.
    pub fn message(&self) -> (text: &'static str)
        ensures
            text@ == match self {
                AttrError::ExpectedModuleName => "expected `module_name` to be a valid path"@,
                AttrError::SelfArgument => "must not have a `self` argument"@,
                AttrError::UnnamedArgument => "all arguments must be named"@,
                AttrError::ExpectedIdentifier => "expected a valid identifier"@,
                AttrError::ExpectedLiteralString =>
                    "expected a literal string containing valid identifier"@,
            },
    {
        match self {
            AttrError::ExpectedModuleName => "expected `module_name` to be a valid path",
            AttrError::SelfArgument => "must not have a `self` argument",
            AttrError::UnnamedArgument => "all arguments must be named",
            AttrError::ExpectedIdentifier => "expected a valid identifier",
            AttrError::ExpectedLiteralString =>
                "expected a literal string containing valid identifier",
        }
    }
}

/// An argument of a handler: the position of the argument in the method
/// and the name that it is bound to.
pub struct MethodArg {
    pub position: usize,
    pub binding: String,
}

/// The arguments of a method are all bound to plain names, and `args`
/// are those names in order.
pub open spec fn is_unpacked_args(inputs: Seq<FnArg>, args: Seq<MethodArg>) -> bool {
    &&& args.len() == inputs.len()
    &&& forall|i: int|
        0 <= i < inputs.len() ==> (#[trigger] args[i]).position == i && inputs[i].ident
            == Some(args[i].binding)
}

/// The arguments of a handler. A method that takes `self` and a method
/// with an argument that is not bound to a plain name are turned down.
pub fn unpack_method_args(method: &TraitMethod) -> (r: Result<Vec<MethodArg>, AttrError>)
    ensures
        match r {
            Ok(args) => !method.has_receiver && is_unpacked_args(method.inputs@, args@),
            Err(e) => if method.has_receiver {
                e == AttrError::SelfArgument
            } else {
                e == AttrError::UnnamedArgument && exists|i: int|
                    0 <= i < method.inputs@.len() && (#[trigger] method.inputs@[i]).ident is None
            },
        },
{
    if method.has_receiver {
        return Err(AttrError::SelfArgument);
    }
    let mut args: Vec<MethodArg> = Vec::new();
    let mut i: usize = 0;
    while i < method.inputs.len()
        invariant
            !method.has_receiver,
            i <= method.inputs.len(),
            args@.len() == i,
            forall|j: int|
                0 <= j < i ==> (#[trigger] args@[j]).position == j && method.inputs@[j].ident
                    == Some(args@[j].binding),
        decreases method.inputs.len() - i,
    {
        match &method.inputs[i].ident {
            Some(ident) => {
                args.push(MethodArg { position: i, binding: ident.clone() });
            },
            None => {
                assert(0 <= i < method.inputs@.len() && method.inputs@[i as int].ident is None);
                assert(exists|k: int|
                    0 <= k < method.inputs@.len() && (#[trigger] method.inputs@[k]).ident is None);
                return Err(AttrError::UnnamedArgument);
            },
        }
        i += 1;
    }
    Ok(args)
}

/// What is generated for one handler.
pub struct HandlerMethod {
    /// The position of the method in the trait.
    pub method: usize,
    /// The name of the method on the client.
    pub client_method_ident: String,
    pub args: Vec<MethodArg>,
    /// The name of the method on the wire, after the name of the module
    /// and a dot.
    pub rpc_name: String,
    /// The positions of the `cfg` and `cfg_attr` attributes of the method.
    pub cfg_attrs: Vec<usize>,
}

/// An attribute is a `cfg` or a `cfg_attr`.
pub open spec fn is_cfg(attr: Attribute) -> bool {
    attr.path@.len() == 1 && (attr.path@[0]@ == "cfg"@ || attr.path@[0]@ == "cfg_attr"@)
}

/// `positions` are the positions of the `cfg` and `cfg_attr` attributes,
/// all of them and in order.
pub open spec fn is_cfg_positions(attrs: Seq<Attribute>, positions: Seq<usize>) -> bool {
    &&& forall|k: int|
        0 <= k < positions.len() ==> (#[trigger] positions[k]) < attrs.len() && is_cfg(
            attrs[positions[k] as int],
        )
    &&& forall|i: int|
        0 <= i < attrs.len() && is_cfg(#[trigger] attrs[i]) ==> positions.contains(i as usize)
    &&& forall|a: int, b: int| 0 <= a < b < positions.len() ==> positions[a] < positions[b]
}

/// The positions of the `cfg` and `cfg_attr` attributes, in order.
pub fn cfg_attrs(attrs: &Vec<Attribute>) -> (positions: Vec<usize>)
    ensures
        is_cfg_positions(attrs@, positions@),
{
    let mut positions: Vec<usize> = Vec::new();
    let mut i: usize = 0;
    while i < attrs.len()
        invariant
            i <= attrs.len(),
            forall|k: int|
                0 <= k < positions@.len() ==> (#[trigger] positions@[k]) < i && is_cfg(
                    attrs@[positions@[k] as int],
                ),
            forall|j: int|
                0 <= j < i && is_cfg(#[trigger] attrs@[j]) ==> positions@.contains(j as usize),
            forall|a: int, b: int| 0 <= a < b < positions@.len() ==> positions@[a] < positions@[b],
        decreases attrs.len() - i,
    {
        let path = &attrs[i].path;
        if path.len() == 1 && (str_eq(path[0].as_str(), "cfg") || str_eq(
            path[0].as_str(),
            "cfg_attr",
        )) {
            let ghost before = positions@;
            positions.push(i);
            assert forall|j: int|
                0 <= j < i + 1 && is_cfg(#[trigger] attrs@[j]) implies positions@.contains(
                j as usize,
            ) by {
                if j < i {
                    let k = choose|k: int| 0 <= k < before.len() && before[k] == j as usize;
                    assert(positions@[k] == j as usize);
                } else {
                    assert(positions@[before.len() as int] == j as usize);
                }
            }
        }
        i += 1;
    }
    positions
}

/// The name of a handler on the client, given the literal of
/// `client_method` in the attribute of the handler.
pub open spec fn is_client_ident(
    method: TraitMethod,
    lit: Option<Lit>,
    r: Result<String, AttrError>,
) -> bool {
    match lit {
        None => r == Ok::<String, AttrError>(method.ident),
        Some(Lit::Str { value, is_ident }) => if is_ident {
            r == Ok::<String, AttrError>(value)
        } else {
            r == Err::<String, AttrError>(AttrError::ExpectedIdentifier)
        },
        Some(Lit::Other) => r == Err::<String, AttrError>(AttrError::ExpectedLiteralString),
    }
}

/// The name of a handler on the client: `client_method` where the
/// attribute gives it, else the name of the method.
pub fn client_method_ident(method: &TraitMethod, metas: &Vec<NestedMeta>) -> (r: Result<
    String,
    AttrError,
>)
    ensures
        exists|lit: Option<Lit>| #[trigger]
            is_key_literal(metas@, "client_method"@, lit) && is_client_ident(*method, lit, r),
{
    match find_meta_key(metas, "client_method") {
        Some(at) => {
            assert(is_first_key(metas@, "client_method"@, Some(at as int)));
            assert(is_key_literal(
                metas@,
                "client_method"@,
                Some(metas@[at as int]->NameValue_0.lit),
            ));
            match &metas[at] {
                NestedMeta::NameValue(pair) => match &pair.lit {
                    Lit::Str { value, is_ident } => {
                        if *is_ident {
                            Ok(value.clone())
                        } else {
                            Err(AttrError::ExpectedIdentifier)
                        }
                    },
                    Lit::Other => Err(AttrError::ExpectedLiteralString),
                },
                NestedMeta::Other => Ok(method.ident.clone()),
            }
        },
        None => {
            assert(is_first_key(metas@, "client_method"@, None));
            assert(is_key_literal(metas@, "client_method"@, None));
            Ok(method.ident.clone())
        },
    }
}

/// The name of a handler on the wire, given the literal of `name` in the
/// attribute of the handler.
pub open spec fn is_rpc_name(
    method: TraitMethod,
    lit: Option<Lit>,
    r: Result<String, AttrError>,
) -> bool {
    match lit {
        None => r matches Ok(name) && name@ == pascal_case(method.ident@),
        Some(Lit::Str { value, is_ident }) => r == Ok::<String, AttrError>(value),
        Some(Lit::Other) => r == Err::<String, AttrError>(AttrError::ExpectedLiteralString),
    }
}

/// The name of a handler on the wire: `name` where the attribute gives
/// it, else the name of the method in Pascal case.
pub fn rpc_name(method: &TraitMethod, metas: &Vec<NestedMeta>) -> (r: Result<String, AttrError>)
    ensures
        exists|lit: Option<Lit>| #[trigger]
            is_key_literal(metas@, "name"@, lit) && is_rpc_name(*method, lit, r),
{
    match find_meta_key(metas, "name") {
        Some(at) => {
            assert(is_first_key(metas@, "name"@, Some(at as int)));
            assert(is_key_literal(metas@, "name"@, Some(metas@[at as int]->NameValue_0.lit)));
            match &metas[at] {
                NestedMeta::NameValue(pair) => match &pair.lit {
                    Lit::Str { value, .. } => Ok(value.clone()),
                    Lit::Other => Err(AttrError::ExpectedLiteralString),
                },
                NestedMeta::Other => Ok(to_pascal_case(method.ident.as_str())),
            }
        },
        None => {
            assert(is_first_key(metas@, "name"@, None));
            assert(is_key_literal(metas@, "name"@, None));
            Ok(to_pascal_case(method.ident.as_str()))
        },
    }
}

/// The path of the attribute that marks a handler of the kind: `sdk`,
/// then the singular of the name of the kind.
pub open spec fn is_handlers_attr(path: Seq<String>, kind: Handlers) -> bool {
    path.len() == 2 && path[0]@ == "sdk"@ && path[1]@ == singular_form(kind.name_spec())
}

/// The arguments of the attribute that marks a handler: those of the
/// attribute found, where it is a list, and none otherwise.
pub open spec fn is_handler_metas(
    attrs: Seq<Attribute>,
    path: Seq<String>,
    found: Option<usize>,
    metas: Seq<NestedMeta>,
) -> bool {
    &&& is_found_attr(attrs, path, found)
    &&& metas == match found {
        Some(at) => match attrs[at as int].meta {
            Some(Meta::List(nested)) => nested@,
            _ => Seq::empty(),
        },
        None => Seq::empty(),
    }
}

/// The names of a handler are those that the arguments of its attribute
/// give.
pub open spec fn is_named(
    method: TraitMethod,
    path: Seq<String>,
    found: Option<usize>,
    metas: Seq<NestedMeta>,
    handler: HandlerMethod,
) -> bool {
    &&& is_handler_metas(method.attrs@, path, found, metas)
    &&& exists|lit: Option<Lit>| #[trigger]
        is_key_literal(metas, "client_method"@, lit) && is_client_ident(
            method,
            lit,
            Ok(handler.client_method_ident),
        )
    &&& exists|lit: Option<Lit>| #[trigger]
        is_key_literal(metas, "name"@, lit) && is_rpc_name(method, lit, Ok(handler.rpc_name))
}

/// What is generated for a handler: it stands for the method at its
/// position, has the method's arguments, its `cfg` attributes, and the
/// names that the attribute of the handler gives.
pub open spec fn is_handler_of(
    method: TraitMethod,
    kind: Handlers,
    at: int,
    handler: HandlerMethod,
) -> bool {
    &&& handler.method == at
    &&& !method.has_receiver
    &&& is_unpacked_args(method.inputs@, handler.args@)
    &&& is_cfg_positions(method.attrs@, handler.cfg_attrs@)
    &&& exists|path: Seq<String>, found: Option<usize>, metas: Seq<NestedMeta>|
        is_handlers_attr(path, kind) && #[trigger] is_named(method, path, found, metas, handler)
}

/// The error that the literal of `client_method` stands for.
pub open spec fn ident_error(lit: Option<Lit>) -> Option<AttrError> {
    match lit {
        Some(Lit::Str { value, is_ident }) => if is_ident {
            None
        } else {
            Some(AttrError::ExpectedIdentifier)
        },
        Some(Lit::Other) => Some(AttrError::ExpectedLiteralString),
        None => None,
    }
}

/// The error that the literal of `name` stands for.
pub open spec fn name_error(lit: Option<Lit>) -> Option<AttrError> {
    match lit {
        Some(Lit::Other) => Some(AttrError::ExpectedLiteralString),
        _ => None,
    }
}

/// The error in the arguments of a method.
pub open spec fn args_error(method: TraitMethod) -> Option<AttrError> {
    if method.has_receiver {
        Some(AttrError::SelfArgument)
    } else if exists|i: int|
        0 <= i < method.inputs@.len() && (#[trigger] method.inputs@[i]).ident is None {
        Some(AttrError::UnnamedArgument)
    } else {
        None
    }
}

/// What comes of a method whose `client_method` is fine: the error in
/// its `name`, or else the error in its arguments.
pub open spec fn is_rpc_outcome(
    method: TraitMethod,
    metas: Seq<NestedMeta>,
    outcome: Option<AttrError>,
) -> bool {
    exists|name: Option<Lit>| #[trigger]
        is_key_literal(metas, "name"@, name) && match name_error(name) {
            Some(e) => outcome == Some(e),
            None => outcome == args_error(method),
        }
}

/// What comes of a method, given the arguments of its attribute: the
/// error in its `client_method`, or else in its `name`, or else in its
/// arguments.
pub open spec fn is_named_outcome(
    method: TraitMethod,
    metas: Seq<NestedMeta>,
    outcome: Option<AttrError>,
) -> bool {
    exists|ident: Option<Lit>| #[trigger]
        is_key_literal(metas, "client_method"@, ident) && match ident_error(ident) {
            Some(e) => outcome == Some(e),
            None => is_rpc_outcome(method, metas, outcome),
        }
}

/// What comes of a method as a handler of the kind: the error for which
/// it cannot be one, `None` where it can.
pub open spec fn is_method_outcome(
    method: TraitMethod,
    kind: Handlers,
    outcome: Option<AttrError>,
) -> bool {
    exists|path: Seq<String>, found: Option<usize>, metas: Seq<NestedMeta>|
        is_handlers_attr(path, kind) && #[trigger] is_handler_metas(
            method.attrs@,
            path,
            found,
            metas,
        ) && is_named_outcome(method, metas, outcome)
}

/// The first method that cannot be a handler fails with the error.
pub open spec fn fails_first(methods: Seq<TraitMethod>, kind: Handlers, e: AttrError) -> bool {
    exists|i: int|
        0 <= i < methods.len() && #[trigger] is_method_outcome(methods[i], kind, Some(e))
            && forall|j: int| 0 <= j < i ==> is_method_outcome(#[trigger] methods[j], kind, None)
}

/// Every method can be a handler.
pub open spec fn none_fails(methods: Seq<TraitMethod>, kind: Handlers) -> bool {
    forall|j: int| 0 <= j < methods.len() ==> is_method_outcome(#[trigger] methods[j], kind, None)
}

/// What is generated for the handlers of a trait: for each method, in
/// order, its names and arguments. The first method that cannot be a
/// handler fails the whole trait.
pub fn unpack_handler_methods(methods: &Vec<TraitMethod>, handlers_kind: Handlers) -> (r: Result<
    Vec<HandlerMethod>,
    AttrError,
>)
    ensures
        match r {
            Ok(handlers) => {
                &&& none_fails(methods@, handlers_kind)
                &&& handlers@.len() == methods@.len()
                &&& forall|i: int|
                    0 <= i < methods@.len() ==> is_handler_of(
                        methods@[i],
                        handlers_kind,
                        i,
                        #[trigger] handlers@[i],
                    )
            },
            Err(e) => fails_first(methods@, handlers_kind, e),
        },
{
    let mut handlers_attr: Vec<String> = Vec::new();
    handlers_attr.push(owned("sdk"));
    handlers_attr.push(handlers_kind.attr_name());
    let mut handler_methods: Vec<HandlerMethod> = Vec::new();
    let mut i: usize = 0;
    while i < methods.len()
        invariant
            i <= methods.len(),
            handler_methods@.len() == i,
            is_handlers_attr(handlers_attr@, handlers_kind),
            forall|j: int|
                0 <= j < i ==> is_method_outcome(#[trigger] methods@[j], handlers_kind, None),
            forall|j: int|
                0 <= j < i ==> is_handler_of(
                    methods@[j],
                    handlers_kind,
                    j,
                    #[trigger] handler_methods@[j],
                ),
        decreases methods.len() - i,
    {
        let method = &methods[i];
        let empty: Vec<NestedMeta> = Vec::new();
        let found = find_attr(&method.attrs, &handlers_attr);
        let handler_metas = match found {
            Some(at) => match &method.attrs[at].meta {
                Some(Meta::List(nested)) => nested,
                _ => &empty,
            },
            None => &empty,
        };
        assert(is_handler_metas(method.attrs@, handlers_attr@, found, handler_metas@));
        let named = client_method_ident(method, handler_metas);
        let ghost ident = choose|lit: Option<Lit>| #[trigger]
            is_key_literal(handler_metas@, "client_method"@, lit) && is_client_ident(
                *method,
                lit,
                named,
            );
        let client_method_ident = match named {
            Ok(ident) => ident,
            Err(e) => {
                proof {
                    assert(ident_error(ident) == Some(e));
                    assert(is_named_outcome(*method, handler_metas@, Some(e)));
                    assert(is_method_outcome(methods@[i as int], handlers_kind, Some(e)));
                }
                return Err(e);
            },
        };
        let called = rpc_name(method, handler_metas);
        let ghost name = choose|lit: Option<Lit>| #[trigger]
            is_key_literal(handler_metas@, "name"@, lit) && is_rpc_name(*method, lit, called);
        let rpc_name = match called {
            Ok(name) => name,
            Err(e) => {
                proof {
                    assert(name_error(name) == Some(e));
                    assert(is_rpc_outcome(*method, handler_metas@, Some(e)));
                    assert(ident_error(ident) is None);
                    assert(is_named_outcome(*method, handler_metas@, Some(e)));
                    assert(is_method_outcome(methods@[i as int], handlers_kind, Some(e)));
                }
                return Err(e);
            },
        };
        let cfg_attrs = cfg_attrs(&method.attrs);
        let unpacked = unpack_method_args(method);
        proof {
            let outcome = match unpacked {
                Ok(_) => None,
                Err(e) => Some(e),
            };
            assert(outcome == args_error(*method)) by {
                if unpacked is Ok {
                    let args = unpacked->Ok_0;
                    assert forall|k: int| 0 <= k < method.inputs@.len() implies !((
                    #[trigger] method.inputs@[k]).ident is None) by {
                        assert(args@[k].position == k);
                    }
                }
            }
            assert(name_error(name) is None);
            assert(ident_error(ident) is None);
            assert(is_rpc_outcome(*method, handler_metas@, outcome));
            assert(is_named_outcome(*method, handler_metas@, outcome));
            assert(is_method_outcome(methods@[i as int], handlers_kind, outcome));
        }
        let args = match unpacked {
            Ok(args) => args,
            Err(e) => {
                return Err(e);
            },
        };
        let handler = HandlerMethod { method: i, client_method_ident, args, rpc_name, cfg_attrs };
        assert(is_named(*method, handlers_attr@, found, handler_metas@, handler));
        assert(is_handler_of(*method, handlers_kind, i as int, handler));
        handler_methods.push(handler);
        i += 1;
    }
    Ok(handler_methods)
}

/// One arm of the dispatch function that is generated for a module.
pub struct DispatchArm {
    /// The name of the method on the wire, after the name of the module
    /// and a dot.
    pub rpc_name: String,
    /// The position of the handler among the handlers of the trait.
    pub handler: usize,
    /// Whether the arguments are decoded as the one argument itself
    /// rather than as a record of arguments.
    pub serde_transparent: bool,
}

/// What is generated for a module.
pub struct ModuleItems {
    /// The name of the dispatch function.
    pub handler_fn_ident: String,
    /// The context trait that the handlers take.
    pub context_ty: &'static str,
    pub arms: Vec<DispatchArm>,
}

/// The arms dispatch to the handlers, one arm for each handler in order.
pub open spec fn is_arms_of(handlers: Seq<HandlerMethod>, arms: Seq<DispatchArm>) -> bool {
    &&& arms.len() == handlers.len()
    &&& forall|i: int|
        0 <= i < handlers.len() ==> {
            &&& (#[trigger] arms[i]).handler == i
            &&& arms[i].rpc_name == handlers[i].rpc_name
            &&& arms[i].serde_transparent == (handlers[i].args@.len() == 1)
        }
}

/// Plans the items of the module: the dispatch function and its arms.
pub fn gen_module_items(handler_methods: &Vec<HandlerMethod>, handlers_kind: Handlers) -> (items:
    ModuleItems)
    ensures
        items.handler_fn_ident@ == "handle_"@ + singular_form(handlers_kind.name_spec()),
        items.context_ty@ == match handlers_kind {
            Handlers::Calls => "TxContext"@,
            Handlers::Queries => "Context"@,
        },
        is_arms_of(handler_methods@, items.arms@),
{
    let mut arms: Vec<DispatchArm> = Vec::new();
    let mut i: usize = 0;
    while i < handler_methods.len()
        invariant
            i <= handler_methods.len(),
            arms@.len() == i,
            forall|j: int|
                0 <= j < i ==> {
                    &&& (#[trigger] arms@[j]).handler == j
                    &&& arms@[j].rpc_name == handler_methods@[j].rpc_name
                    &&& arms@[j].serde_transparent == (handler_methods@[j].args@.len() == 1)
                },
        decreases handler_methods.len() - i,
    {
        arms.push(
            DispatchArm {
                rpc_name: handler_methods[i].rpc_name.clone(),
                handler: i,
                serde_transparent: handler_methods[i].args.len() == 1,
            },
        );
        i += 1;
    }
    ModuleItems {
        handler_fn_ident: handlers_kind.handler_fn_ident(),
        context_ty: handlers_kind.context_ty(),
        arms,
    }
}

/// The name of a method on the wire: the name of the module, a dot, and
/// the name of the method.
pub open spec fn method_name(module_name: Seq<char>, rpc_name: Seq<char>) -> Seq<char> {
    module_name + "."@ + rpc_name
}

/// The arm that the dispatch function takes for a method: the first arm
/// whose name, after the name of the module and a dot, is the method.
/// Names are compared as they are written; `None` means that the method
/// is handed on unhandled.
pub fn route(module_name: &str, arms: &Vec<DispatchArm>, method: &str) -> (r: Option<usize>)
    ensures
        match r {
            Some(at) => {
                &&& at < arms@.len()
                &&& method@ == method_name(module_name@, arms@[at as int].rpc_name@)
                &&& forall|j: int|
                    0 <= j < at ==> method@ != method_name(
                        module_name@,
                        (#[trigger] arms@[j]).rpc_name@,
                    )
            },
            None => forall|j: int|
                0 <= j < arms@.len() ==> method@ != method_name(
                    module_name@,
                    (#[trigger] arms@[j]).rpc_name@,
                ),
        },
{
    let head = join(module_name, ".");
    let mut i: usize = 0;
    while i < arms.len()
        invariant
            i <= arms.len(),
            head@ == module_name@ + "."@,
            forall|j: int|
                0 <= j < i ==> method@ != method_name(
                    module_name@,
                    (#[trigger] arms@[j]).rpc_name@,
                ),
        decreases arms.len() - i,
    {
        let full = join(head.as_str(), arms[i].rpc_name.as_str());
        if str_eq(full.as_str(), method) {
            return Some(i);
        }
        i += 1;
    }
    None
}

/// What a method of the client returns on success.
pub enum ResultType {
    /// `()`.
    Unit,
    /// The first type argument of the `Result` that the handler returns.
    OkOfResult,
    /// The type that the handler returns.
    Same,
}

/// What the client returns for a handler that returns `output`.
pub open spec fn result_type_of(output: ReturnType) -> ResultType {
    match output {
        ReturnType::Default => ResultType::Unit,
        ReturnType::Type(Type::Path { last, argument }) => if last@ == "Result"@
            && argument is Some {
            ResultType::OkOfResult
        } else {
            ResultType::Same
        },
        ReturnType::Type(_) => ResultType::Same,
    }
}

/// An argument of a method of the client.
pub struct ClientArg {
    pub binding: String,
    pub ty: Borrowed,
}

/// A method of the client.
pub struct ClientMethod {
    /// The position of the handler among the handlers of the trait.
    pub handler: usize,
    pub method_ident: String,
    pub rpc_name: String,
    pub args: Vec<ClientArg>,
    /// Whether an argument is borrowed, so that the arguments need a
    /// lifetime.
    pub any_is_borrowed: bool,
    /// Whether the arguments are encoded as the one argument itself
    /// rather than as a record of arguments.
    pub serde_transparent: bool,
    pub result: ResultType,
}

/// What is generated for the client.
pub struct ClientItems {
    /// Whether the client struct and its constructor are generated here:
    /// they are generated once for each module.
    pub struct_and_ctor: bool,
    /// The name of the client trait.
    pub trait_ident: String,
    pub methods: Vec<ClientMethod>,
}

/// The method of the client for a handler.
pub open spec fn is_client_method(
    method: TraitMethod,
    handler: HandlerMethod,
    at: int,
    copy_types: Seq<String>,
    client: ClientMethod,
) -> bool {
    &&& client.handler == at
    &&& client.method_ident == handler.client_method_ident
    &&& client.rpc_name == handler.rpc_name
    &&& client.serde_transparent == (handler.args@.len() == 1)
    &&& client.result == result_type_of(method.output)
    &&& client.args@.len() == handler.args@.len()
    &&& forall|k: int|
        0 <= k < handler.args@.len() ==> {
            &&& (#[trigger] client.args@[k]).binding == handler.args@[k].binding
            &&& client.args@[k].ty == borrowed_of(method.inputs@[k].ty, copy_types).1
        }
    &&& client.any_is_borrowed == exists|k: int|
        0 <= k < handler.args@.len() && borrowed_of(
            (#[trigger] method.inputs@[k]).ty,
            copy_types,
        ).0
}

/// Plans the method of the client for a handler.
pub fn gen_client_method(
    method: &TraitMethod,
    handler: &HandlerMethod,
    at: usize,
    copy_types: &CopyTypes,
) -> (client: ClientMethod)
    requires
        is_unpacked_args(method.inputs@, handler.args@),
    ensures
        is_client_method(*method, *handler, at as int, copy_types.names(), client),
{
    let mut args: Vec<ClientArg> = Vec::new();
    let mut any_is_borrowed = false;
    let mut k: usize = 0;
    while k < handler.args.len()
        invariant
            k <= handler.args.len(),
            handler.args@.len() == method.inputs@.len(),
            args@.len() == k,
            forall|j: int|
                0 <= j < k ==> {
                    &&& (#[trigger] args@[j]).binding == handler.args@[j].binding
                    &&& args@[j].ty == borrowed_of(method.inputs@[j].ty, copy_types.names()).1
                },
            any_is_borrowed == exists|j: int|
                0 <= j < k && borrowed_of((#[trigger] method.inputs@[j]).ty, copy_types.names()).0,
        decreases handler.args.len() - k,
    {
        let (is_borrowed, ty) = to_borrowed(&method.inputs[k].ty, copy_types);
        args.push(ClientArg { binding: handler.args[k].binding.clone(), ty });
        let ghost before = any_is_borrowed;
        any_is_borrowed = any_is_borrowed || is_borrowed;
        proof {
            if is_borrowed {
                assert(borrowed_of(method.inputs@[k as int].ty, copy_types.names()).0);
            }
            if before {
                let j = choose|j: int|
                    0 <= j < k && borrowed_of(
                        (#[trigger] method.inputs@[j]).ty,
                        copy_types.names(),
                    ).0;
                assert(borrowed_of(method.inputs@[j].ty, copy_types.names()).0);
            }
        }
        k += 1;
    }
    let result = match &method.output {
        ReturnType::Default => ResultType::Unit,
        ReturnType::Type(Type::Path { last, argument }) => {
            if str_eq(last.as_str(), "Result") && argument.is_some() {
                ResultType::OkOfResult
            } else {
                ResultType::Same
            }
        },
        ReturnType::Type(_) => ResultType::Same,
    };
    ClientMethod {
        handler: at,
        method_ident: handler.client_method_ident.clone(),
        rpc_name: handler.rpc_name.clone(),
        args,
        any_is_borrowed,
        serde_transparent: handler.args.len() == 1,
        result,
    }
}

/// The handlers belong to the methods: each handler stands for the
/// method at its position and has that method's arguments.
pub open spec fn is_handlers_of(methods: Seq<TraitMethod>, handlers: Seq<HandlerMethod>) -> bool {
    &&& handlers.len() == methods.len()
    &&& forall|i: int|
        0 <= i < methods.len() ==> (#[trigger] handlers[i]).method == i && is_unpacked_args(
            methods[i].inputs@,
            handlers[i].args@,
        )
}

/// Plans the items of the client: its trait with one method for each
/// handler, and, the first time in a module, its struct and constructor.
pub fn gen_client_items(
    methods: &Vec<TraitMethod>,
    handler_methods: &Vec<HandlerMethod>,
    handlers_kind: Handlers,
    copy_types: &CopyTypes,
    record: &mut GenerationRecord,
    current_module: String,
) -> (items: ClientItems)
    requires
        is_handlers_of(methods@, handler_methods@),
    ensures
        items.struct_and_ctor == !holds(old(record).modules(), current_module@),
        final(record).modules() == if items.struct_and_ctor {
            old(record).modules().push(current_module)
        } else {
            old(record).modules()
        },
        old(record).is_well_formed() ==> final(record).is_well_formed(),
        items.trait_ident@ == "Client"@ + pascal_case(handlers_kind.name_spec()),
        items.methods@.len() == handler_methods@.len(),
        forall|i: int|
            0 <= i < handler_methods@.len() ==> is_client_method(
                methods@[i],
                handler_methods@[i],
                i,
                copy_types.names(),
                #[trigger] items.methods@[i],
            ),
{
    let generated = generate_once(record, current_module, || -> (flag: bool)
        ensures
            flag,
        { true });
    let struct_and_ctor = generated.is_some();
    let mut client_methods: Vec<ClientMethod> = Vec::new();
    let mut i: usize = 0;
    while i < handler_methods.len()
        invariant
            i <= handler_methods.len(),
            is_handlers_of(methods@, handler_methods@),
            client_methods@.len() == i,
            forall|j: int|
                0 <= j < i ==> is_client_method(
                    methods@[j],
                    handler_methods@[j],
                    j,
                    copy_types.names(),
                    #[trigger] client_methods@[j],
                ),
        decreases handler_methods.len() - i,
    {
        assert(handler_methods@[i as int].method == i);
        client_methods.push(gen_client_method(&methods[i], &handler_methods[i], i, copy_types));
        i += 1;
    }
    ClientItems {
        struct_and_ctor,
        trait_ident: handlers_kind.client_trait_ident(),
        methods: client_methods,
    }
}

/// Everything that is generated for a trait of handlers.
pub struct HandlerItems {
    /// The constant or the text that names the module; `None` where the
    /// attribute names none.
    pub module_name: Option<String>,
    pub handlers: Vec<HandlerMethod>,
    pub module: ModuleItems,
    pub client: ClientItems,
}

/// The name of the module, given the literal of `module_name` among the
/// arguments of the attribute.
pub open spec fn is_module_name(lit: Option<Lit>, r: Result<Option<String>, AttrError>) -> bool {
    match lit {
        None => r == Ok::<Option<String>, AttrError>(None),
        Some(Lit::Str { value, is_ident }) => r == Ok::<Option<String>, AttrError>(Some(value)),
        Some(Lit::Other) => r == Err::<Option<String>, AttrError>(AttrError::ExpectedModuleName),
    }
}

/// The name of the module that the arguments of the attribute give.
pub fn module_name_arg(args: &Vec<NestedMeta>) -> (r: Result<Option<String>, AttrError>)
    ensures
        exists|lit: Option<Lit>| #[trigger]
            is_key_literal(args@, "module_name"@, lit) && is_module_name(lit, r),
{
    match find_meta_key(args, "module_name") {
        Some(at) => {
            assert(is_first_key(args@, "module_name"@, Some(at as int)));
            assert(is_key_literal(
                args@,
                "module_name"@,
                Some(args@[at as int]->NameValue_0.lit),
            ));
            match &args[at] {
                NestedMeta::NameValue(pair) => match &pair.lit {
                    Lit::Str { value, .. } => Ok(Some(value.clone())),
                    Lit::Other => Err(AttrError::ExpectedModuleName),
                },
                NestedMeta::Other => Ok(None),
            }
        },
        None => {
            assert(is_first_key(args@, "module_name"@, None));
            assert(is_key_literal(args@, "module_name"@, None));
            Ok(None)
        },
    }
}

/// Why nothing is planned for a trait of handlers: `module_name` is no
/// string, or else the first method that cannot be a handler fails.
pub open spec fn is_plan_error(
    methods: Seq<TraitMethod>,
    args: Seq<NestedMeta>,
    kind: Handlers,
    e: AttrError,
) -> bool {
    exists|lit: Option<Lit>| #[trigger]
        is_key_literal(args, "module_name"@, lit) && match lit {
            Some(Lit::Other) => e == AttrError::ExpectedModuleName,
            _ => fails_first(methods, kind, e),
        }
}

/// Plans everything that is generated for a trait of handlers. Where
/// the arguments of the attribute or a method of the trait are not as
/// they must be, nothing is generated.
pub fn gen_handler_items(
    methods: &Vec<TraitMethod>,
    args: &Vec<NestedMeta>,
    handlers_kind: Handlers,
    copy_types: &CopyTypes,
    record: &mut GenerationRecord,
    current_module: String,
) -> (r: Result<HandlerItems, AttrError>)
    ensures
        match r {
            Ok(items) => {
                &&& none_fails(methods@, handlers_kind)
                &&& is_handlers_of(methods@, items.handlers@)
                &&& forall|i: int|
                    0 <= i < methods@.len() ==> is_handler_of(
                        methods@[i],
                        handlers_kind,
                        i,
                        #[trigger] items.handlers@[i],
                    )
                &&& forall|i: int|
                    0 <= i < methods@.len() ==> is_client_method(
                        methods@[i],
                        items.handlers@[i],
                        i,
                        copy_types.names(),
                        #[trigger] items.client.methods@[i],
                    )
                &&& items.module.handler_fn_ident@ == "handle_"@ + singular_form(
                    handlers_kind.name_spec(),
                )
                &&& items.client.trait_ident@ == "Client"@ + pascal_case(handlers_kind.name_spec())
                &&& exists|lit: Option<Lit>| #[trigger]
                    is_key_literal(args@, "module_name"@, lit) && is_module_name(
                        lit,
                        Ok(items.module_name),
                    )
                &&& is_arms_of(items.handlers@, items.module.arms@)
                &&& items.module.context_ty@ == match handlers_kind {
                    Handlers::Calls => "TxContext"@,
                    Handlers::Queries => "Context"@,
                }
                &&& items.client.methods@.len() == methods@.len()
                &&& items.client.struct_and_ctor == !holds(
                    old(record).modules(),
                    current_module@,
                )
            },
            Err(e) => is_plan_error(methods@, args@, handlers_kind, e) && final(record).modules()
                == old(record).modules(),
        },
        old(record).is_well_formed() ==> final(record).is_well_formed(),
{
    let named = module_name_arg(args);
    proof {
        let lit = choose|lit: Option<Lit>| #[trigger]
            is_key_literal(args@, "module_name"@, lit) && is_module_name(lit, named);
        assert(is_key_literal(args@, "module_name"@, lit));
    }
    let module_name = match named {
        Ok(name) => name,
        Err(e) => {
            return Err(e);
        },
    };
    let handlers = match unpack_handler_methods(methods, handlers_kind) {
        Ok(handlers) => handlers,
        Err(e) => {
            return Err(e);
        },
    };
    let module = gen_module_items(&handlers, handlers_kind);
    let client = gen_client_items(
        methods,
        &handlers,
        handlers_kind,
        copy_types,
        record,
        current_module,
    );
    Ok(HandlerItems { module_name, handlers, module, client })
}

/// Plans what the `calls` attribute generates.
pub fn gen_call_items(
    methods: &Vec<TraitMethod>,
    args: &Vec<NestedMeta>,
    copy_types: &CopyTypes,
    record: &mut GenerationRecord,
    current_module: String,
) -> (r: Result<HandlerItems, AttrError>)
    ensures
        match r {
            Ok(items) => {
                &&& none_fails(methods@, Handlers::Calls)
                &&& is_handlers_of(methods@, items.handlers@)
                &&& is_arms_of(items.handlers@, items.module.arms@)
                &&& items.module.context_ty@ == "TxContext"@
                &&& items.client.struct_and_ctor == !holds(
                    old(record).modules(),
                    current_module@,
                )
            },
            Err(e) => {
                &&& is_plan_error(methods@, args@, Handlers::Calls, e)
                &&& final(record).modules() == old(record).modules()
            },
        },
        old(record).is_well_formed() ==> final(record).is_well_formed(),
{
    let r = gen_handler_items(methods, args, Handlers::Calls, copy_types, record, current_module);
    r
}

/// Plans what the `queries` attribute generates.
pub fn gen_query_items(
    methods: &Vec<TraitMethod>,
    args: &Vec<NestedMeta>,
    copy_types: &CopyTypes,
    record: &mut GenerationRecord,
    current_module: String,
) -> (r: Result<HandlerItems, AttrError>)
    ensures
        match r {
            Ok(items) => {
                &&& none_fails(methods@, Handlers::Queries)
                &&& is_handlers_of(methods@, items.handlers@)
                &&& is_arms_of(items.handlers@, items.module.arms@)
                &&& items.module.context_ty@ == "Context"@
                &&& items.client.struct_and_ctor == !holds(
                    old(record).modules(),
                    current_module@,
                )
            },
            Err(e) => {
                &&& is_plan_error(methods@, args@, Handlers::Queries, e)
                &&& final(record).modules() == old(record).modules()
            },
        },
        old(record).is_well_formed() ==> final(record).is_well_formed(),
{
    let r = gen_handler_items(methods, args, Handlers::Queries, copy_types, record, current_module);
    r
}

} // verus!
