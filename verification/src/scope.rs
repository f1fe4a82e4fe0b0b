use vstd::prelude::*;

use crate::types::Type;
use vstd::string::StringExecFns;
use crate::value::{BuiltinView, Value, ValueView};

verus! {

pub type ScopeIndex = usize;

fn string_from(text: &str) -> (r: String)
    ensures
        r@ == text@,
{
    String::from_str(text)
}

/// A name-to-`V` table with insert-overwrites semantics, seen in contracts
/// as a `Map` from character sequences to the views of the stored values.
#[derive(Debug)]
pub struct Bindings<V> {
    entries: Vec<(String, V)>,
}

impl<V: View> Bindings<V> {
    /// The entries folded into a map, a later entry shadowing an earlier one
    /// with the same name.
    pub closed spec fn map_of(es: Seq<(String, V)>) -> Map<Seq<char>, V::V>
        decreases es.len(),
    {
        if es.len() == 0 {
            Map::empty()
        } else {
            Self::map_of(es.drop_last()).insert(es.last().0@, es.last().1@)
        }
    }

    proof fn lemma_map_of_absent(es: Seq<(String, V)>, key: Seq<char>)
        requires
            forall|j: int| 0 <= j < es.len() ==> (#[trigger] es[j]).0@ != key,
        ensures
            !Self::map_of(es).contains_key(key),
        decreases es.len(),
    {
        if es.len() > 0 {
            Self::lemma_map_of_absent(es.drop_last(), key);
        }
    }

    proof fn lemma_map_of_found(es: Seq<(String, V)>, key: Seq<char>, i: int)
        requires
            0 <= i < es.len(),
            es[i].0@ == key,
            forall|j: int| i < j < es.len() ==> (#[trigger] es[j]).0@ != key,
        ensures
            Self::map_of(es).contains_key(key),
            Self::map_of(es)[key] == es[i].1@,
        decreases es.len(),
    {
        if i < es.len() - 1 {
            Self::lemma_map_of_found(es.drop_last(), key, i);
        }
    }

    pub fn new() -> (r: Bindings<V>)
        ensures
            r@ == Map::<Seq<char>, V::V>::empty(),
    {
        Bindings { entries: Vec::new() }
    }

    /// Bind `key` to `value`, shadowing any earlier binding of that name.
    pub fn insert(&mut self, key: String, value: V)
        ensures
            final(self)@ == old(self)@.insert(key@, value@),
    {
        let ghost before = self.entries@;
        self.entries.push((key, value));
        proof {
            assert(self.entries@.drop_last() =~= before);
        }
    }

    /// The value most recently bound to `key`, if any.
    pub fn get(&self, key: &String) -> (r: Option<&V>)
        ensures
            match r {
                Some(v) => self@.contains_key(key@) && v@ == self@[key@],
                None => !self@.contains_key(key@),
            },
    {
        let n = self.entries.len();
        let mut i = n;
        while i > 0
            invariant
                i <= n,
                n == self.entries@.len(),
                forall|j: int| i <= j < n ==> (#[trigger] self.entries@[j]).0@ != key@,
            decreases i,
        {
            i = i - 1;
            if self.entries[i].0.eq(key) {
                proof {
                    Self::lemma_map_of_found(self.entries@, key@, i as int);
                }
                return Some(&self.entries[i].1);
            }
        }
        proof {
            Self::lemma_map_of_absent(self.entries@, key@);
        }
        None
    }
}

impl<V: View> View for Bindings<V> {
    type V = Map<Seq<char>, V::V>;

    closed spec fn view(&self) -> Map<Seq<char>, V::V> {
        Self::map_of(self.entries@)
    }
}

/// One binding frame: values and their declared types in one namespace,
/// the primitive type definitions in another, and the parent link that
/// resolution climbs. Index 0 of a chain is the global frame.
#[derive(Debug)]
pub struct Scope {
    pub parent: Option<ScopeIndex>,
    pub map: Bindings<Value>,
    pub type_map: Bindings<Type>,
    pub type_definition_map: Bindings<Type>,
}

#[verifier::ext_equal]
pub ghost struct ScopeView {
    pub parent: Option<ScopeIndex>,
    pub map: Map<Seq<char>, ValueView>,
    pub type_map: Map<Seq<char>, Type>,
    pub type_definition_map: Map<Seq<char>, Type>,
}

impl View for Scope {
    type V = ScopeView;

    open spec fn view(&self) -> ScopeView {
        ScopeView {
            parent: self.parent,
            map: self.map@,
            type_map: self.type_map@,
            type_definition_map: self.type_definition_map@,
        }
    }
}

/// The global frame after library registration: the primitive type names in
/// the type-definition namespace, and each arithmetic or string module's
/// type and value under its name.
pub open spec fn global_scope_view() -> ScopeView {
    ScopeView {
        parent: None,
        map: Map::<Seq<char>, ValueView>::empty()
            .insert("inc"@, ValueView::Primitive(BuiltinView::Inc))
            .insert("dec"@, ValueView::Primitive(BuiltinView::Dec))
            .insert("add"@, ValueView::Primitive(BuiltinView::Add))
            .insert("sub"@, ValueView::Primitive(BuiltinView::Sub))
            .insert("mul"@, ValueView::Primitive(BuiltinView::Mul))
            .insert("div"@, ValueView::Primitive(BuiltinView::Div))
            .insert("cat"@, ValueView::Primitive(BuiltinView::Cat)),
        type_map: Map::<Seq<char>, Type>::empty()
            .insert("inc"@, crate::library::inc::ty())
            .insert("dec"@, crate::library::dec::ty())
            .insert("add"@, crate::library::add::ty())
            .insert("sub"@, crate::library::sub::ty())
            .insert("mul"@, crate::library::mul::ty())
            .insert("div"@, crate::library::div::ty())
            .insert("cat"@, crate::library::cat::ty()),
        type_definition_map: Map::<Seq<char>, Type>::empty()
            .insert("String"@, Type::String)
            .insert("Number"@, Type::Number)
            .insert("Boolean"@, Type::Boolean),
    }
}

impl Scope {
    /// Register one library module: its type into the value-type namespace
    /// and its value into the value namespace, both under the module's name.
    pub fn register(&mut self, module: crate::library::Module)
        ensures
            final(self)@ == (ScopeView {
                parent: old(self)@.parent,
                map: old(self)@.map.insert(module.name@, module.value@),
                type_map: old(self)@.type_map.insert(module.name@, module.ty),
                type_definition_map: old(self)@.type_definition_map,
            }),
    {
        let crate::library::Module { name, ty, value } = module;
        self.type_map.insert(name.clone(), ty);
        self.map.insert(name, value);
    }

    /// Register one primitive type name in the type-definition namespace,
    /// the namespace consulted only for closure parameter annotations.
    pub fn register_primitive(&mut self, primitive: crate::library::Primitive)
        ensures
            final(self)@ == (ScopeView {
                parent: old(self)@.parent,
                map: old(self)@.map,
                type_map: old(self)@.type_map,
                type_definition_map: old(self)@.type_definition_map.insert(
                    primitive.0@,
                    primitive.1,
                ),
            }),
    {
        self.type_definition_map.insert(primitive.0, primitive.1);
    }

    /// The global frame, freshly built from the library registrations.
    pub fn global() -> (r: Scope)
        ensures
            r@ == global_scope_view(),
    {
        let mut scope = Scope {
            parent: None,
            map: Bindings::new(),
            type_map: Bindings::new(),
            type_definition_map: Bindings::new(),
        };
        scope.register_primitive((
            string_from("String"),
            Type::String,
        ));
        scope.register_primitive((
            string_from("Number"),
            Type::Number,
        ));
        scope.register_primitive((
            string_from("Boolean"),
            Type::Boolean,
        ));
        scope.register(crate::library::inc::define());
        scope.register(crate::library::dec::define());
        scope.register(crate::library::add::define());
        scope.register(crate::library::sub::define());
        scope.register(crate::library::mul::define());
        scope.register(crate::library::div::define());
        scope.register(crate::library::cat::define());
        proof {
            assert(scope@ =~= global_scope_view());
        }
        scope
    }

    /// A fresh, empty frame hanging off the given parent.
    pub fn new(parent: ScopeIndex) -> (r: Scope)
        ensures
            r@ == (ScopeView {
                parent: Some(parent),
                map: Map::<Seq<char>, ValueView>::empty(),
                type_map: Map::<Seq<char>, Type>::empty(),
                type_definition_map: Map::<Seq<char>, Type>::empty(),
            }),
    {
        Scope {
            parent: Some(parent),
            type_map: Bindings::new(),
            type_definition_map: Bindings::new(),
            map: Bindings::new(),
        }
    }
}

} // verus!
