//! What is known of names and types where an expression stands.
use vstd::prelude::*;

use crate::index::{FieldSummary, FieldView};
use crate::text::str_eq;
use crate::text_map::{at_key, Duplicate, TextMap};
use crate::type_names::{same_type, TypeName, TypeView};

verus! {

/// How a local variable was declared.
#[derive(Clone, Copy, Debug, PartialEq, Eq, Structural)]
pub enum LocalVarDeclKind {
    /// With a type.
    Explicit,
    /// With `var`, and no type found for it.
    VarSyntax,
}

/// A local variable that can be seen.
#[derive(Debug, PartialEq, Eq)]
pub struct LocalVar {
    pub name: String,
    pub type_internal: TypeName,
    pub init_expr: Option<String>,
    pub decl_kind: LocalVarDeclKind,
}

/// What a [`LocalVar`] says.
pub struct LocalView {
    pub name: Seq<char>,
    pub type_internal: TypeView,
    pub init_expr: Option<Seq<char>>,
    pub decl_kind: LocalVarDeclKind,
}

impl DeepView for LocalVar {
    type V = LocalView;

    open spec fn deep_view(&self) -> LocalView {
        LocalView {
            name: self.name@,
            type_internal: self.type_internal.deep_view(),
            init_expr: self.init_expr.deep_view(),
            decl_kind: self.decl_kind,
        }
    }
}

/// A variable of a given name is among the local variables.
pub open spec fn has_local(locals: Seq<LocalView>, name: Seq<char>) -> bool {
    exists|i: int| 0 <= i < locals.len() && #[trigger] locals[i].name == name
}

/// Whether a variable of a given name is among the local variables.
pub fn local_exists(locals: &[LocalVar], name: &str) -> (r: bool)
    ensures
        r == has_local(locals.deep_view(), name@),
{
    let ghost all = locals.deep_view();
    let mut i: usize = 0;
    while i < locals.len()
        invariant
            i <= locals.len(),
            all == locals.deep_view(),
            forall|k: int| 0 <= k < i ==> #[trigger] all[k].name != name@,
        decreases locals.len() - i,
    {
        assert(all[i as int].name == locals@[i as int].name@);
        if str_eq(locals[i].name.as_str(), name) {
            return true;
        }
        i += 1;
    }
    false
}

/// One step of a chain of accesses: a name, with its arguments where it is a call. The name may
/// end in brackets (`rows[0][1]`).
#[derive(Debug)]
pub struct ChainSegment {
    pub name: String,
    pub arg_count: Option<i32>,
    pub arg_texts: Vec<String>,
}

/// What a [`ChainSegment`] says.
pub struct SegmentView {
    pub name: Seq<char>,
    pub arg_count: Option<int>,
    pub arg_texts: Seq<Seq<char>>,
}

impl DeepView for ChainSegment {
    type V = SegmentView;

    open spec fn deep_view(&self) -> SegmentView {
        SegmentView {
            name: self.name@,
            arg_count: match self.arg_count {
                Some(n) => Some(n as int),
                None => None,
            },
            arg_texts: self.arg_texts.deep_view(),
        }
    }
}

/// What a call is known to return.
#[derive(Debug)]
pub struct CallFact {
    pub receiver: TypeName,
    pub name: String,
    pub arg_count: i32,
    pub arg_types: Vec<TypeName>,
    pub arg_texts: Vec<String>,
    pub result: TypeName,
}

/// What a [`CallFact`] says.
pub struct CallView {
    pub receiver: TypeView,
    pub name: Seq<char>,
    pub arg_count: int,
    pub arg_types: Seq<TypeView>,
    pub arg_texts: Seq<Seq<char>>,
    pub result: TypeView,
}

impl DeepView for CallFact {
    type V = CallView;

    open spec fn deep_view(&self) -> CallView {
        CallView {
            receiver: self.receiver.deep_view(),
            name: self.name@,
            arg_count: self.arg_count as int,
            arg_types: self.arg_types.deep_view(),
            arg_texts: self.arg_texts.deep_view(),
            result: self.result.deep_view(),
        }
    }
}

/// What is known of names and types where an expression stands.
#[derive(Debug)]
pub struct TypeFacts {
    /// The class that the expression stands in.
    pub enclosing: Option<String>,
    /// The types of names: of local variables, of fields and of what else can be seen.
    pub names: TextMap<TypeName>,
    /// The types that can be seen by a symbol.
    pub symbols: TextMap<TypeName>,
    /// The types that type names resolve to, every part of which is known.
    pub types: TextMap<TypeName>,
    /// The types that type names resolve to where a part may stay unknown.
    pub relaxed_types: TextMap<TypeName>,
    /// The types that qualified names lead to, from the first name on.
    pub qualified_types: TextMap<TypeName>,
    /// The types that descriptors and signatures stand for.
    pub descriptors: TextMap<TypeName>,
    /// The fields of classes, inherited ones among them, by internal name.
    pub fields: TextMap<Vec<FieldSummary>>,
    /// The calls whose results are known.
    pub calls: Vec<CallFact>,
    /// The calls of methods that the class declares in the text.
    pub own_calls: Vec<CallFact>,
    /// The chains of accesses that expressions are made of.
    pub chains: TextMap<Vec<ChainSegment>>,
}

/// What [`TypeFacts`] say.
pub struct FactsView {
    pub enclosing: Option<Seq<char>>,
    pub names: Map<Seq<char>, TypeView>,
    pub symbols: Map<Seq<char>, TypeView>,
    pub types: Map<Seq<char>, TypeView>,
    pub relaxed_types: Map<Seq<char>, TypeView>,
    pub qualified_types: Map<Seq<char>, TypeView>,
    pub descriptors: Map<Seq<char>, TypeView>,
    pub fields: Map<Seq<char>, Seq<FieldView>>,
    pub calls: Seq<CallView>,
    pub own_calls: Seq<CallView>,
    pub chains: Map<Seq<char>, Seq<SegmentView>>,
}

impl DeepView for TypeFacts {
    type V = FactsView;

    open spec fn deep_view(&self) -> FactsView {
        FactsView {
            enclosing: self.enclosing.deep_view(),
            names: self.names.deep_view(),
            symbols: self.symbols.deep_view(),
            types: self.types.deep_view(),
            relaxed_types: self.relaxed_types.deep_view(),
            qualified_types: self.qualified_types.deep_view(),
            descriptors: self.descriptors.deep_view(),
            fields: self.fields.deep_view(),
            calls: self.calls.deep_view(),
            own_calls: self.own_calls.deep_view(),
            chains: self.chains.deep_view(),
        }
    }
}

impl TypeFacts {
    /// Nothing known.
    pub fn new() -> (r: TypeFacts)
        ensures
            r.deep_view() == no_facts(),
    {
        let r = TypeFacts {
            enclosing: None,
            names: TextMap::new(),
            symbols: TextMap::new(),
            types: TextMap::new(),
            relaxed_types: TextMap::new(),
            qualified_types: TextMap::new(),
            descriptors: TextMap::new(),
            fields: TextMap::new(),
            calls: Vec::new(),
            own_calls: Vec::new(),
            chains: TextMap::new(),
        };
        assert(r.deep_view().names =~= no_facts().names);
        assert(r.deep_view().symbols =~= no_facts().symbols);
        assert(r.deep_view().types =~= no_facts().types);
        assert(r.deep_view().relaxed_types =~= no_facts().relaxed_types);
        assert(r.deep_view().qualified_types =~= no_facts().qualified_types);
        assert(r.deep_view().descriptors =~= no_facts().descriptors);
        assert(r.deep_view().fields =~= no_facts().fields);
        assert(r.deep_view().calls =~= no_facts().calls);
        assert(r.deep_view().own_calls =~= no_facts().own_calls);
        assert(r.deep_view().chains =~= no_facts().chains);
        r
    }
}

/// Nothing known.
pub open spec fn no_facts() -> FactsView {
    FactsView {
        enclosing: None,
        names: Map::empty(),
        symbols: Map::empty(),
        types: Map::empty(),
        relaxed_types: Map::empty(),
        qualified_types: Map::empty(),
        descriptors: Map::empty(),
        fields: Map::empty(),
        calls: Seq::empty(),
        own_calls: Seq::empty(),
        chains: Map::empty(),
    }
}

/// Looks a type up.
pub fn look_up(m: &TextMap<TypeName>, key: &str) -> (r: Option<TypeName>)
    ensures
        r.deep_view() == at_key(m.deep_view(), key@),
{
    match m.get(key) {
        Some(t) => Some(t.duplicate()),
        None => None,
    }
}

/// Whether two lists hold the same texts.
pub fn same_texts(a: &Vec<String>, b: &Vec<String>) -> (r: bool)
    ensures
        r == (a.deep_view() == b.deep_view()),
{
    if a.len() != b.len() {
        assert(a.deep_view().len() != b.deep_view().len());
        return false;
    }
    let mut i: usize = 0;
    while i < a.len()
        invariant
            i <= a.len(),
            a.len() == b.len(),
            forall|k: int| 0 <= k < i ==> #[trigger] a.deep_view()[k] == b.deep_view()[k],
        decreases a.len() - i,
    {
        assert(a.deep_view()[i as int] == a@[i as int]@);
        assert(b.deep_view()[i as int] == b@[i as int]@);
        if !str_eq(a[i].as_str(), b[i].as_str()) {
            return false;
        }
        i += 1;
    }
    assert(a.deep_view() =~= b.deep_view());
    true
}

fn same_types(a: &Vec<TypeName>, b: &Vec<TypeName>) -> (r: bool)
    ensures
        r == (a.deep_view() == b.deep_view()),
{
    if a.len() != b.len() {
        assert(a.deep_view().len() != b.deep_view().len());
        return false;
    }
    let mut i: usize = 0;
    while i < a.len()
        invariant
            i <= a.len(),
            a.len() == b.len(),
            forall|k: int| 0 <= k < i ==> #[trigger] a.deep_view()[k] == b.deep_view()[k],
        decreases a.len() - i,
    {
        assert(a.deep_view()[i as int] == a@[i as int].model());
        assert(b.deep_view()[i as int] == b@[i as int].model());
        if !same_type(&a[i], &b[i]) {
            return false;
        }
        i += 1;
    }
    assert(a.deep_view() =~= b.deep_view());
    true
}

/// The result of the first call from the `i`-th on with a given receiver, name and arguments.
pub open spec fn result_from(
    calls: Seq<CallView>,
    receiver: TypeView,
    name: Seq<char>,
    arg_count: int,
    arg_types: Seq<TypeView>,
    arg_texts: Seq<Seq<char>>,
    i: int,
) -> Option<TypeView>
    decreases calls.len() - i,
{
    if i < 0 || i >= calls.len() {
        None
    } else if calls[i].receiver == receiver && calls[i].name == name && calls[i].arg_count
        == arg_count && calls[i].arg_types == arg_types && calls[i].arg_texts == arg_texts {
        Some(calls[i].result)
    } else {
        result_from(calls, receiver, name, arg_count, arg_types, arg_texts, i + 1)
    }
}

/// The result of the first call with a given receiver, name and arguments.
pub fn find_result(
    calls: &Vec<CallFact>,
    receiver: &TypeName,
    name: &str,
    arg_count: i32,
    arg_types: &Vec<TypeName>,
    arg_texts: &Vec<String>,
) -> (r: Option<TypeName>)
    ensures
        r.deep_view() == result_from(
            calls.deep_view(),
            receiver.deep_view(),
            name@,
            arg_count as int,
            arg_types.deep_view(),
            arg_texts.deep_view(),
            0,
        ),
{
    let ghost all = calls.deep_view();
    let mut i: usize = 0;
    while i < calls.len()
        invariant
            i <= calls.len(),
            all == calls.deep_view(),
            result_from(
                all,
                receiver.deep_view(),
                name@,
                arg_count as int,
                arg_types.deep_view(),
                arg_texts.deep_view(),
                0,
            ) == result_from(
                all,
                receiver.deep_view(),
                name@,
                arg_count as int,
                arg_types.deep_view(),
                arg_texts.deep_view(),
                i as int,
            ),
        decreases calls.len() - i,
    {
        let c: &CallFact = &calls[i];
        assert(all[i as int] == c.deep_view());
        if same_type(&c.receiver, receiver) && str_eq(c.name.as_str(), name) && c.arg_count
            == arg_count && same_types(&c.arg_types, arg_types) && same_texts(
            &c.arg_texts,
            arg_texts,
        ) {
            return Some(c.result.duplicate());
        }
        i += 1;
    }
    None
}

} // verus!
