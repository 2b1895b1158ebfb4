//! Methods that call those of a field, for `@Delegate`.
use vstd::prelude::*;
use vstd::slice::slice_subrange;

use crate::access_flags::{acc_public, is_static, static_flags};
use crate::extractor::JavaContextExtractor;
use crate::index::{
    has_method, has_method_spec, lemma_models, models, AnnotationSummary, AnnotationValue,
    AnnotationView, FieldSummary, FieldView, MethodSummary, MethodView, ValueView,
};
use crate::lombok::annotations;
use crate::lombok::utils::{find_lombok_annotation, found, get_annotation_value, value_of};
use crate::syntax::NodeId;
use crate::synthetic::{
    define_method, method_definition, BodyMembers, ClassMember, DefinitionView, MembersView,
    OriginView, SyntheticDefinition, SyntheticDefinitionKind, SyntheticInput, SyntheticMemberRule,
    SyntheticMemberSet, SyntheticOrigin, TypeIndex,
};
use crate::text::{
    after_last, append_str, begins_with, behind_last, contains_char, ends_with, finishes_with,
    spells, starts_with, str_eq, to_chars, to_text, trim, trimmed,
};
use crate::text_map::{at_key, Duplicate};

verus! {

pub struct DelegateRule;

/// The text without the semicolons at its end.
pub open spec fn without_semicolons(s: Seq<char>) -> Seq<char>
    decreases s.len(),
{
    if s.len() > 0 && s.last() == ';' {
        without_semicolons(s.drop_last())
    } else {
        s
    }
}

/// The name in a type's descriptor: that of `La/Filter;` is `a/Filter`. An `L` that no semicolon
/// ends belongs to the name, and so does one that does not begin the text.
pub open spec fn described_name(s: Seq<char>) -> Seq<char> {
    if starts_with(s, "L"@) && ends_with(s, ";"@) {
        without_semicolons(s).skip(1)
    } else {
        without_semicolons(s)
    }
}

/// The simple name in a type's descriptor: that of `La/Filter;` and that of `[La/Filter;` are
/// `Filter`.
pub open spec fn simple_type_text(s: Seq<char>) -> Seq<char> {
    after_last(described_name(s), '/')
}

/// The simple name in a type's descriptor.
pub fn simple_name_of(type_text: &str) -> (r: String)
    ensures
        r@ == simple_type_text(type_text@),
{
    let text = to_chars(type_text);
    let s = text.as_slice();
    let n: usize = s.len();
    let mut to: usize = n;
    assert(s@.take(n as int) =~= s@);
    while to > 0 && s[to - 1] == ';'
        invariant
            to <= n,
            n == s@.len(),
            forall|k: int| to <= k < n ==> s@[k] == ';',
            without_semicolons(s@.take(to as int)) == without_semicolons(s@),
        decreases to,
    {
        assert(s@.take(to as int).drop_last() =~= s@.take(to - 1));
        to -= 1;
    }
    let ghost bare = s@.take(to as int);
    assert(without_semicolons(s@) == bare);
    let from: usize = if begins_with(s, "L") && finishes_with(s, ";") {
        proof {
            reveal_strlit("L");
            assert("L"@[0] == 'L');
            assert(s@.take(1)[0] == s@[0]);
        }
        1
    } else {
        0
    };
    let name = slice_subrange(s, from, to);
    assert(name@ =~= bare.skip(from as int));
    assert(from == 0 ==> name@ =~= bare);
    to_text(behind_last(name, '/'))
}

/// The node declares a class or an interface with a given name.
pub open spec fn declares(ctx: JavaContextExtractor, n: NodeId, name: Seq<char>) -> bool {
    &&& ctx.tree.kind_of(n) == "interface_declaration"@ || ctx.tree.kind_of(n)
        == "class_declaration"@
    &&& match ctx.tree.field_of(n, "name"@) {
        Some(id) => ctx.text_of(id) == name,
        None => false,
    }
}

/// The first of the nodes from the `i`-th on that declares a type with a given name.
pub open spec fn declared_from(
    ctx: JavaContextExtractor,
    ids: Seq<NodeId>,
    name: Seq<char>,
    i: int,
) -> Option<NodeId>
    decreases ids.len() - i,
{
    if i < 0 || i >= ids.len() {
        None
    } else if declares(ctx, ids[i], name) {
        Some(ids[i])
    } else {
        declared_from(ctx, ids, name, i + 1)
    }
}

fn find_declared(ctx: &JavaContextExtractor, ids: &[NodeId], name: &str) -> (r: Option<NodeId>)
    requires
        ctx.wf(),
        ctx.tree.all_in(ids@),
    ensures
        r == declared_from(*ctx, ids@, name@, 0),
        r matches Some(n) ==> ctx.tree.has(n),
{
    let t = &ctx.tree;
    let mut i: usize = 0;
    while i < ids.len()
        invariant
            i <= ids.len(),
            ctx.wf(),
            *t == ctx.tree,
            t.all_in(ids@),
            declared_from(*ctx, ids@, name@, 0) == declared_from(*ctx, ids@, name@, i as int),
        decreases ids.len() - i,
    {
        let n: NodeId = ids[i];
        if t.is_kind(n, "interface_declaration") || t.is_kind(n, "class_declaration") {
            if let Some(id) = t.child_by_field(n, "name") {
                if spells(ctx.node_text(id), name) {
                    return Some(n);
                }
            }
        }
        i += 1;
    }
    None
}

/// The declaration in the text of a type that a declaration names: one nested in the declaration
/// comes before one beside it.
pub open spec fn type_declaration(ctx: JavaContextExtractor, decl: NodeId, type_text: Seq<char>) -> Option<
    NodeId,
> {
    let name = simple_type_text(type_text);
    let nested = match ctx.tree.field_of(decl, "body"@) {
        Some(body) => declared_from(ctx, ctx.tree.kids(body), name, 0),
        None => None,
    };
    match nested {
        Some(n) => Some(n),
        None => match ctx.tree.parent_of(decl) {
            Some(root) => declared_from(ctx, ctx.tree.kids(root), name, 0),
            None => None,
        },
    }
}

/// Finds the declaration in the text of a type.
pub fn find_type_declaration(ctx: &JavaContextExtractor, decl: NodeId, type_text: &str) -> (r:
    Option<NodeId>)
    requires
        ctx.wf(),
        ctx.tree.has(decl),
    ensures
        r == type_declaration(*ctx, decl, type_text@),
        r matches Some(n) ==> ctx.tree.has(n),
{
    let t = &ctx.tree;
    let name = simple_name_of(type_text);
    if let Some(body) = t.child_by_field(decl, "body") {
        if let Some(n) = find_declared(ctx, t.children(body), name.as_str()) {
            return Some(n);
        }
    }
    match t.parent(decl) {
        Some(root) => find_declared(ctx, t.children(root), name.as_str()),
        None => None,
    }
}

/// The methods among the members from the `i`-th on.
pub open spec fn methods_from(members: Seq<ClassMember>, i: int) -> Seq<MethodView>
    decreases members.len() - i,
{
    if i < 0 || i >= members.len() {
        Seq::empty()
    } else {
        match members[i] {
            ClassMember::Method(m) => seq![m.deep_view()] + methods_from(members, i + 1),
            _ => methods_from(members, i + 1),
        }
    }
}

fn only_methods(members: &Vec<ClassMember>) -> (r: Vec<MethodSummary>)
    ensures
        r.deep_view() == methods_from(members@, 0),
{
    let mut out: Vec<MethodSummary> = Vec::new();
    let mut i: usize = 0;
    while i < members.len()
        invariant
            i <= members.len(),
            out.deep_view() + methods_from(members@, i as int) =~= methods_from(members@, 0),
        decreases members.len() - i,
    {
        let ghost done = out.deep_view();
        if let ClassMember::Method(m) = &members[i] {
            out.push(m.duplicate());
            assert(out.deep_view() =~= done.push(m.deep_view()));
        }
        i += 1;
    }
    assert(out.deep_view() =~= methods_from(members@, 0));
    out
}

/// The members of a body, of those from the `i`-th on.
pub open spec fn members_from(bodies: Seq<BodyMembers>, body: NodeId, i: int) -> Seq<ClassMember>
    decreases bodies.len() - i,
{
    if i < 0 || i >= bodies.len() {
        Seq::empty()
    } else if bodies[i].body == body {
        bodies[i].members@
    } else {
        members_from(bodies, body, i + 1)
    }
}

/// The methods of a type that the text declares; there are none to find where it has no body.
pub open spec fn methods_of_type(input: SyntheticInput<'_>, n: NodeId) -> Option<Seq<MethodView>> {
    match input.ctx.tree.field_of(n, "body"@) {
        Some(body) => Some(methods_from(members_from(input.bodies@, body, 0), 0)),
        None => None,
    }
}

/// Reads the methods of a type that the text declares.
pub fn extract_methods_from_type(input: &SyntheticInput, type_node: NodeId) -> (r: Option<
    Vec<MethodSummary>,
>)
    requires
        input.wf(),
        input.ctx.tree.has(type_node),
    ensures
        r.deep_view() == methods_of_type(*input, type_node),
{
    match input.ctx.tree.child_by_field(type_node, "body") {
        None => None,
        Some(body) => {
            let mut i: usize = 0;
            while i < input.bodies.len()
                invariant
                    i <= input.bodies.len(),
                    members_from(input.bodies@, body, 0) == members_from(
                        input.bodies@,
                        body,
                        i as int,
                    ),
                    input.ctx.tree.field_of(type_node, "body"@) == Some(body),
                decreases input.bodies.len() - i,
            {
                if input.bodies[i].body == body {
                    return Some(only_methods(&input.bodies[i].members));
                }
                i += 1;
            }
            let none: Vec<ClassMember> = Vec::new();
            assert(none@ =~= Seq::<ClassMember>::empty());
            Some(only_methods(&none))
        },
    }
}

/// The methods of a type that the text declares, by the type's name.
pub open spec fn methods_in_source(input: SyntheticInput<'_>, type_text: Seq<char>) -> Option<
    Seq<MethodView>,
> {
    match type_declaration(*input.ctx, input.decl, type_text) {
        Some(n) => methods_of_type(input, n),
        None => None,
    }
}

/// Finds the methods of a type that the text declares.
pub fn find_type_methods_in_source(input: &SyntheticInput, type_text: &str) -> (r: Option<
    Vec<MethodSummary>,
>)
    requires
        input.wf(),
    ensures
        r.deep_view() == methods_in_source(*input, type_text@),
{
    match find_type_declaration(input.ctx, input.decl, type_text) {
        Some(n) => extract_methods_from_type(input, n),
        None => None,
    }
}

/// The internal name of a type: what its descriptor says, else the text itself if it is a path,
/// else what it resolves to.
pub open spec fn delegate_internal(
    type_text: Seq<char>,
    parsed: Option<Seq<char>>,
    resolved: Option<Seq<char>>,
) -> Option<Seq<char>> {
    match parsed {
        Some(name) => Some(name),
        None => if trim(type_text).contains('/') {
            Some(trim(type_text))
        } else {
            resolved
        },
    }
}

/// The internal name of a type.
pub fn resolve_delegate_type_internal(
    type_text: &str,
    parsed: Option<&String>,
    resolved: Option<&String>,
) -> (r: Option<String>)
    ensures
        r.deep_view() == delegate_internal(type_text@, parsed.deep_view(), resolved.deep_view()),
{
    if let Some(name) = parsed {
        return Some(name.clone());
    }
    let text = to_chars(type_text);
    let s = trimmed(text.as_slice());
    if contains_char(s, '/') {
        return Some(to_text(s));
    }
    match resolved {
        Some(name) => Some(name.clone()),
        None => None,
    }
}

/// The methods that the index has of a type, if it has any.
pub open spec fn methods_in_index(index: Option<TypeIndex>, type_text: Seq<char>) -> Option<
    Seq<MethodView>,
> {
    match index {
        None => None,
        Some(index) => match delegate_internal(
            type_text,
            at_key(index.parsed.deep_view(), type_text),
            at_key(index.resolved.deep_view(), trim(type_text)),
        ) {
            None => None,
            Some(internal) => match at_key(index.methods.deep_view(), internal) {
                Some(methods) if methods.len() > 0 => Some(methods),
                _ => None,
            },
        },
    }
}

/// Finds the methods that the index has of a type.
pub fn find_type_methods_in_index(input: &SyntheticInput, type_text: &str) -> (r: Option<
    Vec<MethodSummary>,
>)
    ensures
        r.deep_view() == methods_in_index(input.index, type_text@),
{
    match &input.index {
        None => None,
        Some(index) => {
            let text = to_chars(type_text);
            let name = to_text(trimmed(text.as_slice()));
            let parsed = index.parsed.get(type_text);
            let resolved = index.resolved.get(name.as_str());
            match resolve_delegate_type_internal(type_text, parsed, resolved) {
                None => None,
                Some(internal) => match index.methods.get(internal.as_str()) {
                    Some(methods) => {
                        assert(methods.deep_view().len() == methods@.len());
                        if methods.len() > 0 {
                            Some(methods.duplicate())
                        } else {
                            None
                        }
                    },
                    None => None,
                },
            }
        },
    }
}

/// The methods of a type: those that the text declares, else those that the index has.
pub open spec fn type_methods(input: SyntheticInput<'_>, type_text: Seq<char>) -> Option<
    Seq<MethodView>,
> {
    match methods_in_source(input, type_text) {
        Some(methods) => Some(methods),
        None => methods_in_index(input.index, type_text),
    }
}

/// Finds the methods of a type.
pub fn find_type_methods(input: &SyntheticInput, type_text: &str) -> (r: Option<Vec<MethodSummary>>)
    requires
        input.wf(),
    ensures
        r.deep_view() == type_methods(*input, type_text@),
{
    match find_type_methods_in_source(input, type_text) {
        Some(methods) => Some(methods),
        None => find_type_methods_in_index(input, type_text),
    }
}

/// The first annotation from the `i`-th on with the older name of `@Delegate`.
pub open spec fn old_delegate_from(annos: Seq<AnnotationView>, i: int) -> Option<AnnotationView>
    decreases annos.len() - i,
{
    if i < 0 || i >= annos.len() {
        None
    } else if annos[i].internal_name == "lombok/Delegate"@ {
        Some(annos[i])
    } else {
        old_delegate_from(annos, i + 1)
    }
}

/// The annotation `@Delegate`.
pub open spec fn delegate_annotation(annos: Seq<AnnotationView>) -> Option<AnnotationView> {
    match found(annos, annotations::DELEGATE@) {
        Some(a) => Some(a),
        None => old_delegate_from(annos, 0),
    }
}

/// Finds the annotation `@Delegate`.
pub fn find_delegate_annotation<'a>(annotations: &'a [AnnotationSummary]) -> (r: Option<
    &'a AnnotationSummary,
>)
    ensures
        r.deep_view() == delegate_annotation(annotations.deep_view()),
{
    if let Some(a) = find_lombok_annotation(annotations, annotations::DELEGATE) {
        return Some(a);
    }
    let ghost all = annotations.deep_view();
    let mut i: usize = 0;
    while i < annotations.len()
        invariant
            i <= annotations.len(),
            all == annotations.deep_view(),
            found(all, annotations::DELEGATE@) is None,
            old_delegate_from(all, 0) == old_delegate_from(all, i as int),
        decreases annotations.len() - i,
    {
        let a: &AnnotationSummary = &annotations[i];
        assert(all[i as int] == a.deep_view());
        if str_eq(a.internal_name.as_str(), "lombok/Delegate") {
            return Some(a);
        }
        i += 1;
    }
    None
}

/// A method that every object has, and that is not delegated.
pub open spec fn of_object(name: Seq<char>) -> bool {
    ||| name == "equals"@
    ||| name == "hashCode"@
    ||| name == "toString"@
    ||| name == "clone"@
    ||| name == "finalize"@
    ||| name == "getClass"@
    ||| name == "notify"@
    ||| name == "notifyAll"@
    ||| name == "wait"@
}

/// Whether every object has a method of that name.
pub fn is_object_method(method_name: &str) -> (r: bool)
    ensures
        r == of_object(method_name@),
{
    str_eq(method_name, "equals") || str_eq(method_name, "hashCode") || str_eq(
        method_name,
        "toString",
    ) || str_eq(method_name, "clone") || str_eq(method_name, "finalize") || str_eq(
        method_name,
        "getClass",
    ) || str_eq(method_name, "notify") || str_eq(method_name, "notifyAll") || str_eq(
        method_name,
        "wait",
    )
}

/// The classes among some values, from the `i`-th on.
pub open spec fn classes_from(items: Seq<ValueView>, i: int) -> Seq<Seq<char>>
    decreases items.len() - i,
{
    if i < 0 || i >= items.len() {
        Seq::empty()
    } else {
        match items[i] {
            ValueView::Class(s) => seq![s] + classes_from(items, i + 1),
            _ => classes_from(items, i + 1),
        }
    }
}

/// The classes that an annotation's element lists.
pub open spec fn classes_param(a: AnnotationView, key: Seq<char>) -> Seq<Seq<char>> {
    match value_of(a, key) {
        Some(ValueView::Class(s)) => seq![s],
        Some(ValueView::Array(items)) => classes_from(items, 0),
        _ => Seq::empty(),
    }
}

fn get_class_array_param(anno: &AnnotationSummary, key: &str) -> (r: Vec<String>)
    ensures
        r.deep_view() == classes_param(anno.deep_view(), key@),
{
    let mut out: Vec<String> = Vec::new();
    match get_annotation_value(anno, key) {
        Some(AnnotationValue::Class(s)) => {
            out.push(s.clone());
            assert(out.deep_view() =~= seq![s@]);
        },
        Some(AnnotationValue::Array(items)) => {
            let ghost all = models(items@);
            proof {
                lemma_models(items@);
            }
            let mut i: usize = 0;
            while i < items.len()
                invariant
                    i <= items.len(),
                    all == models(items@),
                    all.len() == items@.len(),
                    forall|k: int| 0 <= k < items@.len() ==> #[trigger] all[k] == items@[k].model(),
                    out.deep_view() + classes_from(all, i as int) =~= classes_from(all, 0),
                decreases items.len() - i,
            {
                let ghost done = out.deep_view();
                assert(all[i as int] == items@[i as int].model());
                if let AnnotationValue::Class(s) = &items[i] {
                    out.push(s.clone());
                    assert(out.deep_view() =~= done.push(s@));
                }
                i += 1;
            }
            assert(out.deep_view() =~= classes_from(all, 0));
        },
        _ => {
            assert(out.deep_view() =~= Seq::<Seq<char>>::empty());
        },
    }
    out
}

/// The types that `@Delegate` names.
pub fn get_types_parameter(annotation: &AnnotationSummary) -> (r: Vec<String>)
    ensures
        r.deep_view() == classes_param(annotation.deep_view(), "types"@),
{
    get_class_array_param(annotation, "types")
}

/// The types that `@Delegate` leaves out.
pub fn get_excludes_parameter(annotation: &AnnotationSummary) -> (r: Vec<String>)
    ensures
        r.deep_view() == classes_param(annotation.deep_view(), "excludes"@),
{
    get_class_array_param(annotation, "excludes")
}

/// A method that calls another: public, with the same name, parameters and types.
pub open spec fn delegating(source: MethodView) -> MethodView {
    MethodView {
        annotations: Seq::empty(),
        access_flags: 0x0001,
        is_synthetic: false,
        ..source
    }
}

/// The members with a method that calls one of a field, unless the class has it or it has been
/// generated, or every object has one of that name.
pub open spec fn plus_delegate(
    out: MembersView,
    field_name: Seq<char>,
    source: MethodView,
    methods: Seq<MethodView>,
) -> MembersView {
    if has_method_spec(methods, source.name, source.desc()) || has_method_spec(
        out.methods,
        source.name,
        source.desc(),
    ) || of_object(source.name) {
        out
    } else {
        out.plus_method(
            delegating(source),
            method_definition(
                source.name,
                source.desc(),
                OriginView::LombokDelegate { field_name },
            ),
        )
    }
}

/// Adds a method that calls one of a field.
pub fn generate_delegate_method(
    field: &FieldSummary,
    source_method: &MethodSummary,
    explicit_methods: &[MethodSummary],
    out: &mut SyntheticMemberSet,
)
    ensures
        final(out).deep_view() == plus_delegate(
            old(out).deep_view(),
            field.name@,
            source_method.deep_view(),
            explicit_methods.deep_view(),
        ),
{
    let name = source_method.name.as_str();
    let descriptor = source_method.desc();
    if has_method(explicit_methods, name, descriptor.as_str()) || has_method(
        out.methods.as_slice(),
        name,
        descriptor.as_str(),
    ) || is_object_method(name) {
        return;
    }
    let method = MethodSummary {
        name: source_method.name.clone(),
        params: source_method.params.duplicate(),
        annotations: Vec::new(),
        access_flags: acc_public(),
        is_synthetic: false,
        generic_signature: source_method.generic_signature.duplicate(),
        return_type: source_method.return_type.duplicate(),
    };
    assert(method.deep_view().annotations =~= Seq::<AnnotationView>::empty());
    let definition = define_method(
        source_method.name.clone(),
        descriptor,
        SyntheticOrigin::LombokDelegate { field_name: field.name.clone() },
    );
    out.add_method(method, definition);
}

/// The members after the methods of one type from the `i`-th on.
pub open spec fn after_methods(
    out: MembersView,
    field_name: Seq<char>,
    sources: Seq<MethodView>,
    methods: Seq<MethodView>,
    i: int,
) -> MembersView
    decreases sources.len() - i,
{
    if i < 0 || i >= sources.len() {
        out
    } else {
        after_methods(
            plus_delegate(out, field_name, sources[i], methods),
            field_name,
            sources,
            methods,
            i + 1,
        )
    }
}

/// The members after the types from the `i`-th on.
pub open spec fn after_types(
    out: MembersView,
    input: SyntheticInput<'_>,
    field_name: Seq<char>,
    types: Seq<Seq<char>>,
    methods: Seq<MethodView>,
    i: int,
) -> MembersView
    decreases types.len() - i,
{
    if i < 0 || i >= types.len() {
        out
    } else {
        let next = match type_methods(input, types[i]) {
            Some(sources) => after_methods(out, field_name, sources, methods, 0),
            None => out,
        };
        after_types(next, input, field_name, types, methods, i + 1)
    }
}

/// The types whose methods a field is asked for: those that the annotation names, else its own.
pub open spec fn delegate_types(field: FieldView, a: AnnotationView) -> Seq<Seq<char>> {
    let named = classes_param(a, "types"@);
    if named.len() == 0 {
        seq![field.descriptor]
    } else {
        named
    }
}

/// The definition that marks a field as delegated to.
pub open spec fn delegate_marker(field_name: Seq<char>) -> DefinitionView {
    DefinitionView {
        kind: SyntheticDefinitionKind::Method,
        name: "$delegate$"@ + field_name,
        descriptor: None,
        origin: OriginView::LombokDelegate { field_name },
    }
}

/// The members after a field with `@Delegate`.
pub open spec fn plus_delegates(
    out: MembersView,
    input: SyntheticInput<'_>,
    field: FieldView,
    a: AnnotationView,
    methods: Seq<MethodView>,
) -> MembersView {
    after_types(out, input, field.name, delegate_types(field, a), methods, 0).plus_definition(
        delegate_marker(field.name),
    )
}

fn generate_from_type(
    field: &FieldSummary,
    sources: &Vec<MethodSummary>,
    explicit_methods: &[MethodSummary],
    out: &mut SyntheticMemberSet,
)
    ensures
        final(out).deep_view() == after_methods(
            old(out).deep_view(),
            field.name@,
            sources.deep_view(),
            explicit_methods.deep_view(),
            0,
        ),
{
    let ghost all = sources.deep_view();
    let ghost methods = explicit_methods.deep_view();
    let mut i: usize = 0;
    while i < sources.len()
        invariant
            i <= sources.len(),
            all == sources.deep_view(),
            methods == explicit_methods.deep_view(),
            after_methods(out.deep_view(), field.name@, all, methods, i as int) == after_methods(
                old(out).deep_view(),
                field.name@,
                all,
                methods,
                0,
            ),
        decreases sources.len() - i,
    {
        assert(all[i as int] == sources@[i as int].deep_view());
        generate_delegate_method(field, &sources[i], explicit_methods, out);
        i += 1;
    }
}

/// Adds the methods for a field with `@Delegate`, and the definition that marks the field.
pub fn generate_delegate_methods(
    input: &SyntheticInput,
    field: &FieldSummary,
    annotation: &AnnotationSummary,
    explicit_methods: &[MethodSummary],
    out: &mut SyntheticMemberSet,
)
    requires
        input.wf(),
    ensures
        final(out).deep_view() == plus_delegates(
            old(out).deep_view(),
            *input,
            field.deep_view(),
            annotation.deep_view(),
            explicit_methods.deep_view(),
        ),
{
    let mut types = get_types_parameter(annotation);
    assert(types.deep_view().len() == types@.len());
    if types.len() == 0 {
        types.push(field.descriptor.clone());
        assert(types.deep_view() =~= seq![field.descriptor@]);
    }
    let ghost all = types.deep_view();
    let ghost methods = explicit_methods.deep_view();
    assert(all == delegate_types(field.deep_view(), annotation.deep_view()));
    let mut i: usize = 0;
    while i < types.len()
        invariant
            i <= types.len(),
            all == types.deep_view(),
            methods == explicit_methods.deep_view(),
            input.wf(),
            after_types(out.deep_view(), *input, field.name@, all, methods, i as int)
                == after_types(old(out).deep_view(), *input, field.name@, all, methods, 0),
        decreases types.len() - i,
    {
        assert(all[i as int] == types@[i as int]@);
        if let Some(sources) = find_type_methods(input, types[i].as_str()) {
            generate_from_type(field, &sources, explicit_methods, out);
        }
        i += 1;
    }
    let mut name = to_chars("$delegate$");
    append_str(&mut name, field.name.as_str());
    let marker = SyntheticDefinition {
        kind: SyntheticDefinitionKind::Method,
        name: to_text(name.as_slice()),
        descriptor: None,
        origin: SyntheticOrigin::LombokDelegate { field_name: field.name.clone() },
    };
    out.add_definition(marker);
}

/// The members after one field.
pub open spec fn after_delegate(
    out: MembersView,
    input: SyntheticInput<'_>,
    field: FieldView,
    methods: Seq<MethodView>,
) -> MembersView {
    match delegate_annotation(field.annotations) {
        Some(a) => if static_flags(field.access_flags) {
            out
        } else {
            plus_delegates(out, input, field, a, methods)
        },
        None => out,
    }
}

/// The members after the fields from the `i`-th on.
pub open spec fn after_delegates(
    out: MembersView,
    input: SyntheticInput<'_>,
    fields: Seq<FieldView>,
    methods: Seq<MethodView>,
    i: int,
) -> MembersView
    decreases fields.len() - i,
{
    if i < 0 || i >= fields.len() {
        out
    } else {
        after_delegates(
            after_delegate(out, input, fields[i], methods),
            input,
            fields,
            methods,
            i + 1,
        )
    }
}

proof fn lemma_after_methods_grows(
    out: MembersView,
    field_name: Seq<char>,
    sources: Seq<MethodView>,
    methods: Seq<MethodView>,
    i: int,
)
    ensures
        out.grows_to(after_methods(out, field_name, sources, methods, i)),
    decreases sources.len() - i,
{
    if 0 <= i < sources.len() {
        let next = plus_delegate(out, field_name, sources[i], methods);
        assert(out.grows_to(next));
        lemma_after_methods_grows(next, field_name, sources, methods, i + 1);
    }
}

proof fn lemma_after_types_grows(
    out: MembersView,
    input: SyntheticInput<'_>,
    field_name: Seq<char>,
    types: Seq<Seq<char>>,
    methods: Seq<MethodView>,
    i: int,
)
    ensures
        out.grows_to(after_types(out, input, field_name, types, methods, i)),
    decreases types.len() - i,
{
    if 0 <= i < types.len() {
        let next = match type_methods(input, types[i]) {
            Some(sources) => after_methods(out, field_name, sources, methods, 0),
            None => out,
        };
        if let Some(sources) = type_methods(input, types[i]) {
            lemma_after_methods_grows(out, field_name, sources, methods, 0);
        }
        lemma_after_types_grows(next, input, field_name, types, methods, i + 1);
    }
}

proof fn lemma_after_delegates_grows(
    out: MembersView,
    input: SyntheticInput<'_>,
    fields: Seq<FieldView>,
    methods: Seq<MethodView>,
    i: int,
)
    ensures
        out.grows_to(after_delegates(out, input, fields, methods, i)),
    decreases fields.len() - i,
{
    if 0 <= i < fields.len() {
        let next = after_delegate(out, input, fields[i], methods);
        if let Some(a) = delegate_annotation(fields[i].annotations) {
            lemma_after_types_grows(
                out,
                input,
                fields[i].name,
                delegate_types(fields[i], a),
                methods,
                0,
            );
        }
        assert(out.grows_to(next));
        lemma_after_delegates_grows(next, input, fields, methods, i + 1);
    }
}

impl SyntheticMemberRule for DelegateRule {
    open spec fn synthesized(
        &self,
        input: SyntheticInput<'_>,
        out: MembersView,
        explicit_methods: Seq<MethodView>,
        explicit_fields: Seq<FieldView>,
    ) -> MembersView {
        if input.kind() == "class_declaration"@ || input.kind() == "interface_declaration"@ {
            after_delegates(out, input, explicit_fields, explicit_methods, 0)
        } else {
            out
        }
    }

    fn synthesize(
        &self,
        input: &SyntheticInput<'_>,
        out: &mut SyntheticMemberSet,
        explicit_methods: &[MethodSummary],
        explicit_fields: &[FieldSummary],
    ) {
        let kind = input.ctx.tree.kind(input.decl);
        if !(str_eq(kind, "class_declaration") || str_eq(kind, "interface_declaration")) {
            return;
        }
        let ghost all = explicit_fields.deep_view();
        let ghost methods = explicit_methods.deep_view();
        let mut i: usize = 0;
        while i < explicit_fields.len()
            invariant
                i <= explicit_fields.len(),
                all == explicit_fields.deep_view(),
                methods == explicit_methods.deep_view(),
                input.wf(),
                after_delegates(out.deep_view(), *input, all, methods, i as int)
                    == after_delegates(old(out).deep_view(), *input, all, methods, 0),
            decreases explicit_fields.len() - i,
        {
            let field: &FieldSummary = &explicit_fields[i];
            assert(all[i as int] == field.deep_view());
            if let Some(a) = find_delegate_annotation(field.annotations.as_slice()) {
                if !is_static(field.access_flags) {
                    generate_delegate_methods(input, field, a, explicit_methods, out);
                }
            }
            i += 1;
        }
    }

    proof fn lemma_grows(
        &self,
        input: SyntheticInput<'_>,
        out: MembersView,
        explicit_methods: Seq<MethodView>,
        explicit_fields: Seq<FieldView>,
    ) {
        lemma_after_delegates_grows(out, input, explicit_fields, explicit_methods, 0);
    }
}

} // verus!
