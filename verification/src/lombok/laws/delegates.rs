//! Which methods are delegated: all that the types of the fields have, and no others.
use vstd::prelude::*;

use crate::extractor::JavaContextExtractor;
use crate::index::{has_method_spec, AnnotationView, FieldView, MethodView, ValueView};
use crate::lombok::annotations;
use crate::lombok::rules::delegate_rule::{
    after_delegate, after_delegates, after_methods, after_types, classes_from, declared_from,
    delegate_annotation, delegate_types, described_name, members_from, methods_from,
    methods_of_type, old_delegate_from, plus_delegate, simple_type_text, type_declaration,
    type_methods, without_semicolons, DelegateRule,
};
use crate::syntax::NodeId;
use crate::synthetic::{BodyMembers, ClassMember, MembersView, SyntheticInput, SyntheticMemberRule};
use crate::text::laws::lemma_after_last;
use crate::text::ends_with;

use super::annotations::{is_named, lemma_found_exactly};
use super::{
    lemma_after_delegates_once, lemma_after_methods_once, lemma_after_types_once,
};

verus! {

// ---- types in the text -------------------------------------------------------------------------

proof fn lemma_no_semicolons(s: Seq<char>)
    requires
        s.len() == 0 || s.last() != ';',
    ensures
        without_semicolons(s) == s,
        without_semicolons(s.push(';')) == s,
{
    assert(s.push(';').drop_last() =~= s);
}

/// The simple name of a type is what follows the path, both in a descriptor and in a plain name.
pub proof fn lemma_simple_names(path: Seq<char>, name: Seq<char>)
    requires
        name.len() > 0,
        !name.contains('/'),
        name.last() != ';',
        path.len() == 0 || path.last() == '/',
    ensures
        simple_type_text(seq!['L'] + path + name + seq![';']) == name,
        simple_type_text(path + name) == name,
{
    let descriptor = seq!['L'] + path + name + seq![';'];
    let bare = seq!['L'] + path + name;
    reveal_strlit("L");
    reveal_strlit(";");
    assert("L"@ =~= seq!['L']);
    assert(";"@ =~= seq![';']);
    assert(descriptor =~= bare.push(';'));
    assert(bare.last() == name.last());
    lemma_no_semicolons(bare);
    assert(descriptor.take(1) =~= seq!['L']);
    assert(descriptor.skip(descriptor.len() - 1) =~= seq![';']);
    assert(bare.skip(1) =~= path + name);
    assert(described_name(descriptor) == path + name);
    lemma_after_last(path, name, '/');
    lemma_no_semicolons(path + name);
    assert((path + name).last() == name.last());
    if ends_with(path + name, ";"@) {
        assert((path + name).skip((path + name).len() - 1)[0] == name.last());
    }
}

/// The node declares a class or an interface with a name.
pub open spec fn is_type_named(ctx: JavaContextExtractor, n: NodeId, name: Seq<char>) -> bool {
    &&& ctx.tree.kind_of(n) == "class_declaration"@ || ctx.tree.kind_of(n)
        == "interface_declaration"@
    &&& ctx.tree.field_of(n, "name"@) matches Some(id) && ctx.text_of(id) == name
}

/// Some node of a list declares a type with a name.
pub open spec fn some_type_named(
    ctx: JavaContextExtractor,
    ids: Seq<NodeId>,
    name: Seq<char>,
) -> bool {
    exists|k: int| 0 <= k < ids.len() && is_type_named(ctx, #[trigger] ids[k], name)
}

/// The first node of a list that declares a type with a name.
pub open spec fn is_first_named(
    ctx: JavaContextExtractor,
    ids: Seq<NodeId>,
    name: Seq<char>,
    n: NodeId,
) -> bool {
    exists|k: int|
        0 <= k < ids.len() && #[trigger] ids[k] == n && is_type_named(ctx, n, name) && forall|q:
            int| 0 <= q < k ==> !is_type_named(ctx, #[trigger] ids[q], name)
}

proof fn lemma_declared_from(ctx: JavaContextExtractor, ids: Seq<NodeId>, name: Seq<char>, i: int)
    requires
        0 <= i,
    ensures
        match declared_from(ctx, ids, name, i) {
            Some(n) => exists|k: int|
                i <= k < ids.len() && #[trigger] ids[k] == n && is_type_named(ctx, n, name)
                    && forall|q: int| i <= q < k ==> !is_type_named(ctx, #[trigger] ids[q], name),
            None => forall|q: int|
                i <= q < ids.len() ==> !is_type_named(ctx, #[trigger] ids[q], name),
        },
    decreases ids.len() - i,
{
    if i < ids.len() && !is_type_named(ctx, ids[i], name) {
        lemma_declared_from(ctx, ids, name, i + 1);
    }
}

/// A type is found by its simple name: nested in the class if one is declared there, else beside
/// the class, the first one that is; and none is found only where the text has none in either
/// place.
pub proof fn lemma_types_are_found(
    ctx: JavaContextExtractor,
    decl: NodeId,
    path: Seq<char>,
    name: Seq<char>,
)
    requires
        name.len() > 0,
        !name.contains('/'),
        name.last() != ';',
        path.len() == 0 || path.last() == '/',
    ensures
        ({
            let t = ctx.tree;
            let nested = match t.field_of(decl, "body"@) {
                Some(body) => t.kids(body),
                None => Seq::empty(),
            };
            let beside = match t.parent_of(decl) {
                Some(root) => t.kids(root),
                None => Seq::empty(),
            };
            let r = type_declaration(ctx, decl, seq!['L'] + path + name + seq![';']);
            &&& some_type_named(ctx, nested, name) ==> (r matches Some(n) && is_first_named(
                ctx,
                nested,
                name,
                n,
            ))
            &&& !some_type_named(ctx, nested, name) && some_type_named(ctx, beside, name) ==> (
            r matches Some(n) && is_first_named(ctx, beside, name, n))
            &&& !some_type_named(ctx, nested, name) && !some_type_named(ctx, beside, name)
                ==> r is None
        }),
{
    let t = ctx.tree;
    lemma_simple_names(path, name);
    if let Some(body) = t.field_of(decl, "body"@) {
        lemma_declared_from(ctx, t.kids(body), name, 0);
    }
    if let Some(root) = t.parent_of(decl) {
        lemma_declared_from(ctx, t.kids(root), name, 0);
    }
}

proof fn lemma_methods_from(members: Seq<ClassMember>, i: int, m: MethodView)
    requires
        0 <= i,
    ensures
        methods_from(members, i).contains(m) <==> exists|k: int|
            i <= k < members.len() && (#[trigger] members[k] matches ClassMember::Method(own)
                && own.deep_view() == m),
    decreases members.len() - i,
{
    if i < members.len() {
        lemma_methods_from(members, i + 1, m);
        let rest = methods_from(members, i + 1);
        let all = methods_from(members, i);
        if let ClassMember::Method(own) = members[i] {
            assert(all == seq![own.deep_view()] + rest);
            if rest.contains(m) {
                let k = choose|k: int| 0 <= k < rest.len() && rest[k] == m;
                assert(all[k + 1] == m);
            }
            if own.deep_view() == m {
                assert(all[0] == m);
            }
            if all.contains(m) {
                let k = choose|k: int| 0 <= k < all.len() && all[k] == m;
                if k > 0 {
                    assert(rest[k - 1] == m);
                }
            }
        }
    }
}

proof fn lemma_members_from(bodies: Seq<BodyMembers>, body: NodeId, i: int, b: int)
    requires
        0 <= i <= b < bodies.len(),
        bodies[b].body == body,
        forall|q: int| i <= q < b ==> (#[trigger] bodies[q]).body != body,
    ensures
        members_from(bodies, body, i) == bodies[b].members@,
    decreases b - i,
{
    if i < b {
        lemma_members_from(bodies, body, i + 1, b);
    }
}

/// The methods of a type in the text are the methods among the members of its body, and no others.
pub proof fn lemma_methods_of_type(
    input: SyntheticInput<'_>,
    n: NodeId,
    body: NodeId,
    b: int,
    m: MethodView,
)
    requires
        input.ctx.tree.field_of(n, "body"@) == Some(body),
        0 <= b < input.bodies@.len(),
        input.bodies@[b].body == body,
        forall|q: int| 0 <= q < b ==> (#[trigger] input.bodies@[q]).body != body,
    ensures
        methods_of_type(input, n) matches Some(methods) && (methods.contains(m) <==> exists|k: int|
            0 <= k < input.bodies@[b].members@.len() && (#[trigger] input.bodies@[b].members@[k]
                matches ClassMember::Method(own) && own.deep_view() == m)),
{
    lemma_members_from(input.bodies@, body, 0, b);
    lemma_methods_from(input.bodies@[b].members@, 0, m);
}

// ---- what is generated -------------------------------------------------------------------------

/// A name that no method of `Object` has.
pub open spec fn is_own_name(name: Seq<char>) -> bool {
    &&& name != "equals"@ && name != "hashCode"@ && name != "toString"@ && name != "clone"@
    &&& name != "finalize"@ && name != "getClass"@ && name != "notify"@ && name != "notifyAll"@
    &&& name != "wait"@
}

/// A method with the name, the parameters and the types of a source.
pub open spec fn is_copy(m: MethodView, source: MethodView) -> bool {
    &&& m.name == source.name
    &&& m.params == source.params
    &&& m.return_type == source.return_type
    &&& m.generic_signature == source.generic_signature
    &&& m.access_flags == 1
    &&& m.annotations == Seq::<AnnotationView>::empty()
    &&& !m.is_synthetic
}

proof fn lemma_keeps_method(
    before: Seq<MethodView>,
    after: Seq<MethodView>,
    name: Seq<char>,
    desc: Seq<char>,
)
    requires
        before.is_prefix_of(after),
        has_method_spec(before, name, desc),
    ensures
        has_method_spec(after, name, desc),
{
    let i = choose|i: int|
        0 <= i < before.len() && #[trigger] before[i].name == name && before[i].desc() == desc;
    assert(after[i] == before[i]);
    assert(after[i].name == name);
}

proof fn lemma_source_generated(
    out: MembersView,
    field: Seq<char>,
    sources: Seq<MethodView>,
    methods: Seq<MethodView>,
    i: int,
    j: int,
)
    requires
        0 <= i <= j < sources.len(),
        is_own_name(sources[j].name),
        !has_method_spec(methods, sources[j].name, sources[j].desc()),
    ensures
        has_method_spec(
            after_methods(out, field, sources, methods, i).methods,
            sources[j].name,
            sources[j].desc(),
        ),
    decreases j - i,
{
    let next = plus_delegate(out, field, sources[i], methods);
    if i < j {
        lemma_source_generated(next, field, sources, methods, i + 1, j);
    } else {
        if next != out {
            let last = next.methods.last();
            assert(next.methods[next.methods.len() - 1].name == sources[j].name);
            assert(last.desc() == sources[j].desc());
        }
        assert(has_method_spec(next.methods, sources[j].name, sources[j].desc()));
        lemma_after_methods_once(next, field, sources, methods, i + 1);
        lemma_keeps_method(
            next.methods,
            after_methods(next, field, sources, methods, i + 1).methods,
            sources[j].name,
            sources[j].desc(),
        );
    }
}

proof fn lemma_type_generated(
    out: MembersView,
    input: SyntheticInput<'_>,
    field: Seq<char>,
    types: Seq<Seq<char>>,
    methods: Seq<MethodView>,
    i: int,
    j: int,
    source: MethodView,
)
    requires
        0 <= i <= j < types.len(),
        type_methods(input, types[j]) matches Some(sources) && sources.contains(source),
        is_own_name(source.name),
        !has_method_spec(methods, source.name, source.desc()),
    ensures
        has_method_spec(
            after_types(out, input, field, types, methods, i).methods,
            source.name,
            source.desc(),
        ),
    decreases j - i,
{
    let next = match type_methods(input, types[i]) {
        Some(sources) => after_methods(out, field, sources, methods, 0),
        None => out,
    };
    if i < j {
        lemma_type_generated(next, input, field, types, methods, i + 1, j, source);
    } else {
        let sources = type_methods(input, types[j])->0;
        let k = choose|k: int| 0 <= k < sources.len() && sources[k] == source;
        lemma_source_generated(out, field, sources, methods, 0, k);
        lemma_after_types_once(next, input, field, types, methods, i + 1);
        lemma_keeps_method(
            next.methods,
            after_types(next, input, field, types, methods, i + 1).methods,
            source.name,
            source.desc(),
        );
    }
}

proof fn lemma_field_generated(
    out: MembersView,
    input: SyntheticInput<'_>,
    fields: Seq<FieldView>,
    methods: Seq<MethodView>,
    i: int,
    f: int,
    j: int,
    source: MethodView,
)
    requires
        0 <= i <= f < fields.len(),
        delegate_annotation(fields[f].annotations) is Some,
        fields[f].access_flags & 0x0008 == 0,
        ({
            let types = delegate_types(
                fields[f],
                delegate_annotation(fields[f].annotations)->0,
            );
            0 <= j < types.len() && (type_methods(input, types[j]) matches Some(sources)
                && sources.contains(source))
        }),
        is_own_name(source.name),
        !has_method_spec(methods, source.name, source.desc()),
    ensures
        has_method_spec(
            after_delegates(out, input, fields, methods, i).methods,
            source.name,
            source.desc(),
        ),
    decreases f - i,
{
    let next = after_delegate(out, input, fields[i], methods);
    if i < f {
        lemma_field_generated(next, input, fields, methods, i + 1, f, j, source);
    } else {
        let a = delegate_annotation(fields[f].annotations)->0;
        let types = delegate_types(fields[f], a);
        lemma_type_generated(out, input, fields[f].name, types, methods, 0, j, source);
        lemma_after_delegates_once(next, input, fields, methods, i + 1);
        lemma_keeps_method(
            next.methods,
            after_delegates(next, input, fields, methods, i + 1).methods,
            source.name,
            source.desc(),
        );
    }
}

/// One of the names of `@Delegate`.
pub open spec fn is_delegate(a: AnnotationView) -> bool {
    ||| a.internal_name == "lombok/experimental/Delegate"@
    ||| a.internal_name == "Delegate"@
    ||| a.internal_name == "lombok/Delegate"@
}

proof fn lemma_old_delegate(annos: Seq<AnnotationView>, i: int)
    requires
        0 <= i,
    ensures
        match old_delegate_from(annos, i) {
            Some(a) => annos.contains(a) && a.internal_name == "lombok/Delegate"@,
            None => forall|k: int|
                i <= k < annos.len() ==> (#[trigger] annos[k]).internal_name != "lombok/Delegate"@,
        },
    decreases annos.len() - i,
{
    if i < annos.len() {
        if annos[i].internal_name != "lombok/Delegate"@ {
            lemma_old_delegate(annos, i + 1);
        } else {
            assert(annos.contains(annos[i]));
        }
    }
}

/// A field is delegated to exactly where one of its annotations is `@Delegate`, by its full name,
/// its simple name or its older name.
pub proof fn lemma_delegate_annotations(annos: Seq<AnnotationView>)
    ensures
        delegate_annotation(annos) is Some <==> exists|k: int|
            0 <= k < annos.len() && is_delegate(#[trigger] annos[k]),
        delegate_annotation(annos) matches Some(a) ==> annos.contains(a) && is_delegate(a),
{
    let package = "lombok/experimental/"@;
    let simple = "Delegate"@;
    reveal_strlit("lombok/experimental/Delegate");
    reveal_strlit("lombok/experimental/");
    reveal_strlit("Delegate");
    assert(annotations::DELEGATE@ =~= package + simple);
    assert(!simple.contains('/'));
    assert(package.last() == '/');
    lemma_found_exactly(annos, annotations::DELEGATE@, package, simple);
    lemma_old_delegate(annos, 0);
    if let Some(a) = delegate_annotation(annos) {
        let k = choose|k: int| 0 <= k < annos.len() && annos[k] == a;
        assert(is_delegate(annos[k]));
    }
    assert forall|k: int| 0 <= k < annos.len() && is_delegate(#[trigger] annos[k]) implies
        delegate_annotation(annos) is Some by {
        assert(is_named(annos[k], package, simple) || annos[k].internal_name
            == "lombok/Delegate"@);
    }
}

/// The types that `@Delegate` is asked for: those that it names, or else the type of the field.
pub proof fn lemma_delegate_types(field: FieldView, a: AnnotationView)
    ensures
        !a.elements.contains_key("types"@) ==> delegate_types(field, a) == seq![field.descriptor],
        a.elements.contains_key("types"@) ==> (a.elements["types"@] matches ValueView::Class(s)
            ==> delegate_types(field, a) == seq![s]),
        a.elements.contains_key("types"@) ==> (a.elements["types"@] matches ValueView::Array(items)
            ==> forall|k: int|
            0 <= k < items.len() ==> (#[trigger] items[k] matches ValueView::Class(s)
                ==> delegate_types(field, a).contains(s))),
{
    if a.elements.contains_key("types"@) {
        if let ValueView::Array(items) = a.elements["types"@] {
            assert forall|k: int| 0 <= k < items.len() implies (#[trigger] items[k] matches
                ValueView::Class(s) ==> delegate_types(field, a).contains(s)) by {
                if let ValueView::Class(s) = items[k] {
                    lemma_classes_from(items, 0, k, s);
                }
            }
        }
    }
}

proof fn lemma_classes_from(items: Seq<ValueView>, i: int, k: int, s: Seq<char>)
    requires
        0 <= i <= k < items.len(),
        items[k] == ValueView::Class(s),
    ensures
        classes_from(items, i).contains(s),
    decreases k - i,
{
    let rest = classes_from(items, i + 1);
    if i < k {
        lemma_classes_from(items, i + 1, k, s);
        let at = choose|at: int| 0 <= at < rest.len() && rest[at] == s;
        if let ValueView::Class(own) = items[i] {
            assert(classes_from(items, i)[at + 1] == s);
        }
    } else {
        assert(classes_from(items, i)[0] == s);
    }
}

/// Every method of the type of a field with `@Delegate`, declared in the class or beside it, is
/// there afterwards, unless the class has it or `Object` has one of its name.
pub proof fn lemma_declared_methods_are_delegated(
    input: SyntheticInput<'_>,
    out: MembersView,
    methods: Seq<MethodView>,
    fields: Seq<FieldView>,
    f: int,
    path: Seq<char>,
    name: Seq<char>,
    n: NodeId,
    body: NodeId,
    b: int,
    k: int,
    source: MethodView,
)
    requires
        input.kind() == "class_declaration"@ || input.kind() == "interface_declaration"@,
        0 <= f < fields.len(),
        exists|q: int|
            0 <= q < fields[f].annotations.len() && is_delegate(
                #[trigger] fields[f].annotations[q],
            ),
        forall|q: int|
            0 <= q < fields[f].annotations.len() ==> !(
            #[trigger] fields[f].annotations[q]).elements.contains_key("types"@),
        fields[f].access_flags & 0x0008 == 0,
        fields[f].descriptor == seq!['L'] + path + name + seq![';'],
        name.len() > 0,
        !name.contains('/'),
        name.last() != ';',
        path.len() == 0 || path.last() == '/',
        ({
            let t = input.ctx.tree;
            let nested = match t.field_of(input.decl, "body"@) {
                Some(body) => t.kids(body),
                None => Seq::empty(),
            };
            ||| is_first_named(*input.ctx, nested, name, n)
            ||| !some_type_named(*input.ctx, nested, name) && (t.parent_of(input.decl) matches Some(
                root,
            ) && is_first_named(*input.ctx, t.kids(root), name, n))
        }),
        input.ctx.tree.field_of(n, "body"@) == Some(body),
        0 <= b < input.bodies@.len(),
        input.bodies@[b].body == body,
        forall|q: int| 0 <= q < b ==> (#[trigger] input.bodies@[q]).body != body,
        0 <= k < input.bodies@[b].members@.len(),
        input.bodies@[b].members@[k] matches ClassMember::Method(own) && own.deep_view() == source,
        is_own_name(source.name),
        !has_method_spec(methods, source.name, source.desc()),
    ensures
        has_method_spec(
            DelegateRule.synthesized(input, out, methods, fields).methods,
            source.name,
            source.desc(),
        ),
{
    let t = input.ctx.tree;
    lemma_types_are_found(*input.ctx, input.decl, path, name);
    assert(type_declaration(*input.ctx, input.decl, fields[f].descriptor) == Some(n)) by {
        let nested = match t.field_of(input.decl, "body"@) {
            Some(body) => t.kids(body),
            None => Seq::empty(),
        };
        let r = type_declaration(*input.ctx, input.decl, fields[f].descriptor);
        if is_first_named(*input.ctx, nested, name, n) {
            lemma_first_is_one(*input.ctx, nested, name, n, r->0);
        } else {
            let beside = t.kids(t.parent_of(input.decl)->0);
            lemma_first_is_one(*input.ctx, beside, name, n, r->0);
        }
    }
    lemma_methods_of_type(input, n, body, b, source);
    assert(input.bodies@[b].members@[k] matches ClassMember::Method(own) && own.deep_view()
        == source);
    lemma_delegate_annotations(fields[f].annotations);
    let a = delegate_annotation(fields[f].annotations)->0;
    lemma_delegate_types(fields[f], a);
    lemma_field_generated(out, input, fields, methods, 0, f, 0, source);
}

proof fn lemma_first_is_one(
    ctx: JavaContextExtractor,
    ids: Seq<NodeId>,
    name: Seq<char>,
    n: NodeId,
    m: NodeId,
)
    requires
        is_first_named(ctx, ids, name, n),
        some_type_named(ctx, ids, name) ==> is_first_named(ctx, ids, name, m),
    ensures
        some_type_named(ctx, ids, name),
        n == m,
{
    let k = choose|k: int|
        0 <= k < ids.len() && #[trigger] ids[k] == n && is_type_named(ctx, n, name) && forall|q:
            int| 0 <= q < k ==> !is_type_named(ctx, #[trigger] ids[q], name);
    assert(is_type_named(ctx, ids[k], name));
    let j = choose|j: int|
        0 <= j < ids.len() && #[trigger] ids[j] == m && is_type_named(ctx, m, name) && forall|q:
            int| 0 <= q < j ==> !is_type_named(ctx, #[trigger] ids[q], name);
    assert(is_type_named(ctx, ids[j], name));
}

// ---- no other methods --------------------------------------------------------------------------

/// The method copies one that a type of a field with `@Delegate` has.
pub open spec fn is_delegated(
    input: SyntheticInput<'_>,
    fields: Seq<FieldView>,
    m: MethodView,
) -> bool {
    exists|f: int, j: int, source: MethodView|
        #![trigger copies(input, fields, f, j, source, m)]
        copies(input, fields, f, j, source, m)
}

pub open spec fn copies(
    input: SyntheticInput<'_>,
    fields: Seq<FieldView>,
    f: int,
    j: int,
    source: MethodView,
    m: MethodView,
) -> bool {
    &&& 0 <= f < fields.len()
    &&& fields[f].access_flags & 0x0008 == 0
    &&& delegate_annotation(fields[f].annotations) matches Some(a) && 0 <= j < delegate_types(
        fields[f],
        a,
    ).len() && (type_methods(input, delegate_types(fields[f], a)[j]) matches Some(sources)
        && sources.contains(source))
    &&& is_copy(m, source)
}

proof fn lemma_only_sources(
    out: MembersView,
    field: Seq<char>,
    sources: Seq<MethodView>,
    methods: Seq<MethodView>,
    i: int,
    k: int,
)
    requires
        0 <= i,
        out.methods.len() <= k < after_methods(out, field, sources, methods, i).methods.len(),
    ensures
        exists|s: int|
            i <= s < sources.len() && is_copy(
                after_methods(out, field, sources, methods, i).methods[k],
                #[trigger] sources[s],
            ),
    decreases sources.len() - i,
{
    let next = plus_delegate(out, field, sources[i], methods);
    lemma_after_methods_once(next, field, sources, methods, i + 1);
    if k >= next.methods.len() {
        lemma_only_sources(next, field, sources, methods, i + 1, k);
    } else {
        assert(after_methods(out, field, sources, methods, i).methods[k] == next.methods[k]);
        assert(is_copy(next.methods[k], sources[i]));
    }
}

proof fn lemma_only_types(
    out: MembersView,
    input: SyntheticInput<'_>,
    field: Seq<char>,
    types: Seq<Seq<char>>,
    methods: Seq<MethodView>,
    i: int,
    k: int,
) -> (r: (int, MethodView))
    requires
        0 <= i,
        out.methods.len() <= k < after_types(out, input, field, types, methods, i).methods.len(),
    ensures
        i <= r.0 < types.len(),
        type_methods(input, types[r.0]) matches Some(sources) && sources.contains(r.1),
        is_copy(after_types(out, input, field, types, methods, i).methods[k], r.1),
    decreases types.len() - i,
{
    let next = match type_methods(input, types[i]) {
        Some(sources) => after_methods(out, field, sources, methods, 0),
        None => out,
    };
    lemma_after_types_once(next, input, field, types, methods, i + 1);
    if k >= next.methods.len() {
        lemma_only_types(next, input, field, types, methods, i + 1, k)
    } else {
        let sources = type_methods(input, types[i])->0;
        lemma_only_sources(out, field, sources, methods, 0, k);
        let s = choose|s: int|
            0 <= s < sources.len() && is_copy(next.methods[k], #[trigger] sources[s]);
        assert(after_types(out, input, field, types, methods, i).methods[k] == next.methods[k]);
        assert(sources.contains(sources[s]));
        (i, sources[s])
    }
}

proof fn lemma_only_fields(
    out: MembersView,
    input: SyntheticInput<'_>,
    fields: Seq<FieldView>,
    methods: Seq<MethodView>,
    i: int,
    k: int,
)
    requires
        0 <= i,
        out.methods.len() <= k < after_delegates(out, input, fields, methods, i).methods.len(),
    ensures
        is_delegated(input, fields, after_delegates(out, input, fields, methods, i).methods[k]),
    decreases fields.len() - i,
{
    let next = after_delegate(out, input, fields[i], methods);
    lemma_after_delegates_once(next, input, fields, methods, i + 1);
    if k >= next.methods.len() {
        lemma_only_fields(next, input, fields, methods, i + 1, k);
    } else {
        let a = delegate_annotation(fields[i].annotations)->0;
        let types = delegate_types(fields[i], a);
        let r = lemma_only_types(out, input, fields[i].name, types, methods, 0, k);
        let m = after_delegates(out, input, fields, methods, i).methods[k];
        assert(m == next.methods[k]);
        assert(copies(input, fields, i, r.0, r.1, m));
    }
}

/// Every method that is generated is a public copy of one that a type of a field with `@Delegate`
/// has, with its name, its parameters and its types.
pub proof fn lemma_only_delegates(
    input: SyntheticInput<'_>,
    out: MembersView,
    methods: Seq<MethodView>,
    fields: Seq<FieldView>,
    k: int,
)
    requires
        out.methods.len() <= k < DelegateRule.synthesized(
            input,
            out,
            methods,
            fields,
        ).methods.len(),
    ensures
        is_delegated(
            input,
            fields,
            DelegateRule.synthesized(input, out, methods, fields).methods[k],
        ),
{
    lemma_only_fields(out, input, fields, methods, 0, k);
}

} // verus!
