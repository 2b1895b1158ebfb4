//! What holds of every member that is generated.
use vstd::prelude::*;

use crate::index::{has_method_spec, AnnotationView, FieldView, MethodView, ParamView};
use crate::lombok::rules::constructor_rule::after_constructors;
use crate::lombok::rules::delegate_rule::{
    after_delegate, after_delegates, after_methods, after_types, delegate_annotation,
    delegate_types, delegating, of_object, plus_delegate, type_methods, DelegateRule,
};
use crate::lombok::rules::equals_hash_code_rule::other_param;
use crate::lombok::rules::value_rule::{after_getter, after_getters, after_value};
use crate::lombok::rules::with_rule::{after_field, after_fields, with_annotation, WithRule};
use crate::lombok::types::AccessLevel;
use crate::lombok::utils::{fits, matches_parts};
use crate::synthetic::{MembersView, SyntheticInput, SyntheticMemberRule};
use crate::text::{find, find_from, index_from, lemma_stands_is_found, split};

pub mod annotations;
pub mod delegates;
pub mod limits;
pub mod members;

verus! {

// ---- what the class has is not generated -------------------------------------------------------

/// The methods of `later` behind those of `out` are none that the class has.
pub open spec fn adds_new(out: MembersView, later: MembersView, methods: Seq<MethodView>) -> bool {
    forall|k: int|
        out.methods.len() <= k < later.methods.len() ==> !has_method_spec(
            methods,
            (#[trigger] later.methods[k]).name,
            later.methods[k].desc(),
        )
}

proof fn lemma_new_twice(
    out: MembersView,
    next: MembersView,
    later: MembersView,
    methods: Seq<MethodView>,
)
    requires
        adds_new(out, next, methods),
        adds_new(next, later, methods),
        next.methods.is_prefix_of(later.methods),
    ensures
        adds_new(out, later, methods),
{
    assert forall|k: int| out.methods.len() <= k < later.methods.len() implies !has_method_spec(
        methods,
        (#[trigger] later.methods[k]).name,
        later.methods[k].desc(),
    ) by {
        if k < next.methods.len() {
            assert(later.methods[k] == next.methods[k]);
        }
    }
}

proof fn lemma_after_fields_new(
    out: MembersView,
    fields: Seq<FieldView>,
    class_level: Option<AnnotationView>,
    methods: Seq<MethodView>,
    owner: Option<Seq<char>>,
    i: int,
)
    ensures
        out.methods.is_prefix_of(
            after_fields(out, fields, class_level, methods, owner, i).methods,
        ),
        adds_new(out, after_fields(out, fields, class_level, methods, owner, i), methods),
    decreases fields.len() - i,
{
    if 0 <= i < fields.len() {
        let next = after_field(out, fields[i], class_level, methods, owner);
        assert(adds_new(out, next, methods));
        lemma_after_fields_new(next, fields, class_level, methods, owner, i + 1);
        lemma_new_twice(
            out,
            next,
            after_fields(next, fields, class_level, methods, owner, i + 1),
            methods,
        );
    }
}

/// `@With` generates no method that the class has.
pub proof fn lemma_withs_are_new(
    input: SyntheticInput<'_>,
    out: MembersView,
    methods: Seq<MethodView>,
    fields: Seq<FieldView>,
)
    ensures
        adds_new(out, WithRule.synthesized(input, out, methods, fields), methods),
{
    lemma_after_fields_new(
        out,
        fields,
        with_annotation(input.class_annotations()),
        methods,
        input.owner_internal.deep_view(),
        0,
    );
}

/// No getter is generated that the class has.
pub proof fn lemma_getters_are_new(
    out: MembersView,
    fields: Seq<FieldView>,
    m: Map<Seq<char>, Seq<char>>,
    methods: Seq<MethodView>,
    i: int,
)
    ensures
        out.methods.is_prefix_of(after_getters(out, fields, m, methods, i).methods),
        adds_new(out, after_getters(out, fields, m, methods, i), methods),
    decreases fields.len() - i,
{
    if 0 <= i < fields.len() {
        let next = after_getter(out, fields[i], m, methods);
        assert(adds_new(out, next, methods));
        lemma_getters_are_new(next, fields, m, methods, i + 1);
        lemma_new_twice(out, next, after_getters(next, fields, m, methods, i + 1), methods);
    }
}

/// The methods of `later` behind those of `out` are none that the class has or that every object
/// has, and none that stands before them.
pub open spec fn adds_once(out: MembersView, later: MembersView, methods: Seq<MethodView>) -> bool {
    &&& out.methods.is_prefix_of(later.methods)
    &&& adds_new(out, later, methods)
    &&& forall|k: int|
        out.methods.len() <= k < later.methods.len() ==> !of_object(
            (#[trigger] later.methods[k]).name,
        )
    &&& forall|j: int, k: int|
        0 <= j < k && out.methods.len() <= k < later.methods.len() ==> !((
        #[trigger] later.methods[j]).name == (#[trigger] later.methods[k]).name
            && later.methods[j].desc() == later.methods[k].desc())
}

proof fn lemma_once_twice(
    out: MembersView,
    next: MembersView,
    later: MembersView,
    methods: Seq<MethodView>,
)
    requires
        adds_once(out, next, methods),
        adds_once(next, later, methods),
    ensures
        adds_once(out, later, methods),
{
    assert forall|k: int| out.methods.len() <= k < later.methods.len() implies !has_method_spec(
        methods,
        (#[trigger] later.methods[k]).name,
        later.methods[k].desc(),
    ) && !of_object(later.methods[k].name) by {
        if k < next.methods.len() {
            assert(later.methods[k] == next.methods[k]);
        }
    }
    assert forall|j: int, k: int|
        0 <= j < k && out.methods.len() <= k < later.methods.len() implies !((
    #[trigger] later.methods[j]).name == (#[trigger] later.methods[k]).name
        && later.methods[j].desc() == later.methods[k].desc()) by {
        if k < next.methods.len() {
            assert(later.methods[j] == next.methods[j]);
            assert(later.methods[k] == next.methods[k]);
        }
    }
}

proof fn lemma_after_methods_once(
    out: MembersView,
    field_name: Seq<char>,
    sources: Seq<MethodView>,
    methods: Seq<MethodView>,
    i: int,
)
    ensures
        adds_once(out, after_methods(out, field_name, sources, methods, i), methods),
    decreases sources.len() - i,
{
    if 0 <= i < sources.len() {
        let next = plus_delegate(out, field_name, sources[i], methods);
        assert(delegating(sources[i]).desc() == sources[i].desc());
        assert(adds_once(out, next, methods));
        lemma_after_methods_once(next, field_name, sources, methods, i + 1);
        lemma_once_twice(
            out,
            next,
            after_methods(next, field_name, sources, methods, i + 1),
            methods,
        );
    }
}

proof fn lemma_after_types_once(
    out: MembersView,
    input: SyntheticInput<'_>,
    field_name: Seq<char>,
    types: Seq<Seq<char>>,
    methods: Seq<MethodView>,
    i: int,
)
    ensures
        adds_once(out, after_types(out, input, field_name, types, methods, i), methods),
    decreases types.len() - i,
{
    if 0 <= i < types.len() {
        let next = match type_methods(input, types[i]) {
            Some(sources) => after_methods(out, field_name, sources, methods, 0),
            None => out,
        };
        if let Some(sources) = type_methods(input, types[i]) {
            lemma_after_methods_once(out, field_name, sources, methods, 0);
        }
        lemma_after_types_once(next, input, field_name, types, methods, i + 1);
        lemma_once_twice(
            out,
            next,
            after_types(next, input, field_name, types, methods, i + 1),
            methods,
        );
    }
}

proof fn lemma_after_delegates_once(
    out: MembersView,
    input: SyntheticInput<'_>,
    fields: Seq<FieldView>,
    methods: Seq<MethodView>,
    i: int,
)
    ensures
        adds_once(out, after_delegates(out, input, fields, methods, i), methods),
    decreases fields.len() - i,
{
    if 0 <= i < fields.len() {
        let next = after_delegate(out, input, fields[i], methods);
        if let Some(a) = delegate_annotation(fields[i].annotations) {
            lemma_after_types_once(
                out,
                input,
                fields[i].name,
                delegate_types(fields[i], a),
                methods,
                0,
            );
        }
        assert(adds_once(out, next, methods));
        lemma_after_delegates_once(next, input, fields, methods, i + 1);
        lemma_once_twice(
            out,
            next,
            after_delegates(next, input, fields, methods, i + 1),
            methods,
        );
    }
}

/// `@Delegate` generates no method that the class has, none that every object has, and none twice.
pub proof fn lemma_delegates_once(
    input: SyntheticInput<'_>,
    out: MembersView,
    methods: Seq<MethodView>,
    fields: Seq<FieldView>,
)
    ensures
        adds_once(out, DelegateRule.synthesized(input, out, methods, fields), methods),
{
    lemma_after_delegates_once(out, input, fields, methods, 0);
}

// ---- what is generated -------------------------------------------------------------------------

/// A constructor that only the class itself sees.
pub open spec fn is_private_constructor(m: MethodView) -> bool {
    m.name == "<init>"@ && m.access_flags == AccessLevel::Private.flags()
}

/// A public static method.
pub open spec fn is_static_factory(m: MethodView) -> bool {
    m.access_flags == 0x0009
}

/// The constructors that are generated for an enum are private, whatever its annotations say.
pub proof fn lemma_enum_constructors_are_private(
    out: MembersView,
    annos: Seq<AnnotationView>,
    methods: Seq<MethodView>,
    fields: Seq<FieldView>,
    k: int,
)
    requires
        out.methods.len() <= k < after_constructors(out, annos, methods, fields, true).methods.len(),
    ensures
        ({
            let m = after_constructors(out, annos, methods, fields, true).methods[k];
            is_private_constructor(m) || is_static_factory(m)
        }),
{
}

/// A method that could not set a field: it takes nothing, or another object to compare with.
pub open spec fn sets_nothing(m: MethodView) -> bool {
    m.params == Seq::<ParamView>::empty() || m.params == seq![other_param()]
}

proof fn lemma_getters_set_nothing(
    out: MembersView,
    fields: Seq<FieldView>,
    m: Map<Seq<char>, Seq<char>>,
    methods: Seq<MethodView>,
    i: int,
)
    ensures
        out.methods.is_prefix_of(after_getters(out, fields, m, methods, i).methods),
        forall|k: int|
            out.methods.len() <= k < after_getters(out, fields, m, methods, i).methods.len()
                ==> sets_nothing(
                #[trigger] after_getters(out, fields, m, methods, i).methods[k],
            ),
    decreases fields.len() - i,
{
    if 0 <= i < fields.len() {
        let next = after_getter(out, fields[i], m, methods);
        lemma_getters_set_nothing(next, fields, m, methods, i + 1);
        let later = after_getters(out, fields, m, methods, i);
        assert forall|k: int| out.methods.len() <= k < later.methods.len() implies sets_nothing(
            #[trigger] later.methods[k],
        ) by {
            if k < next.methods.len() {
                assert(later.methods[k] == next.methods[k]);
            }
        }
    }
}

/// `@Value` generates nothing that sets a field later: only constructors and static factories take
/// the values of fields.
pub proof fn lemma_values_do_not_change(
    out: MembersView,
    a: AnnotationView,
    annos: Seq<AnnotationView>,
    methods: Seq<MethodView>,
    fields: Seq<FieldView>,
    k: int,
)
    requires
        out.methods.len() <= k < after_value(out, a, annos, methods, fields).methods.len(),
    ensures
        ({
            let m = after_value(out, a, annos, methods, fields).methods[k];
            sets_nothing(m) || m.name == "<init>"@ || is_static_factory(m)
        }),
{
    lemma_getters_set_nothing(out, fields, Map::empty(), methods, 0);
}

// ---- patterns ----------------------------------------------------------------------------------

/// The parts of a pattern from the `i`-th on, with texts in place of the stars between them.
pub open spec fn filled(parts: Seq<Seq<char>>, fills: Seq<Seq<char>>, i: int) -> Seq<char>
    decreases parts.len() - i,
{
    if i < 0 || i >= parts.len() {
        Seq::empty()
    } else if i == parts.len() - 1 {
        parts[i]
    } else {
        parts[i] + fills[i] + filled(parts, fills, i + 1)
    }
}

proof fn lemma_filled_matches(
    rest: Seq<char>,
    parts: Seq<Seq<char>>,
    fills: Seq<Seq<char>>,
    i: int,
    before: Seq<char>,
)
    requires
        0 < i < parts.len(),
        rest == before + filled(parts, fills, i),
    ensures
        matches_parts(rest, parts, i),
    decreases parts.len() - i,
{
    let part = parts[i];
    if i == parts.len() - 1 {
        assert(matches_parts(rest, parts, i + 1));
        assert(rest.skip(rest.len() - part.len()) =~= part);
    } else {
        let tail = filled(parts, fills, i + 1);
        if part.len() == 0 {
            assert(rest =~= before + fills[i] + tail);
            lemma_filled_matches(rest, parts, fills, i + 1, before + fills[i]);
        } else {
            let at = before.len() as int;
            assert(rest.subrange(at, at + part.len()) =~= part);
            lemma_stands_is_found(rest, part, 0, at);
            let next = rest.skip(find(rest, part)->0 + part.len());
            let gap = next.take(next.len() - tail.len());
            assert(next =~= gap + tail);
            lemma_filled_matches(next, parts, fills, i + 1, gap);
        }
    }
}

proof fn lemma_index_found(s: Seq<char>, c: char, i: int, at: int)
    requires
        0 <= i <= at < s.len(),
        s[at] == c,
    ensures
        index_from(s, c, i) matches Some(k) && i <= k <= at,
    decreases at - i,
{
    if s[i] != c {
        lemma_index_found(s, c, i + 1, at);
    }
}

/// A pattern matches every text that it gives with any texts in place of its stars.
pub proof fn lemma_patterns_match(pattern: Seq<char>, fills: Seq<Seq<char>>)
    requires
        pattern.contains('*'),
        fills.len() == split(pattern, '*').len() - 1,
    ensures
        fits(filled(split(pattern, '*'), fills, 0), pattern),
{
    reveal_with_fuel(split, 2);
    lemma_index_found(pattern, '*', 0, pattern.index_of('*'));
    let parts = split(pattern, '*');
    let text = filled(parts, fills, 0);
    let tail = filled(parts, fills, 1);
    let first = parts[0];
    assert(text =~= first + fills[0] + tail);
    assert(text.take(first.len() as int) =~= first);
    if parts.len() == 2 {
        assert(tail == parts[1]);
        assert(text.skip(text.len() - parts[1].len()) =~= parts[1]);
    } else if first.len() == 0 {
        assert(text =~= fills[0] + tail);
        lemma_filled_matches(text, parts, fills, 1, fills[0]);
    } else {
        assert(text.skip(first.len() as int) =~= fills[0] + tail);
        lemma_filled_matches(text.skip(first.len() as int), parts, fills, 1, fills[0]);
    }
}

proof fn lemma_found_stands(s: Seq<char>, pat: Seq<char>, i: int)
    ensures
        find_from(s, pat, i) matches Some(k) ==> i <= k && 0 <= k <= s.len() - pat.len()
            && s.subrange(k, k + pat.len()) == pat,
    decreases s.len() - i + 1,
{
    if 0 <= i && i + pat.len() <= s.len() {
        lemma_found_stands(s, pat, i + 1);
    }
}

/// Only the texts for the stars behind the `i`-th part are read.
proof fn lemma_filled_behind(
    parts: Seq<Seq<char>>,
    fills: Seq<Seq<char>>,
    at: int,
    fill: Seq<char>,
    i: int,
)
    requires
        0 <= at < i,
        at < fills.len(),
        fills.len() == parts.len() - 1,
    ensures
        filled(parts, fills.update(at, fill), i) == filled(parts, fills, i),
    decreases parts.len() - i,
{
    if i < parts.len() - 1 {
        lemma_filled_behind(parts, fills, at, fill, i + 1);
        assert(fills.update(at, fill)[i] == fills[i]);
    }
}

/// The texts that stand for the stars of a pattern where the rest of a text matches its parts from
/// the `i`-th on; those of the stars further ahead are left open.
proof fn lemma_parts_leave_fills(rest: Seq<char>, parts: Seq<Seq<char>>, i: int) -> (fills: Seq<
    Seq<char>,
>)
    requires
        0 < i < parts.len(),
        matches_parts(rest, parts, i),
    ensures
        fills.len() == parts.len() - 1,
        rest == fills[i - 1] + filled(parts, fills, i),
    decreases parts.len() - i,
{
    let part = parts[i];
    if i == parts.len() - 1 {
        let gap = rest.take(rest.len() - part.len());
        assert(rest =~= gap + part);
        Seq::new((parts.len() - 1) as nat, |k: int| gap)
    } else {
        let at = if part.len() == 0 {
            0
        } else {
            find(rest, part)->0
        };
        if part.len() > 0 {
            lemma_found_stands(rest, part, 0);
        }
        let next = rest.skip(at + part.len());
        if part.len() == 0 {
            assert(next =~= rest);
        }
        let later = lemma_parts_leave_fills(next, parts, i + 1);
        let gap = rest.take(at);
        let fills = later.update(i - 1, gap);
        lemma_filled_behind(parts, later, i - 1, gap, i + 1);
        assert(fills[i] == later[i]);
        assert(rest.subrange(at, at + part.len()) =~= part);
        assert(rest =~= gap + (part + next));
        assert(part + next =~= part + later[i] + filled(parts, later, i + 1));
        fills
    }
}

/// A text that matches a pattern is the pattern with texts in place of its stars. With an only
/// star, this holds of texts that are at least as long as the two parts around it.
pub proof fn lemma_matches_are_filled(text: Seq<char>, pattern: Seq<char>)
    requires
        pattern.contains('*'),
        fits(text, pattern),
        ({
            let parts = split(pattern, '*');
            parts.len() == 2 ==> text.len() >= parts[0].len() + parts[1].len()
        }),
    ensures
        exists|fills: Seq<Seq<char>>|
            fills.len() == split(pattern, '*').len() - 1 && text == #[trigger] filled(
                split(pattern, '*'),
                fills,
                0,
            ),
{
    reveal_with_fuel(split, 2);
    lemma_index_found(pattern, '*', 0, pattern.index_of('*'));
    let parts = split(pattern, '*');
    let first = parts[0];
    let rest = text.skip(first.len() as int);
    assert(text =~= first + rest);
    if first.len() == 0 {
        assert(rest =~= text);
    }
    if parts.len() == 2 {
        let gap = rest.take(rest.len() - parts[1].len());
        assert(rest =~= gap + parts[1]);
        let fills = seq![gap];
        assert(filled(parts, fills, 1) == parts[1]);
        assert(text =~= filled(parts, fills, 0));
    } else {
        let fills = lemma_parts_leave_fills(rest, parts, 1);
        assert(text =~= filled(parts, fills, 0));
    }
}

} // verus!
