//! What is known of classes: annotations, fields and methods.
use vstd::prelude::*;

use crate::text::str_eq;
use crate::text_map::{Duplicate, TextMap};

verus! {

/// A value of an annotation's element.
#[derive(Debug)]
pub enum AnnotationValue {
    String(String),
    Boolean(bool),
    Int(i64),
    Class(String),
    Enum { enum_type: String, const_name: String },
    Array(Vec<AnnotationValue>),
}

/// What an [`AnnotationValue`] says.
pub enum ValueView {
    String(Seq<char>),
    Boolean(bool),
    Int(int),
    Class(Seq<char>),
    Enum { enum_type: Seq<char>, const_name: Seq<char> },
    Array(Seq<ValueView>),
}

impl AnnotationValue {
    pub open spec fn model(self) -> ValueView
        decreases self,
    {
        match self {
            AnnotationValue::String(s) => ValueView::String(s@),
            AnnotationValue::Boolean(b) => ValueView::Boolean(b),
            AnnotationValue::Int(n) => ValueView::Int(n as int),
            AnnotationValue::Class(s) => ValueView::Class(s@),
            AnnotationValue::Enum { enum_type, const_name } => ValueView::Enum {
                enum_type: enum_type@,
                const_name: const_name@,
            },
            AnnotationValue::Array(items) => ValueView::Array(models(items@)),
        }
    }
}

pub open spec fn models(items: Seq<AnnotationValue>) -> Seq<ValueView>
    decreases items,
{
    if items.len() == 0 {
        Seq::empty()
    } else {
        models(items.drop_last()).push(items.last().model())
    }
}

/// The model of a list of values is the list of their models.
pub proof fn lemma_models(items: Seq<AnnotationValue>)
    ensures
        models(items).len() == items.len(),
        forall|i: int| 0 <= i < items.len() ==> #[trigger] models(items)[i] == items[i].model(),
    decreases items.len(),
{
    if items.len() > 0 {
        lemma_models(items.drop_last());
        assert forall|i: int| 0 <= i < items.len() implies #[trigger] models(items)[i]
            == items[i].model() by {
            if i < items.len() - 1 {
                assert(items.drop_last()[i] == items[i]);
                assert(models(items.drop_last())[i] == items[i].model());
            }
        }
    }
}

impl DeepView for AnnotationValue {
    type V = ValueView;

    open spec fn deep_view(&self) -> ValueView {
        self.model()
    }
}

/// Copies a value.
pub fn copy_value(value: &AnnotationValue) -> (r: AnnotationValue)
    ensures
        r.model() == value.model(),
    decreases value,
{
    match value {
        AnnotationValue::String(s) => AnnotationValue::String(s.clone()),
        AnnotationValue::Boolean(b) => AnnotationValue::Boolean(*b),
        AnnotationValue::Int(n) => AnnotationValue::Int(*n),
        AnnotationValue::Class(s) => AnnotationValue::Class(s.clone()),
        AnnotationValue::Enum { enum_type, const_name } => AnnotationValue::Enum {
            enum_type: enum_type.clone(),
            const_name: const_name.clone(),
        },
        AnnotationValue::Array(items) => {
            let mut out: Vec<AnnotationValue> = Vec::new();
            let mut i: usize = 0;
            while i < items.len()
                invariant
                    i <= items.len(),
                    out.len() == i,
                    *value == AnnotationValue::Array(*items),
                    forall|k: int| 0 <= k < i ==> #[trigger] out@[k].model() == items@[k].model(),
                decreases items.len() - i,
            {
                assert(decreases_to!(value => value->Array_0));
                assert(decreases_to!(items => items@));
                assert(decreases_to!(items@ => items@[i as int]));
                out.push(copy_value(&items[i]));
                i += 1;
            }
            proof {
                lemma_models(out@);
                lemma_models(items@);
            }
            assert(models(out@) =~= models(items@));
            AnnotationValue::Array(out)
        },
    }
}

impl Duplicate for AnnotationValue {
    fn duplicate(&self) -> (r: AnnotationValue) {
        copy_value(self)
    }
}

/// An annotation of a class, a field, a method or a parameter.
#[derive(Debug)]
pub struct AnnotationSummary {
    pub internal_name: String,
    pub runtime_visible: bool,
    pub elements: TextMap<AnnotationValue>,
}

/// What an [`AnnotationSummary`] says.
pub struct AnnotationView {
    pub internal_name: Seq<char>,
    pub runtime_visible: bool,
    pub elements: Map<Seq<char>, ValueView>,
}

impl DeepView for AnnotationSummary {
    type V = AnnotationView;

    open spec fn deep_view(&self) -> AnnotationView {
        AnnotationView {
            internal_name: self.internal_name@,
            runtime_visible: self.runtime_visible,
            elements: self.elements.deep_view(),
        }
    }
}

impl Duplicate for AnnotationSummary {
    fn duplicate(&self) -> (r: AnnotationSummary) {
        AnnotationSummary {
            internal_name: self.internal_name.clone(),
            runtime_visible: self.runtime_visible,
            elements: self.elements.duplicate(),
        }
    }
}

/// A field of a class.
#[derive(Debug)]
pub struct FieldSummary {
    pub name: String,
    pub descriptor: String,
    pub access_flags: u16,
    pub annotations: Vec<AnnotationSummary>,
    pub is_synthetic: bool,
    pub generic_signature: Option<String>,
}

/// What a [`FieldSummary`] says.
pub struct FieldView {
    pub name: Seq<char>,
    pub descriptor: Seq<char>,
    pub access_flags: u16,
    pub annotations: Seq<AnnotationView>,
    pub is_synthetic: bool,
    pub generic_signature: Option<Seq<char>>,
}

impl DeepView for FieldSummary {
    type V = FieldView;

    open spec fn deep_view(&self) -> FieldView {
        FieldView {
            name: self.name@,
            descriptor: self.descriptor@,
            access_flags: self.access_flags,
            annotations: self.annotations.deep_view(),
            is_synthetic: self.is_synthetic,
            generic_signature: self.generic_signature.deep_view(),
        }
    }
}

/// A parameter of a method.
#[derive(Debug)]
pub struct MethodParam {
    pub descriptor: String,
    pub name: String,
    pub annotations: Vec<AnnotationSummary>,
}

/// What a [`MethodParam`] says.
pub struct ParamView {
    pub descriptor: Seq<char>,
    pub name: Seq<char>,
    pub annotations: Seq<AnnotationView>,
}

impl DeepView for MethodParam {
    type V = ParamView;

    open spec fn deep_view(&self) -> ParamView {
        ParamView {
            descriptor: self.descriptor@,
            name: self.name@,
            annotations: self.annotations.deep_view(),
        }
    }
}

impl Duplicate for MethodParam {
    fn duplicate(&self) -> (r: MethodParam) {
        MethodParam {
            descriptor: self.descriptor.clone(),
            name: self.name.clone(),
            annotations: self.annotations.duplicate(),
        }
    }
}

/// The parameters of a method.
#[derive(Debug)]
pub struct MethodParams {
    pub items: Vec<MethodParam>,
}

impl DeepView for MethodParams {
    type V = Seq<ParamView>;

    open spec fn deep_view(&self) -> Seq<ParamView> {
        self.items.deep_view()
    }
}

impl Duplicate for MethodParams {
    fn duplicate(&self) -> (r: MethodParams) {
        MethodParams { items: self.items.duplicate() }
    }
}

impl MethodParams {
    pub fn empty() -> (r: MethodParams)
        ensures
            r.deep_view() == Seq::<ParamView>::empty(),
    {
        let r = MethodParams { items: Vec::new() };
        assert(r.deep_view() =~= Seq::<ParamView>::empty());
        r
    }

    pub fn len(&self) -> (r: usize)
        ensures
            r == self.deep_view().len(),
    {
        self.items.len()
    }

    pub fn is_empty(&self) -> (r: bool)
        ensures
            r == (self.deep_view().len() == 0),
    {
        self.items.len() == 0
    }
}

/// A method of a class.
#[derive(Debug)]
pub struct MethodSummary {
    pub name: String,
    pub params: MethodParams,
    pub annotations: Vec<AnnotationSummary>,
    pub access_flags: u16,
    pub is_synthetic: bool,
    pub generic_signature: Option<String>,
    pub return_type: Option<String>,
}

/// What a [`MethodSummary`] says.
pub struct MethodView {
    pub name: Seq<char>,
    pub params: Seq<ParamView>,
    pub annotations: Seq<AnnotationView>,
    pub access_flags: u16,
    pub is_synthetic: bool,
    pub generic_signature: Option<Seq<char>>,
    pub return_type: Option<Seq<char>>,
}

impl DeepView for MethodSummary {
    type V = MethodView;

    open spec fn deep_view(&self) -> MethodView {
        MethodView {
            name: self.name@,
            params: self.params.deep_view(),
            annotations: self.annotations.deep_view(),
            access_flags: self.access_flags,
            is_synthetic: self.is_synthetic,
            generic_signature: self.generic_signature.deep_view(),
            return_type: self.return_type.deep_view(),
        }
    }
}

impl Duplicate for MethodSummary {
    fn duplicate(&self) -> (r: MethodSummary) {
        MethodSummary {
            name: self.name.clone(),
            params: self.params.duplicate(),
            annotations: self.annotations.duplicate(),
            access_flags: self.access_flags,
            is_synthetic: self.is_synthetic,
            generic_signature: self.generic_signature.duplicate(),
            return_type: self.return_type.duplicate(),
        }
    }
}

/// The descriptors of parameters, one after the other, from the `i`-th on.
pub open spec fn descriptors_from(params: Seq<ParamView>, i: int) -> Seq<char>
    decreases params.len() - i,
{
    if i < 0 || i >= params.len() {
        Seq::empty()
    } else {
        params[i].descriptor + descriptors_from(params, i + 1)
    }
}

/// The descriptor of a method with given parameters and a given return type.
pub open spec fn descriptor_of(params: Seq<ParamView>, result: Seq<char>) -> Seq<char> {
    seq!['('] + descriptors_from(params, 0) + seq![')'] + result
}

impl MethodView {
    /// The descriptor of the method: without a return type it is that of a void method.
    pub open spec fn desc(self) -> Seq<char> {
        descriptor_of(
            self.params,
            match self.return_type {
                Some(t) => t,
                None => seq!['V'],
            },
        )
    }
}

/// Writes the descriptor of a method.
pub fn build_descriptor(params: &MethodParams, result: &str) -> (r: String)
    ensures
        r@ == descriptor_of(params.deep_view(), result@),
{
    let mut out = String::new();
    out.push('(');
    let mut i: usize = 0;
    while i < params.items.len()
        invariant
            i <= params.items.len(),
            out@ + descriptors_from(params.deep_view(), i as int) =~= seq!['('] + descriptors_from(
                params.deep_view(),
                0,
            ),
        decreases params.items.len() - i,
    {
        let ghost before = out@;
        out.append(params.items[i].descriptor.as_str());
        assert(params.deep_view()[i as int].descriptor == params.items@[i as int].descriptor@);
        assert(out@ + descriptors_from(params.deep_view(), i + 1) =~= before + descriptors_from(
            params.deep_view(),
            i as int,
        ));
        i += 1;
    }
    out.push(')');
    out.append(result);
    assert(out@ =~= descriptor_of(params.deep_view(), result@));
    out
}

impl MethodSummary {
    pub fn desc(&self) -> (r: String)
        ensures
            r@ == self.deep_view().desc(),
    {
        match &self.return_type {
            Some(t) => build_descriptor(&self.params, t.as_str()),
            None => {
                proof {
                    reveal_strlit("V");
                }
                assert("V"@ =~= seq!['V']);
                build_descriptor(&self.params, "V")
            },
        }
    }
}

/// A method with a given name and descriptor is among the methods.
pub open spec fn has_method_spec(
    methods: Seq<MethodView>,
    name: Seq<char>,
    descriptor: Seq<char>,
) -> bool {
    exists|i: int|
        0 <= i < methods.len() && #[trigger] methods[i].name == name && methods[i].desc()
            == descriptor
}

/// Whether a method with a given name and descriptor is among the methods.
pub fn has_method(methods: &[MethodSummary], name: &str, descriptor: &str) -> (r: bool)
    ensures
        r == has_method_spec(methods.deep_view(), name@, descriptor@),
{
    let mut i: usize = 0;
    while i < methods.len()
        invariant
            i <= methods.len(),
            forall|k: int|
                0 <= k < i ==> !(#[trigger] methods.deep_view()[k].name == name@
                    && methods.deep_view()[k].desc() == descriptor@),
        decreases methods.len() - i,
    {
        assert(methods.deep_view()[i as int] == methods@[i as int].deep_view());
        if str_eq(methods[i].name.as_str(), name) {
            let desc = methods[i].desc();
            if str_eq(desc.as_str(), descriptor) {
                assert(methods.deep_view()[i as int].name == name@);
                return true;
            }
        }
        i += 1;
    }
    false
}

} // verus!
