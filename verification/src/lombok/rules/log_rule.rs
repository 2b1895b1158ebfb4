//! The logger's field for `@Slf4j`, `@Log` and the like.
use vstd::prelude::*;

use crate::access_flags::{acc_final, acc_private, acc_static};
use crate::index::{
    AnnotationSummary, AnnotationView, FieldSummary, FieldView, MethodSummary, MethodView,
};
use crate::lombok::config::{bool_or, log_name, LombokConfig};
use crate::lombok::utils::{find_lombok_annotation, found};
use crate::lombok::{annotations, config_keys};
use crate::synthetic::{
    extract_class_annotations, DefinitionView, MembersView, OriginView, SyntheticDefinition,
    SyntheticDefinitionKind, SyntheticInput, SyntheticMemberRule, SyntheticMemberSet,
    SyntheticOrigin,
};
use crate::text::str_eq;

use super::constructor_rule::{class_like, is_class_like};

verus! {

pub struct LogRule;

/// How a logger is made.
#[derive(Clone, Copy, Debug)]
pub enum LogFactoryMethod {
    /// `LoggerFactory.getLogger(Class)`
    GetLogger(&'static str),
    /// `Logger.getLogger(String)`, with the name of the class
    GetLoggerByName(&'static str),
    /// `FluentLogger.forEnclosingClass()`
    ForEnclosingClass(&'static str),
}

/// What a [`LogFactoryMethod`] says.
pub enum FactoryView {
    GetLogger(Seq<char>),
    GetLoggerByName(Seq<char>),
    ForEnclosingClass(Seq<char>),
}

impl DeepView for LogFactoryMethod {
    type V = FactoryView;

    open spec fn deep_view(&self) -> FactoryView {
        match self {
            LogFactoryMethod::GetLogger(c) => FactoryView::GetLogger(c@),
            LogFactoryMethod::GetLoggerByName(c) => FactoryView::GetLoggerByName(c@),
            LogFactoryMethod::ForEnclosingClass(c) => FactoryView::ForEnclosingClass(c@),
        }
    }
}

/// A logging framework: the annotation that asks for it, and its logger.
#[derive(Clone, Copy, Debug)]
pub struct LogFramework {
    pub annotation: &'static str,
    pub logger_type: &'static str,
    pub factory_method: LogFactoryMethod,
}

/// What a [`LogFramework`] says.
pub struct FrameworkView {
    pub annotation: Seq<char>,
    pub logger_type: Seq<char>,
    pub factory_method: FactoryView,
}

impl DeepView for LogFramework {
    type V = FrameworkView;

    open spec fn deep_view(&self) -> FrameworkView {
        FrameworkView {
            annotation: self.annotation@,
            logger_type: self.logger_type@,
            factory_method: self.factory_method.deep_view(),
        }
    }
}

/// The frameworks, in the order in which their annotations are looked for.
pub open spec fn known_frameworks() -> Seq<FrameworkView> {
    seq![
        FrameworkView {
            annotation: annotations::SLF4J@,
            logger_type: "Lorg/slf4j/Logger;"@,
            factory_method: FactoryView::GetLogger("org/slf4j/LoggerFactory"@),
        },
        FrameworkView {
            annotation: annotations::LOG@,
            logger_type: "Ljava/util/logging/Logger;"@,
            factory_method: FactoryView::GetLoggerByName("java/util/logging/Logger"@),
        },
        FrameworkView {
            annotation: annotations::LOG4J@,
            logger_type: "Lorg/apache/log4j/Logger;"@,
            factory_method: FactoryView::GetLogger("org/apache/log4j/Logger"@),
        },
        FrameworkView {
            annotation: annotations::LOG4J2@,
            logger_type: "Lorg/apache/logging/log4j/Logger;"@,
            factory_method: FactoryView::GetLogger("org/apache/logging/log4j/LogManager"@),
        },
        FrameworkView {
            annotation: annotations::COMMONS_LOG@,
            logger_type: "Lorg/apache/commons/logging/Log;"@,
            factory_method: FactoryView::GetLogger("org/apache/commons/logging/LogFactory"@),
        },
        FrameworkView {
            annotation: annotations::JBOSS_LOG@,
            logger_type: "Lorg/jboss/logging/Logger;"@,
            factory_method: FactoryView::GetLogger("org/jboss/logging/Logger"@),
        },
        FrameworkView {
            annotation: annotations::FLOGGER@,
            logger_type: "Lcom/google/common/flogger/FluentLogger;"@,
            factory_method: FactoryView::ForEnclosingClass("com/google/common/flogger/FluentLogger"@),
        },
        FrameworkView {
            annotation: annotations::XSLF4J@,
            logger_type: "Lorg/slf4j/ext/XLogger;"@,
            factory_method: FactoryView::GetLogger("org/slf4j/ext/XLoggerFactory"@),
        },
    ]
}

/// The first framework from the `i`-th on whose annotation is there.
pub open spec fn framework_from(annos: Seq<AnnotationView>, i: int) -> Option<FrameworkView>
    decreases known_frameworks().len() - i,
{
    if i < 0 || i >= known_frameworks().len() {
        None
    } else if found(annos, known_frameworks()[i].annotation) is Some {
        Some(known_frameworks()[i])
    } else {
        framework_from(annos, i + 1)
    }
}

impl LogRule {
    /// The frameworks.
    pub fn frameworks() -> (r: Vec<LogFramework>)
        ensures
            r.deep_view() == known_frameworks(),
    {
        let r = vec![
            LogFramework {
                annotation: annotations::SLF4J,
                logger_type: "Lorg/slf4j/Logger;",
                factory_method: LogFactoryMethod::GetLogger("org/slf4j/LoggerFactory"),
            },
            LogFramework {
                annotation: annotations::LOG,
                logger_type: "Ljava/util/logging/Logger;",
                factory_method: LogFactoryMethod::GetLoggerByName("java/util/logging/Logger"),
            },
            LogFramework {
                annotation: annotations::LOG4J,
                logger_type: "Lorg/apache/log4j/Logger;",
                factory_method: LogFactoryMethod::GetLogger("org/apache/log4j/Logger"),
            },
            LogFramework {
                annotation: annotations::LOG4J2,
                logger_type: "Lorg/apache/logging/log4j/Logger;",
                factory_method: LogFactoryMethod::GetLogger("org/apache/logging/log4j/LogManager"),
            },
            LogFramework {
                annotation: annotations::COMMONS_LOG,
                logger_type: "Lorg/apache/commons/logging/Log;",
                factory_method: LogFactoryMethod::GetLogger("org/apache/commons/logging/LogFactory"),
            },
            LogFramework {
                annotation: annotations::JBOSS_LOG,
                logger_type: "Lorg/jboss/logging/Logger;",
                factory_method: LogFactoryMethod::GetLogger("org/jboss/logging/Logger"),
            },
            LogFramework {
                annotation: annotations::FLOGGER,
                logger_type: "Lcom/google/common/flogger/FluentLogger;",
                factory_method: LogFactoryMethod::ForEnclosingClass("com/google/common/flogger/FluentLogger"),
            },
            LogFramework {
                annotation: annotations::XSLF4J,
                logger_type: "Lorg/slf4j/ext/XLogger;",
                factory_method: LogFactoryMethod::GetLogger("org/slf4j/ext/XLoggerFactory"),
            },
        ];
        assert(r.deep_view() =~= known_frameworks());
        r
    }

    /// The first framework whose annotation is there, with the annotation.
    pub fn find_log_annotation<'a>(annotations: &'a [AnnotationSummary]) -> (r: Option<
        (&'a AnnotationSummary, LogFramework),
    >)
        ensures
            match r {
                Some((anno, framework)) => framework_from(annotations.deep_view(), 0) == Some(
                    framework.deep_view(),
                ) && found(annotations.deep_view(), framework.annotation@) == Some(
                    anno.deep_view(),
                ),
                None => framework_from(annotations.deep_view(), 0) is None,
            },
    {
        let all = LogRule::frameworks();
        let mut i: usize = 0;
        while i < all.len()
            invariant
                i <= all.len(),
                all.deep_view() == known_frameworks(),
                framework_from(annotations.deep_view(), 0) == framework_from(
                    annotations.deep_view(),
                    i as int,
                ),
            decreases all.len() - i,
        {
            let framework: LogFramework = all[i];
            assert(all.deep_view()[i as int] == framework.deep_view());
            if let Some(anno) = find_lombok_annotation(annotations, framework.annotation) {
                return Some((anno, framework));
            }
            i += 1;
        }
        assert(all.deep_view().len() == all@.len());
        None
    }
}

/// A field with a given name is among the fields.
pub open spec fn has_field(fields: Seq<FieldView>, name: Seq<char>) -> bool {
    exists|i: int| 0 <= i < fields.len() && #[trigger] fields[i].name == name
}

/// Whether a field with a given name is among the fields.
pub fn field_exists(fields: &[FieldSummary], name: &str) -> (r: bool)
    ensures
        r == has_field(fields.deep_view(), name@),
{
    let ghost all = fields.deep_view();
    let mut i: usize = 0;
    while i < fields.len()
        invariant
            i <= fields.len(),
            all == fields.deep_view(),
            forall|k: int| 0 <= k < i ==> #[trigger] all[k].name != name@,
        decreases fields.len() - i,
    {
        assert(all[i as int].name == fields@[i as int].name@);
        if str_eq(fields[i].name.as_str(), name) {
            return true;
        }
        i += 1;
    }
    false
}

/// The logger's field: private and final and, unless the settings say otherwise, static.
pub open spec fn log_field(
    framework: FrameworkView,
    name: Seq<char>,
    m: Map<Seq<char>, Seq<char>>,
) -> FieldView {
    FieldView {
        name,
        descriptor: framework.logger_type,
        access_flags: if bool_or(m, config_keys::LOG_FIELD_IS_STATIC@, true) {
            0x001a
        } else {
            0x0012
        },
        annotations: Seq::empty(),
        is_synthetic: false,
        generic_signature: None,
    }
}

/// The members with the logger's field.
pub open spec fn plus_log_field(
    out: MembersView,
    framework: FrameworkView,
    name: Seq<char>,
    m: Map<Seq<char>, Seq<char>>,
) -> MembersView {
    out.plus_field(
        log_field(framework, name, m),
        DefinitionView {
            kind: SyntheticDefinitionKind::Field,
            name,
            descriptor: Some(framework.logger_type),
            origin: OriginView::LombokLog,
        },
    )
}

/// Adds the logger's field.
pub fn generate_log_field(
    framework: &LogFramework,
    field_name: &str,
    config: &LombokConfig,
    out: &mut SyntheticMemberSet,
)
    ensures
        final(out).deep_view() == plus_log_field(
            old(out).deep_view(),
            framework.deep_view(),
            field_name@,
            config@,
        ),
{
    assert(0x0002u16 | 0x0010u16 == 0x0012u16) by (bit_vector);
    assert(0x0012u16 | 0x0008u16 == 0x001au16) by (bit_vector);
    let mut access_flags: u16 = acc_private() | acc_final();
    if config.log_field_is_static() {
        access_flags = access_flags | acc_static();
    }
    let field = FieldSummary {
        name: field_name.to_string(),
        descriptor: framework.logger_type.to_string(),
        access_flags,
        annotations: Vec::new(),
        is_synthetic: false,
        generic_signature: None,
    };
    assert(field.deep_view().annotations =~= Seq::<AnnotationView>::empty());
    let definition = SyntheticDefinition {
        kind: SyntheticDefinitionKind::Field,
        name: field_name.to_string(),
        descriptor: Some(framework.logger_type.to_string()),
        origin: SyntheticOrigin::LombokLog,
    };
    out.add_field(field, definition);
}

impl SyntheticMemberRule for LogRule {
    open spec fn synthesized(
        &self,
        input: SyntheticInput<'_>,
        out: MembersView,
        explicit_methods: Seq<MethodView>,
        explicit_fields: Seq<FieldView>,
    ) -> MembersView {
        let m = Map::<Seq<char>, Seq<char>>::empty();
        if !is_class_like(input.kind()) || has_field(explicit_fields, log_name(m)) {
            out
        } else {
            match framework_from(input.class_annotations(), 0) {
                Some(framework) => plus_log_field(out, framework, log_name(m), m),
                None => out,
            }
        }
    }

    fn synthesize(
        &self,
        input: &SyntheticInput<'_>,
        out: &mut SyntheticMemberSet,
        explicit_methods: &[MethodSummary],
        explicit_fields: &[FieldSummary],
    ) {
        if !class_like(input.ctx.tree.kind(input.decl)) {
            return;
        }
        let config = LombokConfig::new();
        let field_name = config.log_field_name();
        if field_exists(explicit_fields, field_name) {
            return;
        }
        let annos = extract_class_annotations(input);
        if let Some((_, framework)) = LogRule::find_log_annotation(annos.as_slice()) {
            generate_log_field(&framework, field_name, &config, out);
        }
    }

    proof fn lemma_grows(
        &self,
        input: SyntheticInput<'_>,
        out: MembersView,
        explicit_methods: Seq<MethodView>,
        explicit_fields: Seq<FieldView>,
    ) {
    }
}

} // verus!
