//! The keys of the settings.
use vstd::prelude::*;

verus! {

pub const ACCESSORS_CHAIN: &'static str = "lombok.accessors.chain";

pub const ACCESSORS_FLUENT: &'static str = "lombok.accessors.fluent";

pub const ACCESSORS_PREFIX: &'static str = "lombok.accessors.prefix";

pub const LOG_FIELD_NAME: &'static str = "lombok.log.fieldName";

pub const LOG_FIELD_IS_STATIC: &'static str = "lombok.log.fieldIsStatic";

pub const COPYABLE_ANNOTATIONS: &'static str = "lombok.copyableAnnotations";

pub const TO_STRING_INCLUDE_FIELD_NAMES: &'static str = "lombok.toString.includeFieldNames";

pub const TO_STRING_DO_NOT_USE_GETTERS: &'static str = "lombok.toString.doNotUseGetters";

pub const EQUALS_AND_HASH_CODE_DO_NOT_USE_GETTERS: &'static str = "lombok.equalsAndHashCode.doNotUseGetters";

} // verus!
