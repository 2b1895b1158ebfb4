//! The internal names of the annotations.
use vstd::prelude::*;

verus! {

pub const GETTER: &'static str = "lombok/Getter";

pub const TO_STRING: &'static str = "lombok/ToString";

pub const EQUALS_AND_HASH_CODE: &'static str = "lombok/EqualsAndHashCode";

pub const NO_ARGS_CONSTRUCTOR: &'static str = "lombok/NoArgsConstructor";

pub const REQUIRED_ARGS_CONSTRUCTOR: &'static str = "lombok/RequiredArgsConstructor";

pub const ALL_ARGS_CONSTRUCTOR: &'static str = "lombok/AllArgsConstructor";

pub const VALUE: &'static str = "lombok/Value";

pub const WITH: &'static str = "lombok/With";

pub const WITHER: &'static str = "lombok/experimental/Wither";

pub const DELEGATE: &'static str = "lombok/experimental/Delegate";

pub const NON_NULL: &'static str = "lombok/NonNull";

pub const SLF4J: &'static str = "lombok/extern/slf4j/Slf4j";

pub const LOG: &'static str = "lombok/extern/java/Log";

pub const LOG4J: &'static str = "lombok/extern/log4j/Log4j";

pub const LOG4J2: &'static str = "lombok/extern/log4j/Log4j2";

pub const COMMONS_LOG: &'static str = "lombok/extern/apachecommons/CommonsLog";

pub const JBOSS_LOG: &'static str = "lombok/extern/jbosslog/JBossLog";

pub const FLOGGER: &'static str = "lombok/extern/flogger/Flogger";

pub const XSLF4J: &'static str = "lombok/extern/slf4j/XSlf4j";

} // verus!
