//! What the OpenGL debug-output callback reports: which messages it skips,
//! and the labels of a message's source, type and severity.
use vstd::prelude::*;

verus! {

pub const DEBUG_SOURCE_API: u32 = 0x8246;

pub const DEBUG_SOURCE_WINDOW_SYSTEM: u32 = 0x8247;

pub const DEBUG_SOURCE_SHADER_COMPILER: u32 = 0x8248;

pub const DEBUG_SOURCE_THIRD_PARTY: u32 = 0x8249;

pub const DEBUG_SOURCE_APPLICATION: u32 = 0x824A;

pub const DEBUG_SOURCE_OTHER: u32 = 0x824B;

pub const DEBUG_TYPE_ERROR: u32 = 0x824C;

pub const DEBUG_TYPE_DEPRECATED_BEHAVIOR: u32 = 0x824D;

pub const DEBUG_TYPE_UNDEFINED_BEHAVIOR: u32 = 0x824E;

pub const DEBUG_TYPE_PORTABILITY: u32 = 0x824F;

pub const DEBUG_TYPE_PERFORMANCE: u32 = 0x8250;

pub const DEBUG_TYPE_OTHER: u32 = 0x8251;

pub const DEBUG_TYPE_MARKER: u32 = 0x8268;

pub const DEBUG_TYPE_PUSH_GROUP: u32 = 0x8269;

pub const DEBUG_TYPE_POP_GROUP: u32 = 0x826A;

pub const DEBUG_SEVERITY_HIGH: u32 = 0x9146;

pub const DEBUG_SEVERITY_MEDIUM: u32 = 0x9147;

pub const DEBUG_SEVERITY_LOW: u32 = 0x9148;

pub const DEBUG_SEVERITY_NOTIFICATION: u32 = 0x826B;

/// Message ids that carry no news (buffer placement and similar driver
/// notes) and are not reported.
pub open spec fn spec_is_ignored_message(id: u32) -> bool {
    id == 131169 || id == 131185 || id == 131218 || id == 131204
}

/// The label of a message source; `None` for an unknown source.
pub open spec fn spec_source_label(source: u32) -> Option<&'static str> {
    if source == DEBUG_SOURCE_API {
        Some("API")
    } else if source == DEBUG_SOURCE_WINDOW_SYSTEM {
        Some("Window system")
    } else if source == DEBUG_SOURCE_SHADER_COMPILER {
        Some("Shader compiler")
    } else if source == DEBUG_SOURCE_THIRD_PARTY {
        Some("Third party")
    } else if source == DEBUG_SOURCE_APPLICATION {
        Some("Application")
    } else if source == DEBUG_SOURCE_OTHER {
        Some("Other")
    } else {
        None
    }
}

/// The label of a message type; `None` for an unknown type.
pub open spec fn spec_type_label(ty: u32) -> Option<&'static str> {
    if ty == DEBUG_TYPE_ERROR {
        Some("Error")
    } else if ty == DEBUG_TYPE_DEPRECATED_BEHAVIOR {
        Some("Deprecated behavior")
    } else if ty == DEBUG_TYPE_UNDEFINED_BEHAVIOR {
        Some("Undefined behavior")
    } else if ty == DEBUG_TYPE_PORTABILITY {
        Some("Portability")
    } else if ty == DEBUG_TYPE_PERFORMANCE {
        Some("Performance")
    } else if ty == DEBUG_TYPE_MARKER {
        Some("Marker")
    } else if ty == DEBUG_TYPE_PUSH_GROUP {
        Some("Push group")
    } else if ty == DEBUG_TYPE_POP_GROUP {
        Some("Pop group")
    } else if ty == DEBUG_TYPE_OTHER {
        Some("Other")
    } else {
        None
    }
}

/// The label of a message severity; `None` for an unknown severity.
pub open spec fn spec_severity_label(severity: u32) -> Option<&'static str> {
    if severity == DEBUG_SEVERITY_HIGH {
        Some("High")
    } else if severity == DEBUG_SEVERITY_MEDIUM {
        Some("Medium")
    } else if severity == DEBUG_SEVERITY_LOW {
        Some("Low")
    } else if severity == DEBUG_SEVERITY_NOTIFICATION {
        Some("Notification")
    } else {
        None
    }
}

/// What the debug callback reports of a message: nothing for the ignored
/// ids, else the labels of its source, type and severity (each `None` when
/// the value is unknown, and then that line is left out).
pub fn debug_message_labels(source: u32, ty: u32, id: u32, severity: u32) -> (r: Option<
    (Option<&'static str>, Option<&'static str>, Option<&'static str>),
>)
    ensures
        r == if spec_is_ignored_message(id) {
            None
        } else {
            Some((spec_source_label(source), spec_type_label(ty), spec_severity_label(severity)))
        },
{
    if id == 131169 || id == 131185 || id == 131218 || id == 131204 {
        return None;
    }
    let source_label = if source == DEBUG_SOURCE_API {
        Some("API")
    } else if source == DEBUG_SOURCE_WINDOW_SYSTEM {
        Some("Window system")
    } else if source == DEBUG_SOURCE_SHADER_COMPILER {
        Some("Shader compiler")
    } else if source == DEBUG_SOURCE_THIRD_PARTY {
        Some("Third party")
    } else if source == DEBUG_SOURCE_APPLICATION {
        Some("Application")
    } else if source == DEBUG_SOURCE_OTHER {
        Some("Other")
    } else {
        None
    };
    let type_label = if ty == DEBUG_TYPE_ERROR {
        Some("Error")
    } else if ty == DEBUG_TYPE_DEPRECATED_BEHAVIOR {
        Some("Deprecated behavior")
    } else if ty == DEBUG_TYPE_UNDEFINED_BEHAVIOR {
        Some("Undefined behavior")
    } else if ty == DEBUG_TYPE_PORTABILITY {
        Some("Portability")
    } else if ty == DEBUG_TYPE_PERFORMANCE {
        Some("Performance")
    } else if ty == DEBUG_TYPE_MARKER {
        Some("Marker")
    } else if ty == DEBUG_TYPE_PUSH_GROUP {
        Some("Push group")
    } else if ty == DEBUG_TYPE_POP_GROUP {
        Some("Pop group")
    } else if ty == DEBUG_TYPE_OTHER {
        Some("Other")
    } else {
        None
    };
    let severity_label = if severity == DEBUG_SEVERITY_HIGH {
        Some("High")
    } else if severity == DEBUG_SEVERITY_MEDIUM {
        Some("Medium")
    } else if severity == DEBUG_SEVERITY_LOW {
        Some("Low")
    } else if severity == DEBUG_SEVERITY_NOTIFICATION {
        Some("Notification")
    } else {
        None
    };
    Some((source_label, type_label, severity_label))
}

} // verus!
