//! Extraction of content security check records from process debug logs.
//!
//! A log mixes free text with blocks that the browser writes for each
//! content security check. `scanner` finds the blocks, `block` decodes each
//! into typed fields, `checktypes` folds the fields into a record, and
//! `principal` and `policytypes` read the values that the fields hold.

pub mod block;
pub mod checktypes;
pub mod policytypes;
pub mod principal;
pub mod scanner;
pub mod text;

pub use block::{decode_block, parsed_content_security_check, BlockDecodeError};
pub use checktypes::{CheckLine, ContentSecurityCheck, ProcessType};
pub use policytypes::{nsContentPolicyType, parse_contentpolicytype, parse_policy_type};
pub use principal::{Principal, PrincipalParseError};
pub use scanner::{classify_line, parse_log};
