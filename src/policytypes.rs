//! The content policy types: a fixed table of canonical names, each bound to
//! a stable integer code. Codes 8 and 9 are retired and name no type.

use crate::text::{chars_of, same_chars};
use vstd::prelude::*;

verus! {

/// Every code of the table is below this bound.
pub const TABLE_LEN: u64 = 55;

/// What kind of content a load represents.
///
/// `TYPE_INVALID` stands for an unset value; `TYPE_UNKNOWN` for a code or a
/// name that the table does not hold.
#[allow(non_camel_case_types)]
#[derive(Debug, Clone, Copy, PartialEq, Eq, Structural)]
pub enum nsContentPolicyType {
    TYPE_INVALID,
    TYPE_OTHER,
    TYPE_SCRIPT,
    TYPE_IMAGE,
    TYPE_STYLESHEET,
    TYPE_OBJECT,
    TYPE_DOCUMENT,
    TYPE_SUBDOCUMENT,
    TYPE_PING,
    TYPE_XMLHTTPREQUEST,
    TYPE_OBJECT_SUBREQUEST,
    TYPE_DTD,
    TYPE_FONT,
    TYPE_MEDIA,
    TYPE_WEBSOCKET,
    TYPE_CSP_REPORT,
    TYPE_XSLT,
    TYPE_BEACON,
    TYPE_FETCH,
    TYPE_IMAGESET,
    TYPE_WEB_MANIFEST,
    TYPE_INTERNAL_SCRIPT,
    TYPE_INTERNAL_WORKER,
    TYPE_INTERNAL_SHARED_WORKER,
    TYPE_INTERNAL_EMBED,
    TYPE_INTERNAL_OBJECT,
    TYPE_INTERNAL_FRAME,
    TYPE_INTERNAL_IFRAME,
    TYPE_INTERNAL_AUDIO,
    TYPE_INTERNAL_VIDEO,
    TYPE_INTERNAL_TRACK,
    TYPE_INTERNAL_XMLHTTPREQUEST,
    TYPE_INTERNAL_EVENTSOURCE,
    TYPE_INTERNAL_SERVICE_WORKER,
    TYPE_INTERNAL_SCRIPT_PRELOAD,
    TYPE_INTERNAL_IMAGE,
    TYPE_INTERNAL_IMAGE_PRELOAD,
    TYPE_INTERNAL_STYLESHEET,
    TYPE_INTERNAL_STYLESHEET_PRELOAD,
    TYPE_INTERNAL_IMAGE_FAVICON,
    TYPE_INTERNAL_WORKER_IMPORT_SCRIPTS,
    TYPE_SAVEAS_DOWNLOAD,
    TYPE_SPECULATIVE,
    TYPE_INTERNAL_MODULE,
    TYPE_INTERNAL_MODULE_PRELOAD,
    TYPE_INTERNAL_DTD,
    TYPE_INTERNAL_FORCE_ALLOWED_DTD,
    TYPE_INTERNAL_AUDIOWORKLET,
    TYPE_INTERNAL_PAINTWORKLET,
    TYPE_INTERNAL_FONT_PRELOAD,
    TYPE_INTERNAL_CHROMEUTILS_COMPILED_SCRIPT,
    TYPE_INTERNAL_FRAME_MESSAGEMANAGER_SCRIPT,
    TYPE_INTERNAL_FETCH_PRELOAD,
    TYPE_UNKNOWN,
}

/// The code that the table binds to `t`; `TYPE_UNKNOWN` has none.
pub open spec fn code_of(t: nsContentPolicyType) -> Option<nat> {
    match t {
        nsContentPolicyType::TYPE_INVALID => Some(0),
        nsContentPolicyType::TYPE_OTHER => Some(1),
        nsContentPolicyType::TYPE_SCRIPT => Some(2),
        nsContentPolicyType::TYPE_IMAGE => Some(3),
        nsContentPolicyType::TYPE_STYLESHEET => Some(4),
        nsContentPolicyType::TYPE_OBJECT => Some(5),
        nsContentPolicyType::TYPE_DOCUMENT => Some(6),
        nsContentPolicyType::TYPE_SUBDOCUMENT => Some(7),
        nsContentPolicyType::TYPE_PING => Some(10),
        nsContentPolicyType::TYPE_XMLHTTPREQUEST => Some(11),
        nsContentPolicyType::TYPE_OBJECT_SUBREQUEST => Some(12),
        nsContentPolicyType::TYPE_DTD => Some(13),
        nsContentPolicyType::TYPE_FONT => Some(14),
        nsContentPolicyType::TYPE_MEDIA => Some(15),
        nsContentPolicyType::TYPE_WEBSOCKET => Some(16),
        nsContentPolicyType::TYPE_CSP_REPORT => Some(17),
        nsContentPolicyType::TYPE_XSLT => Some(18),
        nsContentPolicyType::TYPE_BEACON => Some(19),
        nsContentPolicyType::TYPE_FETCH => Some(20),
        nsContentPolicyType::TYPE_IMAGESET => Some(21),
        nsContentPolicyType::TYPE_WEB_MANIFEST => Some(22),
        nsContentPolicyType::TYPE_INTERNAL_SCRIPT => Some(23),
        nsContentPolicyType::TYPE_INTERNAL_WORKER => Some(24),
        nsContentPolicyType::TYPE_INTERNAL_SHARED_WORKER => Some(25),
        nsContentPolicyType::TYPE_INTERNAL_EMBED => Some(26),
        nsContentPolicyType::TYPE_INTERNAL_OBJECT => Some(27),
        nsContentPolicyType::TYPE_INTERNAL_FRAME => Some(28),
        nsContentPolicyType::TYPE_INTERNAL_IFRAME => Some(29),
        nsContentPolicyType::TYPE_INTERNAL_AUDIO => Some(30),
        nsContentPolicyType::TYPE_INTERNAL_VIDEO => Some(31),
        nsContentPolicyType::TYPE_INTERNAL_TRACK => Some(32),
        nsContentPolicyType::TYPE_INTERNAL_XMLHTTPREQUEST => Some(33),
        nsContentPolicyType::TYPE_INTERNAL_EVENTSOURCE => Some(34),
        nsContentPolicyType::TYPE_INTERNAL_SERVICE_WORKER => Some(35),
        nsContentPolicyType::TYPE_INTERNAL_SCRIPT_PRELOAD => Some(36),
        nsContentPolicyType::TYPE_INTERNAL_IMAGE => Some(37),
        nsContentPolicyType::TYPE_INTERNAL_IMAGE_PRELOAD => Some(38),
        nsContentPolicyType::TYPE_INTERNAL_STYLESHEET => Some(39),
        nsContentPolicyType::TYPE_INTERNAL_STYLESHEET_PRELOAD => Some(40),
        nsContentPolicyType::TYPE_INTERNAL_IMAGE_FAVICON => Some(41),
        nsContentPolicyType::TYPE_INTERNAL_WORKER_IMPORT_SCRIPTS => Some(42),
        nsContentPolicyType::TYPE_SAVEAS_DOWNLOAD => Some(43),
        nsContentPolicyType::TYPE_SPECULATIVE => Some(44),
        nsContentPolicyType::TYPE_INTERNAL_MODULE => Some(45),
        nsContentPolicyType::TYPE_INTERNAL_MODULE_PRELOAD => Some(46),
        nsContentPolicyType::TYPE_INTERNAL_DTD => Some(47),
        nsContentPolicyType::TYPE_INTERNAL_FORCE_ALLOWED_DTD => Some(48),
        nsContentPolicyType::TYPE_INTERNAL_AUDIOWORKLET => Some(49),
        nsContentPolicyType::TYPE_INTERNAL_PAINTWORKLET => Some(50),
        nsContentPolicyType::TYPE_INTERNAL_FONT_PRELOAD => Some(51),
        nsContentPolicyType::TYPE_INTERNAL_CHROMEUTILS_COMPILED_SCRIPT => Some(52),
        nsContentPolicyType::TYPE_INTERNAL_FRAME_MESSAGEMANAGER_SCRIPT => Some(53),
        nsContentPolicyType::TYPE_INTERNAL_FETCH_PRELOAD => Some(54),
        nsContentPolicyType::TYPE_UNKNOWN => None,
    }
}

/// The canonical name of `t`.
pub open spec fn name_of(t: nsContentPolicyType) -> Seq<char> {
    match t {
        nsContentPolicyType::TYPE_INVALID => "TYPE_INVALID"@,
        nsContentPolicyType::TYPE_OTHER => "TYPE_OTHER"@,
        nsContentPolicyType::TYPE_SCRIPT => "TYPE_SCRIPT"@,
        nsContentPolicyType::TYPE_IMAGE => "TYPE_IMAGE"@,
        nsContentPolicyType::TYPE_STYLESHEET => "TYPE_STYLESHEET"@,
        nsContentPolicyType::TYPE_OBJECT => "TYPE_OBJECT"@,
        nsContentPolicyType::TYPE_DOCUMENT => "TYPE_DOCUMENT"@,
        nsContentPolicyType::TYPE_SUBDOCUMENT => "TYPE_SUBDOCUMENT"@,
        nsContentPolicyType::TYPE_PING => "TYPE_PING"@,
        nsContentPolicyType::TYPE_XMLHTTPREQUEST => "TYPE_XMLHTTPREQUEST"@,
        nsContentPolicyType::TYPE_OBJECT_SUBREQUEST => "TYPE_OBJECT_SUBREQUEST"@,
        nsContentPolicyType::TYPE_DTD => "TYPE_DTD"@,
        nsContentPolicyType::TYPE_FONT => "TYPE_FONT"@,
        nsContentPolicyType::TYPE_MEDIA => "TYPE_MEDIA"@,
        nsContentPolicyType::TYPE_WEBSOCKET => "TYPE_WEBSOCKET"@,
        nsContentPolicyType::TYPE_CSP_REPORT => "TYPE_CSP_REPORT"@,
        nsContentPolicyType::TYPE_XSLT => "TYPE_XSLT"@,
        nsContentPolicyType::TYPE_BEACON => "TYPE_BEACON"@,
        nsContentPolicyType::TYPE_FETCH => "TYPE_FETCH"@,
        nsContentPolicyType::TYPE_IMAGESET => "TYPE_IMAGESET"@,
        nsContentPolicyType::TYPE_WEB_MANIFEST => "TYPE_WEB_MANIFEST"@,
        nsContentPolicyType::TYPE_INTERNAL_SCRIPT => "TYPE_INTERNAL_SCRIPT"@,
        nsContentPolicyType::TYPE_INTERNAL_WORKER => "TYPE_INTERNAL_WORKER"@,
        nsContentPolicyType::TYPE_INTERNAL_SHARED_WORKER => "TYPE_INTERNAL_SHARED_WORKER"@,
        nsContentPolicyType::TYPE_INTERNAL_EMBED => "TYPE_INTERNAL_EMBED"@,
        nsContentPolicyType::TYPE_INTERNAL_OBJECT => "TYPE_INTERNAL_OBJECT"@,
        nsContentPolicyType::TYPE_INTERNAL_FRAME => "TYPE_INTERNAL_FRAME"@,
        nsContentPolicyType::TYPE_INTERNAL_IFRAME => "TYPE_INTERNAL_IFRAME"@,
        nsContentPolicyType::TYPE_INTERNAL_AUDIO => "TYPE_INTERNAL_AUDIO"@,
        nsContentPolicyType::TYPE_INTERNAL_VIDEO => "TYPE_INTERNAL_VIDEO"@,
        nsContentPolicyType::TYPE_INTERNAL_TRACK => "TYPE_INTERNAL_TRACK"@,
        nsContentPolicyType::TYPE_INTERNAL_XMLHTTPREQUEST => "TYPE_INTERNAL_XMLHTTPREQUEST"@,
        nsContentPolicyType::TYPE_INTERNAL_EVENTSOURCE => "TYPE_INTERNAL_EVENTSOURCE"@,
        nsContentPolicyType::TYPE_INTERNAL_SERVICE_WORKER => "TYPE_INTERNAL_SERVICE_WORKER"@,
        nsContentPolicyType::TYPE_INTERNAL_SCRIPT_PRELOAD => "TYPE_INTERNAL_SCRIPT_PRELOAD"@,
        nsContentPolicyType::TYPE_INTERNAL_IMAGE => "TYPE_INTERNAL_IMAGE"@,
        nsContentPolicyType::TYPE_INTERNAL_IMAGE_PRELOAD => "TYPE_INTERNAL_IMAGE_PRELOAD"@,
        nsContentPolicyType::TYPE_INTERNAL_STYLESHEET => "TYPE_INTERNAL_STYLESHEET"@,
        nsContentPolicyType::TYPE_INTERNAL_STYLESHEET_PRELOAD => "TYPE_INTERNAL_STYLESHEET_PRELOAD"@,
        nsContentPolicyType::TYPE_INTERNAL_IMAGE_FAVICON => "TYPE_INTERNAL_IMAGE_FAVICON"@,
        nsContentPolicyType::TYPE_INTERNAL_WORKER_IMPORT_SCRIPTS => "TYPE_INTERNAL_WORKER_IMPORT_SCRIPTS"@,
        nsContentPolicyType::TYPE_SAVEAS_DOWNLOAD => "TYPE_SAVEAS_DOWNLOAD"@,
        nsContentPolicyType::TYPE_SPECULATIVE => "TYPE_SPECULATIVE"@,
        nsContentPolicyType::TYPE_INTERNAL_MODULE => "TYPE_INTERNAL_MODULE"@,
        nsContentPolicyType::TYPE_INTERNAL_MODULE_PRELOAD => "TYPE_INTERNAL_MODULE_PRELOAD"@,
        nsContentPolicyType::TYPE_INTERNAL_DTD => "TYPE_INTERNAL_DTD"@,
        nsContentPolicyType::TYPE_INTERNAL_FORCE_ALLOWED_DTD => "TYPE_INTERNAL_FORCE_ALLOWED_DTD"@,
        nsContentPolicyType::TYPE_INTERNAL_AUDIOWORKLET => "TYPE_INTERNAL_AUDIOWORKLET"@,
        nsContentPolicyType::TYPE_INTERNAL_PAINTWORKLET => "TYPE_INTERNAL_PAINTWORKLET"@,
        nsContentPolicyType::TYPE_INTERNAL_FONT_PRELOAD => "TYPE_INTERNAL_FONT_PRELOAD"@,
        nsContentPolicyType::TYPE_INTERNAL_CHROMEUTILS_COMPILED_SCRIPT => "TYPE_INTERNAL_CHROMEUTILS_COMPILED_SCRIPT"@,
        nsContentPolicyType::TYPE_INTERNAL_FRAME_MESSAGEMANAGER_SCRIPT => "TYPE_INTERNAL_FRAME_MESSAGEMANAGER_SCRIPT"@,
        nsContentPolicyType::TYPE_INTERNAL_FETCH_PRELOAD => "TYPE_INTERNAL_FETCH_PRELOAD"@,
        nsContentPolicyType::TYPE_UNKNOWN => "TYPE_UNKNOWN"@,
    }
}

/// The type bound to code `c`, or `TYPE_UNKNOWN` where no type has it.
pub open spec fn from_code(c: int) -> nsContentPolicyType {
    if exists|t: nsContentPolicyType| code_of(t) == Some(c as nat) && c >= 0 {
        choose|t: nsContentPolicyType| code_of(t) == Some(c as nat)
    } else {
        nsContentPolicyType::TYPE_UNKNOWN
    }
}

/// The type whose canonical name is `s` (the one of lowest code, were two to
/// share a name), or `TYPE_UNKNOWN` where no listed type has that name.
pub open spec fn from_name(s: Seq<char>) -> nsContentPolicyType {
    if exists|t: nsContentPolicyType| t != nsContentPolicyType::TYPE_UNKNOWN && name_of(t) == s {
        choose|t: nsContentPolicyType|
            {
                &&& t != nsContentPolicyType::TYPE_UNKNOWN
                &&& name_of(t) == s
                &&& forall|u: nsContentPolicyType|
                    u != nsContentPolicyType::TYPE_UNKNOWN && name_of(u) == s ==> code_of(t)->0
                        <= code_of(u)->0
            }
    } else {
        nsContentPolicyType::TYPE_UNKNOWN
    }
}

/// Whether `s` is a non-empty run of decimal digits.
pub open spec fn is_decimal(s: Seq<char>) -> bool {
    s.len() > 0 && forall|i: int| 0 <= i < s.len() ==> '0' <= #[trigger] s[i] <= '9'
}

/// The number that the decimal digits `s` write.
pub open spec fn decimal_value(s: Seq<char>) -> nat
    decreases s.len(),
{
    if s.len() == 0 {
        0
    } else {
        decimal_value(s.drop_last()) * 10 + (s.last() as nat - '0' as nat) as nat
    }
}

/// The policy type that a field's text stands for: a decimal text is read
/// as a code, any other text as a name.
pub open spec fn policy_of_text(s: Seq<char>) -> nsContentPolicyType {
    if is_decimal(s) {
        from_code(decimal_value(s) as int)
    } else {
        from_name(s)
    }
}

/// No two types share a code, and every code is below the table's bound.
pub proof fn lemma_code_injective(t: nsContentPolicyType, u: nsContentPolicyType)
    ensures
        code_of(t) is Some ==> code_of(t)->0 < TABLE_LEN,
        code_of(t) is Some && code_of(t) == code_of(u) ==> t == u,
        t != nsContentPolicyType::TYPE_UNKNOWN <==> code_of(t) is Some,
{
}

impl nsContentPolicyType {
    /// The canonical name of this type.
    pub fn name(&self) -> (r: &'static str)
        ensures
            r@ == name_of(*self),
    {
        match self {
            nsContentPolicyType::TYPE_INVALID => "TYPE_INVALID",
            nsContentPolicyType::TYPE_OTHER => "TYPE_OTHER",
            nsContentPolicyType::TYPE_SCRIPT => "TYPE_SCRIPT",
            nsContentPolicyType::TYPE_IMAGE => "TYPE_IMAGE",
            nsContentPolicyType::TYPE_STYLESHEET => "TYPE_STYLESHEET",
            nsContentPolicyType::TYPE_OBJECT => "TYPE_OBJECT",
            nsContentPolicyType::TYPE_DOCUMENT => "TYPE_DOCUMENT",
            nsContentPolicyType::TYPE_SUBDOCUMENT => "TYPE_SUBDOCUMENT",
            nsContentPolicyType::TYPE_PING => "TYPE_PING",
            nsContentPolicyType::TYPE_XMLHTTPREQUEST => "TYPE_XMLHTTPREQUEST",
            nsContentPolicyType::TYPE_OBJECT_SUBREQUEST => "TYPE_OBJECT_SUBREQUEST",
            nsContentPolicyType::TYPE_DTD => "TYPE_DTD",
            nsContentPolicyType::TYPE_FONT => "TYPE_FONT",
            nsContentPolicyType::TYPE_MEDIA => "TYPE_MEDIA",
            nsContentPolicyType::TYPE_WEBSOCKET => "TYPE_WEBSOCKET",
            nsContentPolicyType::TYPE_CSP_REPORT => "TYPE_CSP_REPORT",
            nsContentPolicyType::TYPE_XSLT => "TYPE_XSLT",
            nsContentPolicyType::TYPE_BEACON => "TYPE_BEACON",
            nsContentPolicyType::TYPE_FETCH => "TYPE_FETCH",
            nsContentPolicyType::TYPE_IMAGESET => "TYPE_IMAGESET",
            nsContentPolicyType::TYPE_WEB_MANIFEST => "TYPE_WEB_MANIFEST",
            nsContentPolicyType::TYPE_INTERNAL_SCRIPT => "TYPE_INTERNAL_SCRIPT",
            nsContentPolicyType::TYPE_INTERNAL_WORKER => "TYPE_INTERNAL_WORKER",
            nsContentPolicyType::TYPE_INTERNAL_SHARED_WORKER => "TYPE_INTERNAL_SHARED_WORKER",
            nsContentPolicyType::TYPE_INTERNAL_EMBED => "TYPE_INTERNAL_EMBED",
            nsContentPolicyType::TYPE_INTERNAL_OBJECT => "TYPE_INTERNAL_OBJECT",
            nsContentPolicyType::TYPE_INTERNAL_FRAME => "TYPE_INTERNAL_FRAME",
            nsContentPolicyType::TYPE_INTERNAL_IFRAME => "TYPE_INTERNAL_IFRAME",
            nsContentPolicyType::TYPE_INTERNAL_AUDIO => "TYPE_INTERNAL_AUDIO",
            nsContentPolicyType::TYPE_INTERNAL_VIDEO => "TYPE_INTERNAL_VIDEO",
            nsContentPolicyType::TYPE_INTERNAL_TRACK => "TYPE_INTERNAL_TRACK",
            nsContentPolicyType::TYPE_INTERNAL_XMLHTTPREQUEST => "TYPE_INTERNAL_XMLHTTPREQUEST",
            nsContentPolicyType::TYPE_INTERNAL_EVENTSOURCE => "TYPE_INTERNAL_EVENTSOURCE",
            nsContentPolicyType::TYPE_INTERNAL_SERVICE_WORKER => "TYPE_INTERNAL_SERVICE_WORKER",
            nsContentPolicyType::TYPE_INTERNAL_SCRIPT_PRELOAD => "TYPE_INTERNAL_SCRIPT_PRELOAD",
            nsContentPolicyType::TYPE_INTERNAL_IMAGE => "TYPE_INTERNAL_IMAGE",
            nsContentPolicyType::TYPE_INTERNAL_IMAGE_PRELOAD => "TYPE_INTERNAL_IMAGE_PRELOAD",
            nsContentPolicyType::TYPE_INTERNAL_STYLESHEET => "TYPE_INTERNAL_STYLESHEET",
            nsContentPolicyType::TYPE_INTERNAL_STYLESHEET_PRELOAD => "TYPE_INTERNAL_STYLESHEET_PRELOAD",
            nsContentPolicyType::TYPE_INTERNAL_IMAGE_FAVICON => "TYPE_INTERNAL_IMAGE_FAVICON",
            nsContentPolicyType::TYPE_INTERNAL_WORKER_IMPORT_SCRIPTS => "TYPE_INTERNAL_WORKER_IMPORT_SCRIPTS",
            nsContentPolicyType::TYPE_SAVEAS_DOWNLOAD => "TYPE_SAVEAS_DOWNLOAD",
            nsContentPolicyType::TYPE_SPECULATIVE => "TYPE_SPECULATIVE",
            nsContentPolicyType::TYPE_INTERNAL_MODULE => "TYPE_INTERNAL_MODULE",
            nsContentPolicyType::TYPE_INTERNAL_MODULE_PRELOAD => "TYPE_INTERNAL_MODULE_PRELOAD",
            nsContentPolicyType::TYPE_INTERNAL_DTD => "TYPE_INTERNAL_DTD",
            nsContentPolicyType::TYPE_INTERNAL_FORCE_ALLOWED_DTD => "TYPE_INTERNAL_FORCE_ALLOWED_DTD",
            nsContentPolicyType::TYPE_INTERNAL_AUDIOWORKLET => "TYPE_INTERNAL_AUDIOWORKLET",
            nsContentPolicyType::TYPE_INTERNAL_PAINTWORKLET => "TYPE_INTERNAL_PAINTWORKLET",
            nsContentPolicyType::TYPE_INTERNAL_FONT_PRELOAD => "TYPE_INTERNAL_FONT_PRELOAD",
            nsContentPolicyType::TYPE_INTERNAL_CHROMEUTILS_COMPILED_SCRIPT => "TYPE_INTERNAL_CHROMEUTILS_COMPILED_SCRIPT",
            nsContentPolicyType::TYPE_INTERNAL_FRAME_MESSAGEMANAGER_SCRIPT => "TYPE_INTERNAL_FRAME_MESSAGEMANAGER_SCRIPT",
            nsContentPolicyType::TYPE_INTERNAL_FETCH_PRELOAD => "TYPE_INTERNAL_FETCH_PRELOAD",
            nsContentPolicyType::TYPE_UNKNOWN => "TYPE_UNKNOWN",
        }
    }

    /// The code bound to this type; `None` for `TYPE_UNKNOWN`.
    pub fn code(&self) -> (r: Option<u64>)
        ensures
            match r {
                Some(c) => code_of(*self) == Some(c as nat),
                None => code_of(*self) is None,
            },
    {
        match self {
            nsContentPolicyType::TYPE_INVALID => Some(0),
            nsContentPolicyType::TYPE_OTHER => Some(1),
            nsContentPolicyType::TYPE_SCRIPT => Some(2),
            nsContentPolicyType::TYPE_IMAGE => Some(3),
            nsContentPolicyType::TYPE_STYLESHEET => Some(4),
            nsContentPolicyType::TYPE_OBJECT => Some(5),
            nsContentPolicyType::TYPE_DOCUMENT => Some(6),
            nsContentPolicyType::TYPE_SUBDOCUMENT => Some(7),
            nsContentPolicyType::TYPE_PING => Some(10),
            nsContentPolicyType::TYPE_XMLHTTPREQUEST => Some(11),
            nsContentPolicyType::TYPE_OBJECT_SUBREQUEST => Some(12),
            nsContentPolicyType::TYPE_DTD => Some(13),
            nsContentPolicyType::TYPE_FONT => Some(14),
            nsContentPolicyType::TYPE_MEDIA => Some(15),
            nsContentPolicyType::TYPE_WEBSOCKET => Some(16),
            nsContentPolicyType::TYPE_CSP_REPORT => Some(17),
            nsContentPolicyType::TYPE_XSLT => Some(18),
            nsContentPolicyType::TYPE_BEACON => Some(19),
            nsContentPolicyType::TYPE_FETCH => Some(20),
            nsContentPolicyType::TYPE_IMAGESET => Some(21),
            nsContentPolicyType::TYPE_WEB_MANIFEST => Some(22),
            nsContentPolicyType::TYPE_INTERNAL_SCRIPT => Some(23),
            nsContentPolicyType::TYPE_INTERNAL_WORKER => Some(24),
            nsContentPolicyType::TYPE_INTERNAL_SHARED_WORKER => Some(25),
            nsContentPolicyType::TYPE_INTERNAL_EMBED => Some(26),
            nsContentPolicyType::TYPE_INTERNAL_OBJECT => Some(27),
            nsContentPolicyType::TYPE_INTERNAL_FRAME => Some(28),
            nsContentPolicyType::TYPE_INTERNAL_IFRAME => Some(29),
            nsContentPolicyType::TYPE_INTERNAL_AUDIO => Some(30),
            nsContentPolicyType::TYPE_INTERNAL_VIDEO => Some(31),
            nsContentPolicyType::TYPE_INTERNAL_TRACK => Some(32),
            nsContentPolicyType::TYPE_INTERNAL_XMLHTTPREQUEST => Some(33),
            nsContentPolicyType::TYPE_INTERNAL_EVENTSOURCE => Some(34),
            nsContentPolicyType::TYPE_INTERNAL_SERVICE_WORKER => Some(35),
            nsContentPolicyType::TYPE_INTERNAL_SCRIPT_PRELOAD => Some(36),
            nsContentPolicyType::TYPE_INTERNAL_IMAGE => Some(37),
            nsContentPolicyType::TYPE_INTERNAL_IMAGE_PRELOAD => Some(38),
            nsContentPolicyType::TYPE_INTERNAL_STYLESHEET => Some(39),
            nsContentPolicyType::TYPE_INTERNAL_STYLESHEET_PRELOAD => Some(40),
            nsContentPolicyType::TYPE_INTERNAL_IMAGE_FAVICON => Some(41),
            nsContentPolicyType::TYPE_INTERNAL_WORKER_IMPORT_SCRIPTS => Some(42),
            nsContentPolicyType::TYPE_SAVEAS_DOWNLOAD => Some(43),
            nsContentPolicyType::TYPE_SPECULATIVE => Some(44),
            nsContentPolicyType::TYPE_INTERNAL_MODULE => Some(45),
            nsContentPolicyType::TYPE_INTERNAL_MODULE_PRELOAD => Some(46),
            nsContentPolicyType::TYPE_INTERNAL_DTD => Some(47),
            nsContentPolicyType::TYPE_INTERNAL_FORCE_ALLOWED_DTD => Some(48),
            nsContentPolicyType::TYPE_INTERNAL_AUDIOWORKLET => Some(49),
            nsContentPolicyType::TYPE_INTERNAL_PAINTWORKLET => Some(50),
            nsContentPolicyType::TYPE_INTERNAL_FONT_PRELOAD => Some(51),
            nsContentPolicyType::TYPE_INTERNAL_CHROMEUTILS_COMPILED_SCRIPT => Some(52),
            nsContentPolicyType::TYPE_INTERNAL_FRAME_MESSAGEMANAGER_SCRIPT => Some(53),
            nsContentPolicyType::TYPE_INTERNAL_FETCH_PRELOAD => Some(54),
            nsContentPolicyType::TYPE_UNKNOWN => None,
        }
    }

    /// Looks a code up in the table; a retired or out-of-range code gives
    /// `TYPE_UNKNOWN`.
    pub fn by_code(code: u64) -> (r: Self)
        ensures
            r == from_code(code as int),
    {
        let r = match code {
            0 => nsContentPolicyType::TYPE_INVALID,
            1 => nsContentPolicyType::TYPE_OTHER,
            2 => nsContentPolicyType::TYPE_SCRIPT,
            3 => nsContentPolicyType::TYPE_IMAGE,
            4 => nsContentPolicyType::TYPE_STYLESHEET,
            5 => nsContentPolicyType::TYPE_OBJECT,
            6 => nsContentPolicyType::TYPE_DOCUMENT,
            7 => nsContentPolicyType::TYPE_SUBDOCUMENT,
            10 => nsContentPolicyType::TYPE_PING,
            11 => nsContentPolicyType::TYPE_XMLHTTPREQUEST,
            12 => nsContentPolicyType::TYPE_OBJECT_SUBREQUEST,
            13 => nsContentPolicyType::TYPE_DTD,
            14 => nsContentPolicyType::TYPE_FONT,
            15 => nsContentPolicyType::TYPE_MEDIA,
            16 => nsContentPolicyType::TYPE_WEBSOCKET,
            17 => nsContentPolicyType::TYPE_CSP_REPORT,
            18 => nsContentPolicyType::TYPE_XSLT,
            19 => nsContentPolicyType::TYPE_BEACON,
            20 => nsContentPolicyType::TYPE_FETCH,
            21 => nsContentPolicyType::TYPE_IMAGESET,
            22 => nsContentPolicyType::TYPE_WEB_MANIFEST,
            23 => nsContentPolicyType::TYPE_INTERNAL_SCRIPT,
            24 => nsContentPolicyType::TYPE_INTERNAL_WORKER,
            25 => nsContentPolicyType::TYPE_INTERNAL_SHARED_WORKER,
            26 => nsContentPolicyType::TYPE_INTERNAL_EMBED,
            27 => nsContentPolicyType::TYPE_INTERNAL_OBJECT,
            28 => nsContentPolicyType::TYPE_INTERNAL_FRAME,
            29 => nsContentPolicyType::TYPE_INTERNAL_IFRAME,
            30 => nsContentPolicyType::TYPE_INTERNAL_AUDIO,
            31 => nsContentPolicyType::TYPE_INTERNAL_VIDEO,
            32 => nsContentPolicyType::TYPE_INTERNAL_TRACK,
            33 => nsContentPolicyType::TYPE_INTERNAL_XMLHTTPREQUEST,
            34 => nsContentPolicyType::TYPE_INTERNAL_EVENTSOURCE,
            35 => nsContentPolicyType::TYPE_INTERNAL_SERVICE_WORKER,
            36 => nsContentPolicyType::TYPE_INTERNAL_SCRIPT_PRELOAD,
            37 => nsContentPolicyType::TYPE_INTERNAL_IMAGE,
            38 => nsContentPolicyType::TYPE_INTERNAL_IMAGE_PRELOAD,
            39 => nsContentPolicyType::TYPE_INTERNAL_STYLESHEET,
            40 => nsContentPolicyType::TYPE_INTERNAL_STYLESHEET_PRELOAD,
            41 => nsContentPolicyType::TYPE_INTERNAL_IMAGE_FAVICON,
            42 => nsContentPolicyType::TYPE_INTERNAL_WORKER_IMPORT_SCRIPTS,
            43 => nsContentPolicyType::TYPE_SAVEAS_DOWNLOAD,
            44 => nsContentPolicyType::TYPE_SPECULATIVE,
            45 => nsContentPolicyType::TYPE_INTERNAL_MODULE,
            46 => nsContentPolicyType::TYPE_INTERNAL_MODULE_PRELOAD,
            47 => nsContentPolicyType::TYPE_INTERNAL_DTD,
            48 => nsContentPolicyType::TYPE_INTERNAL_FORCE_ALLOWED_DTD,
            49 => nsContentPolicyType::TYPE_INTERNAL_AUDIOWORKLET,
            50 => nsContentPolicyType::TYPE_INTERNAL_PAINTWORKLET,
            51 => nsContentPolicyType::TYPE_INTERNAL_FONT_PRELOAD,
            52 => nsContentPolicyType::TYPE_INTERNAL_CHROMEUTILS_COMPILED_SCRIPT,
            53 => nsContentPolicyType::TYPE_INTERNAL_FRAME_MESSAGEMANAGER_SCRIPT,
            54 => nsContentPolicyType::TYPE_INTERNAL_FETCH_PRELOAD,
            _ => nsContentPolicyType::TYPE_UNKNOWN,
        };
        proof {
            if r != nsContentPolicyType::TYPE_UNKNOWN {
                assert(code_of(r) == Some(code as nat));
                let t = choose|t: nsContentPolicyType| code_of(t) == Some(code as nat);
                lemma_code_injective(t, r);
            } else {
                assert forall|t: nsContentPolicyType| code_of(t) != Some(code as nat) by {
                    lemma_code_injective(t, t);
                }
            }
        }
        r
    }

    /// Looks a canonical name up in the table (case-sensitive, exact); any
    /// other text gives `TYPE_UNKNOWN`.
    pub fn by_name(name: &str) -> (r: Self)
        ensures
            r == from_name(name@),
    {
        let wanted = chars_of(name);
        let mut c: u64 = 0;
        while c < TABLE_LEN
            invariant
                wanted@ == name@,
                c <= TABLE_LEN,
                forall|d: int|
                    0 <= d < c ==> #[trigger] from_code(d) == nsContentPolicyType::TYPE_UNKNOWN
                        || name_of(from_code(d)) != name@,
            decreases TABLE_LEN - c,
        {
            let t = Self::by_code(c);
            if t != nsContentPolicyType::TYPE_UNKNOWN {
                let listed = chars_of(t.name());
                if same_chars(&listed, &wanted) {
                    proof {
                        lemma_from_code(c as int);
                        assert forall|u: nsContentPolicyType|
                            u != nsContentPolicyType::TYPE_UNKNOWN && name_of(u) == name@ implies code_of(t)->0
                            <= code_of(u)->0 by {
                            lemma_code_injective(u, u);
                            lemma_code_of_from_code(u);
                            assert(from_code(code_of(u)->0 as int) == u);
                        }
                        let w = choose|w: nsContentPolicyType|
                            {
                                &&& w != nsContentPolicyType::TYPE_UNKNOWN
                                &&& name_of(w) == name@
                                &&& forall|u: nsContentPolicyType|
                                    u != nsContentPolicyType::TYPE_UNKNOWN && name_of(u) == name@
                                        ==> code_of(w)->0 <= code_of(u)->0
                            };
                        lemma_code_injective(w, t);
                    }
                    return t;
                }
            }
            c = c + 1;
        }
        proof {
            assert forall|u: nsContentPolicyType|
                u != nsContentPolicyType::TYPE_UNKNOWN implies name_of(u) != name@ by {
                lemma_code_injective(u, u);
                lemma_code_of_from_code(u);
                assert(from_code(code_of(u)->0 as int) == u);
            }
        }
        nsContentPolicyType::TYPE_UNKNOWN
    }
}

/// `from_code` names the type that has the code, where one has it.
pub proof fn lemma_from_code(c: int)
    ensures
        from_code(c) != nsContentPolicyType::TYPE_UNKNOWN ==> code_of(from_code(c)) == Some(c as nat),
        c >= TABLE_LEN ==> from_code(c) == nsContentPolicyType::TYPE_UNKNOWN,
{
    if exists|t: nsContentPolicyType| code_of(t) == Some(c as nat) && c >= 0 {
        let t = choose|t: nsContentPolicyType| code_of(t) == Some(c as nat);
        lemma_code_injective(t, t);
    }
}

/// Looking up a listed type's code gives that type back.
pub proof fn lemma_code_of_from_code(t: nsContentPolicyType)
    requires
        t != nsContentPolicyType::TYPE_UNKNOWN,
    ensures
        from_code(code_of(t)->0 as int) == t,
{
    lemma_code_injective(t, t);
    let c = code_of(t)->0;
    let w = choose|w: nsContentPolicyType| code_of(w) == Some(c);
    lemma_code_injective(w, t);
}

/// The canonical name of the type that `typestr` names, or `"TYPE_UNKNOWN"`
/// where it names none. Numbers are not read as codes here.
pub fn parse_contentpolicytype(typestr: &str) -> (r: &'static str)
    ensures
        r@ == name_of(from_name(typestr@)),
{
    nsContentPolicyType::by_name(typestr).name()
}

/// The policy type that a field's text stands for: decimal digits are looked
/// up as a code, anything else as a name; what the table lacks is
/// `TYPE_UNKNOWN`.
pub fn parse_policy_type(text: &str) -> (r: nsContentPolicyType)
    ensures
        r == policy_of_text(text@),
{
    let cs = chars_of(text);
    let mut digits = cs.len() > 0;
    let mut i: usize = 0;
    while i < cs.len()
        invariant
            cs@ == text@,
            i <= cs@.len(),
            digits == (cs@.len() > 0 && forall|j: int| 0 <= j < i ==> '0' <= #[trigger] cs@[j] <= '9'),
        decreases cs@.len() - i,
    {
        if cs[i] < '0' || cs[i] > '9' {
            digits = false;
        }
        i = i + 1;
    }
    if !digits {
        return nsContentPolicyType::by_name(text);
    }
    // The value read so far, held at the table's bound once it reaches it.
    let mut v: u64 = 0;
    let mut k: usize = 0;
    while k < cs.len()
        invariant
            cs@ == text@,
            is_decimal(cs@),
            k <= cs@.len(),
            v == if decimal_value(cs@.take(k as int)) < TABLE_LEN {
                decimal_value(cs@.take(k as int))
            } else {
                TABLE_LEN as nat
            },
        decreases cs@.len() - k,
    {
        assert(cs@.take(k + 1).drop_last() == cs@.take(k as int));
        let d = (cs[k] as u64) - ('0' as u64);
        if v < TABLE_LEN {
            v = v * 10 + d;
            if v > TABLE_LEN {
                v = TABLE_LEN;
            }
        }
        k = k + 1;
    }
    assert(cs@.take(k as int) == cs@);
    proof {
        lemma_from_code(decimal_value(cs@) as int);
    }
    if v < TABLE_LEN {
        nsContentPolicyType::by_code(v)
    } else {
        nsContentPolicyType::TYPE_UNKNOWN
    }
}

} // verus!
