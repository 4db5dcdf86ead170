//! The typed fields of a content security check and the record that they
//! fold into.

use crate::policytypes::nsContentPolicyType;
use crate::principal::{Principal, PrincipalView};
use crate::text::{chars_of, range_is};
use vstd::prelude::*;

verus! {

/// What the channel URI of a record without one reads.
pub const MISSING_URL: &'static str = "XX-MISSING_URL";

/// The URL of the content principal that stands in for an absent principal.
pub const MISSING_PRINCIPAL_URL: &'static str = "xxx://missing-url";

/// The scheme prefix of an inline data URI.
pub const DATA_SCHEME: &'static str = "data:";

/// Data URIs of extension styles, which are exempt from the data-load check.
pub const EXTENSION_STYLE_PREFIX: &'static str = "data:text/css;extension=style;";

/// Which process wrote a log line.
#[derive(Debug, Clone, Copy, PartialEq, Eq, Structural)]
pub enum ProcessType {
    Child,
    Parent,
    Unknown,
}

/// One typed field of a check, named by its key in the log.
#[allow(non_camel_case_types)]
#[derive(Debug, PartialEq)]
pub enum CheckLine {
    channelURI(String),
    /// Only present for HTTP channels.
    httpMethod(Option<String>),
    loadingPrincipal(Principal),
    triggeringPrincipal(Principal),
    principalToInherit(Principal),
    /// `Some` of the listed URIs where the key is present, even with none.
    redirectChain(Option<Vec<String>>),
    internalContentPolicyType(nsContentPolicyType),
    externalContentPolicyType(nsContentPolicyType),
    upgradeInsecureRequests(bool),
    initialSecurityChecksDone(bool),
    allowDeprecatedSystemRequests(bool),
    /// `Some` of the listed policies where the key is present, even with none.
    CSP(Option<Vec<String>>),
    securityFlags(Vec<String>),
}

/// The value of a field.
#[allow(non_camel_case_types)]
pub enum FieldView {
    channelURI(Seq<char>),
    httpMethod(Option<Seq<char>>),
    loadingPrincipal(PrincipalView),
    triggeringPrincipal(PrincipalView),
    principalToInherit(PrincipalView),
    redirectChain(Option<Seq<Seq<char>>>),
    internalContentPolicyType(nsContentPolicyType),
    externalContentPolicyType(nsContentPolicyType),
    upgradeInsecureRequests(bool),
    initialSecurityChecksDone(bool),
    allowDeprecatedSystemRequests(bool),
    CSP(Option<Seq<Seq<char>>>),
    securityFlags(Seq<Seq<char>>),
}

impl View for CheckLine {
    type V = FieldView;

    open spec fn view(&self) -> FieldView {
        match self {
            CheckLine::channelURI(u) => FieldView::channelURI(u@),
            CheckLine::httpMethod(m) => FieldView::httpMethod(m.deep_view()),
            CheckLine::loadingPrincipal(p) => FieldView::loadingPrincipal(p@),
            CheckLine::triggeringPrincipal(p) => FieldView::triggeringPrincipal(p@),
            CheckLine::principalToInherit(p) => FieldView::principalToInherit(p@),
            CheckLine::redirectChain(rc) => FieldView::redirectChain(rc.deep_view()),
            CheckLine::internalContentPolicyType(t) => FieldView::internalContentPolicyType(*t),
            CheckLine::externalContentPolicyType(t) => FieldView::externalContentPolicyType(*t),
            CheckLine::upgradeInsecureRequests(b) => FieldView::upgradeInsecureRequests(*b),
            CheckLine::initialSecurityChecksDone(b) => FieldView::initialSecurityChecksDone(*b),
            CheckLine::allowDeprecatedSystemRequests(b) => FieldView::allowDeprecatedSystemRequests(
                *b,
            ),
            CheckLine::CSP(c) => FieldView::CSP(c.deep_view()),
            CheckLine::securityFlags(f) => FieldView::securityFlags(f.deep_view()),
        }
    }
}

/// The values of a sequence of fields.
pub open spec fn fields_view(lines: Seq<CheckLine>) -> Seq<FieldView> {
    lines.map_values(|l: CheckLine| l@)
}

/// One content security check, as decoded from one block of the log.
#[derive(Debug, PartialEq)]
pub struct ContentSecurityCheck {
    pub process_type: ProcessType,
    pub channel_uri: String,
    /// Only present for HTTP channels.
    pub http_method: Option<String>,
    pub loading_principal: Principal,
    pub triggering_principal: Principal,
    pub principal_to_inherit: Principal,
    pub redirect_chain: Option<Vec<String>>,
    pub internal_content_policy_type: nsContentPolicyType,
    pub external_content_policy_type: nsContentPolicyType,
    pub upgrade_insecure_requests: bool,
    pub initial_security_checks_done: bool,
    pub allow_deprecated_system_requests: bool,
    pub csp: Option<Vec<String>>,
    pub security_flags: Vec<String>,
}

/// The value of a check record.
pub struct CheckView {
    pub process_type: ProcessType,
    pub channel_uri: Seq<char>,
    pub http_method: Option<Seq<char>>,
    pub loading_principal: PrincipalView,
    pub triggering_principal: PrincipalView,
    pub principal_to_inherit: PrincipalView,
    pub redirect_chain: Option<Seq<Seq<char>>>,
    pub internal_content_policy_type: nsContentPolicyType,
    pub external_content_policy_type: nsContentPolicyType,
    pub upgrade_insecure_requests: bool,
    pub initial_security_checks_done: bool,
    pub allow_deprecated_system_requests: bool,
    pub csp: Option<Seq<Seq<char>>>,
    pub security_flags: Seq<Seq<char>>,
}

impl View for ContentSecurityCheck {
    type V = CheckView;

    open spec fn view(&self) -> CheckView {
        CheckView {
            process_type: self.process_type,
            channel_uri: self.channel_uri@,
            http_method: self.http_method.deep_view(),
            loading_principal: self.loading_principal@,
            triggering_principal: self.triggering_principal@,
            principal_to_inherit: self.principal_to_inherit@,
            redirect_chain: self.redirect_chain.deep_view(),
            internal_content_policy_type: self.internal_content_policy_type,
            external_content_policy_type: self.external_content_policy_type,
            upgrade_insecure_requests: self.upgrade_insecure_requests,
            initial_security_checks_done: self.initial_security_checks_done,
            allow_deprecated_system_requests: self.allow_deprecated_system_requests,
            csp: self.csp.deep_view(),
            security_flags: self.security_flags.deep_view(),
        }
    }
}

/// The record that no field has been folded into yet.
pub open spec fn default_check() -> CheckView {
    CheckView {
        process_type: ProcessType::Unknown,
        channel_uri: MISSING_URL@,
        http_method: None,
        loading_principal: PrincipalView::Content(MISSING_PRINCIPAL_URL@),
        triggering_principal: PrincipalView::Content(MISSING_PRINCIPAL_URL@),
        principal_to_inherit: PrincipalView::Content(MISSING_PRINCIPAL_URL@),
        redirect_chain: None,
        internal_content_policy_type: nsContentPolicyType::TYPE_INVALID,
        external_content_policy_type: nsContentPolicyType::TYPE_INVALID,
        upgrade_insecure_requests: false,
        initial_security_checks_done: false,
        allow_deprecated_system_requests: false,
        csp: None,
        security_flags: Seq::empty(),
    }
}

/// `c` with the slot of field `f` set to its value.
pub open spec fn apply_field(c: CheckView, f: FieldView) -> CheckView {
    match f {
        FieldView::channelURI(u) => CheckView { channel_uri: u, ..c },
        FieldView::httpMethod(m) => CheckView { http_method: m, ..c },
        FieldView::loadingPrincipal(p) => CheckView { loading_principal: p, ..c },
        FieldView::triggeringPrincipal(p) => CheckView { triggering_principal: p, ..c },
        FieldView::principalToInherit(p) => CheckView { principal_to_inherit: p, ..c },
        FieldView::redirectChain(rc) => CheckView { redirect_chain: rc, ..c },
        FieldView::internalContentPolicyType(t) => CheckView { internal_content_policy_type: t, ..c },
        FieldView::externalContentPolicyType(t) => CheckView { external_content_policy_type: t, ..c },
        FieldView::upgradeInsecureRequests(b) => CheckView { upgrade_insecure_requests: b, ..c },
        FieldView::initialSecurityChecksDone(b) => CheckView { initial_security_checks_done: b, ..c },
        FieldView::allowDeprecatedSystemRequests(b) => CheckView {
            allow_deprecated_system_requests: b,
            ..c
        },
        FieldView::CSP(p) => CheckView { csp: p, ..c },
        FieldView::securityFlags(sf) => CheckView { security_flags: sf, ..c },
    }
}

/// The record that `fields` fold into: each field sets its slot, a later
/// field of the same key overriding an earlier one, and every slot that no
/// field sets keeps its default.
pub open spec fn assemble(fields: Seq<FieldView>) -> CheckView
    decreases fields.len(),
{
    if fields.len() == 0 {
        default_check()
    } else {
        apply_field(assemble(fields.drop_last()), fields.last())
    }
}

impl ContentSecurityCheck {
    /// The record that no field has been folded into yet.
    pub fn new_default() -> (r: Self)
        ensures
            r@ == default_check(),
    {
        let flags: Vec<String> = Vec::new();
        assert(flags.deep_view() == Seq::<Seq<char>>::empty());
        ContentSecurityCheck {
            process_type: ProcessType::Unknown,
            channel_uri: MISSING_URL.to_owned(),
            http_method: None,
            loading_principal: Principal::ContentPrincipal(MISSING_PRINCIPAL_URL.to_owned()),
            triggering_principal: Principal::ContentPrincipal(MISSING_PRINCIPAL_URL.to_owned()),
            principal_to_inherit: Principal::ContentPrincipal(MISSING_PRINCIPAL_URL.to_owned()),
            redirect_chain: None,
            internal_content_policy_type: nsContentPolicyType::TYPE_INVALID,
            external_content_policy_type: nsContentPolicyType::TYPE_INVALID,
            upgrade_insecure_requests: false,
            initial_security_checks_done: false,
            allow_deprecated_system_requests: false,
            csp: None,
            security_flags: flags,
        }
    }

    /// Sets the slot of `line` to its value.
    pub fn apply(&mut self, line: CheckLine)
        ensures
            final(self)@ == apply_field(old(self)@, line@),
    {
        match line {
            CheckLine::channelURI(uri) => self.channel_uri = uri,
            CheckLine::httpMethod(m) => self.http_method = m,
            CheckLine::loadingPrincipal(lp) => self.loading_principal = lp,
            CheckLine::triggeringPrincipal(tp) => self.triggering_principal = tp,
            CheckLine::principalToInherit(pti) => self.principal_to_inherit = pti,
            CheckLine::redirectChain(rc) => self.redirect_chain = rc,
            CheckLine::internalContentPolicyType(it) => self.internal_content_policy_type = it,
            CheckLine::externalContentPolicyType(et) => self.external_content_policy_type = et,
            CheckLine::upgradeInsecureRequests(uir) => self.upgrade_insecure_requests = uir,
            CheckLine::initialSecurityChecksDone(isd) => self.initial_security_checks_done = isd,
            CheckLine::allowDeprecatedSystemRequests(adsr) => {
                self.allow_deprecated_system_requests = adsr
            },
            CheckLine::CSP(c) => self.csp = c,
            CheckLine::securityFlags(sf) => self.security_flags = sf,
        }
    }

    /// Folds `lines` into a record, in order: see `assemble`.
    pub fn from_lines(lines: Vec<CheckLine>) -> (r: Self)
        ensures
            r@ == assemble(fields_view(lines@)),
    {
        let ghost fields = fields_view(lines@);
        let mut check = Self::new_default();
        let mut i: usize = 0;
        assert(lines@.len() == lines.len());
        let mut rest = lines;
        while rest.len() > 0
            invariant
                i + rest@.len() == fields.len(),
                fields.len() <= usize::MAX,
                forall|j: int| 0 <= j < rest@.len() ==> #[trigger] rest@[j]@ == fields[i + j],
                check@ == assemble(fields.take(i as int)),
            decreases rest@.len(),
        {
            let line = rest.remove(0);
            assert(fields.take(i + 1).drop_last() == fields.take(i as int));
            check.apply(line);
            i = i + 1;
        }
        assert(fields.take(i as int) == fields);
        check
    }

    /// Whether this record is a load, under the system principal, of a data
    /// URI (other than an extension style) as a script or a stylesheet.
    pub fn is_system_data_load(&self) -> (r: bool)
        ensures
            r == is_system_data_load(self@),
    {
        let uri = chars_of(self.channel_uri.as_str());
        let data = chars_of(DATA_SCHEME);
        let exempt = chars_of(EXTENSION_STYLE_PREFIX);
        let is_data = data.len() <= uri.len() && range_is(&uri, 0, data.len(), &data);
        let is_exempt = exempt.len() <= uri.len() && range_is(&uri, 0, exempt.len(), &exempt);
        let by_system = match self.loading_principal {
            Principal::SystemPrincipal => true,
            _ => false,
        };
        let as_code = self.external_content_policy_type == nsContentPolicyType::TYPE_SCRIPT
            || self.external_content_policy_type == nsContentPolicyType::TYPE_STYLESHEET;
        is_data && !is_exempt && by_system && as_code
    }
}

/// Whether `s` begins with `p`.
pub open spec fn starts_with(s: Seq<char>, p: Seq<char>) -> bool {
    p.len() <= s.len() && s.take(p.len() as int) == p
}

/// A load, under the system principal, of a data URI (other than an
/// extension style) as a script or a stylesheet.
pub open spec fn is_system_data_load(c: CheckView) -> bool {
    &&& starts_with(c.channel_uri, DATA_SCHEME@)
    &&& !starts_with(c.channel_uri, EXTENSION_STYLE_PREFIX@)
    &&& c.loading_principal == PrincipalView::System
    &&& (c.external_content_policy_type == nsContentPolicyType::TYPE_SCRIPT
        || c.external_content_policy_type == nsContentPolicyType::TYPE_STYLESHEET)
}

} // verus!
