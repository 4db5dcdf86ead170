//! Decoding one block of the log into typed fields.
//!
//! A block's lines form a short list of tagged entries: `- key: value`, or
//! `- key:` followed by deeper-indented `- item` lines for a key that takes a
//! list. An optional first line `doContentSecurityCheck:` names the list.
//! Each value and item is one YAML scalar.

use crate::checktypes::{assemble, fields_view, CheckLine, CheckView, ContentSecurityCheck, FieldView, ProcessType};
use crate::policytypes::{parse_policy_type, policy_of_text};
use crate::principal::{parse_principal, Principal, PrincipalView};
use crate::text::{chars_of, chars_of_range, same_chars, string_of_range};
use vstd::prelude::*;

verus! {

/// The line that may open a block, naming its list of entries.
pub const ROOT_KEY: &'static str = "doContentSecurityCheck:";

/// Why a block could not be decoded.
#[derive(Debug, Clone, Copy, PartialEq, Eq, Structural)]
pub enum BlockDecodeError {
    /// A line is neither blank nor an entry nor an item of a list entry.
    Malformed,
    /// An entry's key names no field.
    UnknownKey,
    /// A key occurs twice.
    DuplicateKey,
    /// A value is missing, of the wrong shape, or not a YAML scalar of the
    /// field's type.
    InvalidValue,
    /// A principal field holds a text that denotes no principal.
    InvalidPrincipal,
}

/// The value that YAML reads from text `s` taken as a string or null:
/// `Some(None)` for null, `None` where `s` is not such a document.
pub uninterp spec fn yaml_optional_string(s: Seq<char>) -> Option<Option<Seq<char>>>;

/// The value that YAML reads from text `s` taken as a boolean, or `None`
/// where `s` is not such a document.
pub uninterp spec fn yaml_bool(s: Seq<char>) -> Option<bool>;

/// Relies on `serde_yaml::from_str::<Option<String>>`: reads `text` as one
/// YAML document holding a string or null.
#[verifier::external_body]
fn read_yaml_string(text: &str) -> (r: Option<Option<String>>)
    ensures
        r.deep_view() == yaml_optional_string(text@),
{
    serde_yaml::from_str::<Option<String>>(text).ok()
}

/// Relies on `serde_yaml::from_str::<bool>`: reads `text` as one YAML
/// document holding a boolean.
#[verifier::external_body]
fn read_yaml_bool(text: &str) -> (r: Option<bool>)
    ensures
        r == yaml_bool(text@),
{
    serde_yaml::from_str::<bool>(text).ok()
}

/// The number of spaces that `l` begins with.
pub open spec fn indent(l: Seq<char>) -> nat
    decreases l.len(),
{
    if l.len() > 0 && l[0] == ' ' {
        1 + indent(l.drop_first())
    } else {
        0
    }
}

/// Whether `c` may stand in a key.
pub open spec fn is_key_char(c: char) -> bool {
    ('a' <= c <= 'z') || ('A' <= c <= 'Z') || ('0' <= c <= '9') || c == '_'
}

/// The number of key characters that `s` begins with.
pub open spec fn key_len(s: Seq<char>) -> nat
    decreases s.len(),
{
    if s.len() > 0 && is_key_char(s[0]) {
        1 + key_len(s.drop_first())
    } else {
        0
    }
}

/// `s` without the spaces it begins with.
pub open spec fn trim_start(s: Seq<char>) -> Seq<char> {
    s.skip(indent(s) as int)
}

/// Whether `l` holds nothing but spaces.
pub open spec fn is_blank(l: Seq<char>) -> bool {
    indent(l) == l.len()
}

/// Whether `l` is a list item: a dash, alone or followed by a space, after
/// the indentation.
pub open spec fn is_item(l: Seq<char>) -> bool {
    let b = trim_start(l);
    b.len() >= 1 && b[0] == '-' && (b.len() == 1 || b[1] == ' ')
}

/// What a list item holds after its dash and the spaces that follow it.
pub open spec fn item_text(l: Seq<char>) -> Seq<char> {
    trim_start(trim_start(l).skip(1))
}

/// An entry as the lines give it, before its value is read.
pub struct RawEntry {
    /// The indentation of the entry's line.
    pub indent: nat,
    pub key: Seq<char>,
    /// The text after the key's colon, where there is any.
    pub value: Option<Seq<char>>,
    /// The texts of the items below the entry.
    pub items: Seq<Seq<char>>,
}

/// The key and the value text of an entry whose item holds `x`: `key:` alone,
/// or `key: value`.
pub open spec fn entry_of(x: Seq<char>) -> Option<(Seq<char>, Option<Seq<char>>)> {
    let n = key_len(x) as int;
    if 0 < n < x.len() && x[n] == ':' && (n + 1 == x.len() || x[n + 1] == ' ') {
        let after = x.skip(n + 1);
        Some((x.take(n), if is_blank(after) { None } else { Some(trim_start(after)) }))
    } else {
        None
    }
}

/// The entries after reading line `l` on top of `es`, or `None` where `l`
/// breaks the layout: entries share the indentation of the first, and an
/// item indented deeper belongs to the entry above it, which then has no
/// value of its own.
pub open spec fn read_line(es: Seq<RawEntry>, l: Seq<char>) -> Option<Seq<RawEntry>> {
    if is_blank(l) {
        Some(es)
    } else if !is_item(l) {
        None
    } else if es.len() == 0 || indent(l) == es[0].indent {
        match entry_of(item_text(l)) {
            Some((k, v)) => Some(es.push(RawEntry { indent: indent(l), key: k, value: v, items: Seq::empty() })),
            None => None,
        }
    } else if indent(l) > es[0].indent && es.last().value is None {
        Some(es.update(es.len() - 1, RawEntry { items: es.last().items.push(item_text(l)), ..es.last() }))
    } else {
        None
    }
}

/// The entries that `lines` hold, or `None` where a line breaks the layout.
pub open spec fn read_lines(lines: Seq<Seq<char>>) -> Option<Seq<RawEntry>>
    decreases lines.len(),
{
    if lines.len() == 0 {
        Some(Seq::empty())
    } else {
        match read_lines(lines.drop_last()) {
            Some(es) => read_line(es, lines.last()),
            None => None,
        }
    }
}

/// The lines of a block that hold its entries: all of them, but a first
/// line that names the list.
pub open spec fn entry_lines(lines: Seq<Seq<char>>) -> Seq<Seq<char>> {
    if lines.len() > 0 && lines[0] == ROOT_KEY@ {
        lines.skip(1)
    } else {
        lines
    }
}

/// The key of each field.
#[derive(Debug, Clone, Copy, PartialEq, Eq, Structural)]
pub enum FieldKey {
    ChannelUri,
    HttpMethod,
    LoadingPrincipal,
    TriggeringPrincipal,
    PrincipalToInherit,
    RedirectChain,
    InternalContentPolicyType,
    ExternalContentPolicyType,
    UpgradeInsecureRequests,
    InitialSecurityChecksDone,
    AllowDeprecatedSystemRequests,
    Csp,
    SecurityFlags,
}

/// The name under which the log writes key `k`.
pub open spec fn key_name(k: FieldKey) -> Seq<char> {
    match k {
        FieldKey::ChannelUri => "channelURI"@,
        FieldKey::HttpMethod => "httpMethod"@,
        FieldKey::LoadingPrincipal => "loadingPrincipal"@,
        FieldKey::TriggeringPrincipal => "triggeringPrincipal"@,
        FieldKey::PrincipalToInherit => "principalToInherit"@,
        FieldKey::RedirectChain => "redirectChain"@,
        FieldKey::InternalContentPolicyType => "internalContentPolicyType"@,
        FieldKey::ExternalContentPolicyType => "externalContentPolicyType"@,
        FieldKey::UpgradeInsecureRequests => "upgradeInsecureRequests"@,
        FieldKey::InitialSecurityChecksDone => "initialSecurityChecksDone"@,
        FieldKey::AllowDeprecatedSystemRequests => "allowDeprecatedSystemRequests"@,
        FieldKey::Csp => "CSP"@,
        FieldKey::SecurityFlags => "securityFlags"@,
    }
}

/// The key named `s` (names are case-sensitive), or `None` where no field
/// has that name.
#[verifier::opaque]
pub open spec fn key_of(s: Seq<char>) -> Option<FieldKey> {
    if s == "channelURI"@ {
        Some(FieldKey::ChannelUri)
    } else if s == "httpMethod"@ {
        Some(FieldKey::HttpMethod)
    } else if s == "loadingPrincipal"@ {
        Some(FieldKey::LoadingPrincipal)
    } else if s == "triggeringPrincipal"@ {
        Some(FieldKey::TriggeringPrincipal)
    } else if s == "principalToInherit"@ {
        Some(FieldKey::PrincipalToInherit)
    } else if s == "redirectChain"@ {
        Some(FieldKey::RedirectChain)
    } else if s == "internalContentPolicyType"@ {
        Some(FieldKey::InternalContentPolicyType)
    } else if s == "externalContentPolicyType"@ {
        Some(FieldKey::ExternalContentPolicyType)
    } else if s == "upgradeInsecureRequests"@ {
        Some(FieldKey::UpgradeInsecureRequests)
    } else if s == "initialSecurityChecksDone"@ {
        Some(FieldKey::InitialSecurityChecksDone)
    } else if s == "allowDeprecatedSystemRequests"@ {
        Some(FieldKey::AllowDeprecatedSystemRequests)
    } else if s == "CSP"@ {
        Some(FieldKey::Csp)
    } else if s == "securityFlags"@ {
        Some(FieldKey::SecurityFlags)
    } else {
        None
    }
}

/// A name gives a key only where it is that key's name.
pub proof fn lemma_key_of(s: Seq<char>)
    ensures
        key_of(s) matches Some(k) ==> s == key_name(k),
{
    reveal(key_of);
}

/// Looks the name `name` up among the keys.
fn field_key(name: &Vec<char>) -> (r: Option<FieldKey>)
    ensures
        r == key_of(name@),
{
    reveal(key_of);
    if same_chars(name, &chars_of("channelURI")) {
        return Some(FieldKey::ChannelUri);
    }
    if same_chars(name, &chars_of("httpMethod")) {
        return Some(FieldKey::HttpMethod);
    }
    if same_chars(name, &chars_of("loadingPrincipal")) {
        return Some(FieldKey::LoadingPrincipal);
    }
    if same_chars(name, &chars_of("triggeringPrincipal")) {
        return Some(FieldKey::TriggeringPrincipal);
    }
    if same_chars(name, &chars_of("principalToInherit")) {
        return Some(FieldKey::PrincipalToInherit);
    }
    if same_chars(name, &chars_of("redirectChain")) {
        return Some(FieldKey::RedirectChain);
    }
    if same_chars(name, &chars_of("internalContentPolicyType")) {
        return Some(FieldKey::InternalContentPolicyType);
    }
    if same_chars(name, &chars_of("externalContentPolicyType")) {
        return Some(FieldKey::ExternalContentPolicyType);
    }
    if same_chars(name, &chars_of("upgradeInsecureRequests")) {
        return Some(FieldKey::UpgradeInsecureRequests);
    }
    if same_chars(name, &chars_of("initialSecurityChecksDone")) {
        return Some(FieldKey::InitialSecurityChecksDone);
    }
    if same_chars(name, &chars_of("allowDeprecatedSystemRequests")) {
        return Some(FieldKey::AllowDeprecatedSystemRequests);
    }
    if same_chars(name, &chars_of("CSP")) {
        return Some(FieldKey::Csp);
    }
    if same_chars(name, &chars_of("securityFlags")) {
        return Some(FieldKey::SecurityFlags);
    }
    None
}

/// The scalar value of an entry: its text read as a YAML string or null; an
/// entry without text is null, and one with items is no scalar.
pub open spec fn scalar_value(e: RawEntry) -> Result<Option<Seq<char>>, BlockDecodeError> {
    if e.items.len() > 0 {
        Err(BlockDecodeError::InvalidValue)
    } else {
        match e.value {
            None => Ok(None),
            Some(t) => match yaml_optional_string(t) {
                Some(v) => Ok(v),
                None => Err(BlockDecodeError::InvalidValue),
            },
        }
    }
}

/// The string value of an entry: a scalar that is not null.
pub open spec fn string_value(e: RawEntry) -> Result<Seq<char>, BlockDecodeError> {
    match scalar_value(e) {
        Ok(Some(s)) => Ok(s),
        Ok(None) => Err(BlockDecodeError::InvalidValue),
        Err(x) => Err(x),
    }
}

/// The boolean value of an entry: its text read as a YAML boolean.
pub open spec fn bool_value(e: RawEntry) -> Result<bool, BlockDecodeError> {
    if e.items.len() > 0 {
        Err(BlockDecodeError::InvalidValue)
    } else {
        match e.value {
            Some(t) => match yaml_bool(t) {
                Some(b) => Ok(b),
                None => Err(BlockDecodeError::InvalidValue),
            },
            None => Err(BlockDecodeError::InvalidValue),
        }
    }
}

/// The strings that items hold, each read as a YAML string that is not null.
pub open spec fn item_strings(items: Seq<Seq<char>>) -> Option<Seq<Seq<char>>>
    decreases items.len(),
{
    if items.len() == 0 {
        Some(Seq::empty())
    } else {
        match item_strings(items.drop_last()) {
            Some(ss) => match yaml_optional_string(items.last()) {
                Some(Some(s)) => Some(ss.push(s)),
                _ => None,
            },
            None => None,
        }
    }
}

/// The list value of an entry: the strings of its items, none at all where
/// it has none; an entry with text after its key is no list.
pub open spec fn list_value(e: RawEntry) -> Result<Seq<Seq<char>>, BlockDecodeError> {
    if e.value is Some {
        Err(BlockDecodeError::InvalidValue)
    } else {
        match item_strings(e.items) {
            Some(ss) => Ok(ss),
            None => Err(BlockDecodeError::InvalidValue),
        }
    }
}

/// The principal value of an entry: the principal that its string denotes.
pub open spec fn principal_value(e: RawEntry) -> Result<PrincipalView, BlockDecodeError> {
    match string_value(e) {
        Ok(s) => match parse_principal(s) {
            Some(p) => Ok(p),
            None => Err(BlockDecodeError::InvalidPrincipal),
        },
        Err(x) => Err(x),
    }
}

/// The field that entry `e` gives, its key being `k`.
#[verifier::opaque]
pub open spec fn decode_value(k: FieldKey, e: RawEntry) -> Result<FieldView, BlockDecodeError> {
    match k {
        FieldKey::ChannelUri => match string_value(e) {
            Ok(s) => Ok(FieldView::channelURI(s)),
            Err(x) => Err(x),
        },
        FieldKey::HttpMethod => match scalar_value(e) {
            Ok(m) => Ok(FieldView::httpMethod(m)),
            Err(x) => Err(x),
        },
        FieldKey::LoadingPrincipal => match principal_value(e) {
            Ok(p) => Ok(FieldView::loadingPrincipal(p)),
            Err(x) => Err(x),
        },
        FieldKey::TriggeringPrincipal => match principal_value(e) {
            Ok(p) => Ok(FieldView::triggeringPrincipal(p)),
            Err(x) => Err(x),
        },
        FieldKey::PrincipalToInherit => match principal_value(e) {
            Ok(p) => Ok(FieldView::principalToInherit(p)),
            Err(x) => Err(x),
        },
        FieldKey::RedirectChain => match list_value(e) {
            Ok(l) => Ok(FieldView::redirectChain(Some(l))),
            Err(x) => Err(x),
        },
        FieldKey::InternalContentPolicyType => match string_value(e) {
            Ok(s) => Ok(FieldView::internalContentPolicyType(policy_of_text(s))),
            Err(x) => Err(x),
        },
        FieldKey::ExternalContentPolicyType => match string_value(e) {
            Ok(s) => Ok(FieldView::externalContentPolicyType(policy_of_text(s))),
            Err(x) => Err(x),
        },
        FieldKey::UpgradeInsecureRequests => match bool_value(e) {
            Ok(b) => Ok(FieldView::upgradeInsecureRequests(b)),
            Err(x) => Err(x),
        },
        FieldKey::InitialSecurityChecksDone => match bool_value(e) {
            Ok(b) => Ok(FieldView::initialSecurityChecksDone(b)),
            Err(x) => Err(x),
        },
        FieldKey::AllowDeprecatedSystemRequests => match bool_value(e) {
            Ok(b) => Ok(FieldView::allowDeprecatedSystemRequests(b)),
            Err(x) => Err(x),
        },
        FieldKey::Csp => match list_value(e) {
            Ok(l) => Ok(FieldView::CSP(Some(l))),
            Err(x) => Err(x),
        },
        FieldKey::SecurityFlags => match list_value(e) {
            Ok(l) => Ok(FieldView::securityFlags(l)),
            Err(x) => Err(x),
        },
    }
}

/// The fields that entries `es` give, in order, or the first error: an
/// entry whose key names no field, one whose key an earlier entry had, or
/// one whose value does not fit its field.
pub open spec fn decode_entries(es: Seq<RawEntry>) -> Result<Seq<FieldView>, BlockDecodeError>
    decreases es.len(),
{
    if es.len() == 0 {
        Ok(Seq::empty())
    } else {
        match decode_entries(es.drop_last()) {
            Err(x) => Err(x),
            Ok(fs) => match key_of(es.last().key) {
                None => Err(BlockDecodeError::UnknownKey),
                Some(k) => if exists|j: int| 0 <= j < es.len() - 1 && #[trigger] es[j].key == es.last().key {
                    Err(BlockDecodeError::DuplicateKey)
                } else {
                    match decode_value(k, es.last()) {
                        Ok(f) => Ok(fs.push(f)),
                        Err(x) => Err(x),
                    }
                },
            },
        }
    }
}

/// The fields that the lines of a block give, or why they give none.
pub open spec fn decode_lines(lines: Seq<Seq<char>>) -> Result<Seq<FieldView>, BlockDecodeError> {
    match read_lines(entry_lines(lines)) {
        None => Err(BlockDecodeError::Malformed),
        Some(es) => decode_entries(es),
    }
}

/// The index of the first character at or after `from` that is not a space.
fn skip_spaces(cs: &Vec<char>, from: usize) -> (r: usize)
    requires
        from <= cs@.len(),
    ensures
        r == from + indent(cs@.skip(from as int)),
        r <= cs@.len(),
{
    let mut i = from;
    while i < cs.len() && cs[i] == ' '
        invariant
            from <= i <= cs@.len(),
            indent(cs@.skip(from as int)) == (i - from) + indent(cs@.skip(i as int)),
        decreases cs@.len() - i,
    {
        assert(cs@.skip(i as int).drop_first() == cs@.skip(i + 1));
        i = i + 1;
    }
    i
}

/// The index of the first character at or after `from` that may not stand
/// in a key.
fn skip_key(cs: &Vec<char>, from: usize) -> (r: usize)
    requires
        from <= cs@.len(),
    ensures
        r == from + key_len(cs@.skip(from as int)),
        r <= cs@.len(),
{
    let mut i = from;
    while i < cs.len() && (('a' <= cs[i] && cs[i] <= 'z') || ('A' <= cs[i] && cs[i] <= 'Z') || ('0'
        <= cs[i] && cs[i] <= '9') || cs[i] == '_')
        invariant
            from <= i <= cs@.len(),
            key_len(cs@.skip(from as int)) == (i - from) + key_len(cs@.skip(i as int)),
        decreases cs@.len() - i,
    {
        assert(cs@.skip(i as int).drop_first() == cs@.skip(i + 1));
        i = i + 1;
    }
    i
}

/// An entry as the lines give it.
struct Entry {
    indent: usize,
    key: Vec<char>,
    value: Option<String>,
    items: Vec<String>,
}

impl View for Entry {
    type V = RawEntry;

    closed spec fn view(&self) -> RawEntry {
        RawEntry {
            indent: self.indent as nat,
            key: self.key@,
            value: self.value.deep_view(),
            items: self.items.deep_view(),
        }
    }
}

/// The values of `es`.
spec fn entries_view(es: Seq<Entry>) -> Seq<RawEntry> {
    es.map_values(|e: Entry| e@)
}

/// The entries read so far: the finished ones, then the current one.
spec fn state_view(done: Seq<Entry>, cur: Option<Entry>) -> Seq<RawEntry> {
    match cur {
        Some(c) => entries_view(done).push(c@),
        None => entries_view(done),
    }
}

/// The texts of `lines`.
pub open spec fn lines_view(lines: Seq<String>) -> Seq<Seq<char>> {
    lines.map_values(|l: String| l@)
}

/// Once a line breaks the layout, no later line mends it.
proof fn lemma_read_lines_broken(lines: Seq<Seq<char>>, j: int)
    requires
        0 <= j <= lines.len(),
        read_lines(lines.take(j)) is None,
    ensures
        read_lines(lines) is None,
    decreases lines.len() - j,
{
    if j < lines.len() {
        assert(lines.take(j + 1).drop_last() == lines.take(j));
        lemma_read_lines_broken(lines, j + 1);
    } else {
        assert(lines.take(j) == lines);
    }
}

/// The entry that the item text `cs[t..]` holds, on a line indented by `n`.
fn entry_at(cs: &Vec<char>, n: usize, t: usize) -> (r: Option<Entry>)
    requires
        t <= cs@.len(),
    ensures
        match r {
            Some(e) => entry_of(cs@.skip(t as int)) == Some((e@.key, e@.value)) && e@.indent == n
                && e@.items == Seq::<Seq<char>>::empty(),
            None => entry_of(cs@.skip(t as int)) is None,
        },
{
    let ghost l = cs@;
    let ghost x = l.skip(t as int);
    let k = skip_key(cs, t);
    assert(key_len(x) == k - t);
    if !(k > t && k < cs.len() && cs[k] == ':' && (k + 1 == cs.len() || cs[k + 1] == ' ')) {
        assert(entry_of(x) is None);
        return None;
    }
    let key = chars_of_range(cs, t, k);
    assert(x.take(k - t) == key@);
    assert(x.skip(k - t + 1) == l.skip(k + 1));
    let v0 = skip_spaces(cs, k + 1);
    let value = if v0 == cs.len() {
        None
    } else {
        let v = string_of_range(cs, v0, cs.len());
        assert(v@ == trim_start(l.skip(k + 1)));
        Some(v)
    };
    let e = Entry { indent: n, key, value, items: Vec::new() };
    assert(e.items.deep_view() == Seq::<Seq<char>>::empty());
    Some(e)
}

/// The state of reading a block's lines: the finished entries, the entry
/// that items may still be added to, and the indentation of entries.
struct EntryReader {
    done: Vec<Entry>,
    cur: Option<Entry>,
    base: usize,
}

impl EntryReader {
    /// The entries read so far.
    closed spec fn entries(&self) -> Seq<RawEntry> {
        state_view(self.done@, self.cur)
    }

    /// The reader's parts agree.
    closed spec fn wf(&self) -> bool {
        &&& self.cur is None ==> self.done@.len() == 0
        &&& self.entries().len() > 0 ==> self.entries()[0].indent == self.base
    }

    /// Reads the line whose characters are `cs`; `false` where it breaks the
    /// layout, and then the reader is left in an unspecified state.
    fn read(&mut self, cs: &Vec<char>) -> (ok: bool)
        requires
            old(self).wf(),
        ensures
            ok ==> final(self).wf() && read_line(old(self).entries(), cs@) == Some(final(self).entries()),
            !ok ==> read_line(old(self).entries(), cs@) is None,
    {
        let ghost es = self.entries();
        let ghost l = cs@;
        let n = skip_spaces(cs, 0);
        assert(cs@.skip(0) == cs@);
        if n == cs.len() {
            return true;
        }
        assert(trim_start(l) == l.skip(n as int));
        if !(cs[n] == '-' && (n + 1 == cs.len() || cs[n + 1] == ' ')) {
            return false;
        }
        let t = skip_spaces(cs, n + 1);
        assert(trim_start(l).skip(1) == l.skip(n + 1));
        assert(item_text(l) == l.skip(t as int));
        if self.cur.is_none() || n == self.base {
            let e = match entry_at(cs, n, t) {
                Some(e) => e,
                None => {
                    return false;
                },
            };
            match self.cur.take() {
                Some(c) => {
                    self.done.push(c);
                },
                None => {
                    self.base = n;
                },
            }
            self.cur = Some(e);
            assert(self.entries() == es.push(e@));
            true
        } else {
            match self.cur.take() {
                Some(c) => {
                    if n > self.base && c.value.is_none() {
                        let text = string_of_range(cs, t, cs.len());
                        let mut c2 = c;
                        c2.items.push(text);
                        assert(c2.items.deep_view() == c.items.deep_view().push(text@));
                        self.cur = Some(c2);
                        assert(self.entries() == es.update(
                            es.len() - 1,
                            RawEntry { items: es.last().items.push(item_text(l)), ..es.last() },
                        ));
                        true
                    } else {
                        false
                    }
                },
                None => false,
            }
        }
    }
}

/// Reads the entries of `lines[first..]`.
fn read_entries(lines: &Vec<String>, first: usize) -> (r: Option<Vec<Entry>>)
    requires
        first <= lines@.len(),
    ensures
        match r {
            Some(es) => read_lines(lines_view(lines@).skip(first as int)) == Some(entries_view(es@)),
            None => read_lines(lines_view(lines@).skip(first as int)) is None,
        },
{
    let ghost all = lines_view(lines@).skip(first as int);
    let mut reader = EntryReader { done: Vec::new(), cur: None, base: 0 };
    let mut i: usize = first;
    assert(all.take(0) == Seq::<Seq<char>>::empty());
    assert(reader.entries() == Seq::<RawEntry>::empty());
    while i < lines.len()
        invariant
            first <= i <= lines@.len(),
            all == lines_view(lines@).skip(first as int),
            reader.wf(),
            read_lines(all.take(i - first)) == Some(reader.entries()),
        decreases lines@.len() - i,
    {
        let cs = chars_of(lines[i].as_str());
        assert(cs@ == all[i - first]);
        assert(all.take(i - first + 1).drop_last() == all.take(i - first));
        if !reader.read(&cs) {
            proof {
                lemma_read_lines_broken(all, i - first + 1);
            }
            return None;
        }
        i = i + 1;
    }
    assert(all.take(i - first) == all);
    let mut done = reader.done;
    match reader.cur {
        Some(c) => {
            done.push(c);
        },
        None => {},
    }
    Some(done)
}

/// The scalar value of `e`: see `scalar_value`.
fn scalar_of(e: &Entry) -> (r: Result<Option<String>, BlockDecodeError>)
    ensures
        match r {
            Ok(v) => scalar_value(e@) == Ok::<Option<Seq<char>>, BlockDecodeError>(v.deep_view()),
            Err(x) => scalar_value(e@) == Err::<Option<Seq<char>>, BlockDecodeError>(x),
        },
{
    if e.items.len() > 0 {
        return Err(BlockDecodeError::InvalidValue);
    }
    match &e.value {
        None => Ok(None),
        Some(t) => match read_yaml_string(t.as_str()) {
            Some(v) => Ok(v),
            None => Err(BlockDecodeError::InvalidValue),
        },
    }
}

/// The string value of `e`: see `string_value`.
fn string_of(e: &Entry) -> (r: Result<String, BlockDecodeError>)
    ensures
        match r {
            Ok(v) => string_value(e@) == Ok::<Seq<char>, BlockDecodeError>(v@),
            Err(x) => string_value(e@) == Err::<Seq<char>, BlockDecodeError>(x),
        },
{
    match scalar_of(e) {
        Ok(Some(v)) => Ok(v),
        Ok(None) => Err(BlockDecodeError::InvalidValue),
        Err(x) => Err(x),
    }
}

/// The boolean value of `e`: see `bool_value`.
fn bool_of(e: &Entry) -> (r: Result<bool, BlockDecodeError>)
    ensures
        r == bool_value(e@),
{
    if e.items.len() > 0 {
        return Err(BlockDecodeError::InvalidValue);
    }
    match &e.value {
        Some(t) => match read_yaml_bool(t.as_str()) {
            Some(b) => Ok(b),
            None => Err(BlockDecodeError::InvalidValue),
        },
        None => Err(BlockDecodeError::InvalidValue),
    }
}

/// The list value of `e`: see `list_value`.
fn list_of(e: &Entry) -> (r: Result<Vec<String>, BlockDecodeError>)
    ensures
        match r {
            Ok(v) => list_value(e@) == Ok::<Seq<Seq<char>>, BlockDecodeError>(v.deep_view()),
            Err(x) => list_value(e@) == Err::<Seq<Seq<char>>, BlockDecodeError>(x),
        },
{
    if e.value.is_some() {
        return Err(BlockDecodeError::InvalidValue);
    }
    let ghost items = e@.items;
    let mut out: Vec<String> = Vec::new();
    let mut i: usize = 0;
    assert(items.take(0) == Seq::<Seq<char>>::empty());
    while i < e.items.len()
        invariant
            items == e@.items,
            items.len() == e.items@.len(),
            i <= items.len(),
            item_strings(items.take(i as int)) == Some(out.deep_view()),
        decreases items.len() - i,
    {
        assert(e.items@[i as int]@ == items[i as int]);
        assert(items.take(i + 1).drop_last() == items.take(i as int));
        match read_yaml_string(e.items[i].as_str()) {
            Some(Some(v)) => {
                let ghost before = out.deep_view();
                out.push(v);
                assert(out.deep_view() == before.push(v@));
            },
            _ => {
                proof {
                    lemma_item_strings_broken(items, i + 1);
                }
                return Err(BlockDecodeError::InvalidValue);
            },
        }
        i = i + 1;
    }
    assert(items.take(i as int) == items);
    Ok(out)
}

/// Once an item is no string, the list has none.
proof fn lemma_item_strings_broken(items: Seq<Seq<char>>, j: int)
    requires
        0 <= j <= items.len(),
        item_strings(items.take(j)) is None,
    ensures
        item_strings(items) is None,
    decreases items.len() - j,
{
    if j < items.len() {
        assert(items.take(j + 1).drop_last() == items.take(j));
        lemma_item_strings_broken(items, j + 1);
    } else {
        assert(items.take(j) == items);
    }
}

/// The principal value of `e`: see `principal_value`.
fn principal_of(e: &Entry) -> (r: Result<Principal, BlockDecodeError>)
    ensures
        match r {
            Ok(p) => principal_value(e@) == Ok::<PrincipalView, BlockDecodeError>(p@),
            Err(x) => principal_value(e@) == Err::<PrincipalView, BlockDecodeError>(x),
        },
{
    match string_of(e) {
        Ok(s) => match Principal::parse(s.as_str()) {
            Ok(p) => Ok(p),
            Err(_) => Err(BlockDecodeError::InvalidPrincipal),
        },
        Err(x) => Err(x),
    }
}

/// The field that `e` gives under key `k`: see `decode_value`.
#[verifier::rlimit(60)]
fn decode_entry(k: FieldKey, e: &Entry) -> (r: Result<CheckLine, BlockDecodeError>)
    ensures
        match r {
            Ok(f) => decode_value(k, e@) == Ok::<FieldView, BlockDecodeError>(f@),
            Err(x) => decode_value(k, e@) == Err::<FieldView, BlockDecodeError>(x),
        },
{
    reveal(decode_value);
    match k {
        FieldKey::ChannelUri => match string_of(e) {
            Ok(s) => Ok(CheckLine::channelURI(s)),
            Err(x) => Err(x),
        },
        FieldKey::HttpMethod => match scalar_of(e) {
            Ok(m) => Ok(CheckLine::httpMethod(m)),
            Err(x) => Err(x),
        },
        FieldKey::LoadingPrincipal => match principal_of(e) {
            Ok(p) => Ok(CheckLine::loadingPrincipal(p)),
            Err(x) => Err(x),
        },
        FieldKey::TriggeringPrincipal => match principal_of(e) {
            Ok(p) => Ok(CheckLine::triggeringPrincipal(p)),
            Err(x) => Err(x),
        },
        FieldKey::PrincipalToInherit => match principal_of(e) {
            Ok(p) => Ok(CheckLine::principalToInherit(p)),
            Err(x) => Err(x),
        },
        FieldKey::RedirectChain => match list_of(e) {
            Ok(l) => Ok(CheckLine::redirectChain(Some(l))),
            Err(x) => Err(x),
        },
        FieldKey::InternalContentPolicyType => match string_of(e) {
            Ok(s) => Ok(CheckLine::internalContentPolicyType(parse_policy_type(s.as_str()))),
            Err(x) => Err(x),
        },
        FieldKey::ExternalContentPolicyType => match string_of(e) {
            Ok(s) => Ok(CheckLine::externalContentPolicyType(parse_policy_type(s.as_str()))),
            Err(x) => Err(x),
        },
        FieldKey::UpgradeInsecureRequests => match bool_of(e) {
            Ok(b) => Ok(CheckLine::upgradeInsecureRequests(b)),
            Err(x) => Err(x),
        },
        FieldKey::InitialSecurityChecksDone => match bool_of(e) {
            Ok(b) => Ok(CheckLine::initialSecurityChecksDone(b)),
            Err(x) => Err(x),
        },
        FieldKey::AllowDeprecatedSystemRequests => match bool_of(e) {
            Ok(b) => Ok(CheckLine::allowDeprecatedSystemRequests(b)),
            Err(x) => Err(x),
        },
        FieldKey::Csp => match list_of(e) {
            Ok(l) => Ok(CheckLine::CSP(Some(l))),
            Err(x) => Err(x),
        },
        FieldKey::SecurityFlags => match list_of(e) {
            Ok(l) => Ok(CheckLine::securityFlags(l)),
            Err(x) => Err(x),
        },
    }
}

/// Once an entry fails, the entries fail with its error.
proof fn lemma_decode_entries_broken(es: Seq<RawEntry>, j: int, x: BlockDecodeError)
    requires
        0 <= j <= es.len(),
        decode_entries(es.take(j)) == Err::<Seq<FieldView>, BlockDecodeError>(x),
    ensures
        decode_entries(es) == Err::<Seq<FieldView>, BlockDecodeError>(x),
    decreases es.len() - j,
{
    if j < es.len() {
        assert(es.take(j + 1).drop_last() == es.take(j));
        lemma_decode_entries_broken(es, j + 1, x);
    } else {
        assert(es.take(j) == es);
    }
}

/// Decodes the fields of `es`: see `decode_entries`.
fn decode_all(es: &Vec<Entry>) -> (r: Result<Vec<CheckLine>, BlockDecodeError>)
    ensures
        match r {
            Ok(ls) => decode_entries(entries_view(es@)) == Ok::<Seq<FieldView>, BlockDecodeError>(
                fields_view(ls@),
            ),
            Err(x) => decode_entries(entries_view(es@)) == Err::<Seq<FieldView>, BlockDecodeError>(x),
        },
{
    let ghost ev = entries_view(es@);
    let mut out: Vec<CheckLine> = Vec::new();
    let mut keys: Vec<FieldKey> = Vec::new();
    let mut i: usize = 0;
    assert(ev.take(0) == Seq::<RawEntry>::empty());
    assert(fields_view(out@) == Seq::<FieldView>::empty());
    while i < es.len()
        invariant
            ev == entries_view(es@),
            ev.len() == es@.len(),
            i <= ev.len(),
            decode_entries(ev.take(i as int)) == Ok::<Seq<FieldView>, BlockDecodeError>(fields_view(out@)),
            keys@.len() == i,
            forall|j: int| 0 <= j < i ==> key_of(#[trigger] ev[j].key) == Some(keys@[j]),
        decreases ev.len() - i,
    {
        let e = &es[i];
        let ghost prefix = ev.take(i + 1);
        assert(prefix.drop_last() == ev.take(i as int));
        assert(prefix.last() == e@);
        let k = match field_key(&e.key) {
            Some(k) => k,
            None => {
                proof {
                    lemma_decode_entries_broken(ev, i + 1, BlockDecodeError::UnknownKey);
                }
                return Err(BlockDecodeError::UnknownKey);
            },
        };
        let mut dup = false;
        let mut j: usize = 0;
        while j < i
            invariant
                j <= i,
                keys@.len() == i,
                dup == exists|m: int| 0 <= m < j && keys@[m] == k,
            decreases i - j,
        {
            if keys[j] == k {
                dup = true;
            }
            j = j + 1;
        }
        proof {
            lemma_key_of(e@.key);
            assert forall|m: int| 0 <= m < i implies (prefix[m].key == e@.key <==> keys@[m] == k) by {
                lemma_key_of(ev[m].key);
                assert(prefix[m] == ev[m]);
            }
        }
        if dup {
            proof {
                let m = choose|m: int| 0 <= m < j && keys@[m] == k;
                assert(prefix[m].key == prefix.last().key);
                lemma_decode_entries_broken(ev, i + 1, BlockDecodeError::DuplicateKey);
            }
            return Err(BlockDecodeError::DuplicateKey);
        }
        match decode_entry(k, e) {
            Ok(f) => {
                let ghost before = fields_view(out@);
                out.push(f);
                keys.push(k);
                assert(fields_view(out@) == before.push(f@));
            },
            Err(x) => {
                proof {
                    lemma_decode_entries_broken(ev, i + 1, x);
                }
                return Err(x);
            },
        }
        i = i + 1;
    }
    assert(ev.take(i as int) == ev);
    Ok(out)
}

/// Decodes the lines of one block into its fields, in the order of their
/// entries.
pub fn decode_block(block: &Vec<String>) -> (r: Result<Vec<CheckLine>, BlockDecodeError>)
    ensures
        match r {
            Ok(ls) => decode_lines(lines_view(block@)) == Ok::<Seq<FieldView>, BlockDecodeError>(
                fields_view(ls@),
            ),
            Err(x) => decode_lines(lines_view(block@)) == Err::<Seq<FieldView>, BlockDecodeError>(x),
        },
{
    let ghost lines = lines_view(block@);
    let mut first: usize = 0;
    if block.len() > 0 {
        let root = chars_of(ROOT_KEY);
        let head = chars_of(block[0].as_str());
        if same_chars(&head, &root) {
            first = 1;
        }
    }
    assert(entry_lines(lines) == lines.skip(first as int));
    match read_entries(block, first) {
        None => Err(BlockDecodeError::Malformed),
        Some(es) => decode_all(&es),
    }
}

/// The record that a block gives, its lines tagged with `process_type`, or
/// why it gives none.
pub open spec fn check_of_block(process_type: ProcessType, lines: Seq<Seq<char>>) -> Result<
    CheckView,
    BlockDecodeError,
> {
    match decode_lines(lines) {
        Ok(fs) => Ok(CheckView { process_type, ..assemble(fs) }),
        Err(x) => Err(x),
    }
}

/// Decodes one block into its record, tagged with `process_type`.
pub fn parsed_content_security_check(process_type: ProcessType, block: Vec<String>) -> (r: Result<
    ContentSecurityCheck,
    BlockDecodeError,
>)
    ensures
        match r {
            Ok(c) => check_of_block(process_type, lines_view(block@)) == Ok::<CheckView, BlockDecodeError>(c@),
            Err(x) => check_of_block(process_type, lines_view(block@)) == Err::<CheckView, BlockDecodeError>(x),
        },
{
    match decode_block(&block) {
        Ok(lines) => {
            let mut check = ContentSecurityCheck::from_lines(lines);
            check.process_type = process_type;
            Ok(check)
        },
        Err(x) => Err(x),
    }
}

} // verus!
