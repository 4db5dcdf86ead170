//! Principals: the security identities attached to a load, and the small
//! text language in which the log writes them.

use crate::text::{chars_of, range_is, string_of_range, string_push};
use vstd::prelude::*;
use vstd::string::*;

verus! {

/// The text of the system principal.
pub const SYSTEM_PRINCIPAL: &'static str = "SystemPrincipal";

/// The text of the null principal.
pub const NULL_PRINCIPAL: &'static str = "NullPrincipal";

/// The text of an absent principal.
pub const NULL_PTR: &'static str = "nullptr";

/// What opens an expanded principal.
pub const EXPANDED_PREFIX: &'static str = "[Expanded Principal [";

/// What closes an expanded principal.
pub const EXPANDED_SUFFIX: &'static str = "]]";

/// A security identity.
#[derive(Debug, PartialEq)]
pub enum Principal {
    /// A principal backed by a URL, held in the form that URL parsing writes.
    ContentPrincipal(String),
    /// An ordered group of principals; the order is significant.
    ExpandedPrincipal(Vec<Principal>),
    SystemPrincipal,
    NullPrincipal,
    NullPtr,
}

/// Why a text is not a principal.
#[derive(Debug, Clone, Copy, PartialEq, Eq, Structural)]
pub enum PrincipalParseError {
    /// The text matches none of the forms of a principal.
    InvalidPrincipal,
}

/// The mathematical value of a principal.
pub enum PrincipalView {
    Content(Seq<char>),
    Expanded(Seq<PrincipalView>),
    System,
    Null,
    NullPtr,
}

/// The value of `p`.
pub open spec fn principal_view(p: Principal) -> PrincipalView
    decreases p, 0int,
{
    match p {
        Principal::ContentPrincipal(u) => PrincipalView::Content(u@),
        Principal::ExpandedPrincipal(v) => PrincipalView::Expanded(views_from(v, 0)),
        Principal::SystemPrincipal => PrincipalView::System,
        Principal::NullPrincipal => PrincipalView::Null,
        Principal::NullPtr => PrincipalView::NullPtr,
    }
}

/// The values of `v[i..]`.
pub open spec fn views_from(v: Vec<Principal>, i: int) -> Seq<PrincipalView>
    decreases v, v.len() - i,
{
    if 0 <= i < v.len() {
        seq![principal_view(v[i])] + views_from(v, i + 1)
    } else {
        Seq::empty()
    }
}

impl View for Principal {
    type V = PrincipalView;

    open spec fn view(&self) -> PrincipalView {
        principal_view(*self)
    }
}

/// `views_from` holds the value of each element, in order.
pub proof fn lemma_views_from(v: Vec<Principal>, i: int)
    requires
        0 <= i <= v.len(),
    ensures
        views_from(v, i).len() == v.len() - i,
        forall|j: int| 0 <= j < v.len() - i ==> #[trigger] views_from(v, i)[j] == principal_view(v[i + j]),
    decreases v.len() - i,
{
    if i < v.len() {
        lemma_views_from(v, i + 1);
    }
}

/// The text of a principal.
pub open spec fn format_principal(p: PrincipalView) -> Seq<char>
    decreases p, 0int,
{
    match p {
        PrincipalView::Content(u) => u,
        PrincipalView::Expanded(v) => EXPANDED_PREFIX@ + format_items(v, 0) + EXPANDED_SUFFIX@,
        PrincipalView::System => SYSTEM_PRINCIPAL@,
        PrincipalView::Null => NULL_PRINCIPAL@,
        PrincipalView::NullPtr => NULL_PTR@,
    }
}

/// The texts of `v[i..]`, joined by single spaces.
pub open spec fn format_items(v: Seq<PrincipalView>, i: int) -> Seq<char>
    decreases v, v.len() - i,
{
    if 0 <= i < v.len() - 1 {
        format_principal(v[i]) + seq![' '] + format_items(v, i + 1)
    } else if 0 <= i == v.len() - 1 {
        format_principal(v[i])
    } else {
        Seq::empty()
    }
}

/// Bracket depth: how many more `[` than `]` a text holds. Every square
/// bracket counts, those inside a URL as well as those of a nested expanded
/// principal; a member is cut only at a space where the depth is zero.
pub open spec fn nest(t: Seq<char>) -> int
    decreases t.len(),
{
    if t.len() == 0 {
        0
    } else {
        nest(t.drop_last()) + if t.last() == '[' {
            1int
        } else if t.last() == ']' {
            -1int
        } else {
            0int
        }
    }
}

/// A space of `t` outside every bracket: a place where the members of an
/// expanded principal are separated.
pub open spec fn is_top_space(t: Seq<char>, k: int) -> bool {
    0 <= k < t.len() && t[k] == ' ' && nest(t.take(k)) == 0
}

/// The first separating space of `t`, or `t.len()` where it has none.
#[verifier::opaque]
pub open spec fn first_top_space(t: Seq<char>) -> int {
    if exists|k: int| is_top_space(t, k) {
        choose|k: int| is_top_space(t, k) && forall|j: int| 0 <= j < k ==> !is_top_space(t, j)
    } else {
        t.len() as int
    }
}

/// Whether `s` has the brackets of an expanded principal around it.
pub open spec fn is_expanded_form(s: Seq<char>) -> bool {
    &&& s.len() >= EXPANDED_PREFIX@.len() + EXPANDED_SUFFIX@.len()
    &&& s.take(EXPANDED_PREFIX@.len() as int) == EXPANDED_PREFIX@
    &&& s.skip(s.len() - EXPANDED_SUFFIX@.len()) == EXPANDED_SUFFIX@
}

/// What the brackets of an expanded principal enclose.
pub open spec fn expanded_interior(s: Seq<char>) -> Seq<char> {
    s.subrange(EXPANDED_PREFIX@.len() as int, s.len() - EXPANDED_SUFFIX@.len())
}

/// The serialization of the URL that `s` parses as, or `None` where `s` is
/// not a valid URL.
pub uninterp spec fn url_serialization(s: Seq<char>) -> Option<Seq<char>>;

/// The principal that text `s` denotes, or `None` where it denotes none.
/// The three literal words come first, then the expanded form, whose members
/// are separated by the spaces outside brackets, then a URL.
pub open spec fn parse_principal(s: Seq<char>) -> Option<PrincipalView>
    decreases s.len(), 0int,
{
    if s == SYSTEM_PRINCIPAL@ {
        Some(PrincipalView::System)
    } else if s == NULL_PRINCIPAL@ {
        Some(PrincipalView::Null)
    } else if s == NULL_PTR@ {
        Some(PrincipalView::NullPtr)
    } else if is_expanded_form(s) {
        proof {
            reveal_strlit("[Expanded Principal [");
        }
        match parse_items(expanded_interior(s)) {
            Some(ps) => Some(PrincipalView::Expanded(ps)),
            None => None,
        }
    } else {
        match url_serialization(s) {
            Some(u) => Some(PrincipalView::Content(u)),
            None => None,
        }
    }
}

/// The principals that the members of `t` denote, or `None` where one of
/// them denotes none.
pub open spec fn parse_items(t: Seq<char>) -> Option<Seq<PrincipalView>>
    decreases t.len(), 1int,
{
    let k = first_top_space(t);
    if 0 <= k < t.len() {
        match parse_principal(t.take(k)) {
            Some(p) => match parse_items(t.skip(k + 1)) {
                Some(ps) => Some(seq![p] + ps),
                None => None,
            },
            None => None,
        }
    } else {
        match parse_principal(t) {
            Some(p) => Some(seq![p]),
            None => None,
        }
    }
}

impl std::str::FromStr for Principal {
    type Err = PrincipalParseError;

    /// Reads a principal from its text: see `Principal::parse`.
    fn from_str(text: &str) -> (r: Result<Principal, PrincipalParseError>)
        ensures
            match r {
                Ok(p) => parse_principal(text@) == Some(p@),
                Err(_) => parse_principal(text@) is None,
            },
    {
        Principal::parse(text)
    }
}

/// `acc` followed by the principals of `rest`, where `rest` denotes some.
pub open spec fn prepend(acc: Seq<PrincipalView>, rest: Option<Seq<PrincipalView>>) -> Option<Seq<PrincipalView>> {
    match rest {
        Some(ps) => Some(acc + ps),
        None => None,
    }
}

/// The first separating space is the first place that separates, if any.
pub proof fn lemma_first_top_space(t: Seq<char>, m: int)
    requires
        is_top_space(t, m) || m == t.len(),
        forall|j: int| 0 <= j < m ==> !is_top_space(t, j),
    ensures
        first_top_space(t) == m,
{
    reveal(first_top_space);
    if exists|k: int| is_top_space(t, k) {
        let k = choose|k: int| is_top_space(t, k) && forall|j: int| 0 <= j < k ==> !is_top_space(t, j);
        if m == t.len() {
            assert(k < m);
        }
        assert(!(k < m));
        assert(!(m < k));
    }
}

/// A text that can stand as a member of an expanded principal: its square
/// brackets balance and it has no space outside them. A URL with an
/// unbalanced bracket (`http://a/]`) or with a space is not separable, so
/// next to other members it would not be read back as one member.
pub open spec fn separable(t: Seq<char>) -> bool {
    &&& nest(t) == 0
    &&& forall|k: int| !#[trigger] is_top_space(t, k)
}

/// Whether `p` is a principal that reading a text can give: a content
/// principal holds a URL in the form that URL parsing writes (which begins
/// with its scheme, so it is none of the other forms), and an expanded one
/// has at least one member, each of them such a principal whose text is
/// `separable`. The last condition excludes, inside an expanded principal,
/// content principals whose URL has unbalanced square brackets or a space.
pub open spec fn constructible(p: PrincipalView) -> bool
    decreases p, 0int,
{
    match p {
        PrincipalView::Content(u) => {
            &&& url_serialization(u) == Some(u)
            &&& u != SYSTEM_PRINCIPAL@
            &&& u != NULL_PRINCIPAL@
            &&& u != NULL_PTR@
            &&& !is_expanded_form(u)
        },
        PrincipalView::Expanded(v) => v.len() > 0 && members_constructible(v, 0),
        _ => true,
    }
}

/// Whether each of `v[i..]` is constructible and has a separable text.
pub open spec fn members_constructible(v: Seq<PrincipalView>, i: int) -> bool
    decreases v, v.len() - i,
{
    if 0 <= i < v.len() {
        &&& constructible(v[i])
        &&& separable(format_principal(v[i]))
        &&& members_constructible(v, i + 1)
    } else {
        true
    }
}

/// Reading the text of a constructible principal gives that principal back.
pub proof fn lemma_parse_format(p: Principal)
    requires
        constructible(p@),
    ensures
        parse_principal(format_principal(p@)) == Some(p@),
{
    lemma_round_trip(p@);
}

/// Reading the text of a constructible principal value gives it back.
pub proof fn lemma_round_trip(p: PrincipalView)
    requires
        constructible(p),
    ensures
        parse_principal(format_principal(p)) == Some(p),
    decreases p, 0int,
{
    match p {
        PrincipalView::Expanded(v) => {
            let f = format_principal(p);
            let items = format_items(v, 0);
            reveal_strlit("[Expanded Principal [");
            reveal_strlit("]]");
            reveal_strlit("SystemPrincipal");
            reveal_strlit("NullPrincipal");
            reveal_strlit("nullptr");
            assert(f[0] == '[');
            assert(f != SYSTEM_PRINCIPAL@ && f != NULL_PRINCIPAL@ && f != NULL_PTR@) by {
                assert(SYSTEM_PRINCIPAL@[0] != '[');
                assert(NULL_PRINCIPAL@[0] != '[');
                assert(NULL_PTR@[0] != '[');
            }
            assert(f.take(EXPANDED_PREFIX@.len() as int) == EXPANDED_PREFIX@);
            assert(f.skip(f.len() - EXPANDED_SUFFIX@.len()) == EXPANDED_SUFFIX@);
            assert(expanded_interior(f) == items);
            assert(is_expanded_form(f));
            lemma_items_round_trip(v, 0);
            assert(v.skip(0) == v);
            assert(parse_items(expanded_interior(f)) == Some(v));
            assert(parse_principal(f) == Some(PrincipalView::Expanded(v)));
            assert(f == format_principal(p));
        },
        PrincipalView::Content(u) => {
            assert(parse_principal(u) == Some(PrincipalView::Content(u)));
        },
        _ => {
            reveal_strlit("SystemPrincipal");
            reveal_strlit("NullPrincipal");
            reveal_strlit("nullptr");
            assert(SYSTEM_PRINCIPAL@ != NULL_PRINCIPAL@);
            assert(NULL_PRINCIPAL@ != NULL_PTR@ && SYSTEM_PRINCIPAL@ != NULL_PTR@) by {
                assert(NULL_PTR@[0] != NULL_PRINCIPAL@[0]);
            }
        },
    }
}

/// Reading the joined texts of constructible members gives them back.
pub proof fn lemma_items_round_trip(v: Seq<PrincipalView>, i: int)
    requires
        0 <= i < v.len(),
        members_constructible(v, i),
    ensures
        parse_items(format_items(v, i)) == Some(v.skip(i)),
    decreases v, v.len() - i,
{
    let f = format_principal(v[i]);
    let t = format_items(v, i);
    lemma_round_trip(v[i]);
    if i < v.len() - 1 {
        let rest = format_items(v, i + 1);
        assert(t == f + seq![' '] + rest);
        assert(t.take(f.len() as int) == f);
        assert forall|j: int| 0 <= j < f.len() implies !is_top_space(t, j) by {
            assert(t.take(j) == f.take(j));
            assert(!is_top_space(f, j));
        }
        assert(is_top_space(t, f.len() as int));
        lemma_first_top_space(t, f.len() as int);
        assert(t.skip(f.len() + 1int) == rest);
        lemma_items_round_trip(v, i + 1);
        assert(seq![v[i]] + v.skip(i + 1) == v.skip(i));
    } else {
        assert(t == f);
        assert forall|j: int| !is_top_space(t, j) by {
            assert(!is_top_space(f, j));
        }
        lemma_first_top_space(t, t.len() as int);
        assert(seq![v[i]] == v.skip(i));
    }
}

/// Relies on `url::Url::parse`, and on `String::from(Url)`, which hands out
/// the URL's serialization.
#[verifier::external_body]
fn parse_url(s: &str) -> (r: Option<String>)
    ensures
        r matches Some(u) ==> url_serialization(s@) == Some(u@),
        r is None ==> url_serialization(s@) is None,
{
    match url::Url::parse(s) {
        Ok(u) => Some(String::from(u)),
        Err(_) => None,
    }
}

impl Principal {
    /// The principal that `parsed` makes, where `parsed` is what URL parsing
    /// gave for a text: the serialization, or `None` for an invalid URL.
    pub fn from_parsed_url(parsed: Option<String>) -> (r: Result<Principal, PrincipalParseError>)
        ensures
            match parsed {
                Some(u) => r matches Ok(p) && p@ == PrincipalView::Content(u@),
                None => r == Err::<Principal, PrincipalParseError>(PrincipalParseError::InvalidPrincipal),
            },
    {
        match parsed {
            Some(u) => Ok(Principal::ContentPrincipal(u)),
            None => Err(PrincipalParseError::InvalidPrincipal),
        }
    }

    /// The text of this principal: the literal words for the three named
    /// principals, the URL for a content principal, and for an expanded one
    /// the members' texts joined by single spaces inside its brackets.
    pub fn to_string(&self) -> (r: String)
        ensures
            r@ == format_principal(self@),
        decreases self, 0int,
    {
        match self {
            Principal::ContentPrincipal(u) => u.clone(),
            Principal::ExpandedPrincipal(v) => {
                let mut r = EXPANDED_PREFIX.to_owned();
                proof {
                    lemma_views_from(*v, 0);
                }
                if v.len() > 0 {
                    let items = Self::items_to_string(v, 0);
                    r.append(items.as_str());
                }
                r.append(EXPANDED_SUFFIX);
                r
            },
            Principal::SystemPrincipal => SYSTEM_PRINCIPAL.to_owned(),
            Principal::NullPrincipal => NULL_PRINCIPAL.to_owned(),
            Principal::NullPtr => NULL_PTR.to_owned(),
        }
    }

    /// The texts of `v[i..]`, joined by single spaces.
    fn items_to_string(v: &Vec<Principal>, i: usize) -> (r: String)
        requires
            i < v@.len(),
        ensures
            r@ == format_items(views_from(*v, 0), i as int),
        decreases v, v@.len() - i,
    {
        proof {
            lemma_views_from(*v, 0);
        }
        let mut r = v[i].to_string();
        if i + 1 < v.len() {
            string_push(&mut r, ' ');
            let rest = Self::items_to_string(v, i + 1);
            r.append(rest.as_str());
        }
        r
    }

    /// Reads a principal from its text.
    pub fn parse(text: &str) -> (r: Result<Principal, PrincipalParseError>)
        ensures
            match r {
                Ok(p) => parse_principal(text@) == Some(p@),
                Err(_) => parse_principal(text@) is None,
            },
    {
        let cs = chars_of(text);
        assert(cs@.subrange(0, cs@.len() as int) == cs@);
        Self::parse_range(&cs, 0, cs.len())
    }

    /// Reads the principal whose text is `cs[lo..hi]`.
    fn parse_range(cs: &Vec<char>, lo: usize, hi: usize) -> (r: Result<Principal, PrincipalParseError>)
        requires
            lo <= hi <= cs@.len(),
        ensures
            match r {
                Ok(p) => parse_principal(cs@.subrange(lo as int, hi as int)) == Some(p@),
                Err(_) => parse_principal(cs@.subrange(lo as int, hi as int)) is None,
            },
        decreases hi - lo,
    {
        let ghost s = cs@.subrange(lo as int, hi as int);
        let system = chars_of(SYSTEM_PRINCIPAL);
        if range_is(cs, lo, hi, &system) {
            return Ok(Principal::SystemPrincipal);
        }
        let null = chars_of(NULL_PRINCIPAL);
        if range_is(cs, lo, hi, &null) {
            return Ok(Principal::NullPrincipal);
        }
        let nullptr = chars_of(NULL_PTR);
        if range_is(cs, lo, hi, &nullptr) {
            return Ok(Principal::NullPtr);
        }
        let prefix = chars_of(EXPANDED_PREFIX);
        let suffix = chars_of(EXPANDED_SUFFIX);
        proof {
            reveal_strlit("[Expanded Principal [");
            reveal_strlit("]]");
        }
        if hi - lo >= prefix.len() + suffix.len() && range_is(cs, lo, lo + prefix.len(), &prefix)
            && range_is(cs, hi - suffix.len(), hi, &suffix) {
            let a = lo + prefix.len();
            let b = hi - suffix.len();
            proof {
                assert(s.take(prefix@.len() as int) == cs@.subrange(lo as int, a as int));
                assert(s.skip(s.len() - suffix@.len()) == cs@.subrange(b as int, hi as int));
                assert(is_expanded_form(s));
                assert(expanded_interior(s) == cs@.subrange(a as int, b as int));
                assert(parse_principal(s) == match parse_items(expanded_interior(s)) {
                    Some(ps) => Some(PrincipalView::Expanded(ps)),
                    None => None,
                });
            }
            let ghost t = cs@.subrange(a as int, b as int);
            let ghost mut acc: Seq<PrincipalView> = Seq::empty();
            let mut members: Vec<Principal> = Vec::new();
            let mut start: usize = a;
            let mut k: usize = a;
            let mut opens: usize = 0;
            let mut closes: usize = 0;
            assert(cs@.subrange(a as int, b as int) == t);
            while k < b
                invariant
                    lo < a <= start <= k <= b < hi <= cs@.len(),
                    t == cs@.subrange(a as int, b as int),
                    s == cs@.subrange(lo as int, hi as int),
                    parse_principal(s) == match parse_items(t) {
                        Some(ps) => Some(PrincipalView::Expanded(ps)),
                        None => None,
                    },
                    opens + closes <= k - start,
                    opens - closes == nest(cs@.subrange(start as int, k as int)),
                    forall|j: int|
                        0 <= j < k - start ==> !#[trigger] is_top_space(
                            cs@.subrange(start as int, b as int),
                            j,
                        ),
                    members@.len() == acc.len(),
                    forall|i: int| 0 <= i < acc.len() ==> principal_view(#[trigger] members@[i]) == acc[i],
                    parse_items(t) == prepend(acc, parse_items(cs@.subrange(start as int, b as int))),
                decreases b - k,
            {
                let ghost rest = cs@.subrange(start as int, b as int);
                let c = cs[k];
                assert(rest.take(k - start) == cs@.subrange(start as int, k as int));
                if c == ' ' && opens == closes {
                    assert(is_top_space(rest, k - start));
                    proof {
                        lemma_first_top_space(rest, k - start);
                        assert(rest.skip(k - start + 1) == cs@.subrange(k + 1, b as int));
                    }
                    let member = Self::parse_range(cs, start, k);
                    match member {
                        Ok(p) => {
                            proof {
                                acc = acc.push(p@);
                            }
                            members.push(p);
                        },
                        Err(e) => {
                            assert(parse_items(rest) is None);
                            assert(parse_items(t) is None);
                            assert(parse_principal(s) is None);
                            return Err(e);
                        },
                    }
                    assert(acc.drop_last() + seq![acc.last()] == acc);
                    start = k + 1;
                    opens = 0;
                    closes = 0;
                    assert(cs@.subrange(start as int, k + 1) == Seq::<char>::empty());
                } else {
                    assert(cs@.subrange(start as int, k + 1).drop_last() == cs@.subrange(
                        start as int,
                        k as int,
                    ));
                    if c == '[' {
                        opens = opens + 1;
                    } else if c == ']' {
                        closes = closes + 1;
                    }
                }
                k = k + 1;
            }
            let ghost rest = cs@.subrange(start as int, b as int);
            proof {
                lemma_first_top_space(rest, rest.len() as int);
            }
            let last = Self::parse_range(cs, start, b);
            match last {
                Ok(p) => {
                    assert(parse_items(rest) == Some(seq![p@]));
                    assert(acc + seq![p@] == acc.push(p@));
                    proof {
                        acc = acc.push(p@);
                    }
                    members.push(p);
                },
                Err(e) => {
                    assert(parse_items(rest) is None);
                    assert(parse_items(t) is None);
                    assert(parse_principal(s) is None);
                    return Err(e);
                },
            }
            proof {
                lemma_views_from(members, 0);
                assert(views_from(members, 0) == acc);
                assert(parse_items(t) == Some(acc));
            }
            return Ok(Principal::ExpandedPrincipal(members));
        }
        proof {
            if is_expanded_form(s) {
                assert(s.take(prefix@.len() as int) == cs@.subrange(lo as int, lo + prefix@.len()));
                assert(s.skip(s.len() - suffix@.len()) == cs@.subrange(hi - suffix@.len(), hi as int));
            }
        }
        let text = string_of_range(cs, lo, hi);
        Self::from_parsed_url(parse_url(text.as_str()))
    }
}

} // verus!
