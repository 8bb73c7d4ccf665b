use unicode_segmentation::UnicodeSegmentation;
use vstd::prelude::*;
use vstd::string::*;

verus! {

/// Longest accepted subscriber name, in extended grapheme clusters.
pub const MAX_NAME_GRAPHEMES: usize = 256;

/// Number of extended grapheme clusters in a string.
pub uninterp spec fn grapheme_count(s: Seq<char>) -> nat;

/// Relies on `UnicodeSegmentation::graphemes(s, true)`, counted: the number of
/// extended grapheme clusters depends on the characters alone, and each
/// cluster holds at least one character.
#[verifier::external_body]
fn count_graphemes(s: &str) -> (r: usize)
    ensures
        r as nat == grapheme_count(s@),
        r as nat <= s@.len(),
{
    s.graphemes(true).count()
}

/// Unicode `White_Space` characters, as `char::is_whitespace` classifies them.
pub open spec fn is_whitespace(c: char) -> bool {
    ('\u{9}' <= c && c <= '\u{d}') || c == ' ' || c == '\u{85}' || c == '\u{a0}'
        || c == '\u{1680}' || ('\u{2000}' <= c && c <= '\u{200a}') || c == '\u{2028}'
        || c == '\u{2029}' || c == '\u{202f}' || c == '\u{205f}' || c == '\u{3000}'
}

/// Control characters (general category Cc), as `char::is_control` classifies them.
pub open spec fn is_control(c: char) -> bool {
    c <= '\u{1f}' || ('\u{7f}' <= c && c <= '\u{9f}')
}

/// Characters that may not appear in a subscriber name.
pub open spec fn is_forbidden_name_char(c: char) -> bool {
    c == '/' || c == '(' || c == ')' || c == '"' || c == '<' || c == '>' || c == '\\'
        || c == '{' || c == '}'
}

/// Index of the first character of `s` that is not whitespace (`s.len()` if none).
pub open spec fn trim_start_index(s: Seq<char>) -> int
    decreases s.len(),
{
    if s.len() > 0 && is_whitespace(s[0]) {
        1 + trim_start_index(s.drop_first())
    } else {
        0
    }
}

/// Index just past the last character of `s` that is not whitespace (0 if none).
pub open spec fn trim_end_index(s: Seq<char>) -> int
    decreases s.len(),
{
    if s.len() > 0 && is_whitespace(s.last()) {
        trim_end_index(s.drop_last())
    } else {
        s.len() as int
    }
}

/// `s` without its leading and trailing whitespace.
pub open spec fn trimmed(s: Seq<char>) -> Seq<char> {
    let end = trim_end_index(s);
    if end == 0 {
        Seq::empty()
    } else {
        s.subrange(trim_start_index(s), end)
    }
}

/// A raw name that is acceptable: not empty once trimmed, at most the
/// grapheme limit, with no forbidden or control character anywhere.
pub open spec fn is_valid_name(s: Seq<char>) -> bool {
    &&& trimmed(s).len() > 0
    &&& grapheme_count(s) <= MAX_NAME_GRAPHEMES
    &&& forall|i: int| 0 <= i < s.len() ==> !is_forbidden_name_char(#[trigger] s[i]) && !is_control(s[i])
}

/// The error message for a rejected name.
pub open spec fn invalid_name_message(s: Seq<char>) -> Seq<char> {
    s + " is not a valid subscriber name."@
}

/// The error message for a rejected email address.
pub open spec fn invalid_email_message(s: Seq<char>) -> Seq<char> {
    s + " is not a valid subscriber email."@
}

pub fn is_whitespace_char(c: char) -> (r: bool)
    ensures
        r == is_whitespace(c),
{
    ('\u{9}' <= c && c <= '\u{d}') || c == ' ' || c == '\u{85}' || c == '\u{a0}'
        || c == '\u{1680}' || ('\u{2000}' <= c && c <= '\u{200a}') || c == '\u{2028}'
        || c == '\u{2029}' || c == '\u{202f}' || c == '\u{205f}' || c == '\u{3000}'
}

proof fn lemma_trim_start_bounds(s: Seq<char>)
    ensures
        0 <= trim_start_index(s) <= s.len(),
        forall|i: int| 0 <= i < trim_start_index(s) ==> is_whitespace(#[trigger] s[i]),
        trim_start_index(s) < s.len() ==> !is_whitespace(s[trim_start_index(s)]),
    decreases s.len(),
{
    if s.len() > 0 && is_whitespace(s[0]) {
        lemma_trim_start_bounds(s.drop_first());
        assert forall|i: int| 0 <= i < trim_start_index(s) implies is_whitespace(#[trigger] s[i]) by {
            if i > 0 {
                assert(s[i] == s.drop_first()[i - 1]);
            }
        }
    }
}

proof fn lemma_trim_end_bounds(s: Seq<char>)
    ensures
        0 <= trim_end_index(s) <= s.len(),
        forall|i: int| trim_end_index(s) <= i < s.len() ==> is_whitespace(#[trigger] s[i]),
        trim_end_index(s) > 0 ==> !is_whitespace(s[trim_end_index(s) - 1]),
    decreases s.len(),
{
    if s.len() > 0 && is_whitespace(s.last()) {
        lemma_trim_end_bounds(s.drop_last());
        assert forall|i: int| trim_end_index(s) <= i < s.len() implies is_whitespace(#[trigger] s[i]) by {
            if i < s.len() - 1 {
                assert(s[i] == s.drop_last()[i]);
            }
        }
    }
}

/// Whitespace characters at the front of `s` precede the last non-whitespace one.
proof fn lemma_trim_order(s: Seq<char>)
    requires
        trim_end_index(s) > 0,
    ensures
        trim_start_index(s) < trim_end_index(s),
{
    lemma_trim_start_bounds(s);
    lemma_trim_end_bounds(s);
    let e = trim_end_index(s);
    if trim_start_index(s) >= e {
        assert(is_whitespace(s[e - 1]));
    }
}

/// `s` without its leading and trailing whitespace.
pub fn trim(s: &str) -> (r: &str)
    ensures
        r@ == trimmed(s@),
{
    let n = s.unicode_len();
    let mut start: usize = 0;
    assert(s@.subrange(0, n as int) =~= s@);
    while start < n && is_whitespace_char(s.get_char(start))
        invariant
            n == s@.len(),
            start <= n,
            trim_start_index(s@) == start + trim_start_index(s@.subrange(start as int, n as int)),
        decreases n - start,
    {
        assert(s@.subrange(start as int + 1, n as int) =~= s@.subrange(start as int, n as int).drop_first());
        start = start + 1;
    }
    assert(trim_start_index(s@.subrange(start as int, n as int)) == 0);
    let mut end: usize = n;
    assert(s@.subrange(0, n as int) =~= s@);
    while end > 0 && is_whitespace_char(s.get_char(end - 1))
        invariant
            n == s@.len(),
            end <= n,
            trim_end_index(s@) == trim_end_index(s@.subrange(0, end as int)),
        decreases end,
    {
        assert(s@.subrange(0, end as int - 1) =~= s@.subrange(0, end as int).drop_last());
        end = end - 1;
    }
    assert(trim_end_index(s@) == end);
    if end == 0 {
        s.substring_char(0, 0)
    } else {
        proof { lemma_trim_order(s@); }
        s.substring_char(start, end)
    }
}

/// Longest accepted email address, in characters.
pub const MAX_EMAIL_LEN: usize = 254;

/// Longest accepted local part (before the `@`), in characters.
pub const MAX_LOCAL_LEN: usize = 64;

pub open spec fn is_ascii_alnum(c: char) -> bool {
    ('a' <= c && c <= 'z') || ('A' <= c && c <= 'Z') || ('0' <= c && c <= '9')
}

/// Characters that may stand anywhere in the local part of an address.
pub open spec fn is_local_char(c: char) -> bool {
    is_ascii_alnum(c) || c == '!' || c == '#' || c == '$' || c == '%' || c == '&' || c == '\''
        || c == '*' || c == '+' || c == '-' || c == '/' || c == '=' || c == '?' || c == '^'
        || c == '_' || c == '`' || c == '{' || c == '|' || c == '}' || c == '~'
}

/// Position `i` of a local part is acceptable: an allowed character, or a dot
/// that is neither first, last, nor followed by another dot.
pub open spec fn local_ok_at(l: Seq<char>, i: int) -> bool {
    is_local_char(l[i]) || (l[i] == '.' && 0 < i && i + 1 < l.len() && l[i + 1] != '.')
}

pub open spec fn is_valid_local_part(l: Seq<char>) -> bool {
    &&& 0 < l.len() <= MAX_LOCAL_LEN
    &&& forall|i: int| 0 <= i < l.len() ==> #[trigger] local_ok_at(l, i)
}

/// Position `i` of a domain is acceptable: a letter or digit, or a hyphen or dot
/// inside the domain, a dot only between two letters or digits, so that every
/// label starts and ends with a letter or digit.
pub open spec fn domain_ok_at(d: Seq<char>, i: int) -> bool {
    is_ascii_alnum(d[i]) || (d[i] == '-' && 0 < i && i + 1 < d.len()) || (d[i] == '.' && 0 < i
        && i + 1 < d.len() && is_ascii_alnum(d[i - 1]) && is_ascii_alnum(d[i + 1]))
}

pub open spec fn is_valid_domain(d: Seq<char>) -> bool {
    &&& 0 < d.len()
    &&& forall|i: int| 0 <= i < d.len() ==> #[trigger] domain_ok_at(d, i)
}

/// `s` is a syntactically valid address: `local@domain`, within the length limit.
pub open spec fn is_valid_email(s: Seq<char>) -> bool {
    &&& s.len() <= MAX_EMAIL_LEN
    &&& exists|i: int|
        0 <= i < s.len() && s[i] == '@' && #[trigger] is_valid_local_part(s.subrange(0, i))
            && is_valid_domain(s.subrange(i + 1, s.len() as int))
}

/// A validated subscriber name: trimmed, non-empty, at most the grapheme limit,
/// free of forbidden and control characters.
pub struct SubscriberName {
    value: String,
}

impl View for SubscriberName {
    type V = Seq<char>;

    closed spec fn view(&self) -> Seq<char> {
        self.value@
    }
}

/// A syntactically validated email address.
pub struct SubscriberEmail {
    value: String,
}

impl View for SubscriberEmail {
    type V = Seq<char>;

    closed spec fn view(&self) -> Seq<char> {
        self.value@
    }
}

/// The characters of `s`, one by one.
pub fn chars_of(s: &str) -> (r: Vec<char>)
    ensures
        r@ == s@,
{
    let n = s.unicode_len();
    let mut out: Vec<char> = Vec::new();
    let mut i: usize = 0;
    while i < n
        invariant
            n == s@.len(),
            i <= n,
            out@ == s@.subrange(0, i as int),
        decreases n - i,
    {
        out.push(s.get_char(i));
        i = i + 1;
    }
    assert(out@ =~= s@);
    out
}

fn is_control_char(c: char) -> (r: bool)
    ensures
        r == is_control(c),
{
    c <= '\u{1f}' || ('\u{7f}' <= c && c <= '\u{9f}')
}

fn is_forbidden_char(c: char) -> (r: bool)
    ensures
        r == is_forbidden_name_char(c),
{
    c == '/' || c == '(' || c == ')' || c == '"' || c == '<' || c == '>' || c == '\\' || c == '{'
        || c == '}'
}

fn is_alnum_char(c: char) -> (r: bool)
    ensures
        r == is_ascii_alnum(c),
{
    ('a' <= c && c <= 'z') || ('A' <= c && c <= 'Z') || ('0' <= c && c <= '9')
}

fn is_local_part_char(c: char) -> (r: bool)
    ensures
        r == is_local_char(c),
{
    is_alnum_char(c) || c == '!' || c == '#' || c == '$' || c == '%' || c == '&' || c == '\''
        || c == '*' || c == '+' || c == '-' || c == '/' || c == '=' || c == '?' || c == '^'
        || c == '_' || c == '`' || c == '{' || c == '|' || c == '}' || c == '~'
}

/// Whether `cs[lo..hi]` is a valid local part.
fn check_local_part(cs: &Vec<char>, lo: usize, hi: usize) -> (r: bool)
    requires
        lo <= hi <= cs@.len(),
    ensures
        r == is_valid_local_part(cs@.subrange(lo as int, hi as int)),
{
    let ghost l = cs@.subrange(lo as int, hi as int);
    if lo == hi || hi - lo > MAX_LOCAL_LEN {
        return false;
    }
    let mut i: usize = lo;
    while i < hi
        invariant
            lo <= i <= hi <= cs@.len(),
            l == cs@.subrange(lo as int, hi as int),
            forall|k: int| 0 <= k < i - lo ==> #[trigger] local_ok_at(l, k),
        decreases hi - i,
    {
        let c = cs[i];
        let ok = is_local_part_char(c) || (c == '.' && i > lo && i + 1 < hi && cs[i + 1] != '.');
        assert(l[i - lo] == c);
        if !ok {
            assert(!local_ok_at(l, i - lo));
            return false;
        }
        i = i + 1;
    }
    true
}

/// Whether `cs[lo..hi]` is a valid domain.
fn check_domain(cs: &Vec<char>, lo: usize, hi: usize) -> (r: bool)
    requires
        lo <= hi <= cs@.len(),
    ensures
        r == is_valid_domain(cs@.subrange(lo as int, hi as int)),
{
    let ghost d = cs@.subrange(lo as int, hi as int);
    if lo == hi {
        return false;
    }
    let mut i: usize = lo;
    while i < hi
        invariant
            lo <= i <= hi <= cs@.len(),
            d == cs@.subrange(lo as int, hi as int),
            forall|k: int| 0 <= k < i - lo ==> #[trigger] domain_ok_at(d, k),
        decreases hi - i,
    {
        let c = cs[i];
        let inner = i > lo && i + 1 < hi;
        let ok = is_alnum_char(c) || (c == '-' && inner) || (c == '.' && inner && is_alnum_char(
            cs[i - 1],
        ) && is_alnum_char(cs[i + 1]));
        assert(d[i - lo] == c);
        if !ok {
            assert(!domain_ok_at(d, i - lo));
            return false;
        }
        i = i + 1;
    }
    true
}

impl SubscriberName {
    /// Whether the raw name `s`, made of `graphemes` grapheme clusters, is
    /// acceptable.
    pub fn is_acceptable(s: &str, graphemes: usize) -> (r: bool)
        ensures
            r == (trimmed(s@).len() > 0 && graphemes <= MAX_NAME_GRAPHEMES && forall|i: int|
                0 <= i < s@.len() ==> !is_forbidden_name_char(#[trigger] s@[i]) && !is_control(s@[i])),
    {
        let t = trim(s);
        if t.unicode_len() == 0 || graphemes > MAX_NAME_GRAPHEMES {
            return false;
        }
        let cs = chars_of(s);
        let mut i: usize = 0;
        while i < cs.len()
            invariant
                i <= cs@.len(),
                cs@ == s@,
                forall|k: int| 0 <= k < i ==> !is_forbidden_name_char(#[trigger] cs@[k]) && !is_control(cs@[k]),
            decreases cs.len() - i,
        {
            if is_forbidden_char(cs[i]) || is_control_char(cs[i]) {
                assert(s@[i as int] == cs@[i as int]);
                return false;
            }
            i = i + 1;
        }
        true
    }

    /// Validates a raw name: not empty once trimmed, at most the grapheme
    /// limit, free of forbidden and control characters. The name kept is the
    /// trimmed one.
    pub fn parse(s: String) -> (r: Result<SubscriberName, String>)
        ensures
            r is Ok <==> is_valid_name(s@),
            r matches Ok(n) ==> n@ == trimmed(s@),
            r matches Err(m) ==> m@ == invalid_name_message(s@),
    {
        let graphemes = count_graphemes(s.as_str());
        if SubscriberName::is_acceptable(s.as_str(), graphemes) {
            let t = trim(s.as_str());
            Ok(SubscriberName { value: String::from_str(t) })
        } else {
            Err(s.concat(" is not a valid subscriber name."))
        }
    }

    pub fn as_str(&self) -> (r: &str)
        ensures
            r@ == self@,
    {
        self.value.as_str()
    }
}

impl SubscriberEmail {
    /// Validates a raw address against the `local@domain` syntax.
    pub fn parse(s: String) -> (r: Result<SubscriberEmail, String>)
        ensures
            r is Ok <==> is_valid_email(s@),
            r matches Ok(e) ==> e@ == s@,
            r matches Err(m) ==> m@ == invalid_email_message(s@),
    {
        let n = s.as_str().unicode_len();
        if n > MAX_EMAIL_LEN {
            return Err(s.concat(" is not a valid subscriber email."));
        }
        let cs = chars_of(s.as_str());
        let mut at: usize = 0;
        while at < n && cs[at] != '@'
            invariant
                n == cs@.len(),
                cs@ == s@,
                at <= n,
                forall|k: int| 0 <= k < at ==> cs@[k] != '@',
            decreases n - at,
        {
            at = at + 1;
        }
        if at == n {
            proof {
                assert forall|i: int| 0 <= i < s@.len() && s@[i] == '@' implies !#[trigger] is_valid_local_part(s@.subrange(0, i)) by {}
            }
            return Err(s.concat(" is not a valid subscriber email."));
        }
        let ok = check_local_part(&cs, 0, at) && check_domain(&cs, at + 1, n);
        proof {
            // Any '@' that splits a valid address is the first one, since a local part holds none.
            assert forall|i: int| 0 <= i < s@.len() && s@[i] == '@' && #[trigger] is_valid_local_part(s@.subrange(0, i))
                implies i == at by {
                if i > at {
                    assert(s@.subrange(0, i)[at as int] == '@');
                    assert(local_ok_at(s@.subrange(0, i), at as int));
                }
            }
            if ok {
                assert(is_valid_local_part(s@.subrange(0, at as int)));
            }
        }
        if ok {
            Ok(SubscriberEmail { value: s })
        } else {
            Err(s.concat(" is not a valid subscriber email."))
        }
    }

    pub fn as_str(&self) -> (r: &str)
        ensures
            r@ == self@,
    {
        self.value.as_str()
    }
}

/// A validated subscription request, not yet persisted.
pub struct NewSubscriber {
    pub email: SubscriberEmail,
    pub name: SubscriberName,
}

/// The raw form fields of a subscription request.
pub struct FormData {
    pub email: String,
    pub name: String,
}

impl NewSubscriber {
    /// Validates both fields of a form; the name is checked first.
    pub fn try_from(value: FormData) -> (r: Result<NewSubscriber, String>)
        ensures
            r is Ok <==> is_valid_name(value.name@) && is_valid_email(value.email@),
            r matches Ok(n) ==> n.name@ == trimmed(value.name@) && n.email@ == value.email@,
            !is_valid_name(value.name@) ==> (r matches Err(m) && m@ == invalid_name_message(value.name@)),
            is_valid_name(value.name@) && !is_valid_email(value.email@) ==> (r matches Err(m) && m@
                == invalid_email_message(value.email@)),
    {
        let name = SubscriberName::parse(value.name)?;
        let email = SubscriberEmail::parse(value.email)?;
        Ok(NewSubscriber { email, name })
    }
}

} // verus!
