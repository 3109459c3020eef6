//! The grammar of package names.
use vstd::prelude::*;
use vstd::string::StrSliceExecFns;

verus! {

/// Whether `c` has the Unicode `XID_Start` property.
pub uninterp spec fn xid_start(c: char) -> bool;

/// Whether `c` has the Unicode `XID_Continue` property.
pub uninterp spec fn xid_continue(c: char) -> bool;

pub open spec fn is_ascii_letter(c: char) -> bool {
    ('a' <= c && c <= 'z') || ('A' <= c && c <= 'Z')
}

pub open spec fn is_ascii_digit(c: char) -> bool {
    '0' <= c && c <= '9'
}

/// Relies on `unicode_xid::UnicodeXID::is_xid_start` for `char`, which
/// answers ASCII characters by its own fast path.
#[verifier::external_body]
fn is_xid_start(c: char) -> (r: bool)
    ensures
        r == xid_start(c),
        c <= '\x7f' ==> (r == is_ascii_letter(c)),
{
    unicode_xid::UnicodeXID::is_xid_start(c)
}

/// Relies on `unicode_xid::UnicodeXID::is_xid_continue` for `char`, which
/// answers ASCII characters by its own fast path.
#[verifier::external_body]
fn is_xid_continue(c: char) -> (r: bool)
    ensures
        r == xid_continue(c),
        c <= '\x7f' ==> (r == (is_ascii_letter(c) || is_ascii_digit(c) || c == '_')),
{
    unicode_xid::UnicodeXID::is_xid_continue(c)
}

/// Why a string is not a package name, in the order the checks are made.
#[derive(Debug, Clone, Copy, PartialEq, Eq, Structural)]
pub enum InvalidPackageName {
    Empty,
    StartsWithDigit,
    InvalidStartCharacter,
    InvalidContinueCharacter,
    ForbiddenReservedName,
}

impl InvalidPackageName {
    /// A human-readable description of the rejection.
    pub fn message(&self) -> (r: &'static str)
        ensures
            r@ == self.message_spec(),
    {
        proof {
            reveal_strlit("package name is empty");
            reveal_strlit("package name should not start with a digit");
            reveal_strlit("package name doesn't start with Unicode XID start or '_'");
            reveal_strlit("package name body must be Unicode XID continue, '-' or '_'");
            reveal_strlit("package name must not be Windows-forbidden file name");
        }
        match self {
            InvalidPackageName::Empty => "package name is empty",
            InvalidPackageName::StartsWithDigit => "package name should not start with a digit",
            InvalidPackageName::InvalidStartCharacter => {
                "package name doesn't start with Unicode XID start or '_'"
            },
            InvalidPackageName::InvalidContinueCharacter => {
                "package name body must be Unicode XID continue, '-' or '_'"
            },
            InvalidPackageName::ForbiddenReservedName => {
                "package name must not be Windows-forbidden file name"
            },
        }
    }

    /// The text of each rejection.
    pub open spec fn message_spec(&self) -> Seq<char> {
        match self {
            InvalidPackageName::Empty => "package name is empty"@,
            InvalidPackageName::StartsWithDigit => "package name should not start with a digit"@,
            InvalidPackageName::InvalidStartCharacter => {
                "package name doesn't start with Unicode XID start or '_'"@
            },
            InvalidPackageName::InvalidContinueCharacter => {
                "package name body must be Unicode XID continue, '-' or '_'"@
            },
            InvalidPackageName::ForbiddenReservedName => {
                "package name must not be Windows-forbidden file name"@
            },
        }
    }
}

pub open spec fn is_start_char(c: char) -> bool {
    if c <= '\x7f' {
        is_ascii_letter(c) || c == '_'
    } else {
        xid_start(c)
    }
}

/// A character that may follow the first: for ASCII, a letter, a digit, `_`
/// or `-`; above ASCII, one with the `XID_Continue` property.
pub open spec fn is_continue_char(c: char) -> bool {
    if c <= '\x7f' {
        is_ascii_letter(c) || is_ascii_digit(c) || c == '_' || c == '-'
    } else {
        xid_continue(c)
    }
}

/// `c` is `u`, or `u` is an ASCII capital and `c` its lower-case form:
/// `c` upper-cases (ASCII only) to `u`.
pub open spec fn upper_char_is(c: char, u: char) -> bool {
    if 'A' <= u && u <= 'Z' {
        c == u || c as u32 == u as u32 + 32
    } else {
        c == u
    }
}

/// `s` upper-cases (ASCII only) to `w`.
pub open spec fn upper_is(s: Seq<char>, w: Seq<char>) -> bool {
    s.len() == w.len() && forall|i: int| 0 <= i < s.len() ==> upper_char_is(#[trigger] s[i], w[i])
}

/// The last character of a numbered device name: a digit or a superscript one to three.
pub open spec fn is_device_number(c: char) -> bool {
    is_ascii_digit(c) || c == '\u{b9}' || c == '\u{b2}' || c == '\u{b3}'
}

/// Names that cannot be a path component on some platforms, whatever their
/// ASCII case: CON, PRN, AUX, NUL, and COM or LPT followed by a device number.
pub open spec fn is_reserved_name(s: Seq<char>) -> bool {
    ||| upper_is(s, seq!['C', 'O', 'N'])
    ||| upper_is(s, seq!['P', 'R', 'N'])
    ||| upper_is(s, seq!['A', 'U', 'X'])
    ||| upper_is(s, seq!['N', 'U', 'L'])
    ||| (s.len() == 4 && (upper_is(s.take(3), seq!['C', 'O', 'M']) || upper_is(
        s.take(3),
        seq!['L', 'P', 'T'],
    )) && is_device_number(s[3]))
}

/// The first rule of the grammar that `s` breaks, if any.
pub open spec fn name_error(s: Seq<char>) -> Option<InvalidPackageName> {
    if s.len() == 0 {
        Some(InvalidPackageName::Empty)
    } else if is_ascii_digit(s[0]) {
        Some(InvalidPackageName::StartsWithDigit)
    } else if !is_start_char(s[0]) {
        Some(InvalidPackageName::InvalidStartCharacter)
    } else if exists|i: int| 1 <= i < s.len() && !is_continue_char(#[trigger] s[i]) {
        Some(InvalidPackageName::InvalidContinueCharacter)
    } else if is_reserved_name(s) {
        Some(InvalidPackageName::ForbiddenReservedName)
    } else {
        None
    }
}

pub open spec fn is_valid_name(s: Seq<char>) -> bool {
    name_error(s) is None
}

fn char_upper_is(c: char, u: char) -> (r: bool)
    ensures
        r == upper_char_is(c, u),
{
    if 'A' <= u && u <= 'Z' {
        c == u || c as u32 == u as u32 + 32
    } else {
        c == u
    }
}

/// `c` and `d` are the same character, or the two ASCII cases of one letter.
pub open spec fn case_variant(c: char, d: char) -> bool {
    c == d || (is_ascii_letter(c) && is_ascii_letter(d) && (c as u32 == d as u32 + 32 || d as u32
        == c as u32 + 32))
}

/// `t` is `s` with the case of some ASCII letters changed.
pub open spec fn same_but_ascii_case(s: Seq<char>, t: Seq<char>) -> bool {
    s.len() == t.len() && forall|i: int| 0 <= i < s.len() ==> case_variant(#[trigger] s[i], t[i])
}

proof fn lemma_case_variant_char(c: char, d: char)
    requires
        case_variant(c, d),
    ensures
        is_ascii_digit(c) == is_ascii_digit(d),
        is_start_char(c) == is_start_char(d),
        is_continue_char(c) == is_continue_char(d),
        is_device_number(c) == is_device_number(d),
        forall|u: char| !('a' <= u && u <= 'z') ==> upper_char_is(c, u) == upper_char_is(d, u),
{
}

proof fn lemma_case_variant_upper_is(s: Seq<char>, t: Seq<char>, w: Seq<char>)
    requires
        same_but_ascii_case(s, t),
        forall|i: int| 0 <= i < w.len() ==> 'A' <= #[trigger] w[i] && w[i] <= 'Z',
    ensures
        upper_is(s, w) == upper_is(t, w),
{
    assert forall|i: int| 0 <= i < s.len() && i < w.len() implies upper_char_is(#[trigger] s[i], w[i])
        == upper_char_is(t[i], w[i]) by {
        lemma_case_variant_char(s[i], t[i]);
    }
    if upper_is(s, w) {
        assert forall|i: int| 0 <= i < t.len() implies upper_char_is(#[trigger] t[i], w[i]) by {
            assert(upper_char_is(s[i], w[i]));
        }
    }
    if upper_is(t, w) {
        assert forall|i: int| 0 <= i < s.len() implies upper_char_is(#[trigger] s[i], w[i]) by {
            assert(upper_char_is(t[i], w[i]));
        }
    }
}

/// Changing the case of ASCII letters in a name changes neither whether it
/// is accepted nor why it is rejected.
pub proof fn lemma_name_error_ignores_ascii_case(s: Seq<char>, t: Seq<char>)
    requires
        same_but_ascii_case(s, t),
    ensures
        name_error(s) == name_error(t),
{
    if s.len() > 0 {
        lemma_case_variant_char(s[0], t[0]);
        assert forall|i: int| 1 <= i < s.len() implies is_continue_char(#[trigger] s[i])
            == is_continue_char(t[i]) by {
            lemma_case_variant_char(s[i], t[i]);
        }
        if exists|i: int| 1 <= i < s.len() && !is_continue_char(#[trigger] s[i]) {
            let i = choose|i: int| 1 <= i < s.len() && !is_continue_char(#[trigger] s[i]);
            assert(!is_continue_char(t[i]));
        }
        if exists|i: int| 1 <= i < t.len() && !is_continue_char(#[trigger] t[i]) {
            let i = choose|i: int| 1 <= i < t.len() && !is_continue_char(#[trigger] t[i]);
            assert(!is_continue_char(s[i]));
        }
        lemma_case_variant_upper_is(s, t, seq!['C', 'O', 'N']);
        lemma_case_variant_upper_is(s, t, seq!['P', 'R', 'N']);
        lemma_case_variant_upper_is(s, t, seq!['A', 'U', 'X']);
        lemma_case_variant_upper_is(s, t, seq!['N', 'U', 'L']);
        if s.len() == 4 {
            assert(same_but_ascii_case(s.take(3), t.take(3))) by {
                assert forall|i: int| 0 <= i < 3 implies case_variant(#[trigger] s.take(3)[i], t.take(3)[i]) by {
                    assert(case_variant(s[i], t[i]));
                }
            }
            lemma_case_variant_upper_is(s.take(3), t.take(3), seq!['C', 'O', 'M']);
            lemma_case_variant_upper_is(s.take(3), t.take(3), seq!['L', 'P', 'T']);
            lemma_case_variant_char(s[3], t[3]);
        }
    }
}

/// Whether the first three characters of `s` upper-case to `a b c`.
fn starts_upper(s: &str, a: char, b: char, c: char) -> (r: bool)
    requires
        s@.len() >= 3,
    ensures
        r == upper_is(s@.take(3), seq![a, b, c]),
{
    let r = char_upper_is(s.get_char(0), a) && char_upper_is(s.get_char(1), b) && char_upper_is(
        s.get_char(2),
        c,
    );
    proof {
        let t = s@.take(3);
        let w = seq![a, b, c];
        if r {
            assert forall|i: int| 0 <= i < t.len() implies upper_char_is(#[trigger] t[i], w[i]) by {
                assert(i == 0 || i == 1 || i == 2);
            }
        } else {
            assert(!upper_char_is(t[0], w[0]) || !upper_char_is(t[1], w[1]) || !upper_char_is(
                t[2],
                w[2],
            ));
        }
    }
    r
}

fn is_reserved(s: &str, n: usize) -> (r: bool)
    requires
        n == s@.len(),
    ensures
        r == is_reserved_name(s@),
{
    proof {
        assert(s@.len() == 3 ==> s@.take(3) =~= s@);
    }
    if n == 3 {
        starts_upper(s, 'C', 'O', 'N') || starts_upper(s, 'P', 'R', 'N') || starts_upper(
            s,
            'A',
            'U',
            'X',
        ) || starts_upper(s, 'N', 'U', 'L')
    } else if n == 4 {
        let last = s.get_char(3);
        (starts_upper(s, 'C', 'O', 'M') || starts_upper(s, 'L', 'P', 'T')) && (('0' <= last && last
            <= '9') || last == '\u{b9}' || last == '\u{b2}' || last == '\u{b3}')
    } else {
        false
    }
}

/// The first rule of the grammar that `s` breaks, if any.
pub fn check_name(s: &str) -> (r: Option<InvalidPackageName>)
    ensures
        r == name_error(s@),
{
    let n = s.unicode_len();
    if n == 0 {
        return Some(InvalidPackageName::Empty);
    }
    let first = s.get_char(0);
    if '0' <= first && first <= '9' {
        return Some(InvalidPackageName::StartsWithDigit);
    }
    if !(is_xid_start(first) || first == '_') {
        return Some(InvalidPackageName::InvalidStartCharacter);
    }
    let mut i: usize = 1;
    while i < n
        invariant
            n == s@.len(),
            1 <= i <= n,
            !is_ascii_digit(s@[0]),
            is_start_char(s@[0]),
            forall|k: int| 1 <= k < i ==> is_continue_char(#[trigger] s@[k]),
        decreases n - i,
    {
        let c = s.get_char(i);
        if !(c == '-' || c == '_' || is_xid_continue(c)) {
            assert(!is_continue_char(s@[i as int]));
            return Some(InvalidPackageName::InvalidContinueCharacter);
        }
        i = i + 1;
    }
    if is_reserved(s, n) {
        return Some(InvalidPackageName::ForbiddenReservedName);
    }
    None
}

/// A string that satisfies the package-name grammar.
#[derive(Debug)]
pub struct PackageName {
    name: String,
}

impl View for PackageName {
    type V = Seq<char>;

    closed spec fn view(&self) -> Seq<char> {
        self.name@
    }
}

impl PackageName {
    #[verifier::type_invariant]
    closed spec fn inv(self) -> bool {
        is_valid_name(self.name@)
    }

    /// Validates `inner` and wraps it.
    pub fn new(inner: String) -> (r: Result<PackageName, InvalidPackageName>)
        ensures
            match r {
                Ok(p) => is_valid_name(inner@) && p@ == inner@,
                Err(e) => name_error(inner@) == Some(e),
            },
    {
        match check_name(inner.as_str()) {
            Some(e) => Err(e),
            None => Ok(PackageName { name: inner }),
        }
    }

    /// Validates a copy of `s`.
    pub fn parse(s: &str) -> (r: Result<PackageName, InvalidPackageName>)
        ensures
            match r {
                Ok(p) => is_valid_name(s@) && p@ == s@,
                Err(e) => name_error(s@) == Some(e),
            },
    {
        PackageName::new(s.to_owned())
    }

    pub fn as_str(&self) -> (r: &str)
        ensures
            r@ == self@,
            is_valid_name(r@),
    {
        proof {
            use_type_invariant(self);
        }
        self.name.as_str()
    }

    /// The name as an owned string.
    pub fn to_string(&self) -> (r: String)
        ensures
            r@ == self@,
    {
        self.name.clone()
    }
}

impl Clone for PackageName {
    fn clone(&self) -> PackageName {
        proof {
            use_type_invariant(self);
        }
        PackageName { name: self.name.clone() }
    }
}

impl core::str::FromStr for PackageName {
    type Err = InvalidPackageName;

    fn from_str(s: &str) -> (r: Result<PackageName, InvalidPackageName>)
        ensures
            match r {
                Ok(p) => is_valid_name(s@) && p@ == s@,
                Err(e) => name_error(s@) == Some(e),
            },
    {
        PackageName::parse(s)
    }
}

} // verus!
