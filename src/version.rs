//! Semantic versions, their canonical text, and the minimal-version rule.
use vstd::prelude::*;

verus! {

/// A semantic version `major.minor.patch[-pre][+build]`.
#[derive(Debug)]
pub struct SemVer {
    pub major: u64,
    pub minor: u64,
    pub patch: u64,
    /// Pre-release identifiers, empty when there are none.
    pub pre: String,
    /// Build metadata, empty when there is none.
    pub build: String,
}

/// What a `SemVer` denotes.
pub struct SemVerView {
    pub major: u64,
    pub minor: u64,
    pub patch: u64,
    pub pre: Seq<char>,
    pub build: Seq<char>,
}

/// A character of a pre-release or build identifier.
pub open spec fn identifier_char(c: char) -> bool {
    ('0' <= c <= '9') || ('a' <= c <= 'z') || ('A' <= c <= 'Z') || c == '-'
}

/// Empty, or dot-separated non-empty identifiers of `[0-9A-Za-z-]`.
pub open spec fn valid_identifiers(s: Seq<char>) -> bool {
    s.len() == 0 || {
        &&& forall|i: int| 0 <= i < s.len() ==> identifier_char(#[trigger] s[i]) || s[i] == '.'
        &&& s[0] != '.'
        &&& s[s.len() - 1] != '.'
        &&& forall|i: int| 0 <= i < s.len() - 1 ==> !(#[trigger] s[i] == '.' && s[i + 1] == '.')
    }
}

impl SemVerView {
    /// The pre-release and build parts are well-formed.
    pub open spec fn valid(self) -> bool {
        valid_identifiers(self.pre) && valid_identifiers(self.build)
    }
}

impl View for SemVer {
    type V = SemVerView;

    open spec fn view(&self) -> SemVerView {
        SemVerView {
            major: self.major,
            minor: self.minor,
            patch: self.patch,
            pre: self.pre@,
            build: self.build@,
        }
    }
}

/// What `semver::Version::parse` makes of a text: the version, or the
/// message of its error.
pub uninterp spec fn parsed_version(s: Seq<char>) -> Result<SemVerView, Seq<char>>;

/// Relies on `semver::Version::parse`, its public fields and the `as_str`
/// of its pre-release and build parts, and on `semver::Error`'s `Display`.
/// The parser accepts pre-release and build parts only as dot-separated
/// non-empty identifiers of `[0-9A-Za-z-]`.
#[verifier::external_body]
pub(crate) fn parse_version(s: &str) -> (r: Result<SemVer, String>)
    ensures
        r matches Ok(v) ==> v@.valid(),
        match r {
            Ok(v) => parsed_version(s@) == Ok::<SemVerView, Seq<char>>(v@),
            Err(e) => parsed_version(s@) == Err::<SemVerView, Seq<char>>(e@),
        },
{
    match semver::Version::parse(s) {
        Ok(v) => Ok(
            SemVer {
                major: v.major,
                minor: v.minor,
                patch: v.patch,
                pre: v.pre.as_str().to_string(),
                build: v.build.as_str().to_string(),
            },
        ),
        Err(e) => Err(e.to_string()),
    }
}

pub open spec fn digit(d: nat) -> char {
    seq!['0', '1', '2', '3', '4', '5', '6', '7', '8', '9'][d as int]
}

/// The decimal digits of `n`, without sign or leading zeros.
pub open spec fn decimal(n: nat) -> Seq<char>
    decreases n,
{
    if n < 10 {
        seq![digit(n)]
    } else {
        decimal(n / 10).push(digit(n % 10))
    }
}

/// Relies on `u64`'s `Display` (through `to_string`): the decimal digits.
#[verifier::external_body]
fn decimal_text(n: u64) -> (r: String)
    ensures
        r@ == decimal(n as nat),
{
    n.to_string()
}

/// The canonical text of a version, as semver prints it.
pub open spec fn version_text(v: SemVerView) -> Seq<char> {
    decimal(v.major as nat) + seq!['.'] + decimal(v.minor as nat) + seq!['.'] + decimal(
        v.patch as nat,
    ) + (if v.pre.len() == 0 {
        Seq::<char>::empty()
    } else {
        seq!['-'] + v.pre
    }) + (if v.build.len() == 0 {
        Seq::<char>::empty()
    } else {
        seq!['+'] + v.build
    })
}

/// The lowest version compatible with `v`: below 1.0.0 the minor number
/// carries breaking changes, so only the patch is reset.
pub open spec fn minimal(v: SemVerView) -> SemVerView {
    if v.major == 0 {
        SemVerView { patch: 0, ..v }
    } else {
        SemVerView { minor: 0, patch: 0, ..v }
    }
}

proof fn lemma_digit(d: nat)
    requires
        d < 10,
    ensures
        '0' <= digit(d) <= '9',
{
    let s = seq!['0', '1', '2', '3', '4', '5', '6', '7', '8', '9'];
    assert(s[0] == '0' && s[1] == '1' && s[2] == '2' && s[3] == '3' && s[4] == '4');
    assert(s[5] == '5' && s[6] == '6' && s[7] == '7' && s[8] == '8' && s[9] == '9');
}

/// Every character of a decimal is a digit.
pub proof fn lemma_decimal_digits(n: nat)
    ensures
        forall|i: int| 0 <= i < decimal(n).len() ==> '0' <= #[trigger] decimal(n)[i] <= '9',
    decreases n,
{
    lemma_digit(n % 10);
    if n >= 10 {
        let p = decimal(n / 10);
        lemma_decimal_digits(n / 10);
        assert(decimal(n) == p.push(digit(n % 10)));
        assert forall|i: int| 0 <= i < decimal(n).len() implies '0' <= #[trigger] decimal(n)[i]
            <= '9' by {
            if i < p.len() {
                assert(decimal(n)[i] == p[i]);
            }
        }
    } else {
        lemma_digit(n);
        assert(decimal(n)[0] == digit(n));
    }
}

/// The canonical text of a well-formed version is made of digits, letters
/// and `.`, `-`, `+` alone.
pub proof fn lemma_version_text_chars(v: SemVerView)
    requires
        v.valid(),
    ensures
        forall|i: int|
            0 <= i < version_text(v).len() ==> {
                let c = #[trigger] version_text(v)[i];
                ('0' <= c <= '9') || ('a' <= c <= 'z') || ('A' <= c <= 'Z') || c == '.' || c
                    == '-' || c == '+'
            },
{
    lemma_decimal_digits(v.major as nat);
    lemma_decimal_digits(v.minor as nat);
    lemma_decimal_digits(v.patch as nat);
    let t = version_text(v);
    let a = decimal(v.major as nat) + seq!['.'] + decimal(v.minor as nat) + seq!['.'] + decimal(
        v.patch as nat,
    );
    let p = if v.pre.len() == 0 {
        Seq::<char>::empty()
    } else {
        seq!['-'] + v.pre
    };
    let b = if v.build.len() == 0 {
        Seq::<char>::empty()
    } else {
        seq!['+'] + v.build
    };
    assert(t == a + p + b);
    assert forall|i: int| 0 <= i < t.len() implies {
        let c = #[trigger] t[i];
        ('0' <= c <= '9') || ('a' <= c <= 'z') || ('A' <= c <= 'Z') || c == '.' || c == '-' || c
            == '+'
    } by {
        let m = decimal(v.major as nat).len() as int;
        let n = decimal(v.minor as nat).len() as int;
        if i < m {
            assert(t[i] == decimal(v.major as nat)[i]);
        } else if i == m {
        } else if i < m + 1 + n {
            assert(t[i] == decimal(v.minor as nat)[i - m - 1]);
        } else if i == m + 1 + n {
        } else if i < a.len() {
            assert(t[i] == decimal(v.patch as nat)[i - m - n - 2]);
        } else if i < a.len() + p.len() {
            if i > a.len() {
                assert(t[i] == v.pre[i - a.len() - 1]);
            }
        } else {
            if i > a.len() + p.len() {
                assert(t[i] == v.build[i - a.len() - p.len() - 1]);
            }
        }
    }
}

/// Minimizing a version twice gives what minimizing it once gives.
pub proof fn lemma_minimal_idempotent(v: SemVerView)
    ensures
        minimal(minimal(v)) == minimal(v),
{
}

impl SemVer {
    pub fn new(major: u64, minor: u64, patch: u64) -> (r: SemVer)
        ensures
            r@.valid(),
            r@ == (SemVerView { major, minor, patch, pre: Seq::empty(), build: Seq::empty() }),
    {
        SemVer { major, minor, patch, pre: String::new(), build: String::new() }
    }

    /// Parses a version the way semver does; the error is semver's message.
    pub fn parse(s: &str) -> (r: Result<SemVer, String>)
        ensures
            r matches Ok(v) ==> v@.valid(),
            match r {
                Ok(v) => parsed_version(s@) == Ok::<SemVerView, Seq<char>>(v@),
                Err(e) => parsed_version(s@) == Err::<SemVerView, Seq<char>>(e@),
            },
    {
        parse_version(s)
    }

    pub fn duplicate(&self) -> (r: SemVer)
        ensures
            r@ == self@,
    {
        SemVer {
            major: self.major,
            minor: self.minor,
            patch: self.patch,
            pre: self.pre.clone(),
            build: self.build.clone(),
        }
    }

    /// Whether the two versions are the same in every part.
    pub fn same_as(&self, other: &SemVer) -> (r: bool)
        ensures
            r == (self@ == other@),
    {
        self.major == other.major && self.minor == other.minor && self.patch == other.patch
            && self.pre == other.pre && self.build == other.build
    }

    /// The canonical text `major.minor.patch[-pre][+build]`.
    pub fn to_text(&self) -> (r: String)
        ensures
            r@ == version_text(self@),
    {
        let mut r = decimal_text(self.major);
        let dot = ".";
        proof {
            reveal_strlit(".");
        }
        r.append(dot);
        let minor = decimal_text(self.minor);
        r.append(minor.as_str());
        r.append(dot);
        let patch = decimal_text(self.patch);
        r.append(patch.as_str());
        if !self.pre.as_str().is_empty() {
            let dash = "-";
            proof {
                reveal_strlit("-");
            }
            r.append(dash);
            r.append(self.pre.as_str());
        }
        if !self.build.as_str().is_empty() {
            let plus = "+";
            proof {
                reveal_strlit("+");
            }
            r.append(plus);
            r.append(self.build.as_str());
        }
        assert(r@ =~= version_text(self@));
        r
    }

    /// The lowest version compatible with this one.
    pub fn minimal(&self) -> (r: SemVer)
        ensures
            r@ == minimal(self@),
    {
        if self.major == 0 {
            SemVer {
                major: 0,
                minor: self.minor,
                patch: 0,
                pre: self.pre.clone(),
                build: self.build.clone(),
            }
        } else {
            SemVer {
                major: self.major,
                minor: 0,
                patch: 0,
                pre: self.pre.clone(),
                build: self.build.clone(),
            }
        }
    }
}

} // verus!
