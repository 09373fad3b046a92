use vstd::prelude::*;

use crate::text::{push_char, remove_char, without_char};

verus! {

#[verifier::external_type_specification]
#[verifier::external_body]
pub struct ExSemverVersion(semver::Version);

#[verifier::external_type_specification]
#[verifier::external_body]
pub struct ExSemverError(semver::Error);

/// What `semver::Version::parse` gives for a text: the major, minor and
/// patch numbers and the pre-release and build-metadata texts of the version,
/// or nothing where the text is no semantic version.
pub uninterp spec fn semver_parse(text: Seq<char>) -> Option<(u64, u64, u64, Seq<char>, Seq<char>)>;

/// Whether the first version compares greater than the second under
/// `semver::Version`'s ordering.
pub uninterp spec fn semver_greater(
    a: (u64, u64, u64, Seq<char>, Seq<char>),
    b: (u64, u64, u64, Seq<char>, Seq<char>),
) -> bool;

/// A semantic version: the values read of a `semver::Version`, beside the
/// value they were read from.
#[derive(Debug)]
pub struct SemanticVersion {
    major: u64,
    minor: u64,
    patch: u64,
    pre: String,
    build: String,
    parsed: semver::Version,
}

impl View for SemanticVersion {
    type V = (u64, u64, u64, Seq<char>, Seq<char>);

    closed spec fn view(&self) -> (u64, u64, u64, Seq<char>, Seq<char>) {
        (self.major, self.minor, self.patch, self.pre@, self.build@)
    }
}

/// A text that is no semantic version, with the parser's own account of why.
#[derive(Debug)]
pub struct InvalidVersion {
    pub reason: semver::Error,
}

/// Calls `semver::Version::parse` and reads the parsed version's numbers and
/// texts (`pre.as_str()`, `build.as_str()`). Claimed: the outcome is the one
/// `semver_parse` names for the text, an error exactly where it names none.
#[verifier::external_body]
fn parse_semver(text: &str) -> (res: Result<SemanticVersion, semver::Error>)
    ensures
        match res {
            Ok(v) => semver_parse(text@) == Some(v@),
            Err(_) => semver_parse(text@) is None,
        },
{
    match semver::Version::parse(text) {
        Ok(v) => Ok(SemanticVersion {
            major: v.major,
            minor: v.minor,
            patch: v.patch,
            pre: v.pre.as_str().to_string(),
            build: v.build.as_str().to_string(),
            parsed: v,
        }),
        Err(e) => Err(e),
    }
}

/// Calls `>` (the derived `PartialOrd` of `semver::Version`, which compares
/// major, minor, patch, pre-release and build metadata in that order) on the
/// two parsed versions. Claimed: the answer is `semver_greater` of the values
/// read of them.
#[verifier::external_body]
fn semver_gt(a: &SemanticVersion, b: &SemanticVersion) -> (res: bool)
    ensures
        res == semver_greater(a@, b@),
{
    a.parsed > b.parsed
}

/// The decimal digit `d` as a character.
pub open spec fn digit_char(d: nat) -> char {
    seq!['0', '1', '2', '3', '4', '5', '6', '7', '8', '9'][d as int]
}

/// The decimal text of `n`, without leading zeros.
pub open spec fn decimal(n: nat) -> Seq<char>
    decreases n,
{
    if n < 10 {
        seq![digit_char(n)]
    } else {
        decimal(n / 10).push(digit_char(n % 10))
    }
}

/// The text of a version as `semver` displays it:
/// `major.minor.patch`, then `-pre` and `+build` where they are not empty.
pub open spec fn version_text(v: (u64, u64, u64, Seq<char>, Seq<char>)) -> Seq<char> {
    decimal(v.0 as nat) + seq!['.'] + decimal(v.1 as nat) + seq!['.'] + decimal(v.2 as nat)
        + (if v.3.len() > 0 { seq!['-'] + v.3 } else { Seq::empty() })
        + (if v.4.len() > 0 { seq!['+'] + v.4 } else { Seq::empty() })
}

/// The text of the version of a release tag: the tag with every `v` taken out.
pub open spec fn tag_version_text(tag: Seq<char>) -> Seq<char> {
    without_char(tag, 'v')
}

fn digit(d: u64) -> (c: char)
    requires
        d < 10,
    ensures
        c == digit_char(d as nat),
{
    match d {
        0 => '0',
        1 => '1',
        2 => '2',
        3 => '3',
        4 => '4',
        5 => '5',
        6 => '6',
        7 => '7',
        8 => '8',
        _ => '9',
    }
}

fn push_decimal(out: &mut String, n: u64)
    ensures
        final(out)@ == old(out)@ + decimal(n as nat),
    decreases n,
{
    if n >= 10 {
        push_decimal(out, n / 10);
    }
    push_char(out, digit(n % 10));
}

/// Parses a text as a semantic version.
pub fn parse_version(text: &str) -> (res: Result<SemanticVersion, InvalidVersion>)
    ensures
        match res {
            Ok(v) => semver_parse(text@) == Some(v@),
            Err(_) => semver_parse(text@) is None,
        },
{
    match parse_semver(text) {
        Ok(v) => Ok(v),
        Err(e) => Err(InvalidVersion { reason: e }),
    }
}

/// The version of a release tag such as `v1.0.26-alpha`: the tag with every
/// `v` taken out, parsed.
pub fn parse_tag_version(tag: &str) -> (res: Result<SemanticVersion, InvalidVersion>)
    ensures
        match res {
            Ok(v) => semver_parse(tag_version_text(tag@)) == Some(v@),
            Err(_) => semver_parse(tag_version_text(tag@)) is None,
        },
{
    let text = remove_char(tag, 'v');
    parse_version(text.as_str())
}

impl SemanticVersion {
    pub fn major(&self) -> (res: u64)
        ensures
            res == self@.0,
    {
        self.major
    }

    pub fn minor(&self) -> (res: u64)
        ensures
            res == self@.1,
    {
        self.minor
    }

    pub fn patch(&self) -> (res: u64)
        ensures
            res == self@.2,
    {
        self.patch
    }

    pub fn pre(&self) -> (res: &str)
        ensures
            res@ == self@.3,
    {
        self.pre.as_str()
    }

    pub fn build(&self) -> (res: &str)
        ensures
            res@ == self@.4,
    {
        self.build.as_str()
    }

    /// Whether this version is greater than `other` in `semver`'s ordering.
    pub fn is_greater_than(&self, other: &SemanticVersion) -> (res: bool)
        ensures
            res == semver_greater(self@, other@),
    {
        semver_gt(self, other)
    }

    /// The text of the version, as `semver` displays it.
    pub fn to_text(&self) -> (res: String)
        ensures
            res@ == version_text(self@),
    {
        let mut out = String::new();
        push_decimal(&mut out, self.major);
        push_char(&mut out, '.');
        push_decimal(&mut out, self.minor);
        push_char(&mut out, '.');
        push_decimal(&mut out, self.patch);
        let ghost numbers = out@;
        if !self.pre.as_str().is_empty() {
            push_char(&mut out, '-');
            out.append(self.pre.as_str());
        }
        let ghost with_pre = out@;
        if !self.build.as_str().is_empty() {
            push_char(&mut out, '+');
            out.append(self.build.as_str());
        }
        proof {
            let v = self@;
            assert(numbers =~= decimal(v.0 as nat) + seq!['.'] + decimal(v.1 as nat) + seq!['.']
                + decimal(v.2 as nat));
            assert(with_pre =~= numbers + (if v.3.len() > 0 { seq!['-'] + v.3 } else { Seq::empty() }));
            assert(out@ =~= with_pre + (if v.4.len() > 0 { seq!['+'] + v.4 } else { Seq::empty() }));
        }
        out
    }
}

} // verus!

verus! {

/// A decimal text holds digits only.
pub proof fn lemma_decimal_digits(n: nat)
    ensures
        forall|i: int| 0 <= i < decimal(n).len() ==> '0' <= #[trigger] decimal(n)[i] <= '9',
    decreases n,
{
    let digits = seq!['0', '1', '2', '3', '4', '5', '6', '7', '8', '9'];
    assert forall|d: nat| d < 10 implies '0' <= #[trigger] digit_char(d) <= '9' by {
        assert(digits[d as int] == digit_char(d));
    }
    if n >= 10 {
        lemma_decimal_digits(n / 10);
        let prefix = decimal(n / 10);
        assert forall|i: int| 0 <= i < decimal(n).len() implies '0' <= #[trigger] decimal(n)[i]
            <= '9' by {
            if i < prefix.len() {
                assert(decimal(n)[i] == prefix[i]);
            } else {
                assert(decimal(n)[i] == digit_char(n % 10));
            }
        }
    } else {
        assert(decimal(n)[0] == digit_char(n));
    }
}

/// The text of a version holds no `v` where its pre-release and build texts hold none.
pub proof fn lemma_version_text_without_v(v: (u64, u64, u64, Seq<char>, Seq<char>))
    requires
        !v.3.contains('v'),
        !v.4.contains('v'),
    ensures
        !version_text(v).contains('v'),
{
    lemma_decimal_digits(v.0 as nat);
    lemma_decimal_digits(v.1 as nat);
    lemma_decimal_digits(v.2 as nat);
    let t = version_text(v);
    if t.contains('v') {
        let k = choose|k: int| 0 <= k < t.len() && t[k] == 'v';
        let d0 = decimal(v.0 as nat);
        let d1 = decimal(v.1 as nat);
        let d2 = decimal(v.2 as nat);
        let pre = if v.3.len() > 0 { seq!['-'] + v.3 } else { Seq::empty() };
        let build = if v.4.len() > 0 { seq!['+'] + v.4 } else { Seq::empty() };
        let nums = d0 + seq!['.'] + d1 + seq!['.'] + d2;
        assert(t =~= nums + pre + build);
        if k < nums.len() {
            if k < d0.len() {
                assert(nums[k] == d0[k]);
            } else if k == d0.len() {
            } else if k < d0.len() + 1 + d1.len() {
                assert(nums[k] == d1[k - d0.len() - 1]);
            } else if k == d0.len() + 1 + d1.len() {
            } else {
                assert(nums[k] == d2[k - d0.len() - 2 - d1.len()]);
            }
        } else if k < nums.len() + pre.len() {
            if k > nums.len() {
                assert(v.3[k - nums.len() - 1] == 'v');
            }
        } else {
            if k > nums.len() + pre.len() {
                assert(v.4[k - nums.len() - pre.len() - 1] == 'v');
            }
        }
    }
}

} // verus!

verus! {

/// The number a text of decimal digits spells, most significant digit first.
pub open spec fn decimal_value(s: Seq<char>) -> int
    decreases s.len(),
{
    if s.len() == 0 {
        0
    } else {
        10 * decimal_value(s.drop_last()) + (s.last() as int - '0' as int)
    }
}

/// `s` is the decimal text of `n`: decimal digits only, without leading
/// zeros, spelling `n`.
pub open spec fn is_decimal_text_of(s: Seq<char>, n: int) -> bool {
    &&& s.len() > 0
    &&& forall|i: int| 0 <= i < s.len() ==> '0' <= #[trigger] s[i] <= '9'
    &&& s[0] == '0' ==> s.len() == 1
    &&& decimal_value(s) == n
}

/// The digit character of `d` is the character whose code is that of `0`
/// plus `d`.
pub proof fn lemma_digit_char_code(d: nat)
    requires
        d < 10,
    ensures
        digit_char(d) as int == '0' as int + d,
        '0' <= digit_char(d) <= '9',
{
    let digits = seq!['0', '1', '2', '3', '4', '5', '6', '7', '8', '9'];
    assert(digits[d as int] == digit_char(d));
    assert(digits[0] == '0' && digits[1] == '1' && digits[2] == '2' && digits[3] == '3'
        && digits[4] == '4' && digits[5] == '5' && digits[6] == '6' && digits[7] == '7'
        && digits[8] == '8' && digits[9] == '9');
}

/// The decimal text of a number spells that number in base 10, with digits
/// only and no leading zero.
pub proof fn lemma_decimal_spells_number(n: nat)
    ensures
        is_decimal_text_of(decimal(n), n as int),
    decreases n,
{
    if n < 10 {
        lemma_digit_char_code(n);
        let s = decimal(n);
        assert(s.drop_last() =~= Seq::<char>::empty());
        assert(s.last() == digit_char(n));
        assert(decimal_value(s.drop_last()) == 0);
    } else {
        lemma_decimal_spells_number(n / 10);
        lemma_digit_char_code(n % 10);
        let prefix = decimal(n / 10);
        let s = decimal(n);
        assert(s == prefix.push(digit_char(n % 10)));
        assert(s.drop_last() =~= prefix);
        assert(s.last() == digit_char(n % 10));
        assert(n == 10 * (n / 10) + n % 10);
        assert forall|i: int| 0 <= i < s.len() implies '0' <= #[trigger] s[i] <= '9' by {
            if i < prefix.len() {
                assert(s[i] == prefix[i]);
            }
        }
        assert(s[0] == prefix[0]);
        if prefix[0] == '0' {
            assert(prefix.len() == 1);
            assert(decimal_value(prefix) == 10 * decimal_value(prefix.drop_last()) + (prefix.last() as int - '0' as int));
            assert(prefix.drop_last() =~= Seq::<char>::empty());
            assert(prefix.last() == prefix[0]);
        }
    }
}

/// The text of a version is its major, minor and patch numbers in decimal,
/// separated by dots, then `-` and the pre-release text and `+` and the build
/// text, each where it is not empty.
pub proof fn lemma_version_text_spells_version(v: (u64, u64, u64, Seq<char>, Seq<char>))
    ensures
        exists|a: Seq<char>, b: Seq<char>, c: Seq<char>|
            #![trigger is_decimal_text_of(a, v.0 as int), is_decimal_text_of(b, v.1 as int), is_decimal_text_of(c, v.2 as int)]
            {
                &&& is_decimal_text_of(a, v.0 as int)
                &&& is_decimal_text_of(b, v.1 as int)
                &&& is_decimal_text_of(c, v.2 as int)
                &&& version_text(v) == a + seq!['.'] + b + seq!['.'] + c + (if v.3.len() > 0 {
                    seq!['-'] + v.3
                } else {
                    Seq::empty()
                }) + (if v.4.len() > 0 {
                    seq!['+'] + v.4
                } else {
                    Seq::empty()
                })
            },
{
    lemma_decimal_spells_number(v.0 as nat);
    lemma_decimal_spells_number(v.1 as nat);
    lemma_decimal_spells_number(v.2 as nat);
    let a = decimal(v.0 as nat);
    let b = decimal(v.1 as nat);
    let c = decimal(v.2 as nat);
    assert(is_decimal_text_of(a, v.0 as int) && is_decimal_text_of(b, v.1 as int)
        && is_decimal_text_of(c, v.2 as int));
}

} // verus!
