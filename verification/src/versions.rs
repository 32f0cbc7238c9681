//! Versions of the launcher, and which of two is newer.

use vstd::prelude::*;

use crate::strings;
use crate::text;

verus! {

/// The version of a launcher that holds nothing but the means to fetch a full one.
pub const MINI_LAUNCHER_VERSION: &'static str = "0.0.1";

/// `version` without one `v` in front.
pub open spec fn without_v(version: Seq<char>) -> Seq<char> {
    match text::strip_prefix(version, "v"@) {
        Some(rest) => rest,
        None => version,
    }
}

/// The digits that `s` ends with.
pub open spec fn digits_at_end(s: Seq<char>) -> Seq<char>
    decreases s.len(),
{
    if s.len() > 0 && text::is_digit(s.last()) {
        digits_at_end(s.drop_last()).push(s.last())
    } else {
        Seq::empty()
    }
}

/// The number that `s` writes, or zero.
pub open spec fn number_or_zero(s: Seq<char>) -> nat {
    match text::parse_unsigned(s, u64::MAX as nat) {
        Some(n) => n,
        None => 0,
    }
}

/// The number that the part `i` of a version core writes, or zero.
pub open spec fn core_number(core: Seq<char>, i: int) -> nat {
    let parts = text::split(core, '.');
    if 0 <= i < parts.len() {
        number_or_zero(parts[i])
    } else {
        0
    }
}

/// The major, minor and patch number of a version, and the number at the end of its suffix.
pub open spec fn version_numbers(version: Seq<char>) -> (nat, nat, nat, nat) {
    let (core, suffix) = match text::split_once(without_v(version), "-"@) {
        Some((core, suffix)) => (core, suffix),
        None => (without_v(version), Seq::empty()),
    };
    (
        core_number(core, 0),
        core_number(core, 1),
        core_number(core, 2),
        number_or_zero(digits_at_end(suffix)),
    )
}

/// The first of the numbers in which the two differ is smaller in `a`.
pub open spec fn numbers_less(a: (nat, nat, nat, nat), b: (nat, nat, nat, nat)) -> bool {
    ||| a.0 < b.0
    ||| a.0 == b.0 && a.1 < b.1
    ||| a.0 == b.0 && a.1 == b.1 && a.2 < b.2
    ||| a.0 == b.0 && a.1 == b.1 && a.2 == b.2 && a.3 < b.3
}

/// `latest` is a newer version than `current`.
pub open spec fn is_newer(current: Seq<char>, latest: Seq<char>) -> bool {
    numbers_less(version_numbers(current), version_numbers(latest))
}

fn stripped_of_v(version: &str) -> (r: Vec<char>)
    ensures
        r@ == without_v(version@),
{
    let chars = strings::chars_of(version);
    match strings::without_prefix(&chars, "v") {
        Some(rest) => rest,
        None => chars,
    }
}

/// Whether the version is that of a launcher that has to fetch a full one.
pub fn launcher_version_is_mini(version: &str) -> (r: bool)
    ensures
        r == (without_v(version@) == MINI_LAUNCHER_VERSION@),
{
    strings::same_chars(&stripped_of_v(version), &strings::chars_of(MINI_LAUNCHER_VERSION))
}

fn parsed_or_zero(chars: &Vec<char>) -> (r: u64)
    ensures
        r == number_or_zero(chars@),
{
    match strings::parsed_unsigned(chars, u64::MAX) {
        Some(n) => n,
        None => 0,
    }
}

fn ending_digits(chars: &Vec<char>) -> (r: Vec<char>)
    ensures
        r@ == digits_at_end(chars@),
{
    let mut n: usize = chars.len();
    let ghost all = chars@;
    assert(all.take(all.len() as int) =~= all);
    assert(digits_at_end(all) + all.skip(all.len() as int) =~= digits_at_end(all));
    while n > 0 && strings::digit(chars[n - 1])
        invariant
            all == chars@,
            n <= all.len(),
            digits_at_end(all) == digits_at_end(all.take(n as int)) + all.skip(n as int),
        decreases n,
    {
        proof {
            let front = all.take(n as int);
            assert(front.drop_last() =~= all.take(n - 1));
            assert(front.last() == all[n - 1]);
            assert(digits_at_end(all.take(n - 1)).push(all[n - 1]) + all.skip(n as int)
                =~= digits_at_end(all.take(n - 1)) + all.skip(n - 1));
        }
        n = n - 1;
    }
    proof {
        if n > 0 {
            assert(all.take(n as int).last() == all[n - 1]);
        }
        assert(digits_at_end(all.take(n as int)) =~= Seq::<char>::empty());
        assert(digits_at_end(all) =~= all.subrange(n as int, all.len() as int));
    }
    strings::range_of(chars, n, chars.len())
}

/// The numbers of a version. A number that is missing or cannot be read is zero.
pub fn parse_launcher_version(version: &str) -> (r: (u64, u64, u64, u64))
    ensures
        (r.0 as nat, r.1 as nat, r.2 as nat, r.3 as nat) == version_numbers(version@),
{
    let whole = stripped_of_v(version);
    let (core, suffix): (Vec<char>, Vec<char>) = match strings::cut_once(&whole, "-") {
        Some((left, right)) => (left, right),
        None => (whole, Vec::new()),
    };
    let parts = strings::pieces(&core, '.');
    let ghost views = text::split(core@, '.');
    assert(views == strings::char_views(parts@));
    let major: u64 = if parts.len() > 0 {
        assert(views[0] == parts@[0]@);
        parsed_or_zero(&parts[0])
    } else {
        0
    };
    let minor: u64 = if parts.len() > 1 {
        assert(views[1] == parts@[1]@);
        parsed_or_zero(&parts[1])
    } else {
        0
    };
    let patch: u64 = if parts.len() > 2 {
        assert(views[2] == parts@[2]@);
        parsed_or_zero(&parts[2])
    } else {
        0
    };
    let suffix_rank: u64 = parsed_or_zero(&ending_digits(&suffix));
    (major, minor, patch, suffix_rank)
}

/// Whether `latest` is a newer version than `current`.
pub fn launcher_version_is_newer(current: &str, latest: &str) -> (r: bool)
    ensures
        r == is_newer(current@, latest@),
{
    let a = parse_launcher_version(current);
    let b = parse_launcher_version(latest);
    a.0 < b.0 || (a.0 == b.0 && (a.1 < b.1 || (a.1 == b.1 && (a.2 < b.2 || (a.2 == b.2 && a.3
        < b.3)))))
}

/// No version is newer than itself, of two at most one is newer than the other, and what is newer
/// than a newer version is newer still.
pub proof fn newer_is_a_strict_order(a: Seq<char>, b: Seq<char>, c: Seq<char>)
    ensures
        !is_newer(a, a),
        is_newer(a, b) ==> !is_newer(b, a),
        is_newer(a, b) && is_newer(b, c) ==> is_newer(a, c),
{
}

/// Of two versions one is newer, or all their numbers are the same.
pub proof fn versions_can_be_compared(a: Seq<char>, b: Seq<char>)
    ensures
        is_newer(a, b) || is_newer(b, a) || version_numbers(a) == version_numbers(b),
{
}

/// A `v` in front of a version that has none makes no difference.
pub proof fn a_leading_v_makes_no_difference(version: Seq<char>)
    requires
        !text::starts_with(version, "v"@),
    ensures
        version_numbers("v"@ + version) == version_numbers(version),
{
    reveal_strlit("v");
    let with_v = "v"@ + version;
    assert(with_v.take(1) =~= "v"@);
    assert(with_v.skip(1) =~= version);
}

/// A version with these numbers, and `tail` behind them.
pub open spec fn written(major: u64, minor: u64, patch: u64, tail: Seq<char>) -> Seq<char> {
    text::decimal(major as nat) + seq!['.'] + text::decimal(minor as nat) + seq!['.']
        + text::decimal(patch as nat) + tail
}

/// What may stand behind the numbers of a version: nothing, or a suffix behind a hyphen.
pub open spec fn is_tail(tail: Seq<char>) -> bool {
    tail.len() == 0 || tail[0] == '-'
}

proof fn lemma_core(major: u64, minor: u64, patch: u64)
    ensures
        text::split(written(major, minor, patch, Seq::empty()), '.') == seq![
            text::decimal(major as nat),
            text::decimal(minor as nat),
            text::decimal(patch as nat),
        ],
        forall|i: int|
            0 <= i < written(major, minor, patch, Seq::empty()).len() ==> {
                let c = #[trigger] written(major, minor, patch, Seq::empty())[i];
                text::is_digit(c) || c == '.'
            },
{
    let (a, b, c) = (
        text::decimal(major as nat),
        text::decimal(minor as nat),
        text::decimal(patch as nat),
    );
    text::lemma_decimal(major as nat);
    text::lemma_decimal(minor as nat);
    text::lemma_decimal(patch as nat);
    let dot = seq!['.'];
    let whole = written(major, minor, patch, Seq::empty());
    assert(whole =~= a + dot + (b + dot + c));
    text::lemma_split_first(a, '.', b + dot + c);
    text::lemma_split_first(b, '.', c);
    text::lemma_split_none(c, '.');
    assert(seq![a] + (seq![b] + seq![c]) =~= seq![a, b, c]);
}

/// A version that is written out is read as the numbers that it was written with, whatever suffix
/// stands behind them.
pub proof fn a_version_reads_back(major: u64, minor: u64, patch: u64, tail: Seq<char>)
    requires
        is_tail(tail),
    ensures
        version_numbers(written(major, minor, patch, tail)).0 == major,
        version_numbers(written(major, minor, patch, tail)).1 == minor,
        version_numbers(written(major, minor, patch, tail)).2 == patch,
        tail.len() == 0 ==> version_numbers(written(major, minor, patch, tail)).3 == 0,
{
    reveal_strlit("v");
    reveal_strlit("-");
    let core = written(major, minor, patch, Seq::empty());
    let whole = written(major, minor, patch, tail);
    lemma_core(major, minor, patch);
    text::lemma_decimal(major as nat);
    assert(whole =~= core + tail);
    assert(whole[0] == text::decimal(major as nat)[0]);
    assert(text::is_digit(whole[0]));
    assert(!text::starts_with(whole, "v"@)) by {
        if text::starts_with(whole, "v"@) {
            assert(whole.take(1)[0] == 'v');
        }
    }
    assert("-"@ =~= seq!['-']);
    assert forall|j: int| 0 <= j < core.len() implies !#[trigger] text::occurs_at(
        whole,
        seq!['-'],
        j,
    ) by {
        text::lemma_occurs_char(whole, '-', j);
        assert(whole[j] == core[j]);
    }
    if tail.len() > 0 {
        text::lemma_occurs_char(whole, '-', core.len() as int);
        text::lemma_find_is(whole, seq!['-'], 0, core.len() as int);
        assert(whole.take(core.len() as int) =~= core);
    } else {
        assert forall|j: int| 0 <= j implies !#[trigger] text::occurs_at(whole, seq!['-'], j) by {
            text::lemma_occurs_char(whole, '-', j);
        }
        text::lemma_find_none(whole, seq!['-'], 0);
        assert(whole =~= core);
        assert(digits_at_end(Seq::<char>::empty()) =~= Seq::<char>::empty());
    }
    text::lemma_decimal_parses(major as nat, u64::MAX as nat);
    text::lemma_decimal_parses(minor as nat, u64::MAX as nat);
    text::lemma_decimal_parses(patch as nat, u64::MAX as nat);
}

/// The number that a suffix ends with is read back too.
pub proof fn a_suffix_number_reads_back(
    major: u64,
    minor: u64,
    patch: u64,
    word: Seq<char>,
    rank: u64,
)
    requires
        word.len() > 0 ==> !text::is_digit(word.last()),
    ensures
        version_numbers(
            written(major, minor, patch, seq!['-'] + word + text::decimal(rank as nat)),
        ).3 == rank,
{
    reveal_strlit("v");
    reveal_strlit("-");
    let number = text::decimal(rank as nat);
    let suffix = word + number;
    let tail = seq!['-'] + suffix;
    assert(seq!['-'] + word + number =~= tail);
    let core = written(major, minor, patch, Seq::empty());
    let whole = written(major, minor, patch, tail);
    lemma_core(major, minor, patch);
    text::lemma_decimal(major as nat);
    assert(whole =~= core + tail);
    assert(whole[0] == text::decimal(major as nat)[0]);
    assert(text::is_digit(whole[0]));
    assert(!text::starts_with(whole, "v"@)) by {
        if text::starts_with(whole, "v"@) {
            assert(whole.take(1)[0] == 'v');
        }
    }
    assert("-"@ =~= seq!['-']);
    assert forall|j: int| 0 <= j < core.len() implies !#[trigger] text::occurs_at(
        whole,
        seq!['-'],
        j,
    ) by {
        text::lemma_occurs_char(whole, '-', j);
        assert(whole[j] == core[j]);
    }
    text::lemma_occurs_char(whole, '-', core.len() as int);
    text::lemma_find_is(whole, seq!['-'], 0, core.len() as int);
    assert(whole.skip(core.len() as int + 1) =~= suffix);
    text::lemma_decimal(rank as nat);
    lemma_digits_at_end(word, number);
    text::lemma_decimal_parses(rank as nat, u64::MAX as nat);
}

proof fn lemma_digits_at_end(word: Seq<char>, digits: Seq<char>)
    requires
        word.len() > 0 ==> !text::is_digit(word.last()),
        text::all_digits(digits),
    ensures
        digits_at_end(word + digits) == digits,
    decreases digits.len(),
{
    let s = word + digits;
    if digits.len() == 0 {
        assert(s =~= word);
        assert(digits_at_end(s) =~= digits);
    } else {
        assert(text::is_digit(digits[digits.len() - 1]));
        let fewer = digits.drop_last();
        assert forall|i: int| 0 <= i < fewer.len() implies text::is_digit(#[trigger] fewer[i]) by {
            assert(fewer[i] == digits[i]);
        }
        assert(s.drop_last() =~= word + fewer);
        lemma_digits_at_end(word, fewer);
        assert(digits_at_end(s) =~= digits);
    }
}

/// A version with a larger major number is newer whatever else the two say; with the same major
/// number the larger minor number decides, whatever the rest; with the same two the larger patch
/// number does, whatever the suffixes.
pub proof fn the_first_number_that_differs_decides(
    current: (u64, u64, u64),
    latest: (u64, u64, u64),
    current_tail: Seq<char>,
    latest_tail: Seq<char>,
)
    requires
        is_tail(current_tail),
        is_tail(latest_tail),
    ensures
        ({
            let a = written(current.0, current.1, current.2, current_tail);
            let b = written(latest.0, latest.1, latest.2, latest_tail);
            &&& current.0 < latest.0 ==> is_newer(a, b) && !is_newer(b, a)
            &&& current.0 == latest.0 && current.1 < latest.1 ==> is_newer(a, b) && !is_newer(b, a)
            &&& current.0 == latest.0 && current.1 == latest.1 && current.2 < latest.2 ==> is_newer(
                a,
                b,
            ) && !is_newer(b, a)
        }),
{
    a_version_reads_back(current.0, current.1, current.2, current_tail);
    a_version_reads_back(latest.0, latest.1, latest.2, latest_tail);
}

/// Where the three numbers are the same, the number that the suffix ends with decides, and nothing
/// else of the suffix does; a version without a suffix counts as one that ends with zero.
pub proof fn the_suffix_decides_last(
    numbers: (u64, u64, u64),
    word: Seq<char>,
    other_word: Seq<char>,
    rank: u64,
    other_rank: u64,
)
    requires
        word.len() > 0 ==> !text::is_digit(word.last()),
        other_word.len() > 0 ==> !text::is_digit(other_word.last()),
    ensures
        ({
            let a = written(
                numbers.0,
                numbers.1,
                numbers.2,
                seq!['-'] + word + text::decimal(rank as nat),
            );
            let b = written(
                numbers.0,
                numbers.1,
                numbers.2,
                seq!['-'] + other_word + text::decimal(other_rank as nat),
            );
            let bare = written(numbers.0, numbers.1, numbers.2, Seq::empty());
            &&& is_newer(a, b) <==> rank < other_rank
            &&& is_newer(bare, b) <==> 0 < other_rank
            &&& !is_newer(b, bare)
        }),
{
    let t = seq!['-'] + word + text::decimal(rank as nat);
    let u = seq!['-'] + other_word + text::decimal(other_rank as nat);
    assert(t[0] == '-' && u[0] == '-');
    a_version_reads_back(numbers.0, numbers.1, numbers.2, t);
    a_version_reads_back(numbers.0, numbers.1, numbers.2, u);
    a_version_reads_back(numbers.0, numbers.1, numbers.2, Seq::empty());
    a_suffix_number_reads_back(numbers.0, numbers.1, numbers.2, word, rank);
    a_suffix_number_reads_back(numbers.0, numbers.1, numbers.2, other_word, other_rank);
}

/// What semver reads a version as.
#[derive(Clone, Debug)]
pub struct SemverVersion {
    pub major: u64,
    pub minor: u64,
    pub patch: u64,
    pub pre: String,
    pub build: String,
}

/// The error of `semver::Version::parse`.
#[verifier::external_type_specification]
#[verifier::external_body]
pub struct ExSemverError(semver::Error);

/// What `semver::Version::parse` reads a text as: the three numbers, the pre-release and the
/// build, or nothing.
pub uninterp spec fn semver_of(text: Seq<char>) -> Option<(u64, u64, u64, Seq<char>, Seq<char>)>;

/// `semver::Prerelease::new` takes the text.
pub uninterp spec fn is_prerelease(text: Seq<char>) -> bool;

/// `semver::BuildMetadata::new` takes the text.
pub uninterp spec fn is_build(text: Seq<char>) -> bool;

/// How `semver::Prerelease` orders two texts: below zero, zero or above.
pub uninterp spec fn prerelease_order(a: Seq<char>, b: Seq<char>) -> int;

/// How `semver::BuildMetadata` orders two texts: below zero, zero or above.
pub uninterp spec fn build_order(a: Seq<char>, b: Seq<char>) -> int;

/// `semver::Version::parse`: the parts of the version that the text writes. Its pre-release and its
/// build are texts that the types of these take.
#[verifier::external_body]
fn parse_semver(text: &str) -> (r: Result<SemverVersion, semver::Error>)
    ensures
        match r {
            Ok(v) => semver_of(text@) == Some((v.major, v.minor, v.patch, v.pre@, v.build@))
                && is_prerelease(v.pre@) && is_build(v.build@),
            Err(_) => semver_of(text@) is None,
        },
{
    semver::Version::parse(text).map(|v| SemverVersion {
        major: v.major,
        minor: v.minor,
        patch: v.patch,
        pre: v.pre.as_str().to_owned(),
        build: v.build.as_str().to_owned(),
    })
}

/// The order of `semver::Prerelease`: the same text is equal, and a pre-release comes before none.
#[verifier::external_body]
fn compare_prereleases(a: &str, b: &str) -> (r: i8)
    requires
        is_prerelease(a@),
        is_prerelease(b@),
    ensures
        r == prerelease_order(a@, b@),
        -1 <= r <= 1,
        a@ == b@ ==> r == 0,
        a@.len() > 0 && b@.len() == 0 ==> r == -1,
{
    match semver::Prerelease::new(a).unwrap().cmp(&semver::Prerelease::new(b).unwrap()) {
        core::cmp::Ordering::Less => -1,
        core::cmp::Ordering::Equal => 0,
        core::cmp::Ordering::Greater => 1,
    }
}

/// The order of `semver::BuildMetadata`: the same text is equal.
#[verifier::external_body]
fn compare_builds(a: &str, b: &str) -> (r: i8)
    requires
        is_build(a@),
        is_build(b@),
    ensures
        r == build_order(a@, b@),
        -1 <= r <= 1,
        a@ == b@ ==> r == 0,
{
    match semver::BuildMetadata::new(a).unwrap().cmp(&semver::BuildMetadata::new(b).unwrap()) {
        core::cmp::Ordering::Less => -1,
        core::cmp::Ordering::Equal => 0,
        core::cmp::Ordering::Greater => 1,
    }
}

/// `s` without any `v` in front.
pub open spec fn without_vs(s: Seq<char>) -> Seq<char>
    decreases s.len(),
{
    if s.len() > 0 && s[0] == 'v' {
        without_vs(s.skip(1))
    } else {
        s
    }
}

/// The text that semver reads for the version `raw`.
pub open spec fn semver_text(raw: Seq<char>) -> Seq<char> {
    without_vs(text::trim(raw))
}

/// A version that semver does not read.
#[derive(Debug)]
pub struct InvalidVersion {
    pub message: String,
    pub cause: semver::Error,
}

fn stripped_of_vs(chars: &Vec<char>) -> (r: Vec<char>)
    ensures
        r@ == without_vs(chars@),
{
    let mut i: usize = 0;
    let ghost all = chars@;
    assert(all.skip(0) =~= all);
    while i < chars.len() && chars[i] == 'v'
        invariant
            all == chars@,
            i <= all.len(),
            without_vs(all) == without_vs(all.skip(i as int)),
        decreases chars@.len() - i,
    {
        assert(all.skip(i as int).skip(1) =~= all.skip(i + 1));
        i = i + 1;
    }
    assert(all.subrange(i as int, all.len() as int) =~= all.skip(i as int));
    strings::range_of(chars, i, chars.len())
}

/// The parts of the version `raw`, which may have white space around it and `v` in front.
pub fn parse_version(raw: &str) -> (r: Result<SemverVersion, InvalidVersion>)
    ensures
        match r {
            Ok(v) => semver_of(semver_text(raw@)) == Some(
                (v.major, v.minor, v.patch, v.pre@, v.build@),
            ) && is_prerelease(v.pre@) && is_build(v.build@),
            Err(e) => semver_of(semver_text(raw@)) is None && e.message@
                == "invalid semver version: "@ + raw@,
        },
{
    let normalized: String = strings::string_of(
        &stripped_of_vs(&strings::trimmed(&strings::chars_of(raw))),
    );
    match parse_semver(normalized.as_str()) {
        Ok(v) => Ok(v),
        Err(cause) => {
            let mut message: String = "invalid semver version: ".to_owned();
            message.append(raw);
            Err(InvalidVersion { message, cause })
        },
    }
}

/// The first part in which the two versions differ is smaller in `a`: of the numbers, then of the
/// pre-releases, then of the builds, which compare as `pre` and `build` say.
pub open spec fn semver_less(
    a: (u64, u64, u64, Seq<char>, Seq<char>),
    b: (u64, u64, u64, Seq<char>, Seq<char>),
    pre: int,
    build: int,
) -> bool {
    ||| a.0 < b.0
    ||| a.0 == b.0 && a.1 < b.1
    ||| a.0 == b.0 && a.1 == b.1 && a.2 < b.2
    ||| a.0 == b.0 && a.1 == b.1 && a.2 == b.2 && (pre < 0 || (pre == 0 && build < 0))
}

/// `target` is a newer version than `current`.
pub open spec fn semver_newer(
    current: (u64, u64, u64, Seq<char>, Seq<char>),
    target: (u64, u64, u64, Seq<char>, Seq<char>),
) -> bool {
    semver_less(
        current,
        target,
        prerelease_order(current.3, target.3),
        build_order(current.4, target.4),
    )
}

/// A version with a larger major number is newer whatever its minor and patch number, pre-release
/// and build are; with the same major number the larger minor number decides, whatever the rest;
/// with the same two the larger patch number does. So of two versions that differ in a number just
/// one is newer than the other.
pub proof fn the_first_semver_number_that_differs_decides(
    current: (u64, u64, u64, Seq<char>, Seq<char>),
    target: (u64, u64, u64, Seq<char>, Seq<char>),
)
    ensures
        current.0 < target.0 ==> semver_newer(current, target) && !semver_newer(target, current),
        current.0 == target.0 && current.1 < target.1 ==> semver_newer(current, target)
            && !semver_newer(target, current),
        current.0 == target.0 && current.1 == target.1 && current.2 < target.2 ==> semver_newer(
            current,
            target,
        ) && !semver_newer(target, current),
        (current.0, current.1, current.2) != (target.0, target.1, target.2) ==> (semver_newer(
            current,
            target,
        ) <==> !semver_newer(target, current)),
{
}

/// Where the numbers are the same, a version is newer if the pre-release of the other comes first,
/// or if these are equal and the build of the other comes first; a pre-release that comes later is
/// never made up for by the build.
pub proof fn the_prerelease_decides_before_the_build(
    current: (u64, u64, u64, Seq<char>, Seq<char>),
    target: (u64, u64, u64, Seq<char>, Seq<char>),
)
    requires
        (current.0, current.1, current.2) == (target.0, target.1, target.2),
    ensures
        prerelease_order(current.3, target.3) < 0 ==> semver_newer(current, target),
        prerelease_order(current.3, target.3) > 0 ==> !semver_newer(current, target),
        prerelease_order(current.3, target.3) == 0 ==> (semver_newer(current, target)
            <==> build_order(current.4, target.4) < 0),
{
}

/// Whether the version with the numbers `a` comes before the one with the numbers `b`, where their
/// pre-releases and builds compare as `pre` and `build` say.
pub fn comes_before(a: (u64, u64, u64), b: (u64, u64, u64), pre: i8, build: i8) -> (r: bool)
    ensures
        r == semver_less(
            (a.0, a.1, a.2, Seq::empty(), Seq::empty()),
            (b.0, b.1, b.2, Seq::empty(), Seq::empty()),
            pre as int,
            build as int,
        ),
{
    a.0 < b.0 || (a.0 == b.0 && (a.1 < b.1 || (a.1 == b.1 && (a.2 < b.2 || (a.2 == b.2 && (pre < 0
        || (pre == 0 && build < 0)))))))
}

/// Whether the version `target` is newer than the version `current`; an error for the first of the
/// two, `current` before `target`, that semver does not read. A version is not newer than itself,
/// and a release is newer than its own pre-releases.
pub fn target_is_newer(current: &str, target: &str) -> (r: Result<bool, InvalidVersion>)
    ensures
        match semver_of(semver_text(current@)) {
            None => r matches Err(e) && e.message@ == "invalid semver version: "@ + current@,
            Some(c) => match semver_of(semver_text(target@)) {
                None => r matches Err(e) && e.message@ == "invalid semver version: "@ + target@,
                Some(t) => {
                    &&& r == Ok::<bool, InvalidVersion>(semver_newer(c, t))
                    &&& c.0 < t.0 ==> r == Ok::<bool, InvalidVersion>(true)
                    &&& c.0 > t.0 ==> r == Ok::<bool, InvalidVersion>(false)
                    &&& c == t ==> !semver_newer(c, t)
                    &&& (c.0, c.1, c.2) == (t.0, t.1, t.2) && c.3.len() > 0 && t.3.len() == 0
                        ==> semver_newer(c, t)
                },
            },
        },
{
    match parse_version(current) {
        Err(e) => Err(e),
        Ok(c) => match parse_version(target) {
            Err(e) => Err(e),
            Ok(t) => {
                let pre: i8 = compare_prereleases(c.pre.as_str(), t.pre.as_str());
                let build: i8 = compare_builds(c.build.as_str(), t.build.as_str());
                Ok(
                    comes_before(
                        (c.major, c.minor, c.patch),
                        (t.major, t.minor, t.patch),
                        pre,
                        build,
                    ),
                )
            },
        },
    }
}

/// One `v` in front of a version is left out, and no more than one.
pub proof fn one_leading_v_is_left_out(rest: Seq<char>)
    ensures
        without_v(seq!['v'] + rest) == rest,
        rest.len() == 0 || rest[0] != 'v' ==> without_v(rest) == rest,
{
    reveal_strlit("v");
    let s = seq!['v'] + rest;
    assert(s.take(1) =~= "v"@);
    assert(s.skip(1) =~= rest);
    if text::starts_with(rest, "v"@) {
        assert(rest.take(1)[0] == 'v');
    }
}

/// A number that is missing counts as zero, numbers behind the third are passed over, and what is no
/// number counts as zero without harm to the others.
pub proof fn a_missing_number_counts_as_zero(
    major: u64,
    minor: u64,
    patch: u64,
    extra: Seq<char>,
    word: Seq<char>,
)
    requires
        !extra.contains('-'),
        !word.contains('-') && !word.contains('.'),
        word.len() > 0,
        !text::is_digit(word[0]) && word[0] != '+' && word[0] != 'v',
    ensures
        version_numbers(text::decimal(major as nat)) == (major as nat, 0nat, 0nat, 0nat),
        version_numbers(text::decimal(major as nat) + seq!['.'] + text::decimal(minor as nat)) == (
            major as nat,
            minor as nat,
            0nat,
            0nat,
        ),
        version_numbers(written(major, minor, patch, seq!['.'] + extra)) == (
            major as nat,
            minor as nat,
            patch as nat,
            0nat,
        ),
        version_numbers(
            text::decimal(major as nat) + seq!['.'] + word + seq!['.'] + text::decimal(patch as nat),
        ) == (major as nat, 0nat, patch as nat, 0nat),
{
    let (a, b, c) = (
        text::decimal(major as nat),
        text::decimal(minor as nat),
        text::decimal(patch as nat),
    );
    let dot = seq!['.'];
    text::lemma_decimal(major as nat);
    text::lemma_decimal(minor as nat);
    text::lemma_decimal(patch as nat);
    text::lemma_decimal_parses(major as nat, u64::MAX as nat);
    text::lemma_decimal_parses(minor as nat, u64::MAX as nat);
    text::lemma_decimal_parses(patch as nat, u64::MAX as nat);
    lemma_numbers_without_suffix(a);
    text::lemma_split_none(a, '.');
    lemma_numbers_without_suffix(a + dot + b);
    text::lemma_split_first(a, '.', b);
    text::lemma_split_none(b, '.');
    assert(seq![a] + seq![b] =~= seq![a, b]);
    let whole = written(major, minor, patch, dot + extra);
    assert(whole =~= a + dot + (b + dot + (c + dot + extra)));
    lemma_numbers_without_suffix(whole);
    text::lemma_split_first(a, '.', b + dot + (c + dot + extra));
    text::lemma_split_first(b, '.', c + dot + extra);
    text::lemma_split_first(c, '.', extra);
    let parts = text::split(whole, '.');
    assert(parts[0] == a && parts[1] == b && parts[2] == c);
    let odd = a + dot + word + dot + c;
    assert(odd =~= a + dot + (word + dot + c));
    lemma_numbers_without_suffix(odd);
    text::lemma_split_first(a, '.', word + dot + c);
    text::lemma_split_first(word, '.', c);
    text::lemma_split_none(c, '.');
    let odd_parts = text::split(odd, '.');
    assert(odd_parts[0] == a && odd_parts[1] == word && odd_parts[2] == c);
    assert(odd_parts.len() == 3);
}

proof fn lemma_numbers_without_suffix(s: Seq<char>)
    requires
        s.len() > 0,
        text::is_digit(s[0]),
        !s.contains('-'),
    ensures
        version_numbers(s) == (core_number(s, 0), core_number(s, 1), core_number(s, 2), 0nat),
{
    reveal_strlit("v");
    reveal_strlit("-");
    assert("-"@ =~= seq!['-']);
    text::lemma_without_char(s, '-');
    if text::starts_with(s, "v"@) {
        assert(s.take(1)[0] == 'v');
    }
    assert(digits_at_end(Seq::<char>::empty()) =~= Seq::<char>::empty());
}

/// What semver reads is what is left without the white space around it and every `v` in front.
pub proof fn semver_reads_what_is_left(before: Seq<char>, vs: nat, rest: Seq<char>, after: Seq<char>)
    requires
        forall|i: int| 0 <= i < before.len() ==> text::is_white_space(#[trigger] before[i]),
        forall|i: int| 0 <= i < after.len() ==> text::is_white_space(#[trigger] after[i]),
        rest.len() > 0,
        rest[0] != 'v',
        !text::is_white_space(rest[0]),
        !text::is_white_space(rest.last()),
    ensures
        semver_text(before + (Seq::new(vs, |i: int| 'v') + rest) + after) == rest,
{
    let s = Seq::new(vs, |i: int| 'v') + rest;
    assert(s.last() == rest.last());
    if vs == 0 {
        assert(s =~= rest);
    } else {
        assert(s[0] == 'v');
    }
    text::lemma_trim_around(before, s, after);
    lemma_without_vs(vs, rest);
}

proof fn lemma_without_vs(vs: nat, rest: Seq<char>)
    requires
        rest.len() > 0,
        rest[0] != 'v',
    ensures
        without_vs(Seq::new(vs, |i: int| 'v') + rest) == rest,
    decreases vs,
{
    let s = Seq::new(vs, |i: int| 'v') + rest;
    if vs == 0 {
        assert(s =~= rest);
    } else {
        lemma_without_vs((vs - 1) as nat, rest);
        assert(s[0] == 'v');
        assert(s.skip(1) =~= Seq::new((vs - 1) as nat, |i: int| 'v') + rest);
    }
}

/// However two versions are written, the first of their numbers that differs decides, the larger one
/// being newer whatever comes behind; the number of the suffix decides only where the other three
/// are the same.
pub proof fn the_larger_number_is_newer(current: Seq<char>, latest: Seq<char>)
    ensures
        ({
            let (a, b) = (version_numbers(current), version_numbers(latest));
            &&& a.0 < b.0 ==> is_newer(current, latest)
            &&& a.0 > b.0 ==> !is_newer(current, latest)
            &&& a.0 == b.0 && a.1 < b.1 ==> is_newer(current, latest)
            &&& a.0 == b.0 && a.1 > b.1 ==> !is_newer(current, latest)
            &&& a.0 == b.0 && a.1 == b.1 && a.2 < b.2 ==> is_newer(current, latest)
            &&& a.0 == b.0 && a.1 == b.1 && a.2 > b.2 ==> !is_newer(current, latest)
            &&& a.0 == b.0 && a.1 == b.1 && a.2 == b.2 ==> (is_newer(current, latest) <==> a.3
                < b.3)
        }),
{
}

} // verus!
