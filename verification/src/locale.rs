//! The language of the launcher.

use vstd::prelude::*;

use crate::strings;
use crate::text;

verus! {

/// The arguments that name a language in the argument after them.
pub const LOCALE_OVERRIDE_ARGS: [&'static str; 4] = ["--lang", "--locale", "/lang", "/locale"];

/// The traditional or the simplified script, for a language code in lower case that starts with
/// `zh`.
pub open spec fn chinese_locale(code: Seq<char>) -> Seq<char> {
    if text::contains(code, "tw"@) || text::contains(code, "hk"@) || text::contains(code, "hant"@)
        || code == "zht"@ {
        "zh-TW"@
    } else {
        "zh-CN"@
    }
}

/// The locale for a language code that the user gave.
pub open spec fn normalized(input: Seq<char>) -> Seq<char> {
    let code = text::ascii_lower(input);
    if text::starts_with(code, "zh"@) {
        chinese_locale(code)
    } else if text::starts_with(code, "ja"@) || code == "jp"@ {
        "ja"@
    } else {
        "en"@
    }
}

/// The locale for the language code of the system, in lower case.
pub open spec fn system_locale(code: Seq<char>) -> Seq<char> {
    if text::starts_with(code, "zh"@) {
        if text::contains(code, "tw"@) || text::contains(code, "hk"@) || text::contains(
            code,
            "hant"@,
        ) {
            "zh-TW"@
        } else {
            "zh-CN"@
        }
    } else if text::starts_with(code, "ja"@) {
        "ja"@
    } else {
        "en"@
    }
}

/// The locale that the arguments from index `i` on ask for.
pub open spec fn asked_for(args: Seq<Seq<char>>, i: int) -> Option<Seq<char>>
    decreases args.len() - i,
{
    if i < 0 || i >= args.len() {
        None
    } else {
        let arg = text::ascii_lower(args[i]);
        if strings::listed(LOCALE_OVERRIDE_ARGS@, arg) && i + 1 < args.len() {
            Some(normalized(args[i + 1]))
        } else if text::starts_with(arg, "--lang="@) {
            Some(normalized(arg.skip("--lang="@.len() as int)))
        } else if text::starts_with(arg, "--locale="@) {
            Some(normalized(arg.skip("--locale="@.len() as int)))
        } else {
            asked_for(args, i + 1)
        }
    }
}

/// One of the locales that the launcher has texts for.
pub open spec fn is_supported(locale: Seq<char>) -> bool {
    locale == "zh-CN"@ || locale == "zh-TW"@ || locale == "ja"@ || locale == "en"@
}

/// The locale for a language code that the user gave; English where it is not known.
pub fn normalize_locale(input: &str) -> (r: String)
    ensures
        r@ == normalized(input@),
{
    let code = strings::lowered(&strings::chars_of(input));
    let whole: String = strings::string_of(&code);
    if strings::begins(&code, "zh") {
        if strings::has(&code, "tw") || strings::has(&code, "hk") || strings::has(&code, "hant")
            || strings::same_text(whole.as_str(), "zht") {
            "zh-TW".to_owned()
        } else {
            "zh-CN".to_owned()
        }
    } else if strings::begins(&code, "ja") || strings::same_text(whole.as_str(), "jp") {
        "ja".to_owned()
    } else {
        "en".to_owned()
    }
}

/// The locale that the arguments of the launcher ask for, in either form: `--lang zh-CN` or
/// `--lang=zh-CN`.
pub fn locale_from_args(args: &Vec<String>) -> (r: Option<String>)
    ensures
        text::view_of(r) == asked_for(text::views(args@), 0),
{
    let ghost all = text::views(args@);
    let mut i: usize = 0;
    while i < args.len()
        invariant
            all == text::views(args@),
            i <= args@.len(),
            asked_for(all, 0) == asked_for(all, i as int),
        decreases args@.len() - i,
    {
        let arg = strings::lowered(&strings::chars_of(args[i].as_str()));
        let whole: String = strings::string_of(&arg);
        assert(all[i as int] == args@[i as int]@);
        if strings::is_one_of(whole.as_str(), &LOCALE_OVERRIDE_ARGS) && args.len() - i > 1 {
            assert(all[i + 1] == args@[i + 1]@);
            return Some(normalize_locale(args[i + 1].as_str()));
        }
        if let Some(value) = strings::without_prefix(&arg, "--lang=") {
            return Some(normalize_locale(strings::string_of(&value).as_str()));
        }
        if let Some(value) = strings::without_prefix(&arg, "--locale=") {
            return Some(normalize_locale(strings::string_of(&value).as_str()));
        }
        i = i + 1;
    }
    None
}

/// `str::to_lowercase` of std: its result is a function of the text alone.
pub uninterp spec fn unicode_lower(text: Seq<char>) -> Seq<char>;

/// `str::to_lowercase` of std: the text in lower case by the Unicode derived property, which does
/// not depend on a locale.
#[verifier::external_body]
fn lowercase(text: &str) -> (r: String)
    ensures
        r@ == unicode_lower(text@),
{
    text.to_lowercase()
}

/// `sys_locale::get_locale`: the language that the machine is set to, if it can be told. Nothing
/// is claimed of it.
#[verifier::external_body]
fn machine_locale() -> (r: Option<String>)
{
    sys_locale::get_locale()
}

/// The locale for the language code of the system in lower case.
pub fn locale_of_language(code: &str) -> (r: String)
    ensures
        r@ == system_locale(code@),
{
    let chars = strings::chars_of(code);
    if strings::begins(&chars, "zh") {
        if strings::has(&chars, "tw") || strings::has(&chars, "hk") || strings::has(
            &chars,
            "hant",
        ) {
            "zh-TW".to_owned()
        } else {
            "zh-CN".to_owned()
        }
    } else if strings::begins(&chars, "ja") {
        "ja".to_owned()
    } else {
        "en".to_owned()
    }
}

/// The locale for what the system says of its language.
pub fn locale_of_system(language: Option<String>) -> (r: String)
    ensures
        r@ == system_locale(
            unicode_lower(
                match language {
                    Some(l) => l@,
                    None => "en"@,
                },
            ),
        ),
{
    let language: String = match language {
        Some(l) => l,
        None => "en".to_owned(),
    };
    locale_of_language(lowercase(language.as_str()).as_str())
}

/// The locale for the language of the system.
pub fn detect_locale() -> (r: String)
    ensures
        exists|language: Seq<char>| r@ == #[trigger] system_locale(unicode_lower(language)),
        is_supported(r@),
{
    locale_of_system(machine_locale())
}

/// The locale that the launcher starts with: what the arguments ask for, else the system's.
pub fn starting_locale(args: &Vec<String>) -> (r: String)
    ensures
        match asked_for(text::views(args@), 0) {
            Some(locale) => r@ == locale,
            None => exists|language: Seq<char>|
                r@ == #[trigger] system_locale(unicode_lower(language)),
        },
        is_supported(r@),
{
    proof {
        a_locale_asked_for_is_supported(text::views(args@), 0);
    }
    match locale_from_args(args) {
        Some(locale) => locale,
        None => detect_locale(),
    }
}

/// Whatever the user asks for, the launcher has texts for the locale it takes.
pub proof fn a_normalized_locale_is_supported(input: Seq<char>)
    ensures
        is_supported(normalized(input)),
{
}

/// Whatever the arguments are, a locale that they ask for is one that the launcher has texts for.
pub proof fn a_locale_asked_for_is_supported(args: Seq<Seq<char>>, i: int)
    ensures
        asked_for(args, i) matches Some(locale) ==> is_supported(locale),
    decreases args.len() - i,
{
    if 0 <= i < args.len() {
        a_locale_asked_for_is_supported(args, i + 1);
    }
}

/// A locale that has been normalized stays as it is.
pub proof fn normalizing_twice_changes_nothing(input: Seq<char>)
    ensures
        normalized(normalized(input)) == normalized(input),
{
    reveal_strlit("zh-CN");
    reveal_strlit("zh-TW");
    reveal_strlit("ja");
    reveal_strlit("en");
    reveal_strlit("zh");
    reveal_strlit("tw");
    reveal_strlit("hk");
    reveal_strlit("hant");
    reveal_strlit("zht");
    reveal_strlit("jp");
    let r = normalized(input);
    let code = text::ascii_lower(r);
    if r == "zh-TW"@ {
        assert(code =~= seq!['z', 'h', '-', 't', 'w']);
        assert(code.take(2) =~= "zh"@);
        assert(code.subrange(3, 5) =~= "tw"@);
        assert(text::occurs_at(code, "tw"@, 3));
    } else if r == "zh-CN"@ {
        assert(code =~= seq!['z', 'h', '-', 'c', 'n']);
        assert(code.take(2) =~= "zh"@);
        assert forall|i: int| !#[trigger] text::occurs_at(code, "tw"@, i) by {
            if 0 <= i && i + 2 <= code.len() {
                assert(code.subrange(i, i + 2)[0] != 't');
            }
        }
        assert forall|i: int| !#[trigger] text::occurs_at(code, "hk"@, i) by {
            if 0 <= i && i + 2 <= code.len() {
                assert(code.subrange(i, i + 2)[1] != 'k');
            }
        }
        assert forall|i: int| !#[trigger] text::occurs_at(code, "hant"@, i) by {
            if 0 <= i && i + 4 <= code.len() {
                assert(code.subrange(i, i + 4)[1] != 'a');
            }
        }
        assert("zht"@.len() != code.len());
    } else if r == "ja"@ {
        assert(code =~= seq!['j', 'a']);
        assert(code.take(2) =~= "ja"@);
        assert(code.take(2)[0] != "zh"@[0]);
    } else {
        assert(code =~= seq!['e', 'n']);
        assert(code.take(2)[0] != "zh"@[0]);
        assert(code.take(2)[0] != "ja"@[0]);
        assert(code[0] != "jp"@[0]);
    }
}

/// The case of the letters of a language code makes no difference.
pub proof fn case_makes_no_difference(input: Seq<char>, other: Seq<char>)
    requires
        text::ascii_lower(input) == text::ascii_lower(other),
    ensures
        normalized(input) == normalized(other),
{
}

/// A code is Chinese, Japanese or English by how it starts, whatever follows: `zh` gives one of the
/// two Chinese locales, `ja` the Japanese one, and any other start the English one, but for the
/// short code `jp`.
pub proof fn a_code_is_told_by_its_start(input: Seq<char>)
    ensures
        text::starts_with(text::ascii_lower(input), "zh"@) <==> normalized(input) == "zh-CN"@
            || normalized(input) == "zh-TW"@,
        text::starts_with(text::ascii_lower(input), "ja"@) ==> normalized(input) == "ja"@,
        normalized(input) == "ja"@ ==> text::starts_with(text::ascii_lower(input), "ja"@)
            || text::ascii_lower(input) == "jp"@,
        !text::starts_with(text::ascii_lower(input), "zh"@) && !text::starts_with(
            text::ascii_lower(input),
            "ja"@,
        ) && text::ascii_lower(input) != "jp"@ ==> normalized(input) == "en"@,
{
    reveal_strlit("zh");
    reveal_strlit("ja");
    reveal_strlit("jp");
    reveal_strlit("en");
    reveal_strlit("zh-CN");
    reveal_strlit("zh-TW");
    let code = text::ascii_lower(input);
    assert("zh-CN"@[3] == 'C' && "zh-TW"@[3] == 'T' && "ja"@.len() == 2 && "en"@[0] == 'e' && "ja"@[0]
        == 'j');
    if text::starts_with(code, "zh"@) && text::starts_with(code, "ja"@) {
        assert(code.take(2)[0] == 'z');
        assert(code.take(2)[0] == 'j');
    }
}

/// Of the Chinese locales the traditional one is taken just where the code names Taiwan, Hong Kong or
/// the traditional script, and the simplified one elsewhere.
pub proof fn the_script_is_told_by_the_region(input: Seq<char>)
    requires
        text::starts_with(text::ascii_lower(input), "zh"@),
    ensures
        text::contains(text::ascii_lower(input), "tw"@) || text::contains(
            text::ascii_lower(input),
            "hk"@,
        ) || text::contains(text::ascii_lower(input), "hant"@) ==> normalized(input) == "zh-TW"@
            && system_locale(text::ascii_lower(input)) == "zh-TW"@,
        !text::contains(text::ascii_lower(input), "tw"@) && !text::contains(
            text::ascii_lower(input),
            "hk"@,
        ) && !text::contains(text::ascii_lower(input), "hant"@) ==> system_locale(
            text::ascii_lower(input),
        ) == "zh-CN"@ && (text::ascii_lower(input) != "zht"@ ==> normalized(input) == "zh-CN"@),
{
}

/// The user and the system are understood alike: the same code gives the same locale, but for the
/// two short codes that only a user gives.
pub proof fn user_and_system_are_understood_alike(input: Seq<char>)
    requires
        text::ascii_lower(input) != "zht"@,
        text::ascii_lower(input) != "jp"@,
    ensures
        system_locale(text::ascii_lower(input)) == normalized(input),
{
}

/// The two forms of an argument ask for the same: a code in the argument behind the switch, and one
/// behind an equals sign.
pub proof fn both_forms_ask_for_the_same(code: Seq<char>)
    ensures
        asked_for(seq!["--lang"@, code], 0) == Some(normalized(code)),
        asked_for(seq!["--locale"@, code], 0) == Some(normalized(code)),
        asked_for(seq!["--lang="@ + code], 0) == Some(normalized(code)),
        asked_for(seq!["--locale="@ + code], 0) == Some(normalized(code)),
{
    reveal_strlit("--lang");
    reveal_strlit("--locale");
    reveal_strlit("/lang");
    reveal_strlit("/locale");
    reveal_strlit("--lang=");
    reveal_strlit("--locale=");
    text::lemma_lower_fixed("--lang"@);
    text::lemma_lower_fixed("--locale"@);
    assert(LOCALE_OVERRIDE_ARGS@[0]@ == "--lang"@);
    assert(LOCALE_OVERRIDE_ARGS@[1]@ == "--locale"@);
    assert(strings::listed(LOCALE_OVERRIDE_ARGS@, "--lang"@));
    assert(strings::listed(LOCALE_OVERRIDE_ARGS@, "--locale"@));
    assert(seq!["--lang"@, code][1] == code);
    assert(seq!["--locale"@, code][1] == code);
    let a = "--lang="@ + code;
    let b = "--locale="@ + code;
    let (la, lb) = (text::ascii_lower(a), text::ascii_lower(b));
    assert(la =~= "--lang="@ + text::ascii_lower(code));
    assert(lb =~= "--locale="@ + text::ascii_lower(code));
    assert(la.take(7) =~= "--lang="@);
    assert(la.skip(7) =~= text::ascii_lower(code));
    assert(lb.take(9) =~= "--locale="@);
    assert(lb.skip(9) =~= text::ascii_lower(code));
    assert(!text::starts_with(lb, "--lang="@)) by {
        if text::starts_with(lb, "--lang="@) {
            assert(lb.take(7)[3] == 'a');
            assert(lb[3] == 'o');
        }
    }
    text::lemma_lower_twice(code);
    case_makes_no_difference(text::ascii_lower(code), code);
    assert(asked_for(seq![a], 0) == Some(normalized(text::ascii_lower(code))));
    assert(asked_for(seq![b], 0) == Some(normalized(text::ascii_lower(code))));
}

/// An argument that asks for no language is passed over, so that the first that does decides.
pub proof fn an_argument_that_asks_for_none_is_passed_over(args: Seq<Seq<char>>, i: int)
    requires
        0 <= i < args.len(),
        !strings::listed(LOCALE_OVERRIDE_ARGS@, text::ascii_lower(args[i])),
        !text::starts_with(text::ascii_lower(args[i]), "--lang="@),
        !text::starts_with(text::ascii_lower(args[i]), "--locale="@),
    ensures
        asked_for(args, i) == asked_for(args, i + 1),
{
}

/// A language is asked for by the four switches for that, and by no other word.
pub proof fn each_language_switch_is_known(word: Seq<char>)
    ensures
        strings::listed(LOCALE_OVERRIDE_ARGS@, word) <==> word == "--lang"@ || word == "--locale"@
            || word == "/lang"@ || word == "/locale"@,
{
    let a = LOCALE_OVERRIDE_ARGS@;
    assert(a.len() == 4);
    assert(a[0]@ == "--lang"@ && a[1]@ == "--locale"@ && a[2]@ == "/lang"@ && a[3]@ == "/locale"@);
}

} // verus!
