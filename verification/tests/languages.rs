use text2num::digit_string::DigitString;
use text2num::error::Error;
use text2num::lang::de::German;
use text2num::lang::en::English;
use text2num::lang::es::Spanish;
use text2num::lang::fr::French;
use text2num::lang::it::Italian;
use text2num::lang::nl::Dutch;
use text2num::lang::pt::Portuguese;
use text2num::lang::{get_interpreter_for, LangInterpreter, Language, MorphologicalMarker, CODES};
use text2num::numeral::Value;

fn rendered<L: LangInterpreter>(lang: &L, words: &[&str]) -> Result<String, Error> {
    lang.exec_group(words).map(|acc| lang.format_and_value(&acc).0)
}

fn check<L: LangInterpreter>(lang: &L, cases: &[(&[&str], &str)]) {
    for (words, expected) in cases {
        assert_eq!(rendered(lang, words).as_deref(), Ok(*expected), "{:?}", words);
    }
}

fn check_errors<L: LangInterpreter>(lang: &L, cases: &[(&[&str], Error)]) {
    for (words, expected) in cases {
        assert_eq!(rendered(lang, words), Err(*expected), "{:?}", words);
    }
}

#[test]
fn lookup_finds_every_supported_language() {
    for code in ["de", "es", "en", "fr", "it", "nl", "pt"] {
        let lang = get_interpreter_for(code);
        assert!(lang.is_some(), "{code}");
        assert_eq!(lang.unwrap().code(), code);
    }
    assert_eq!(CODES, ["de", "es", "en", "fr", "it", "nl", "pt"]);
    assert!(matches!(get_interpreter_for("de"), Some(Language::German(_))));
    assert!(matches!(get_interpreter_for("es"), Some(Language::Spanish(_))));
    assert!(matches!(get_interpreter_for("en"), Some(Language::English(_))));
    assert!(matches!(get_interpreter_for("fr"), Some(Language::French(_))));
    assert!(matches!(get_interpreter_for("it"), Some(Language::Italian(_))));
    assert!(matches!(get_interpreter_for("nl"), Some(Language::Dutch(_))));
    assert!(matches!(get_interpreter_for("pt"), Some(Language::Portuguese(_))));
}

#[test]
fn lookup_finds_nothing_for_other_codes() {
    for code in ["", "xx", "EN", "eng", "en ", " en", "e", "english", "ru", "d", "dee"] {
        assert!(get_interpreter_for(code).is_none(), "{code}");
    }
}

#[test]
fn constructors_give_their_language() {
    assert!(matches!(Language::german(), Language::German(_)));
    assert!(matches!(Language::spanish(), Language::Spanish(_)));
    assert!(matches!(Language::english(), Language::English(_)));
    assert!(matches!(Language::french(), Language::French(_)));
    assert!(matches!(Language::italian(), Language::Italian(_)));
    assert!(matches!(Language::dutch(), Language::Dutch(_)));
    assert!(matches!(Language::portugese(), Language::Portuguese(_)));
    assert_eq!(Language::portugese().code(), "pt");
    assert_eq!(Language::german().code(), "de");
    let _ = (
        German::default(),
        Spanish::default(),
        English::default(),
        French::default(),
        Italian::default(),
        Dutch::default(),
        Portuguese::default(),
    );
}

#[test]
fn dispatcher_forwards_to_the_selected_language() {
    let english = Language::english();
    let french = Language::french();
    assert_eq!(rendered(&english, &["two", "hundred", "thirty"]).as_deref(), Ok("230"));
    assert_eq!(rendered(&french, &["two"]), Err(Error::NotANumber));
    assert_eq!(rendered(&french, &["deux", "cent", "trente"]).as_deref(), Ok("230"));
    assert_eq!(rendered(&english, &["deux"]), Err(Error::NotANumber));
    assert_eq!(english.check_decimal_separator("point"), Some('.'));
    assert_eq!(french.check_decimal_separator("point"), None);
    assert_eq!(french.check_decimal_separator("virgule"), Some(','));
    assert!(english.is_linking("and"));
    assert!(!french.is_linking("and"));
    assert!(french.is_linking("et"));
    assert_eq!(english.get_morph_marker("twentieth"), MorphologicalMarker::Ordinal("th"));
    assert_eq!(french.get_morph_marker("premier"), MorphologicalMarker::Ordinal("er"));
    assert!(french.get_morph_marker("twentieth").is_none());

    let int = english.exec_group(&["twelve"]).unwrap();
    let mut dec = DigitString::new();
    assert_eq!(english.apply_decimal("five", &mut dec), Ok(()));
    assert_eq!(french.apply_decimal("five", &mut dec), Err(Error::NotANumber));
    let (text, value) = english.format_decimal_and_value(&int, &dec, '.');
    assert_eq!(text, "12.5");
    assert_eq!(value, Some(Value { mantissa: 125, places: 1 }));
    let acc = english.exec_group(&["twentieth"]).unwrap();
    assert_eq!(
        english.format_and_value(&acc),
        ("20th".to_string(), Some(Value { mantissa: 20, places: 0 }))
    );
}

#[test]
fn unknown_words_are_no_numbers_in_any_language() {
    for code in CODES {
        let lang = get_interpreter_for(code).unwrap();
        for word in ["xyzzy", "", "-", "2"] {
            let mut acc = DigitString::new();
            assert_eq!(lang.apply(word, &mut acc), Err(Error::NotANumber), "{code} {word}");
            assert_eq!(lang.apply_decimal(word, &mut acc), Err(Error::NotANumber));
            assert_eq!(lang.format_and_value(&acc).0, "");
            assert!(lang.get_morph_marker(word).is_none());
            assert_eq!(lang.check_decimal_separator(word), None);
            assert!(!lang.is_linking(word));
        }
    }
}

#[test]
fn lone_multipliers_are_incomplete_in_every_language() {
    let cases = [
        ("en", "hundred"),
        ("en", "thousand"),
        ("en", "million"),
        ("de", "million"),
        ("de", "milliarden"),
        ("es", "millón"),
        ("es", "billones"),
        ("fr", "million"),
        ("fr", "milliards"),
        ("it", "mila"),
        ("it", "milione"),
        ("nl", "miljoen"),
        ("nl", "miljard"),
        ("pt", "milhão"),
        ("pt", "bilhões"),
    ];
    for (code, word) in cases {
        let lang = get_interpreter_for(code).unwrap();
        assert_eq!(rendered(&lang, &[word]), Err(Error::Incomplete), "{code} {word}");
        assert_eq!(
            rendered(&lang, &[word, word]),
            Err(Error::Inconsistent),
            "{code} {word}"
        );
    }
}

#[test]
fn german_numbers() {
    check(
        &German,
        &[
            (&["null"], "0"),
            (&["eins"], "1"),
            (&["einundzwanzig"], "21"),
            (&["neunundneunzig"], "99"),
            (&["ein", "hundert", "drei"], "103"),
            (&["zweihundert", "dreiundvierzig"], "243"),
            (&["hundert"], "100"),
            (&["tausend"], "1000"),
            (&["drei", "millionen", "zwei", "tausend"], "3002000"),
            (&["eine", "milliarde"], "1000000000"),
            (&["zwei", "tausend", "hundert", "zwölf"], "2112"),
            (&["dritte"], "3."),
            (&["zwölfte"], "12."),
        ],
    );
    check_errors(
        &German,
        &[
            (&["zwanzig", "dreißig"], Error::Overlap),
            (&["zwei", "tausend", "drei", "millionen"], Error::Inconsistent),
            (&["zwei", "hunde"], Error::NotANumber),
            (&["zwei", "und"], Error::NotANumber),
        ],
    );
    assert_eq!(German.check_decimal_separator("komma"), Some(','));
    assert!(German.is_linking("oder"));
}

#[test]
fn dutch_numbers() {
    check(
        &Dutch,
        &[
            (&["nul"], "0"),
            (&["eenentwintig"], "21"),
            (&["tweeëntwintig"], "22"),
            (&["negenennegentig"], "99"),
            (&["tweehonderd", "vijfendertig"], "235"),
            (&["honderd"], "100"),
            (&["duizend"], "1000"),
            (&["drie", "miljoen", "vier", "duizend"], "3004000"),
            (&["eerste"], "1ste"),
            (&["derde"], "3de"),
            (&["achtste"], "8ste"),
            (&["twaalfde"], "12de"),
        ],
    );
    check_errors(
        &Dutch,
        &[(&["twintig", "dertig"], Error::Overlap), (&["twee", "honden"], Error::NotANumber)],
    );
    assert_eq!(Dutch.check_decimal_separator("komma"), Some(','));
    assert!(Dutch.is_linking("of"));
}

#[test]
fn french_numbers() {
    check(
        &French,
        &[
            (&["zéro"], "0"),
            (&["vingt", "et", "un"], "21"),
            (&["vingt-deux"], "22"),
            (&["trente-et-un"], "31"),
            (&["soixante-dix"], "70"),
            (&["soixante-et-onze"], "71"),
            (&["soixante-douze"], "72"),
            (&["soixante-dix-sept"], "77"),
            (&["quatre-vingts"], "80"),
            (&["quatre-vingt-un"], "81"),
            (&["quatre-vingt-dix"], "90"),
            (&["quatre-vingt-dix-sept"], "97"),
            (&["septante", "huit"], "78"),
            (&["nonante-neuf"], "99"),
            (&["deux", "cent", "trois"], "203"),
            (&["cent"], "100"),
            (&["mille"], "1000"),
            (&["mille", "neuf", "cent", "quatre-vingt-dix-neuf"], "1999"),
            (&["deux", "millions", "cent", "mille"], "2100000"),
            (&["un", "million", "mille"], "1001000"),
            (&["premier"], "1er"),
            (&["première"], "1re"),
            (&["deuxième"], "2ème"),
            (&["onzième"], "11ème"),
        ],
    );
    check_errors(
        &French,
        &[
            (&["soixante", "dix"], Error::Overlap),
            (&["quatre", "vingt"], Error::Overlap),
            (&["vingt", "trente"], Error::Overlap),
            (&["mille", "millions"], Error::Inconsistent),
            (&["deux", "chiens"], Error::NotANumber),
            (&["zéro", "mille"], Error::Overlap),
        ],
    );
}

#[test]
fn spanish_numbers() {
    check(
        &Spanish,
        &[
            (&["cero"], "0"),
            (&["treinta", "y", "uno"], "31"),
            (&["veintidós"], "22"),
            (&["veintiún"], "21"),
            (&["dieciséis"], "16"),
            (&["cien"], "100"),
            (&["ciento", "uno"], "101"),
            (&["quinientos", "cuarenta", "y", "dos"], "542"),
            (&["mil"], "1000"),
            (&["mil", "novecientos", "noventa", "y", "nueve"], "1999"),
            (&["dos", "millones", "trescientos", "mil"], "2300000"),
            (&["un", "billón"], "1000000000000"),
            (&["primero"], "1º"),
            (&["tercera"], "3ª"),
        ],
    );
    check_errors(
        &Spanish,
        &[
            (&["dos", "mil", "millones"], Error::Inconsistent),
            (&["quinientos", "cien"], Error::Overlap),
            (&["dos", "perros"], Error::NotANumber),
        ],
    );
    assert_eq!(Spanish.check_decimal_separator("coma"), Some(','));
    assert_eq!(Spanish.check_decimal_separator("punto"), Some('.'));
}

#[test]
fn italian_numbers() {
    check(
        &Italian,
        &[
            (&["zero"], "0"),
            (&["ventuno"], "21"),
            (&["ventidue"], "22"),
            (&["ventitré"], "23"),
            (&["trentotto"], "38"),
            (&["novantanove"], "99"),
            (&["cento"], "100"),
            (&["duecento", "quarantacinque"], "245"),
            (&["mille"], "1000"),
            (&["due", "mila", "cento"], "2100"),
            (&["tre", "milioni"], "3000000"),
            (&["quinto"], "5º"),
            (&["nona"], "9ª"),
        ],
    );
    check_errors(
        &Italian,
        &[(&["venti", "trenta"], Error::Overlap), (&["due", "cani"], Error::NotANumber)],
    );
    assert_eq!(Italian.check_decimal_separator("virgola"), Some(','));
}

#[test]
fn portuguese_numbers() {
    check(
        &Portuguese,
        &[
            (&["zero"], "0"),
            (&["cento", "e", "vinte", "e", "três"], "123"),
            (&["mil", "e", "duzentos"], "1200"),
            (&["dezesseis"], "16"),
            (&["dezasseis"], "16"),
            (&["quatorze"], "14"),
            (&["duas", "mil"], "2000"),
            (&["cem"], "100"),
            (&["dois", "milhões"], "2000000"),
            (&["três", "bilhões"], "3000000000"),
            (&["primeiro"], "1º"),
            (&["nona"], "9ª"),
        ],
    );
    check_errors(
        &Portuguese,
        &[(&["vinte", "trinta"], Error::Overlap), (&["dois", "gatos"], Error::NotANumber)],
    );
    assert_eq!(Portuguese.check_decimal_separator("vírgula"), Some(','));
}
