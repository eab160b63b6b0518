use khonsubase::webserver::localization::{
    pick_best_language, split_accept_language_header, AcceptableLanguage, LanguageCode,
    LanguageRange,
};

fn parse_accept_language_header(header: &str) -> Vec<(String, f32)> {
    split_accept_language_header(header)
        .into_iter()
        .map(|range| {
            let weight = match range.quality {
                Some(quality) => quality.parse::<f32>().unwrap_or_default(),
                None => 1f32,
            };
            (range.code, weight)
        })
        .collect()
}

fn pick(default_code: &str, header: Option<&str>, available: &[&str]) -> String {
    let accepted: Option<Vec<AcceptableLanguage>> = header.map(|header| {
        parse_accept_language_header(header)
            .into_iter()
            .map(|(code, weight)| AcceptableLanguage {
                code,
                weight: weight.to_bits(),
            })
            .collect()
    });
    let available: Vec<String> = available.iter().map(|locale| locale.to_string()).collect();
    pick_best_language(default_code, accepted.as_ref(), &available)
}

#[test]
fn parse_accept_language_header_tests() {
    assert_eq!(
        parse_accept_language_header("en"),
        vec![("en".to_owned(), 1.)]
    );

    assert_eq!(
        parse_accept_language_header("en-US"),
        vec![("en-US".to_owned(), 1.)]
    );

    assert_eq!(
        parse_accept_language_header("en-US;q=0.9"),
        vec![("en-US".to_owned(), 0.9)]
    );

    assert_eq!(
        parse_accept_language_header("en-US, en;q=0.9,*;q=0.5"),
        vec![
            ("en-US".to_owned(), 1.),
            ("en".to_owned(), 0.9),
            ("*".to_owned(), 0.5),
        ]
    );
}

#[test]
fn pick_best_language_no_header() {
    assert_eq!(pick("en-US", None, &[]), "en-US");
}

#[test]
fn pick_best_language_no_matching_languages() {
    assert_eq!(
        pick("en-US", Some("es-MX,es-AR;q=0.9,es;q=0.5"), &[]),
        "en-US"
    );
}

#[test]
fn pick_best_language_best_match_orderless() {
    assert_eq!(
        pick("af", Some("es-MX,es-AR;q=0.9,es;q=0.5"), &["es-MX", "es"]),
        "es-MX"
    );

    assert_eq!(
        pick("af", Some("es-MX,es-AR;q=0.9,es;q=0.5"), &["es", "es-MX"]),
        "es-MX"
    );
}

#[test]
fn pick_best_language_second_best_match() {
    assert_eq!(
        pick("af", Some("es-MX,es-AR;q=0.9,es;q=0.5"), &["es", "es-AR"]),
        "es-AR"
    );
}

#[test]
fn pick_best_language_worst_match() {
    assert_eq!(
        pick(
            "af",
            Some("es-MX,es-AR;q=0.9,es;q=0.5"),
            &["es", "en", "en-US"]
        ),
        "es"
    );
}

#[test]
fn header_items_are_split_as_written() {
    assert_eq!(
        split_accept_language_header(""),
        vec![LanguageRange {
            code: String::new(),
            quality: None
        }]
    );
    assert_eq!(
        split_accept_language_header(" de ;q=0.8;q=1 ,, fr;q="),
        vec![
            LanguageRange {
                code: "de ".to_owned(),
                quality: Some("0.8".to_owned())
            },
            LanguageRange {
                code: String::new(),
                quality: None
            },
            LanguageRange {
                code: "fr".to_owned(),
                quality: Some(String::new())
            },
        ]
    );
}

#[test]
fn weights_that_are_no_numbers_never_win() {
    let language = |code: &str, weight: f32| AcceptableLanguage {
        code: code.to_owned(),
        weight: weight.to_bits(),
    };
    let available = vec!["en".to_owned(), "de".to_owned(), "fr".to_owned()];
    let accepted = vec![
        language("en", f32::NAN),
        language("de", -1.0),
        language("fr", 0.0),
    ];
    assert_eq!(pick_best_language("xx", Some(&accepted), &available), "xx");
    let accepted = vec![
        language("en", 0.25),
        language("de", f32::INFINITY),
        language("fr", f32::INFINITY),
    ];
    assert_eq!(pick_best_language("xx", Some(&accepted), &available), "de");
    let accepted = vec![language("not a locale!", 1.0), language("fr", 0.1)];
    assert_eq!(pick_best_language("xx", Some(&accepted), &available), "fr");
}

#[test]
fn language_of_a_locale() {
    assert_eq!(LanguageCode::filter("en-US"), Some("en".to_owned()));
    assert_eq!(LanguageCode::filter("ES_mx"), Some("es".to_owned()));
    assert_eq!(LanguageCode::filter("!"), None);
}
