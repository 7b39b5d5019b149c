use font_shaper::locator::{
    DefaultLocator, FontAttributes, FontLocator, FontLocatorSelection, Locator, LocatorError,
    NopSystemSource, Platform,
};

fn all() -> Vec<FontLocatorSelection> {
    vec![
        FontLocatorSelection::FontConfig,
        FontLocatorSelection::FontLoader,
        FontLocatorSelection::FontKit,
        FontLocatorSelection::ConfigDirsOnly,
    ]
}

#[test]
fn names_parse_in_any_case() {
    assert_eq!(FontLocatorSelection::from_str("fontconfig"), Ok(FontLocatorSelection::FontConfig));
    assert_eq!(FontLocatorSelection::from_str("FontConfig"), Ok(FontLocatorSelection::FontConfig));
    assert_eq!(FontLocatorSelection::from_str("FONTCONFIG"), Ok(FontLocatorSelection::FontConfig));
    assert_eq!(FontLocatorSelection::from_str("fontLOADER"), Ok(FontLocatorSelection::FontLoader));
    assert_eq!(FontLocatorSelection::from_str("FontKit"), Ok(FontLocatorSelection::FontKit));
    assert_eq!(
        FontLocatorSelection::from_str("ConfigDirsOnly"),
        Ok(FontLocatorSelection::ConfigDirsOnly)
    );
}

#[test]
fn every_listed_name_parses_to_its_variant() {
    let names = FontLocatorSelection::variants();
    assert_eq!(names, vec!["FontConfig", "FontLoader", "FontKit", "ConfigDirsOnly"]);
    for (name, selection) in names.iter().zip(all()) {
        assert_eq!(FontLocatorSelection::from_str(name), Ok(selection));
    }
}

#[test]
fn lower_case_follows_unicode() {
    assert_eq!(
        FontLocatorSelection::from_str("Font\u{212a}it"),
        Ok(FontLocatorSelection::FontKit)
    );
}

#[test]
fn only_the_lower_case_form_is_looked_up() {
    assert_eq!(
        FontLocatorSelection::from_lowercase("fontkit", "anything"),
        Ok(FontLocatorSelection::FontKit)
    );
    assert!(FontLocatorSelection::from_lowercase("FontKit", "FontKit").is_err());
}

#[test]
fn an_unknown_name_is_refused_with_the_valid_names() {
    let error = FontLocatorSelection::from_str("CoreText").unwrap_err();
    assert_eq!(
        error,
        LocatorError::UnknownVariant {
            name: "CoreText".to_string(),
            possible: vec!["FontConfig", "FontLoader", "FontKit", "ConfigDirsOnly"],
        }
    );
    assert_eq!(
        error.message(),
        "CoreText is not a valid FontLocatorSelection variant, possible values are \
         [\"FontConfig\", \"FontLoader\", \"FontKit\", \"ConfigDirsOnly\"]"
    );
}

#[test]
fn names_are_not_trimmed() {
    assert!(FontLocatorSelection::from_str(" fontconfig").is_err());
    assert!(FontLocatorSelection::from_str("").is_err());
    assert!(FontLocatorSelection::from_str("font config").is_err());
}

#[test]
fn a_message_lists_what_the_error_holds() {
    let none = LocatorError::UnknownVariant { name: "x".to_string(), possible: vec![] };
    assert_eq!(
        none.message(),
        "x is not a valid FontLocatorSelection variant, possible values are []"
    );
    let one = LocatorError::UnknownVariant { name: String::new(), possible: vec!["A"] };
    assert_eq!(
        one.message(),
        " is not a valid FontLocatorSelection variant, possible values are [\"A\"]"
    );
    let backend = LocatorError::Backend { reason: "no fontconfig".to_string() };
    assert_eq!(backend.message(), "no fontconfig");
}

#[test]
fn the_default_depends_on_the_platform() {
    assert_eq!(
        FontLocatorSelection::default_for(Platform::Unix),
        FontLocatorSelection::FontConfig
    );
    assert_eq!(
        FontLocatorSelection::default_for(Platform::MacOs),
        FontLocatorSelection::FontLoader
    );
    assert_eq!(
        FontLocatorSelection::default_for(Platform::Windows),
        FontLocatorSelection::FontLoader
    );
    assert_eq!(
        FontLocatorSelection::default_for(Platform::Other),
        FontLocatorSelection::FontLoader
    );
}

#[test]
fn the_default_is_read_as_it_was_set() {
    let mut default = DefaultLocator::new(Platform::Unix);
    assert_eq!(FontLocatorSelection::get_default(&default), FontLocatorSelection::FontConfig);
    for selection in all() {
        selection.set_default(&mut default);
        assert_eq!(FontLocatorSelection::get_default(&default), selection);
        assert_eq!(default.current, selection);
    }
}

#[test]
fn locators_exist_where_their_system_is() {
    let font_config = FontLocatorSelection::FontConfig;
    assert!(font_config.is_available_on(Platform::Unix));
    assert!(!font_config.is_available_on(Platform::MacOs));
    assert!(!font_config.is_available_on(Platform::Windows));
    assert!(!font_config.is_available_on(Platform::Other));
    for selection in [FontLocatorSelection::FontLoader, FontLocatorSelection::FontKit] {
        assert!(!selection.is_available_on(Platform::Unix));
        assert!(selection.is_available_on(Platform::MacOs));
        assert!(selection.is_available_on(Platform::Windows));
        assert!(!selection.is_available_on(Platform::Other));
    }
    for platform in [Platform::Unix, Platform::MacOs, Platform::Windows, Platform::Other] {
        assert!(FontLocatorSelection::ConfigDirsOnly.is_available_on(platform));
    }
}

#[test]
fn each_strategy_makes_its_own_locator() {
    assert!(matches!(
        FontLocatorSelection::FontConfig.new_locator(Platform::Unix),
        Locator::FontConfig
    ));
    assert!(matches!(
        FontLocatorSelection::FontLoader.new_locator(Platform::MacOs),
        Locator::FontLoader
    ));
    assert!(matches!(
        FontLocatorSelection::FontLoader.new_locator(Platform::Windows),
        Locator::FontLoader
    ));
    assert!(matches!(
        FontLocatorSelection::FontKit.new_locator(Platform::MacOs),
        Locator::FontKit
    ));
    assert!(matches!(
        FontLocatorSelection::FontKit.new_locator(Platform::Windows),
        Locator::FontKit
    ));
    assert!(matches!(
        FontLocatorSelection::ConfigDirsOnly.new_locator(Platform::Other),
        Locator::ConfigDirsOnly(_)
    ));
}

#[test]
fn a_strategy_that_the_platform_lacks_finds_nothing() {
    let lacking = [
        (FontLocatorSelection::FontConfig, Platform::MacOs),
        (FontLocatorSelection::FontConfig, Platform::Windows),
        (FontLocatorSelection::FontConfig, Platform::Other),
        (FontLocatorSelection::FontLoader, Platform::Unix),
        (FontLocatorSelection::FontLoader, Platform::Other),
        (FontLocatorSelection::FontKit, Platform::Unix),
        (FontLocatorSelection::FontKit, Platform::Other),
    ];
    let wanted = vec![FontAttributes { family: "Fira Code".to_string(), bold: false, italic: false }];
    for (selection, platform) in lacking {
        assert!(!selection.is_available_on(platform));
        match selection.new_locator(platform) {
            Locator::ConfigDirsOnly(stub) => {
                assert!(stub.load_fonts(&wanted).unwrap().is_empty());
            }
            _ => panic!("a locator that the platform lacks"),
        }
    }
}

#[test]
fn the_default_strategy_has_a_locator_everywhere() {
    for platform in [Platform::Unix, Platform::MacOs, Platform::Windows, Platform::Other] {
        let default = DefaultLocator::new(platform);
        let selection = FontLocatorSelection::get_default(&default);
        let locator = selection.new_locator(platform);
        match platform {
            Platform::Unix => assert!(matches!(locator, Locator::FontConfig)),
            Platform::Other => assert!(matches!(locator, Locator::ConfigDirsOnly(_))),
            _ => assert!(matches!(locator, Locator::FontLoader)),
        }
    }
}

#[test]
fn the_configured_directories_alone_find_nothing() {
    let wanted = vec![
        FontAttributes { family: "Fira Code".to_string(), bold: false, italic: false },
        FontAttributes { family: "Noto Sans".to_string(), bold: true, italic: true },
    ];
    let locator = match FontLocatorSelection::ConfigDirsOnly.new_locator(Platform::Unix) {
        Locator::ConfigDirsOnly(nop) => nop,
        _ => unreachable!(),
    };
    assert!(locator.load_fonts(&wanted).unwrap().is_empty());
    let boxed: Box<dyn FontLocator> = Box::new(NopSystemSource {});
    assert!(boxed.load_fonts(&[]).unwrap().is_empty());
}

#[test]
fn names_parse_through_the_standard_trait() {
    assert_eq!("fontKIT".parse::<FontLocatorSelection>(), Ok(FontLocatorSelection::FontKit));
    assert!("fontkitty".parse::<FontLocatorSelection>().is_err());
}
