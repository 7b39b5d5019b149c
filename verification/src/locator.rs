//! Strategies that find the fonts of a selection, and the choice among them.

use crate::handle::FontDataHandle;
use crate::text::same_text;
use vstd::prelude::*;
use vstd::string::*;

verus! {

/// What a caller asks of a font: its family, and whether it is bold or
/// italic.
#[derive(Clone, Debug, PartialEq, Eq)]
pub struct FontAttributes {
    pub family: String,
    pub bold: bool,
    pub italic: bool,
}

/// Why a locator or the choice of one failed.
#[derive(Clone, Debug, PartialEq, Eq)]
pub enum LocatorError {
    /// The text names no strategy; `possible` lists the names that do.
    UnknownVariant { name: String, possible: Vec<&'static str> },
    /// A strategy could not do its work at all.
    Backend { reason: String },
}

/// A [`LocatorError`] as mathematical values.
pub enum LocatorFault {
    UnknownVariant { name: Seq<char>, possible: Seq<Seq<char>> },
    Backend { reason: Seq<char> },
}

/// The texts of a sequence of names, in order.
pub open spec fn names_view(names: Seq<&'static str>) -> Seq<Seq<char>> {
    names.map_values(|name: &'static str| name@)
}

/// A name between double quotes.
pub open spec fn quoted(name: Seq<char>) -> Seq<char> {
    "\""@ + name + "\""@
}

/// The names between double quotes, with a comma and a space between each
/// two.
pub open spec fn listed(names: Seq<Seq<char>>) -> Seq<char>
    decreases names.len(),
{
    if names.len() == 0 {
        Seq::empty()
    } else if names.len() == 1 {
        quoted(names[0])
    } else {
        listed(names.drop_last()) + ", "@ + quoted(names.last())
    }
}

/// What an error says in words. Of a text that names no strategy: the
/// text, that it is no valid variant, and the valid names in square
/// brackets.
pub open spec fn message_of(fault: LocatorFault) -> Seq<char> {
    match fault {
        LocatorFault::UnknownVariant { name, possible } => name
            + " is not a valid FontLocatorSelection variant, possible values are ["@ + listed(
            possible,
        ) + "]"@,
        LocatorFault::Backend { reason } => reason,
    }
}

impl View for LocatorError {
    type V = LocatorFault;

    open spec fn view(&self) -> LocatorFault {
        match self {
            LocatorError::UnknownVariant { name, possible } => LocatorFault::UnknownVariant {
                name: name@,
                possible: names_view(possible@),
            },
            LocatorError::Backend { reason } => LocatorFault::Backend { reason: reason@ },
        }
    }
}

impl LocatorError {
    /// What the error says in words.
    pub fn message(&self) -> (text: String)
        ensures
            text@ == message_of(self@),
    {
        match self {
            LocatorError::Backend { reason } => reason.clone(),
            LocatorError::UnknownVariant { name, possible } => {
                let mut text: String = name.clone();
                text.append(" is not a valid FontLocatorSelection variant, possible values are [");
                let ghost head = text@;
                let ghost names = names_view(possible@);
                let n: usize = possible.len();
                let mut i: usize = 0;
                assert(names.take(0).len() == 0);
                assert(head + listed(names.take(0)) =~= head);
                while i < n
                    invariant
                        i <= n,
                        n == possible@.len(),
                        names == names_view(possible@),
                        text@ == head + listed(names.take(i as int)),
                    decreases n - i,
                {
                    let ghost before = text@;
                    if i > 0 {
                        text.append(", ");
                    }
                    text.append("\"");
                    text.append(possible[i]);
                    text.append("\"");
                    proof {
                        let upto = names.take(i + 1);
                        assert(upto.drop_last() =~= names.take(i as int));
                        assert(upto.last() == possible@[i as int]@);
                        if i > 0 {
                            assert(text@ =~= head + (listed(names.take(i as int)) + ", "@ + quoted(
                                upto.last(),
                            )));
                        } else {
                            assert(upto[0] == upto.last());
                            assert(text@ =~= head + quoted(upto.last()));
                        }
                    }
                    i += 1;
                }
                assert(names.take(n as int) =~= names);
                text.append("]");
                text
            },
        }
    }
}

/// A strategy that finds fonts. Given the fonts asked for, in order of
/// preference, it returns the handles of those that it could find; what it
/// cannot find it leaves out.
pub trait FontLocator {
    fn load_fonts(&self, fonts_selection: &[FontAttributes]) -> Result<
        Vec<FontDataHandle>,
        LocatorError,
    >;
}

/// The strategy that finds nothing: fonts come from the configured
/// directories alone.
pub struct NopSystemSource {}

impl FontLocator for NopSystemSource {
    fn load_fonts(&self, fonts_selection: &[FontAttributes]) -> (found: Result<
        Vec<FontDataHandle>,
        LocatorError,
    >)
        ensures
            found matches Ok(handles) && handles@.len() == 0,
    {
        Ok(Vec::new())
    }
}

/// The kind of system that the process runs on, as far as the choice of a
/// locator depends on it.
#[derive(Clone, Copy, Debug, PartialEq, Eq, Structural)]
pub enum Platform {
    /// A POSIX system other than Apple's.
    Unix,
    MacOs,
    Windows,
    /// Any other system.
    Other,
}

/// The names of the strategies.
#[derive(Clone, Copy, Debug, PartialEq, Eq, Structural)]
pub enum FontLocatorSelection {
    /// Resolve fonts through fontconfig (POSIX systems other than Apple's).
    FontConfig,
    /// Resolve fonts by the system's own method.
    FontLoader,
    /// Resolve fonts by another method of the system.
    FontKit,
    /// Use only the configured font directories.
    ConfigDirsOnly,
}

/// The locator that a strategy stands for. The three that ask the system
/// are brought by the host; the fourth is [`NopSystemSource`], which also
/// stands in for a strategy that the platform has no locator for.
pub enum Locator {
    FontConfig,
    FontLoader,
    FontKit,
    ConfigDirsOnly(NopSystemSource),
}

/// The process-wide default strategy, to be kept by the host in one place
/// and behind a lock.
#[derive(Clone, Copy, Debug, PartialEq, Eq, Structural)]
pub struct DefaultLocator {
    pub current: FontLocatorSelection,
}

impl DefaultLocator {
    /// The default with which a process starts on `platform`.
    pub fn new(platform: Platform) -> (default: Self)
        ensures
            default.current == FontLocatorSelection::spec_default_for(platform),
    {
        DefaultLocator { current: FontLocatorSelection::default_for(platform) }
    }
}

impl std::str::FromStr for FontLocatorSelection {
    type Err = LocatorError;

    /// Parses the name of a strategy, as [`FontLocatorSelection::from_str`]
    /// does.
    fn from_str(s: &str) -> (result: Result<Self, Self::Err>)
        ensures
            parse_view(result) == parsed(lowercase(s@), s@),
    {
        FontLocatorSelection::from_str(s)
    }
}

/// The lower-case form of a text, as `str::to_lowercase` defines it.
pub uninterp spec fn lowercase(text: Seq<char>) -> Seq<char>;

/// Calls `str::to_lowercase`, which maps each character to its lower-case
/// form by the Unicode tables.
#[verifier::external_body]
fn to_lowercase(s: &str) -> (lowered: String)
    ensures
        lowered@ == lowercase(s@),
{
    s.to_lowercase()
}

/// The name of a strategy, as [`FontLocatorSelection::variants`] lists it.
pub open spec fn variant_name(selection: FontLocatorSelection) -> Seq<char> {
    match selection {
        FontLocatorSelection::FontConfig => "FontConfig"@,
        FontLocatorSelection::FontLoader => "FontLoader"@,
        FontLocatorSelection::FontKit => "FontKit"@,
        FontLocatorSelection::ConfigDirsOnly => "ConfigDirsOnly"@,
    }
}

/// The names of all strategies, in the order of their declaration.
pub open spec fn variant_names() -> Seq<Seq<char>> {
    seq![
        variant_name(FontLocatorSelection::FontConfig),
        variant_name(FontLocatorSelection::FontLoader),
        variant_name(FontLocatorSelection::FontKit),
        variant_name(FontLocatorSelection::ConfigDirsOnly),
    ]
}

/// The strategy that a text in lower case names, if it names one.
pub open spec fn selection_named(lowered: Seq<char>) -> Option<FontLocatorSelection> {
    if lowered == "fontconfig"@ {
        Some(FontLocatorSelection::FontConfig)
    } else if lowered == "fontloader"@ {
        Some(FontLocatorSelection::FontLoader)
    } else if lowered == "fontkit"@ {
        Some(FontLocatorSelection::FontKit)
    } else if lowered == "configdirsonly"@ {
        Some(FontLocatorSelection::ConfigDirsOnly)
    } else {
        None
    }
}

/// What parsing yields for a text `given` whose lower-case form is
/// `lowered`: the strategy that `lowered` names, else an error that keeps
/// `given` and lists the names of all strategies.
pub open spec fn parsed(lowered: Seq<char>, given: Seq<char>) -> Result<
    FontLocatorSelection,
    LocatorFault,
> {
    match selection_named(lowered) {
        Some(selection) => Ok(selection),
        None => Err(LocatorFault::UnknownVariant { name: given, possible: variant_names() }),
    }
}

/// A parse result with its error as mathematical values.
pub open spec fn parse_view(result: Result<FontLocatorSelection, LocatorError>) -> Result<
    FontLocatorSelection,
    LocatorFault,
> {
    match result {
        Ok(selection) => Ok(selection),
        Err(error) => Err(error@),
    }
}

impl FontLocatorSelection {
    /// The strategy that a process starts with: fontconfig on POSIX systems
    /// other than Apple's, the system's loader elsewhere.
    pub open spec fn spec_default_for(platform: Platform) -> FontLocatorSelection {
        if platform == Platform::Unix {
            FontLocatorSelection::FontConfig
        } else {
            FontLocatorSelection::FontLoader
        }
    }

    /// Whether the strategy's locator is available on `platform`: fontconfig on
    /// POSIX systems other than Apple's, the system's two methods on macOS
    /// and Windows, the configured directories everywhere.
    pub open spec fn spec_is_available_on(self, platform: Platform) -> bool {
        match self {
            FontLocatorSelection::FontConfig => platform == Platform::Unix,
            FontLocatorSelection::FontLoader | FontLocatorSelection::FontKit => platform
                == Platform::MacOs || platform == Platform::Windows,
            FontLocatorSelection::ConfigDirsOnly => true,
        }
    }

    /// The locator that the strategy stands for.
    pub open spec fn spec_locator(self) -> Locator {
        match self {
            FontLocatorSelection::FontConfig => Locator::FontConfig,
            FontLocatorSelection::FontLoader => Locator::FontLoader,
            FontLocatorSelection::FontKit => Locator::FontKit,
            FontLocatorSelection::ConfigDirsOnly => Locator::ConfigDirsOnly(NopSystemSource {  }),
        }
    }

    /// The locator that the strategy yields on `platform`. Every strategy
    /// can be chosen on every platform: where the platform has no locator
    /// for it, the locator that finds nothing stands in.
    pub open spec fn spec_locator_on(self, platform: Platform) -> Locator {
        if self.spec_is_available_on(platform) {
            self.spec_locator()
        } else {
            Locator::ConfigDirsOnly(NopSystemSource {  })
        }
    }

    /// The strategy that a process starts with on `platform`.
    #[verifier::when_used_as_spec(spec_default_for)]
    pub fn default_for(platform: Platform) -> (selection: Self)
        ensures
            selection == Self::spec_default_for(platform),
    {
        match platform {
            Platform::Unix => FontLocatorSelection::FontConfig,
            _ => FontLocatorSelection::FontLoader,
        }
    }

    /// Makes this strategy the default.
    pub fn set_default(self, default: &mut DefaultLocator)
        ensures
            final(default).current == self,
    {
        default.current = self;
    }

    /// The strategy that is the default.
    pub fn get_default(default: &DefaultLocator) -> (selection: Self)
        ensures
            selection == default.current,
    {
        default.current
    }

    /// The names of the strategies, in the order of their declaration.
    pub fn variants() -> (names: Vec<&'static str>)
        ensures
            names_view(names@) == variant_names(),
    {
        let names: Vec<&'static str> = vec!["FontConfig", "FontLoader", "FontKit", "ConfigDirsOnly"];
        assert(names_view(names@) =~= variant_names());
        names
    }

    /// Whether the strategy's locator is available on `platform`.
    #[verifier::when_used_as_spec(spec_is_available_on)]
    pub fn is_available_on(self, platform: Platform) -> (yes: bool)
        ensures
            yes == self.spec_is_available_on(platform),
    {
        match self {
            FontLocatorSelection::FontConfig => platform == Platform::Unix,
            FontLocatorSelection::FontLoader => platform == Platform::MacOs || platform
                == Platform::Windows,
            FontLocatorSelection::FontKit => platform == Platform::MacOs || platform
                == Platform::Windows,
            FontLocatorSelection::ConfigDirsOnly => true,
        }
    }

    /// The locator of the strategy on `platform`: its own where the
    /// platform has it, and where not, the one that finds nothing.
    pub fn new_locator(self, platform: Platform) -> (locator: Locator)
        ensures
            locator == self.spec_locator_on(platform),
    {
        if !self.is_available_on(platform) {
            return Locator::ConfigDirsOnly(NopSystemSource {  });
        }
        match self {
            FontLocatorSelection::FontConfig => Locator::FontConfig,
            FontLocatorSelection::FontLoader => Locator::FontLoader,
            FontLocatorSelection::FontKit => Locator::FontKit,
            FontLocatorSelection::ConfigDirsOnly => Locator::ConfigDirsOnly(NopSystemSource {  }),
        }
    }

    /// The strategy that `lowered` names, where `lowered` is the lower-case
    /// form of `given`; where it names none, an error that keeps `given`
    /// and lists the names of all strategies.
    pub fn from_lowercase(lowered: &str, given: &str) -> (result: Result<Self, LocatorError>)
        ensures
            parse_view(result) == parsed(lowered@, given@),
    {
        if same_text(lowered, "fontconfig") {
            Ok(FontLocatorSelection::FontConfig)
        } else if same_text(lowered, "fontloader") {
            Ok(FontLocatorSelection::FontLoader)
        } else if same_text(lowered, "fontkit") {
            Ok(FontLocatorSelection::FontKit)
        } else if same_text(lowered, "configdirsonly") {
            Ok(FontLocatorSelection::ConfigDirsOnly)
        } else {
            Err(LocatorError::UnknownVariant { name: given.to_owned(), possible: Self::variants() })
        }
    }

    /// Parses the name of a strategy, in any mix of upper and lower case.
    pub fn from_str(s: &str) -> (result: Result<Self, LocatorError>)
        ensures
            parse_view(result) == parsed(lowercase(s@), s@),
    {
        let lowered: String = to_lowercase(s);
        Self::from_lowercase(lowered.as_str(), s)
    }
}

} // verus!
