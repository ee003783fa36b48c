//! The settings of the application, and the one way to change a single
//! setting: by its dotted key, with a value of the setting's type.

use vstd::prelude::*;
use crate::library::{Library, LibraryView, ROMCustomization};
use crate::paths::{join_paths, joined};
use crate::text::{same_text, string_views};

verus! {

/// Colours of the interface.
#[derive(Debug, PartialEq, Eq)]
pub struct ThemeSettings {
    pub primary_color: String,
    pub palette: String,
    pub use_oled_palette: bool,
}

/// What the navigation shows.
#[derive(Debug, PartialEq, Eq)]
pub struct NavigationSettings {
    pub landing_page: String,
    pub landscape_views: Vec<String>,
    pub portrait_views: Vec<String>,
}

/// Where metadata is kept.
#[derive(Debug, PartialEq, Eq)]
pub struct MetadataSettings {
    pub save_alongside_roms: bool,
}

/// Settings for accessibility.
#[derive(Debug, PartialEq, Eq)]
pub struct AccessibilitySettings {
    pub reduced_motion: bool,
}

/// All settings of the application.
#[derive(Debug, PartialEq, Eq)]
pub struct Settings {
    /// Marks the file as a settings file of this application.
    pub file_sig: String,
    /// Version of the application that wrote the settings.
    pub version: String,
    pub theme: ThemeSettings,
    pub navigation: NavigationSettings,
    pub metadata: MetadataSettings,
    pub accessibility: AccessibilitySettings,
    pub library: Library,
    pub rom_customizations: Vec<ROMCustomization>,
}

/// What [`Settings`] hold, as mathematical values. The customizations of ROMs
/// are carried as they are.
pub struct SettingsView {
    pub file_sig: Seq<char>,
    pub version: Seq<char>,
    pub primary_color: Seq<char>,
    pub palette: Seq<char>,
    pub use_oled_palette: bool,
    pub landing_page: Seq<char>,
    pub landscape_views: Seq<Seq<char>>,
    pub portrait_views: Seq<Seq<char>>,
    pub save_alongside_roms: bool,
    pub reduced_motion: bool,
    pub library: LibraryView,
    pub rom_customizations: Seq<ROMCustomization>,
}

impl View for Settings {
    type V = SettingsView;

    open spec fn view(&self) -> SettingsView {
        SettingsView {
            file_sig: self.file_sig@,
            version: self.version@,
            primary_color: self.theme.primary_color@,
            palette: self.theme.palette@,
            use_oled_palette: self.theme.use_oled_palette,
            landing_page: self.navigation.landing_page@,
            landscape_views: string_views(self.navigation.landscape_views@),
            portrait_views: string_views(self.navigation.portrait_views@),
            save_alongside_roms: self.metadata.save_alongside_roms,
            reduced_motion: self.accessibility.reduced_motion,
            library: self.library@,
            rom_customizations: self.rom_customizations@,
        }
    }
}

/// The settings of a fresh installation of the given version.
pub open spec fn default_settings(version: Seq<char>) -> SettingsView {
    SettingsView {
        file_sig: "dev.travislane.nas-rom-manager"@,
        version,
        primary_color: "#a74bf2"@,
        palette: "Auto"@,
        use_oled_palette: false,
        landing_page: "library"@,
        landscape_views: seq![
            "Dashboard"@,
            "Library"@,
            "Systems"@,
            "Emulators"@,
            "Settings"@,
        ],
        portrait_views: seq!["Dashboard"@, "Library"@, "Search"@, "System"@, "Settings"@],
        save_alongside_roms: false,
        reduced_motion: false,
        library: LibraryView {
            library_path: ""@,
            rom_dir: "roms"@,
            emulator_dir: "emulators"@,
            bios_dir: "bios"@,
            dlc_dir: "dlc"@,
            update_dir: "updates"@,
        },
        rom_customizations: Seq::empty(),
    }
}

/// The settings of a fresh installation of the given version.
pub fn get_default_settings(version: &str) -> (s: Settings)
    ensures
        s@ == default_settings(version@),
{
    let mut landscape: Vec<String> = Vec::new();
    landscape.push(String::from_str("Dashboard"));
    landscape.push(String::from_str("Library"));
    landscape.push(String::from_str("Systems"));
    landscape.push(String::from_str("Emulators"));
    landscape.push(String::from_str("Settings"));
    let mut portrait: Vec<String> = Vec::new();
    portrait.push(String::from_str("Dashboard"));
    portrait.push(String::from_str("Library"));
    portrait.push(String::from_str("Search"));
    portrait.push(String::from_str("System"));
    portrait.push(String::from_str("Settings"));
    assert(string_views(landscape@) =~= default_settings(version@).landscape_views);
    assert(string_views(portrait@) =~= default_settings(version@).portrait_views);
    let customizations: Vec<ROMCustomization> = Vec::new();
    assert(customizations@ =~= Seq::<ROMCustomization>::empty());
    Settings {
        file_sig: String::from_str("dev.travislane.nas-rom-manager"),
        version: version.to_owned(),
        theme: ThemeSettings {
            primary_color: String::from_str("#a74bf2"),
            palette: String::from_str("Auto"),
            use_oled_palette: false,
        },
        navigation: NavigationSettings {
            landing_page: String::from_str("library"),
            landscape_views: landscape,
            portrait_views: portrait,
        },
        metadata: MetadataSettings { save_alongside_roms: false },
        accessibility: AccessibilitySettings { reduced_motion: false },
        library: Library {
            library_path: String::from_str(""),
            rom_dir: String::from_str("roms"),
            emulator_dir: String::from_str("emulators"),
            bios_dir: String::from_str("bios"),
            dlc_dir: String::from_str("dlc"),
            update_dir: String::from_str("updates"),
        },
        rom_customizations: customizations,
    }
}

/// Brings settings that were read from disk up to date: they take the version
/// of the defaults and keep everything else.
pub fn check_settings(settings: &mut Settings, defaults: &Settings)
    ensures
        final(settings)@ == (SettingsView { version: defaults.version@, ..old(settings)@ }),
{
    settings.version = defaults.version.clone();
}

/// Whether settings have been loaded: those of a fresh installation name no
/// library.
pub fn has_library_path(settings: &Settings) -> (r: bool)
    ensures
        r == (settings.library.library_path@.len() > 0),
{
    !settings.library.library_path.as_str().is_empty()
}

/// The file that holds the settings, in the directory `config_dir`.
pub fn settings_path(config_dir: &str) -> (r: String)
    ensures
        r@ == joined(config_dir@, "settings.json"@),
{
    join_paths(config_dir, "settings.json")
}

/// The file that holds the metadata of the ROMs, in the directory
/// `config_dir`.
pub fn metadata_path(config_dir: &str) -> (r: String)
    ensures
        r@ == joined(config_dir@, "metadata.json"@),
{
    join_paths(config_dir, "metadata.json")
}

/// What to do about a file of the configuration before it is read.
#[derive(Debug, PartialEq, Eq, Structural, Clone, Copy)]
pub enum FileStep {
    /// It could not be found out whether the file exists: report that, and go
    /// on with the defaults.
    ReportUnreadable,
    /// The file does not exist: write the defaults, and go on with them.
    WriteDefaults,
    /// The file exists: read it.
    Read,
}

/// Decides what to do about a file of the configuration, given whether it
/// exists; `None` says that this could not be found out.
pub fn default_if_missing(exists: Option<bool>) -> (r: FileStep)
    ensures
        r == (match exists {
            None => FileStep::ReportUnreadable,
            Some(false) => FileStep::WriteDefaults,
            Some(true) => FileStep::Read,
        }),
{
    match exists {
        None => FileStep::ReportUnreadable,
        Some(false) => FileStep::WriteDefaults,
        Some(true) => FileStep::Read,
    }
}

/// A value for one setting.
#[derive(Debug, PartialEq, Eq)]
pub enum SettingValue {
    Text(String),
    Flag(bool),
    List(Vec<String>),
}

/// What a [`SettingValue`] holds, as mathematical values.
pub enum SettingValueView {
    Text(Seq<char>),
    Flag(bool),
    List(Seq<Seq<char>>),
}

impl View for SettingValue {
    type V = SettingValueView;

    open spec fn view(&self) -> SettingValueView {
        match self {
            SettingValue::Text(t) => SettingValueView::Text(t@),
            SettingValue::Flag(b) => SettingValueView::Flag(*b),
            SettingValue::List(l) => SettingValueView::List(string_views(l@)),
        }
    }
}

/// Why a setting was not changed.
#[derive(Debug, PartialEq, Eq, Structural, Clone, Copy)]
pub enum SettingError {
    /// No setting has this key.
    UnknownKey,
    /// The setting does not take a value of this type.
    WrongType,
}

/// The settings that can be changed one by one.
#[derive(Debug, PartialEq, Eq, Structural, Clone, Copy)]
pub enum SettingKey {
    PrimaryColor,
    Palette,
    UseOledPalette,
    LandingPage,
    LandscapeViews,
    PortraitViews,
    SaveAlongsideRoms,
    ReducedMotion,
    LibraryPath,
    RomDir,
    EmulatorDir,
    BiosDir,
    DlcDir,
    UpdateDir,
}

/// The setting with the dotted key `key`.
pub open spec fn key_of(key: Seq<char>) -> Option<SettingKey> {
    if key == "theme.primaryColor"@ {
        Some(SettingKey::PrimaryColor)
    } else if key == "theme.palette"@ {
        Some(SettingKey::Palette)
    } else if key == "theme.useOledPalette"@ {
        Some(SettingKey::UseOledPalette)
    } else if key == "navigation.landingPage"@ {
        Some(SettingKey::LandingPage)
    } else if key == "navigation.landscapeViews"@ {
        Some(SettingKey::LandscapeViews)
    } else if key == "navigation.portraitViews"@ {
        Some(SettingKey::PortraitViews)
    } else if key == "metadata.saveAlongsideROMs"@ {
        Some(SettingKey::SaveAlongsideRoms)
    } else if key == "accessibility.reducedMotion"@ {
        Some(SettingKey::ReducedMotion)
    } else if key == "library.libraryPath"@ {
        Some(SettingKey::LibraryPath)
    } else if key == "library.romDir"@ {
        Some(SettingKey::RomDir)
    } else if key == "library.emulatorDir"@ {
        Some(SettingKey::EmulatorDir)
    } else if key == "library.biosDir"@ {
        Some(SettingKey::BiosDir)
    } else if key == "library.dlcDir"@ {
        Some(SettingKey::DlcDir)
    } else if key == "library.updateDir"@ {
        Some(SettingKey::UpdateDir)
    } else {
        None
    }
}

/// The settings after `key` was given `value`, or the reason why it cannot be.
pub open spec fn with_setting(s: SettingsView, key: SettingKey, value: SettingValueView) -> Result<
    SettingsView,
    SettingError,
> {
    match (key, value) {
        (SettingKey::PrimaryColor, SettingValueView::Text(t)) => Ok(
            SettingsView { primary_color: t, ..s },
        ),
        (SettingKey::Palette, SettingValueView::Text(t)) => Ok(SettingsView { palette: t, ..s }),
        (SettingKey::UseOledPalette, SettingValueView::Flag(b)) => Ok(
            SettingsView { use_oled_palette: b, ..s },
        ),
        (SettingKey::LandingPage, SettingValueView::Text(t)) => Ok(
            SettingsView { landing_page: t, ..s },
        ),
        (SettingKey::LandscapeViews, SettingValueView::List(l)) => Ok(
            SettingsView { landscape_views: l, ..s },
        ),
        (SettingKey::PortraitViews, SettingValueView::List(l)) => Ok(
            SettingsView { portrait_views: l, ..s },
        ),
        (SettingKey::SaveAlongsideRoms, SettingValueView::Flag(b)) => Ok(
            SettingsView { save_alongside_roms: b, ..s },
        ),
        (SettingKey::ReducedMotion, SettingValueView::Flag(b)) => Ok(
            SettingsView { reduced_motion: b, ..s },
        ),
        (SettingKey::LibraryPath, SettingValueView::Text(t)) => Ok(
            SettingsView { library: LibraryView { library_path: t, ..s.library }, ..s },
        ),
        (SettingKey::RomDir, SettingValueView::Text(t)) => Ok(
            SettingsView { library: LibraryView { rom_dir: t, ..s.library }, ..s },
        ),
        (SettingKey::EmulatorDir, SettingValueView::Text(t)) => Ok(
            SettingsView { library: LibraryView { emulator_dir: t, ..s.library }, ..s },
        ),
        (SettingKey::BiosDir, SettingValueView::Text(t)) => Ok(
            SettingsView { library: LibraryView { bios_dir: t, ..s.library }, ..s },
        ),
        (SettingKey::DlcDir, SettingValueView::Text(t)) => Ok(
            SettingsView { library: LibraryView { dlc_dir: t, ..s.library }, ..s },
        ),
        (SettingKey::UpdateDir, SettingValueView::Text(t)) => Ok(
            SettingsView { library: LibraryView { update_dir: t, ..s.library }, ..s },
        ),
        _ => Err(SettingError::WrongType),
    }
}

/// The settings after the setting with the dotted key `key` was given
/// `value`, or the reason why it cannot be.
pub open spec fn setting_applied(
    s: SettingsView,
    key: Seq<char>,
    value: SettingValueView,
) -> Result<SettingsView, SettingError> {
    match key_of(key) {
        None => Err(SettingError::UnknownKey),
        Some(k) => with_setting(s, k, value),
    }
}

/// The setting with the dotted key `key`.
pub fn parse_key(key: &str) -> (r: Option<SettingKey>)
    ensures
        r == key_of(key@),
{
    if same_text(key, "theme.primaryColor") {
        Some(SettingKey::PrimaryColor)
    } else if same_text(key, "theme.palette") {
        Some(SettingKey::Palette)
    } else if same_text(key, "theme.useOledPalette") {
        Some(SettingKey::UseOledPalette)
    } else if same_text(key, "navigation.landingPage") {
        Some(SettingKey::LandingPage)
    } else if same_text(key, "navigation.landscapeViews") {
        Some(SettingKey::LandscapeViews)
    } else if same_text(key, "navigation.portraitViews") {
        Some(SettingKey::PortraitViews)
    } else if same_text(key, "metadata.saveAlongsideROMs") {
        Some(SettingKey::SaveAlongsideRoms)
    } else if same_text(key, "accessibility.reducedMotion") {
        Some(SettingKey::ReducedMotion)
    } else if same_text(key, "library.libraryPath") {
        Some(SettingKey::LibraryPath)
    } else if same_text(key, "library.romDir") {
        Some(SettingKey::RomDir)
    } else if same_text(key, "library.emulatorDir") {
        Some(SettingKey::EmulatorDir)
    } else if same_text(key, "library.biosDir") {
        Some(SettingKey::BiosDir)
    } else if same_text(key, "library.dlcDir") {
        Some(SettingKey::DlcDir)
    } else if same_text(key, "library.updateDir") {
        Some(SettingKey::UpdateDir)
    } else {
        None
    }
}

/// Gives the setting with the dotted key `key` the value `value`. An unknown
/// key or a value of the wrong type changes nothing.
pub fn set_setting(settings: &mut Settings, key: &str, value: SettingValue) -> (r: Result<
    (),
    SettingError,
>)
    ensures
        match setting_applied(old(settings)@, key@, value@) {
            Ok(expected) => r is Ok && final(settings)@ == expected,
            Err(e) => r == Err::<(), SettingError>(e) && final(settings)@ == old(settings)@,
        },
{
    let k = match parse_key(key) {
        Some(k) => k,
        None => {
            return Err(SettingError::UnknownKey);
        },
    };
    match (k, value) {
        (SettingKey::PrimaryColor, SettingValue::Text(t)) => {
            settings.theme.primary_color = t;
        },
        (SettingKey::Palette, SettingValue::Text(t)) => {
            settings.theme.palette = t;
        },
        (SettingKey::UseOledPalette, SettingValue::Flag(b)) => {
            settings.theme.use_oled_palette = b;
        },
        (SettingKey::LandingPage, SettingValue::Text(t)) => {
            settings.navigation.landing_page = t;
        },
        (SettingKey::LandscapeViews, SettingValue::List(l)) => {
            settings.navigation.landscape_views = l;
        },
        (SettingKey::PortraitViews, SettingValue::List(l)) => {
            settings.navigation.portrait_views = l;
        },
        (SettingKey::SaveAlongsideRoms, SettingValue::Flag(b)) => {
            settings.metadata.save_alongside_roms = b;
        },
        (SettingKey::ReducedMotion, SettingValue::Flag(b)) => {
            settings.accessibility.reduced_motion = b;
        },
        (SettingKey::LibraryPath, SettingValue::Text(t)) => {
            settings.library.library_path = t;
        },
        (SettingKey::RomDir, SettingValue::Text(t)) => {
            settings.library.rom_dir = t;
        },
        (SettingKey::EmulatorDir, SettingValue::Text(t)) => {
            settings.library.emulator_dir = t;
        },
        (SettingKey::BiosDir, SettingValue::Text(t)) => {
            settings.library.bios_dir = t;
        },
        (SettingKey::DlcDir, SettingValue::Text(t)) => {
            settings.library.dlc_dir = t;
        },
        (SettingKey::UpdateDir, SettingValue::Text(t)) => {
            settings.library.update_dir = t;
        },
        _ => {
            return Err(SettingError::WrongType);
        },
    }
    Ok(())
}

} // verus!
