use crate::text::{decimal, push_char, push_decimal, push_text, same_text};
use crate::tools::errors::ToolError;
use crate::types::ThemeMode;
use vstd::prelude::*;
use vstd::string::*;

verus! {

/// Which setting is asked for: `theme`, `font_size` or `all`.
#[derive(Clone, Debug, PartialEq, Eq)]
pub struct GetSettingArgs {
    pub setting: String,
}

/// The tool that reports the settings of the application, as they stood
/// when it was made.
#[derive(Clone, Copy, Debug, PartialEq, Eq, Structural)]
pub struct GetSettingTool {
    pub theme: ThemeMode,
    pub base_font_px: i32,
}

/// What the tool reports.
#[derive(Clone, Debug, PartialEq, Eq)]
pub enum SettingValue {
    Theme(String),
    FontSize(String),
    All { theme: String, font_size: String },
}

/// The name of a colour scheme.
pub open spec fn theme_name(theme: ThemeMode) -> Seq<char> {
    match theme {
        ThemeMode::Dark => "Dark"@,
        ThemeMode::Light => "Light"@,
        ThemeMode::Octane => "Octane"@,
    }
}

/// A whole number in decimal, with `-` in front where it is negative.
pub open spec fn signed_decimal(n: int) -> Seq<char> {
    if n < 0 {
        seq!['-'] + decimal((-n) as nat)
    } else {
        decimal(n as nat)
    }
}

/// A font size as it is reported: the number of pixels, then `px`.
pub open spec fn font_size_text(px: i32) -> Seq<char> {
    signed_decimal(px as int) + "px"@
}

/// The detail of the error for a setting that the tool does not know.
pub open spec fn unknown_setting_text(setting: Seq<char>) -> Seq<char> {
    "Unknown setting: '"@ + setting + "'. Valid options: 'theme', 'font_size', 'all'"@
}

/// What the tool reports as a mathematical value.
pub enum SettingModel {
    Theme(Seq<char>),
    FontSize(Seq<char>),
    All { theme: Seq<char>, font_size: Seq<char> },
}

impl SettingValue {
    pub open spec fn view(&self) -> SettingModel {
        match self {
            SettingValue::Theme(name) => SettingModel::Theme(name@),
            SettingValue::FontSize(size) => SettingModel::FontSize(size@),
            SettingValue::All { theme, font_size } => SettingModel::All {
                theme: theme@,
                font_size: font_size@,
            },
        }
    }
}

/// The name of a colour scheme.
pub fn theme_name_of(theme: ThemeMode) -> (name: String)
    ensures
        name@ == theme_name(theme),
{
    match theme {
        ThemeMode::Dark => String::from_str("Dark"),
        ThemeMode::Light => String::from_str("Light"),
        ThemeMode::Octane => String::from_str("Octane"),
    }
}

/// A font size as it is reported.
pub fn font_size_of(px: i32) -> (text: String)
    ensures
        text@ == font_size_text(px),
{
    let mut text = String::new();
    if px < 0 {
        push_char(&mut text, '-');
        let magnitude: u64 = (-(px as i64)) as u64;
        push_decimal(&mut text, magnitude);
        assert(text@ =~= signed_decimal(px as int));
    } else {
        push_decimal(&mut text, px as u64);
        assert(text@ =~= signed_decimal(px as int));
    }
    push_text(&mut text, "px");
    text
}

impl GetSettingTool {
    pub fn new(theme: ThemeMode, base_font_px: i32) -> (tool: GetSettingTool)
        ensures
            tool.theme == theme,
            tool.base_font_px == base_font_px,
    {
        GetSettingTool { theme, base_font_px }
    }

    /// What the tool reports for the setting `setting`, if it knows it.
    pub open spec fn value_of(&self, setting: Seq<char>) -> Option<SettingModel> {
        if setting == "theme"@ {
            Some(SettingModel::Theme(theme_name(self.theme)))
        } else if setting == "font_size"@ {
            Some(SettingModel::FontSize(font_size_text(self.base_font_px)))
        } else if setting == "all"@ {
            Some(
                SettingModel::All {
                    theme: theme_name(self.theme),
                    font_size: font_size_text(self.base_font_px),
                },
            )
        } else {
            None
        }
    }

    /// Reports the setting that is asked for: the name of the colour scheme,
    /// the font size, or both. Any other setting is an error of invalid
    /// arguments that names the setting and the three that are known.
    pub fn get(&self, args: &GetSettingArgs) -> (result: Result<SettingValue, ToolError>)
        ensures
            match result {
                Ok(value) => self.value_of(args.setting@) == Some(value@),
                Err(error) => self.value_of(args.setting@) is None && error is InvalidArgs
                    && error.detail() == unknown_setting_text(args.setting@),
            },
    {
        let setting = args.setting.as_str();
        if same_text(setting, "theme") {
            Ok(SettingValue::Theme(theme_name_of(self.theme)))
        } else if same_text(setting, "font_size") {
            Ok(SettingValue::FontSize(font_size_of(self.base_font_px)))
        } else if same_text(setting, "all") {
            Ok(
                SettingValue::All {
                    theme: theme_name_of(self.theme),
                    font_size: font_size_of(self.base_font_px),
                },
            )
        } else {
            let mut detail = String::from_str("Unknown setting: '");
            push_text(&mut detail, setting);
            push_text(&mut detail, "'. Valid options: 'theme', 'font_size', 'all'");
            Err(ToolError::InvalidArgs(detail))
        }
    }
}

} // verus!
