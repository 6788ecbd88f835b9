use vstd::prelude::*;

verus! {

/// Registry key, under the class key, that names the DLL serving the input
/// method.
pub const INPROC_SERVER_KEY: &'static str = "InprocServer32";
/// Registry value that holds the COM threading model of the server.
pub const THREADING_MODEL_VALUE: &'static str = "ThreadingModel";
/// The threading model the input method registers.
pub const APARTMENT_THREADING: &'static str = "Apartment";
/// Registry key, under the current user, that holds the theme settings.
pub const PERSONALIZE_KEY: &'static str = "Software\\Microsoft\\Windows\\CurrentVersion\\Themes\\Personalize";
/// Registry value that is 1 when the taskbar uses the light theme.
pub const LIGHT_THEME_VALUE: &'static str = "SystemUsesLightTheme";

/// Name of the file, beside the input method's DLL, that names the preferred
/// keyboard layout family.
pub const LAYOUT_FILE_NAME: &'static str = ".layout";

/// The registry path of the class key of a COM server, given the text form
/// of its class id.
pub open spec fn spec_clsid_key_path(clsid: Seq<char>) -> Seq<char> {
    "SOFTWARE\\Classes\\CLSID\\{"@ + clsid + "}"@
}

/// The registry path under `HKEY_LOCAL_MACHINE` where the input method's
/// COM server is registered and unregistered: the class id between braces
/// under `SOFTWARE\Classes\CLSID`.
pub fn clsid_key_path(clsid: &str) -> (r: String)
    ensures
        r@ == spec_clsid_key_path(clsid@),
{
    let mut path = String::from_str("SOFTWARE\\Classes\\CLSID\\{");
    path.append(clsid);
    path.append("}");
    path
}

/// Which of the two tray icons the language profile shows.
#[derive(Clone, Copy, Debug, PartialEq, Eq, Structural)]
pub enum TrayIcon {
    /// The icon drawn for a light taskbar.
    Light,
    /// The icon drawn for a dark taskbar.
    Dark,
}

/// The tray icon for the theme setting read from the registry (`None` where
/// the key or the value could not be read): the light one unless the value
/// was read and is not 1.
pub fn tray_icon_for_theme(system_uses_light_theme: Option<u32>) -> (r: TrayIcon)
    ensures
        r == (match system_uses_light_theme {
            Some(v) => if v == 1 { TrayIcon::Light } else { TrayIcon::Dark },
            None => TrayIcon::Light,
        }),
{
    match system_uses_light_theme {
        Some(v) => if v == 1 {
            TrayIcon::Light
        } else {
            TrayIcon::Dark
        },
        None => TrayIcon::Light,
    }
}

} // verus!
