//! The clock application's settings and where its settings file lives.

use vstd::prelude::*;
use vstd::string::*;
use crate::web_server::WebConfig;

verus! {

/// One clock of the display.
#[derive(Debug)]
pub struct Clock {
    pub name: String,
    pub timezone: String,
    pub countdown: Option<String>,
    pub target: Option<String>,
}

/// A font size as the settings file may give it: a number, or a text with a unit.
#[derive(Debug)]
pub enum InFontSize {
    Int(i32),
    Str(String),
}

/// The settings of the application.
#[derive(Debug)]
pub struct AppConfig {
    pub clocks: Vec<Clock>,
    pub font: String,
    pub size: InFontSize,
    pub color: String,
    pub format: String,
    pub format2: Option<String>,
    pub locale: String,
    pub forefront: bool,
    pub margin: String,
    pub timer_icon: String,
    pub without_notification: bool,
    pub max_timer_clock_number: i32,
    pub epoch_clock_name: String,
    pub usetz: bool,
    pub convtz: String,
    pub disable_hover: bool,
    pub web: Option<WebConfig>,
}

/// What the running application knows about itself.
pub struct ContextConfig {
    pub app_identifier: String,
}

/// The name of a clock that the settings do not name.
pub fn df_name() -> (r: String)
    ensures
        r@ == "UTC"@,
{
    "UTC".to_string()
}

/// The time zone of a clock that the settings give none.
pub fn df_timezone() -> (r: String)
    ensures
        r@ == "UTC"@,
{
    "UTC".to_string()
}

/// The clocks of settings that list none: one clock, named UTC, in UTC,
/// with no countdown and no target.
pub fn df_clocks() -> (r: Vec<Clock>)
    ensures
        r@.len() == 1,
        r@[0].name@ == "UTC"@,
        r@[0].timezone@ == "UTC"@,
        r@[0].countdown is None,
        r@[0].target is None,
{
    let mut cls: Vec<Clock> = Vec::new();
    cls.push(Clock { name: df_name(), timezone: df_timezone(), countdown: None, target: None });
    cls
}

pub fn df_font() -> (r: String)
    ensures
        r@ == "Courier, monospace"@,
{
    "Courier, monospace".to_string()
}

pub fn df_size() -> (r: InFontSize)
    ensures
        r == InFontSize::Int(14),
{
    InFontSize::Int(14)
}

pub fn df_color() -> (r: String)
    ensures
        r@ == "#fff"@,
{
    "#fff".to_string()
}

pub fn df_format() -> (r: String)
    ensures
        r@ == "MM-DD ddd HH:mm"@,
{
    "MM-DD ddd HH:mm".to_string()
}

pub fn df_locale() -> (r: String)
    ensures
        r@ == "en"@,
{
    "en".to_string()
}

pub fn df_margin() -> (r: String)
    ensures
        r@ == "1.65em"@,
{
    "1.65em".to_string()
}

pub fn df_timer_icon() -> (r: String)
    ensures
        r@ == "\u{29D6} "@,
{
    "\u{29D6} ".to_string()
}

pub fn df_max_timer_clock_number() -> (r: i32)
    ensures
        r == 5,
{
    5
}

pub fn df_epoch_clock_name() -> (r: String)
    ensures
        r@ == "Epoch"@,
{
    "Epoch".to_string()
}

pub fn df_disable_hover() -> (r: bool)
    ensures
        r,
{
    true
}

/// The name of the settings file: a development build keeps its own.
pub open spec fn config_file_name(is_dev: bool) -> Seq<char> {
    if is_dev {
        "dev."@ + "config.json"@
    } else {
        "config.json"@
    }
}

/// The name of the settings file.
pub fn get_config_file(is_dev: bool) -> (r: String)
    ensures
        r@ == config_file_name(is_dev),
{
    if is_dev {
        let mut name = "dev.".to_string();
        name.append("config.json");
        name
    } else {
        "config.json".to_string()
    }
}

/// The directory that earlier versions kept the settings file in.
pub open spec fn old_config_dir(is_dev: bool) -> Seq<char> {
    if is_dev {
        "mclocks.dev"@
    } else {
        "mclocks"@
    }
}

/// Where earlier versions kept the settings file, below the user's
/// configuration directory.
pub fn get_old_config_app_path(is_dev: bool) -> (r: String)
    ensures
        r@ == old_config_dir(is_dev) + "/"@ + config_file_name(is_dev),
{
    let mut path = if is_dev {
        "mclocks.dev".to_string()
    } else {
        "mclocks".to_string()
    };
    path.append("/");
    let file = get_config_file(is_dev);
    path.append(file.as_str());
    path
}

/// Where the settings file lives below the user's configuration directory:
/// in a directory named by the application's identifier.
pub fn get_config_app_path(identifier: &String, is_dev: bool) -> (r: String)
    ensures
        r@ == identifier@ + "/"@ + config_file_name(is_dev),
{
    let mut path = identifier.clone();
    path.append("/");
    let file = get_config_file(is_dev);
    path.append(file.as_str());
    path
}

} // verus!
