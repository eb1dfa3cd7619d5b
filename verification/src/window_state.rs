//! Where the position and size of the main window are kept.

use vstd::prelude::*;
use vstd::string::*;

verus! {

/// The name of the window state file: a development build keeps its own.
pub open spec fn window_state_file_name(is_dev: bool) -> Seq<char> {
    if is_dev {
        "dev."@ + "window-state.json"@
    } else {
        "window-state.json"@
    }
}

/// The name of the window state file.
pub fn get_window_state_file(is_dev: bool) -> (r: String)
    ensures
        r@ == window_state_file_name(is_dev),
{
    if is_dev {
        let mut name = "dev.".to_string();
        name.append("window-state.json");
        name
    } else {
        "window-state.json".to_string()
    }
}

/// Where the window state file lives below the user's configuration
/// directory: in a directory named by the application's identifier.
pub fn get_window_state_app_path(identifier: &String, is_dev: bool) -> (r: String)
    ensures
        r@ == identifier@ + "/"@ + window_state_file_name(is_dev),
{
    let mut path = identifier.clone();
    path.append("/");
    let file = get_window_state_file(is_dev);
    path.append(file.as_str());
    path
}

} // verus!
