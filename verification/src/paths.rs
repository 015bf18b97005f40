//! Where the configuration and the slider icons live.
use vstd::prelude::*;
use crate::text::{chars_of, trim, trimmed};

verus! {

/// `base` joined with `part` as `PathBuf::push` documents it: an absolute
/// `part` replaces `base`; otherwise a separator is put between them unless
/// `base` is empty or already ends in one.
pub open spec fn spec_path_join(base: Seq<char>, part: Seq<char>) -> Seq<char> {
    if part.len() > 0 && part[0] == '/' {
        part
    } else if base.len() == 0 || base.last() == '/' {
        base + part
    } else {
        base + "/"@ + part
    }
}

/// Joins a path component onto a path.
pub fn path_join(base: &str, part: &str) -> (r: String)
    ensures
        r@ == spec_path_join(base@, part@),
{
    let p = chars_of(part);
    let b = chars_of(base);
    if p.len() > 0 && p[0] == '/' {
        return part.to_owned();
    }
    let mut r = String::from_str(base);
    if b.len() == 0 || b[b.len() - 1] == '/' {
        r.append(part);
    } else {
        r.append("/");
        r.append(part);
    }
    r
}

/// The user's configuration directory: "ktouchbar" under the XDG config
/// home when HOME is set, else "/etc/ktouchbar".
pub fn user_config_dir(home_is_set: bool, xdg_config_home: &str) -> (r: String)
    ensures
        home_is_set ==> r@ == spec_path_join(xdg_config_home@, "ktouchbar"@),
        !home_is_set ==> r@ == "/etc/ktouchbar"@,
{
    if home_is_set {
        path_join(xdg_config_home, "ktouchbar")
    } else {
        "/etc/ktouchbar".to_owned()
    }
}

/// The directory of the user's slider icons: "icons" in the configuration directory.
pub fn slider_icons_dir(config_dir: &str) -> (r: String)
    ensures
        r@ == spec_path_join(config_dir@, "icons"@),
{
    path_join(config_dir, "icons")
}

/// The directory of the user's configuration files: "configs" in the configuration directory.
pub fn user_configs_dir(config_dir: &str) -> (r: String)
    ensures
        r@ == spec_path_join(config_dir@, "configs"@),
{
    path_join(config_dir, "configs")
}

/// Where a slider's image is: an absolute path as given, else relative to
/// the slider icon directory.
pub fn slider_icon_path(icons_dir: &str, name: &str) -> (r: String)
    ensures
        r@ == spec_path_join(icons_dir@, name@),
{
    path_join(icons_dir, name)
}

/// The session bus socket of the user whose id `id -u` printed:
/// "/run/user/<uid>/bus", with the output trimmed.
pub fn session_bus_socket(id_output: &str) -> (r: String)
    ensures
        r@ == "/run/user/"@ + trim(id_output@) + "/bus"@,
{
    let uid = trimmed(id_output);
    let mut r = String::from_str("/run/user/");
    r.append(uid.as_str());
    r.append("/bus");
    r
}

/// The D-Bus address of a socket: "unix:path=" and the socket's path.
pub fn unix_bus_address(path: &str) -> (r: String)
    ensures
        r@ == "unix:path="@ + path@,
{
    let mut r = String::from_str("unix:path=");
    r.append(path);
    r
}

} // verus!
