//! The operating system the app runs on, where behaviour differs by platform.
use vstd::prelude::*;

verus! {

/// The platform the app was built for.
#[derive(PartialEq, Eq, Structural, Clone, Copy, Debug)]
pub enum Platform {
    Windows,
    MacOs,
    /// Linux and every other platform.
    Other,
}

/// The file name of the `adb` executable.
pub fn adb_binary_name(platform: Platform) -> (r: &'static str)
    ensures
        r@ == (if platform == Platform::Windows {
            "adb.exe"@
        } else {
            "adb"@
        }),
{
    if platform == Platform::Windows {
        "adb.exe"
    } else {
        "adb"
    }
}

/// The file name of the `scrcpy` executable.
pub fn scrcpy_binary_name(platform: Platform) -> (r: &'static str)
    ensures
        r@ == (if platform == Platform::Windows {
            "scrcpy.exe"@
        } else {
            "scrcpy"@
        }),
{
    if platform == Platform::Windows {
        "scrcpy.exe"
    } else {
        "scrcpy"
    }
}

/// The character that separates directories in the `PATH` variable.
pub fn path_separator(platform: Platform) -> (r: char)
    ensures
        r == (if platform == Platform::Windows {
            ';'
        } else {
            ':'
        }),
{
    if platform == Platform::Windows {
        ';'
    } else {
        ':'
    }
}

} // verus!
