use vstd::prelude::*;

verus! {

/// The components of the directory under which per-user data lives, on
/// systems other than Windows and macOS: `xdg_data_home` when it is set, else
/// `.local/share` under `home` when that is known, else the current
/// directory.
pub fn data_home_components(xdg_data_home: Option<String>, home: Option<String>) -> (r: Vec<String>)
    ensures
        match xdg_data_home {
            Some(x) => r@.len() == 1 && r@[0]@ == x@,
            None => match home {
                Some(h) => r@.len() == 3 && r@[0]@ == h@ && r@[1]@ == ".local"@ && r@[2]@ == "share"@,
                None => r@.len() == 1 && r@[0]@ == "."@,
            },
        },
{
    let mut parts: Vec<String> = Vec::new();
    match xdg_data_home {
        Some(x) => parts.push(x),
        None => match home {
            Some(h) => {
                parts.push(h);
                parts.push(String::from_str(".local"));
                parts.push(String::from_str("share"));
            },
            None => parts.push(String::from_str(".")),
        },
    }
    parts
}

} // verus!
