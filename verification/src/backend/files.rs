//! Where files are saved.

use vstd::prelude::*;

use crate::cache::{safe_name, safe_name_of};
use crate::compose::{join_path, path_join};

verus! {

/// The directory for saved attachments: the one for downloads, or else one in the
/// home directory, or else one in the directory for temporary files.
pub open spec fn downloads(
    download_dir: Option<Seq<char>>,
    home: Option<Seq<char>>,
    temp_dir: Seq<char>,
) -> Seq<char> {
    match download_dir {
        Some(d) => d,
        None => path_join(
            match home {
                Some(h) => h,
                None => temp_dir,
            },
            "Downloads"@,
        ),
    }
}

/// The directory for saved attachments.
pub fn download_dir(configured: Option<String>, home: Option<String>, temp_dir: &str) -> (r:
    String)
    ensures
        r@ == downloads(configured.deep_view(), home.deep_view(), temp_dir@),
{
    match configured {
        Some(d) => d,
        None => match home {
            Some(h) => join_path(h.as_str(), "Downloads"),
            None => join_path(temp_dir, "Downloads"),
        },
    }
}

/// The file that an attachment is saved in: its name with no part of a path in it.
pub fn download_path(dir: &str, name: &str) -> (r: String)
    ensures
        r@ == path_join(dir@, safe_name(name@)),
{
    join_path(dir, safe_name_of(name).as_str())
}

} // verus!
