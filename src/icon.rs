//! The order in which an icon is looked for.

use vstd::prelude::*;
use crate::entries::default_icon;

verus! {

/// One way of getting an icon.
#[derive(Debug, Clone)]
pub enum IconSource {
    /// Load the file at this path.
    ByPath(String),
    /// Look the name up in the icon theme.
    ByThemeName(String),
    /// Look up `applications-other` in the icon theme.
    ByThemeFallbackName,
    /// Make a blank, transparent bitmap; this cannot fail.
    Synthesized,
}

/// One attempt at an icon of `size` by `size` pixels.
#[derive(Debug, Clone)]
pub struct IconRequest {
    pub source: IconSource,
    pub size: i32,
}

impl IconSource {
    /// The name to look up in the icon theme, for the two theme lookups.
    pub fn theme_name(&self) -> (r: Option<String>)
        ensures
            match self {
                IconSource::ByThemeName(n) => r matches Some(t) && t@ == n@,
                IconSource::ByThemeFallbackName => r matches Some(t) && t@ == default_icon(),
                _ => r is None,
            },
    {
        match self {
            IconSource::ByThemeName(n) => Some(n.clone()),
            IconSource::ByThemeFallbackName => {
                proof {
                    reveal_strlit("applications-other");
                    assert("applications-other"@ =~= default_icon());
                }
                Some("applications-other".to_owned())
            },
            _ => None,
        }
    }
}

/// The attempts for the icon `icon_name`, to be made in order until one
/// succeeds: the name as a file path, the name in the icon theme,
/// `applications-other` in the icon theme, and last a blank bitmap, which
/// always succeeds. Each asks for `size` by `size` pixels.
pub fn icon_chain(icon_name: &str, size: i32) -> (r: Vec<IconRequest>)
    requires
        size > 0,
    ensures
        r.len() == 4,
        forall|i: int| 0 <= i < r.len() ==> (#[trigger] r@[i]).size == size,
        r@[0].source matches IconSource::ByPath(p) && p@ == icon_name@,
        r@[1].source matches IconSource::ByThemeName(n) && n@ == icon_name@,
        r@[2].source is ByThemeFallbackName,
        r@[3].source is Synthesized,
{
    let mut r: Vec<IconRequest> = Vec::new();
    r.push(IconRequest { source: IconSource::ByPath(icon_name.to_owned()), size });
    r.push(IconRequest { source: IconSource::ByThemeName(icon_name.to_owned()), size });
    r.push(IconRequest { source: IconSource::ByThemeFallbackName, size });
    r.push(IconRequest { source: IconSource::Synthesized, size });
    r
}

} // verus!
